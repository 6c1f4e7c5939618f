//! Metric extraction for Solace SEMP monitoring data: JSON documents are
//! flattened into InfluxDB points, tagged and timestamped.

pub mod json;
pub mod influx;
pub mod clock;
pub mod fields;
pub mod helpers;
pub mod tags;
pub mod data;
pub mod models;
pub mod metrics;
pub mod metric;
pub mod queue;
pub mod client_conn;
