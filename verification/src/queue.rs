//! The queue metric of a message VPN.

use vstd::prelude::*;
use crate::data::Data;
use crate::fields::{fields_point, is_object_accepted, object_accepted, object_doc_point, object_fields};
use crate::influx::PointModel;
use crate::json::{parse_json, JsonValue};
use crate::metric::{single_object_point, Metric};
use crate::models::MsgVpnQueueResponse;
use crate::tags::tag_points;
use influx_db_client::{Client as InfluxClient, Point};

verus! {

/// A request for the monitoring data of one queue of a message VPN.
pub struct MsgVpnQueueReq {
    pub msg_vpn_name: String,
    pub queue_name: String,
    pub selectv: String,
}

impl Metric<MsgVpnQueueResponse> for MsgVpnQueueReq {
    /// An object whose members flatten, as the trait describes.
    open spec fn fields_accepted(data: JsonValue) -> bool {
        object_accepted(data)
    }

    open spec fn made_point(data: JsonValue, measurement_name: Seq<char>) -> PointModel {
        fields_point(measurement_name, object_fields(data))
    }

    open spec fn extract_accepted(item: MsgVpnQueueResponse) -> bool {
        item.data matches Some(d) && object_accepted(d)
    }

    open spec fn extracted(item: MsgVpnQueueResponse) -> Seq<PointModel> {
        single_object_point(item.data, "message-vpn-queue"@)
    }

    open spec fn create_accepted(item: MsgVpnQueueResponse) -> bool {
        Self::extract_accepted(item)
    }

    fn create_metric(
        point: &str,
        item: &MsgVpnQueueResponse,
        tags: Vec<(String, String)>,
        influxdb_client: &mut InfluxClient,
    ) -> (r: Vec<Point>) {
        let mut vpn_points = MsgVpnQueueReq::extract_data(item);
        tag_points(&mut vpn_points, &tags);
        vpn_points
    }

    fn extract_data(item: &MsgVpnQueueResponse) -> (r: Vec<Point>) {
        let data = item.data().unwrap();
        let p = object_doc_point(data, "message-vpn-queue").unwrap();
        let r = vec![p];
        assert(r@ =~= seq![p]);
        r
    }

    fn accepts_fields(data: &JsonValue) -> (r: bool) {
        is_object_accepted(data)
    }

    /// Flattens the object as the trait describes, as the VPN response does.
    fn make_fields(&self, data: String, measurement_name: &str) -> (r: Result<
        Point,
        &'static str,
    >) {
        let doc = parse_json(data.as_str()).unwrap();
        object_doc_point(&doc, measurement_name)
    }
}

} // verus!
