//! The client metric of a message VPN.

use vstd::prelude::*;
use crate::data::Data;
use crate::fields::{
    array_accepted, array_doc_point, array_fields, fields_point, is_object_accepted,
    object_accepted, object_doc_point, object_fields,
};
use crate::influx::{point_model, PointModel};
use crate::json::{parse_json, JsonValue};
use crate::metric::Metric;
use crate::models::MsgVpnClientsResponse;
use crate::tags::tag_points;
use influx_db_client::{Client as InfluxClient, Point};

verus! {

/// A request for the monitoring data of the clients of a message VPN whose
/// name is `client_name`, a page of `count` at `cursor`.
pub struct MsgVpnClientReq {
    pub vpn_name: String,
    pub client_name: String,
    pub count: i32,
    pub cursor: String,
    pub selector: String,
}

/// The points made of a list of clients: one per client, whose own document
/// is flattened as an array of objects.
pub open spec fn client_points(clients: Seq<JsonValue>) -> Seq<PointModel> {
    Seq::new(clients.len(), |i: int| fields_point("client"@, array_fields(clients[i])))
}

impl Metric<MsgVpnClientsResponse> for MsgVpnClientReq {
    /// An object whose members flatten, as the trait describes.
    open spec fn fields_accepted(data: JsonValue) -> bool {
        object_accepted(data)
    }

    open spec fn made_point(data: JsonValue, measurement_name: Seq<char>) -> PointModel {
        fields_point(measurement_name, object_fields(data))
    }

    /// Each client's document is read by the response's `make_fields`, which
    /// reads an array of objects.
    open spec fn extract_accepted(item: MsgVpnClientsResponse) -> bool {
        item.data matches Some(clients) && forall|i: int|
            0 <= i < clients@.len() ==> array_accepted(#[trigger] clients@[i])
    }

    open spec fn extracted(item: MsgVpnClientsResponse) -> Seq<PointModel> {
        client_points(item.data->Some_0@)
    }

    open spec fn create_accepted(item: MsgVpnClientsResponse) -> bool {
        Self::extract_accepted(item)
    }

    fn create_metric(
        point: &str,
        item: &MsgVpnClientsResponse,
        tags: Vec<(String, String)>,
        influxdb_client: &mut InfluxClient,
    ) -> (r: Vec<Point>) {
        let mut vpn_points = MsgVpnClientReq::extract_data(item);
        tag_points(&mut vpn_points, &tags);
        vpn_points
    }

    fn extract_data(item: &MsgVpnClientsResponse) -> (r: Vec<Point>) {
        let mut vecp: Vec<Point> = Vec::new();
        let clients = item.data().unwrap();
        let mut i: usize = 0;
        while i < clients.len()
            invariant
                i <= clients@.len(),
                forall|k: int| 0 <= k < clients@.len() ==> array_accepted(#[trigger] clients@[k]),
                vecp@.len() == i,
                forall|k: int|
                    0 <= k < i ==> point_model(#[trigger] vecp@[k]) == client_points(clients@)[k],
            decreases clients.len() - i,
        {
            let p = array_doc_point(&clients[i], "client").unwrap();
            vecp.push(p);
            i = i + 1;
        }
        vecp
    }

    fn accepts_fields(data: &JsonValue) -> (r: bool) {
        is_object_accepted(data)
    }

    /// Flattens the object as the trait describes, as the VPN response does.
    fn make_fields(&self, data: String, measurement_name: &str) -> (r: Result<
        Point,
        &'static str,
    >) {
        let doc = parse_json(data.as_str()).unwrap();
        object_doc_point(&doc, measurement_name)
    }
}

} // verus!
