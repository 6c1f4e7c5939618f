//! Metrics that make one point per SEMP response.

use vstd::prelude::*;
use crate::clock::now_seconds;
use crate::data::Data;
use crate::fields::{
    fields_point, flattens_object, is_object_accepted, lemma_object_point_flattens,
    object_accepted, object_doc_point, object_fields,
};
use crate::influx::{point_model, PointModel};
use crate::json::{parse_json, parsed_json, JsonValue};
use crate::models::MsgVpnResponse;
use crate::tags::{distinct_tag_names, stamp_point, tagged};
use influx_db_client::{Client as InfluxClient, Point};

verus! {

/// A kind of SEMP response that becomes one InfluxDB point.
pub trait Metric<T>: Sized {
    /// The responses that `extract_data` turns into a point.
    spec fn extract_accepted(item: T) -> bool;

    /// The point that `extract_data` makes of a response.
    spec fn extracted(item: T) -> PointModel;

    /// The point of a response, tagged with `tags` (a map's entries, so
    /// their names are distinct) and stamped with the current time. `point`
    /// and `influxdb_client` are not used.
    fn create_metric(
        point: &str,
        item: &T,
        tags: Vec<(String, String)>,
        influxdb_client: &mut InfluxClient,
    ) -> (r: Point)
        requires
            Self::extract_accepted(*item),
            distinct_tag_names(tags@),
        ensures
            exists|t: i64|
                point_model(r) == #[trigger] tagged(Self::extracted(*item), tags@).with_timestamp(
                    t,
                ),
            *final(influxdb_client) == *old(influxdb_client),
    ;

    /// The point of a response's data.
    fn extract_data(item: &T) -> (r: Point)
        requires
            Self::extract_accepted(*item),
        ensures
            point_model(r) == Self::extracted(*item),
    ;

    /// Parses `data` as JSON, makes fields directly off the root of the
    /// object, and descends one level where a member's value is an object.
    fn make_fields(&self, data: String, measurement_name: &str) -> (r: Result<
        Point,
        &'static str,
    >)
        requires
            parsed_json(data@) matches Some(d) && object_accepted(d),
        ensures
            parsed_json(data@) matches Some(d) && r matches Ok(p) && point_model(p)
                == fields_point(measurement_name@, object_fields(d)),
    {
        let doc = parse_json(data.as_str()).unwrap();
        object_doc_point(&doc, measurement_name)
    }
}

/// Parses `data` and, where it is JSON for an object whose members flatten,
/// makes its point with `make_fields`; `None` otherwise.
pub fn make_fields_from_text<T, M: Metric<T>>(
    metric: &M,
    data: String,
    measurement_name: &str,
) -> (r: Option<Point>)
    ensures
        r is Some <==> (parsed_json(data@) matches Some(d) && object_accepted(d)),
        r matches Some(p) ==> (parsed_json(data@) matches Some(d) && point_model(p)
            == fields_point(measurement_name@, object_fields(d))),
{
    match parse_json(data.as_str()) {
        Some(doc) => {
            if is_object_accepted(&doc) {
                Some(metric.make_fields(data, measurement_name).unwrap())
            } else {
                None
            }
        },
        None => None,
    }
}

impl Metric<MsgVpnResponse> for MsgVpnResponse {
    open spec fn extract_accepted(item: MsgVpnResponse) -> bool {
        item.data matches Some(d) && object_accepted(d)
    }

    open spec fn extracted(item: MsgVpnResponse) -> PointModel {
        fields_point("message-vpn"@, object_fields(item.data->Some_0))
    }

    fn create_metric(
        point: &str,
        item: &MsgVpnResponse,
        tags: Vec<(String, String)>,
        influxdb_client: &mut InfluxClient,
    ) -> (r: Point) {
        let mut vpn_points = MsgVpnResponse::extract_data(item);
        let now = now_seconds();
        stamp_point(&mut vpn_points, &tags, now);
        vpn_points
    }

    /// The response's data is already a document, so it is flattened as
    /// `make_fields` flattens the text it parses.
    fn extract_data(item: &MsgVpnResponse) -> (r: Point) {
        let data = item.data().unwrap();
        object_doc_point(data, "message-vpn").unwrap()
    }
}

/// Law: the one point `extract_data` makes of a VPN response is the
/// `message-vpn` point its JSON describes (`flattens_object`), and that
/// `create_metric` tags and stamps; `make_fields` likewise promises the
/// point the parsed document describes.
pub proof fn lemma_vpn_point_flattens(vpn: MsgVpnResponse, d: JsonValue, m: Seq<char>)
    ensures
        vpn.data matches Some(vd) ==> flattens_object(
            <MsgVpnResponse as Metric<MsgVpnResponse>>::extracted(vpn),
            "message-vpn"@,
            vd,
        ),
        flattens_object(fields_point(m, object_fields(d)), m, d),
{
    if let Some(vd) = vpn.data {
        lemma_object_point_flattens(vd, "message-vpn"@);
    }
    lemma_object_point_flattens(d, m);
}

} // verus!
