//! Metrics that make a list of points per SEMP response.

use vstd::prelude::*;
use crate::data::Data;
use crate::fields::{
    array_accepted, array_doc_point, array_fields, fields_point, is_array_accepted,
    flattens_array, flattens_object, is_object_accepted, items_point, lemma_array_point_flattens,
    lemma_object_point_flattens, object_accepted, object_doc_point, object_fields,
};
use crate::json::{parse_json, parsed_json};
use crate::influx::{point_model, PointModel};
use crate::json::JsonValue;
use crate::models::{MsgVpnClientsResponse, MsgVpnQueueResponse, MsgVpnResponse};
use crate::tags::{distinct_tag_names, stamped};
use crate::queue::MsgVpnQueueReq;
use crate::client_conn::MsgVpnClientReq;
use influx_db_client::{Client as InfluxClient, Point};

verus! {

/// A kind of SEMP response that becomes a list of InfluxDB points, read
/// through the implementing type.
pub trait Metric<T>: Sized {
    /// The JSON documents that `make_fields` turns into a point.
    spec fn fields_accepted(data: JsonValue) -> bool;

    /// The point that `make_fields` makes of a JSON document.
    spec fn made_point(data: JsonValue, measurement_name: Seq<char>) -> PointModel;

    /// The responses that `extract_data` turns into points.
    spec fn extract_accepted(item: T) -> bool;

    /// The points that `extract_data` makes of a response.
    spec fn extracted(item: T) -> Seq<PointModel>;

    /// The responses on which `create_metric` returns.
    spec fn create_accepted(item: T) -> bool;

    /// The points of a response, each tagged with every tag of `tags` (a
    /// map's entries, so their names are distinct); every time a tag is set on
    /// a point, the point is stamped with the current time. `point` and
    /// `influxdb_client` are not used.
    fn create_metric(
        point: &str,
        item: &T,
        tags: Vec<(String, String)>,
        influxdb_client: &mut InfluxClient,
    ) -> (r: Vec<Point>)
        requires
            Self::create_accepted(*item),
            distinct_tag_names(tags@),
        ensures
            *final(influxdb_client) == *old(influxdb_client),
            r@.len() == Self::extracted(*item).len(),
            forall|j: int|
                0 <= j < r@.len() ==> stamped(
                    point_model(#[trigger] r@[j]),
                    Self::extracted(*item)[j],
                    tags@,
                ),
    ;

    /// The points of a response's data.
    fn extract_data(item: &T) -> (r: Vec<Point>)
        requires
            Self::extract_accepted(*item),
        ensures
            r@.len() == Self::extracted(*item).len(),
            forall|j: int|
                0 <= j < r@.len() ==> point_model(#[trigger] r@[j]) == Self::extracted(*item)[j],
    ;

    /// Whether `make_fields` turns a JSON document into a point.
    fn accepts_fields(data: &JsonValue) -> (r: bool)
        ensures
            r == Self::fields_accepted(*data),
    ;

    /// Parses `data` as JSON and makes fields off the document, descending
    /// one level where a member's value is an object.
    fn make_fields(&self, data: String, measurement_name: &str) -> (r: Result<
        Point,
        &'static str,
    >)
        requires
            parsed_json(data@) matches Some(d) && Self::fields_accepted(d),
        ensures
            parsed_json(data@) matches Some(d) && r matches Ok(p) && point_model(p)
                == Self::made_point(d, measurement_name@),
    ;
}

/// Parses `data` and, where it is JSON that `make_fields` accepts, makes its
/// point with `make_fields`; `None` otherwise.
pub fn make_fields_from_text<T, M: Metric<T>>(
    metric: &M,
    data: String,
    measurement_name: &str,
) -> (r: Option<Point>)
    ensures
        r is Some <==> (parsed_json(data@) matches Some(d) && M::fields_accepted(d)),
        r matches Some(p) ==> (parsed_json(data@) matches Some(d) && point_model(p)
            == M::made_point(d, measurement_name@)),
{
    match parse_json(data.as_str()) {
        Some(doc) => {
            if M::accepts_fields(&doc) {
                Some(metric.make_fields(data, measurement_name).unwrap())
            } else {
                None
            }
        },
        None => None,
    }
}

/// The one point that `extract_data` makes of a response whose data is an object.
pub open spec fn single_object_point(data: Option<JsonValue>, measurement_name: Seq<char>) -> Seq<
    PointModel,
> {
    seq![fields_point(measurement_name, object_fields(data->Some_0))]
}

impl Metric<MsgVpnResponse> for MsgVpnResponse {
    open spec fn fields_accepted(data: JsonValue) -> bool {
        object_accepted(data)
    }

    open spec fn made_point(data: JsonValue, measurement_name: Seq<char>) -> PointModel {
        fields_point(measurement_name, object_fields(data))
    }

    open spec fn extract_accepted(item: MsgVpnResponse) -> bool {
        item.data matches Some(d) && object_accepted(d)
    }

    open spec fn extracted(item: MsgVpnResponse) -> Seq<PointModel> {
        single_object_point(item.data, "message-vpn"@)
    }

    /// Not provided for this response: it never returns.
    open spec fn create_accepted(item: MsgVpnResponse) -> bool {
        false
    }

    fn create_metric(
        point: &str,
        item: &MsgVpnResponse,
        tags: Vec<(String, String)>,
        influxdb_client: &mut InfluxClient,
    ) -> (r: Vec<Point>) {
        Vec::new()
    }

    fn extract_data(item: &MsgVpnResponse) -> (r: Vec<Point>) {
        let data = item.data().unwrap();
        let p = object_doc_point(data, "message-vpn").unwrap();
        let r = vec![p];
        assert(r@ =~= seq![p]);
        r
    }

    fn accepts_fields(data: &JsonValue) -> (r: bool) {
        is_object_accepted(data)
    }

    fn make_fields(&self, data: String, measurement_name: &str) -> (r: Result<
        Point,
        &'static str,
    >) {
        let doc = parse_json(data.as_str()).unwrap();
        object_doc_point(&doc, measurement_name)
    }
}

impl Metric<MsgVpnQueueResponse> for MsgVpnQueueResponse {
    open spec fn fields_accepted(data: JsonValue) -> bool {
        object_accepted(data)
    }

    open spec fn made_point(data: JsonValue, measurement_name: Seq<char>) -> PointModel {
        fields_point(measurement_name, object_fields(data))
    }

    open spec fn extract_accepted(item: MsgVpnQueueResponse) -> bool {
        item.data matches Some(d) && object_accepted(d)
    }

    open spec fn extracted(item: MsgVpnQueueResponse) -> Seq<PointModel> {
        single_object_point(item.data, "message-vpn-queue"@)
    }

    /// Not provided for this response: it never returns.
    open spec fn create_accepted(item: MsgVpnQueueResponse) -> bool {
        false
    }

    fn create_metric(
        point: &str,
        item: &MsgVpnQueueResponse,
        tags: Vec<(String, String)>,
        influxdb_client: &mut InfluxClient,
    ) -> (r: Vec<Point>) {
        Vec::new()
    }

    fn extract_data(item: &MsgVpnQueueResponse) -> (r: Vec<Point>) {
        let data = item.data().unwrap();
        let p = object_doc_point(data, "message-vpn-queue").unwrap();
        let r = vec![p];
        assert(r@ =~= seq![p]);
        r
    }

    fn accepts_fields(data: &JsonValue) -> (r: bool) {
        is_object_accepted(data)
    }

    fn make_fields(&self, data: String, measurement_name: &str) -> (r: Result<
        Point,
        &'static str,
    >) {
        let doc = parse_json(data.as_str()).unwrap();
        object_doc_point(&doc, measurement_name)
    }
}

impl Metric<MsgVpnClientsResponse> for MsgVpnClientsResponse {
    /// An array of objects; the members of all of them go into one point.
    open spec fn fields_accepted(data: JsonValue) -> bool {
        array_accepted(data)
    }

    open spec fn made_point(data: JsonValue, measurement_name: Seq<char>) -> PointModel {
        fields_point(measurement_name, array_fields(data))
    }

    open spec fn extract_accepted(item: MsgVpnClientsResponse) -> bool {
        item.data matches Some(clients) && array_accepted(JsonValue::Array(clients))
    }

    /// The clients, as one JSON array, made into one point.
    open spec fn extracted(item: MsgVpnClientsResponse) -> Seq<PointModel> {
        seq![fields_point("client"@, array_fields(JsonValue::Array(item.data->Some_0)))]
    }

    /// Not provided for this response: it never returns.
    open spec fn create_accepted(item: MsgVpnClientsResponse) -> bool {
        false
    }

    fn create_metric(
        point: &str,
        item: &MsgVpnClientsResponse,
        tags: Vec<(String, String)>,
        influxdb_client: &mut InfluxClient,
    ) -> (r: Vec<Point>) {
        Vec::new()
    }

    fn extract_data(item: &MsgVpnClientsResponse) -> (r: Vec<Point>) {
        let mut points = Vec::new();
        let clients = item.data().unwrap();
        let p = items_point(clients, "client");
        points.push(p);
        assert(points@ =~= seq![p]);
        points
    }

    fn accepts_fields(data: &JsonValue) -> (r: bool) {
        is_array_accepted(data)
    }

    fn make_fields(&self, data: String, measurement_name: &str) -> (r: Result<
        Point,
        &'static str,
    >) {
        let doc = parse_json(data.as_str()).unwrap();
        array_doc_point(&doc, measurement_name)
    }
}

/// A list of one client document makes the same point, under the clients
/// response's `make_fields`, as that document under the VPN response's
/// `make_fields`, and is accepted exactly when the document is.
pub proof fn lemma_single_item_array_is_object(
    doc: JsonValue,
    items: Vec<JsonValue>,
    measurement_name: Seq<char>,
)
    requires
        items@ == seq![doc],
    ensures
        <MsgVpnClientsResponse as Metric<MsgVpnClientsResponse>>::fields_accepted(
            JsonValue::Array(items),
        ) == <MsgVpnResponse as Metric<MsgVpnResponse>>::fields_accepted(doc),
        <MsgVpnClientsResponse as Metric<MsgVpnClientsResponse>>::made_point(
            JsonValue::Array(items),
            measurement_name,
        ) == <MsgVpnResponse as Metric<MsgVpnResponse>>::made_point(doc, measurement_name),
{
    assert(items@.drop_last() =~= Seq::<JsonValue>::empty());
    assert(crate::fields::items_fields(items@.drop_last()) =~= Seq::<(Seq<char>, i64)>::empty());
    assert(items@.last() == doc);
    assert(crate::fields::items_fields(items@) =~= object_fields(doc));
    assert(crate::fields::items_accepted(items@) == object_accepted(doc)) by {
        if object_accepted(doc) {
            assert forall|i: int| 0 <= i < items@.len() implies object_accepted(
                #[trigger] items@[i],
            ) by {
                assert(items@[i] == doc);
            }
        }
        if crate::fields::items_accepted(items@) {
            assert(object_accepted(items@[0]));
        }
    }
}

/// Law: every `make_fields` that reads an object promises the point the
/// JSON describes (`flattens_object`), and accepts exactly the documents that
/// flatten as objects; the clients response's reads an array of objects and
/// promises the point `flattens_array` describes.
pub proof fn lemma_make_fields_flattens(d: JsonValue, m: Seq<char>)
    ensures
        flattens_object(<MsgVpnResponse as Metric<MsgVpnResponse>>::made_point(d, m), m, d),
        <MsgVpnResponse as Metric<MsgVpnResponse>>::fields_accepted(d) == object_accepted(d),
        flattens_object(
            <MsgVpnQueueResponse as Metric<MsgVpnQueueResponse>>::made_point(d, m),
            m,
            d,
        ),
        <MsgVpnQueueResponse as Metric<MsgVpnQueueResponse>>::fields_accepted(d)
            == object_accepted(d),
        flattens_object(<MsgVpnQueueReq as Metric<MsgVpnQueueResponse>>::made_point(d, m), m, d),
        <MsgVpnQueueReq as Metric<MsgVpnQueueResponse>>::fields_accepted(d) == object_accepted(d),
        flattens_object(
            <MsgVpnClientReq as Metric<MsgVpnClientsResponse>>::made_point(d, m),
            m,
            d,
        ),
        <MsgVpnClientReq as Metric<MsgVpnClientsResponse>>::fields_accepted(d)
            == object_accepted(d),
        flattens_array(
            <MsgVpnClientsResponse as Metric<MsgVpnClientsResponse>>::made_point(d, m),
            m,
            d,
        ),
        <MsgVpnClientsResponse as Metric<MsgVpnClientsResponse>>::fields_accepted(d)
            == array_accepted(d),
{
    lemma_object_point_flattens(d, m);
    lemma_array_point_flattens(d, m);
}

/// Law: `extract_data` makes of a response's data the points the JSON
/// describes: one point `message-vpn` or `message-vpn-queue` flattening the
/// VPN or queue object; for the clients response one point `client`
/// flattening all clients as an array; for the clients request one point
/// `client` per client, flattening that client's document as an array.
pub proof fn lemma_extract_data_flattens(
    vpn: MsgVpnResponse,
    queue: MsgVpnQueueResponse,
    clients: MsgVpnClientsResponse,
)
    ensures
        vpn.data matches Some(d) ==> ({
            let e = <MsgVpnResponse as Metric<MsgVpnResponse>>::extracted(vpn);
            e.len() == 1 && flattens_object(e[0], "message-vpn"@, d)
        }),
        queue.data matches Some(d) ==> ({
            let e = <MsgVpnQueueResponse as Metric<MsgVpnQueueResponse>>::extracted(queue);
            e.len() == 1 && flattens_object(e[0], "message-vpn-queue"@, d)
        }),
        queue.data matches Some(d) ==> ({
            let e = <MsgVpnQueueReq as Metric<MsgVpnQueueResponse>>::extracted(queue);
            e.len() == 1 && flattens_object(e[0], "message-vpn-queue"@, d)
        }),
        clients.data matches Some(cs) ==> ({
            let e = <MsgVpnClientsResponse as Metric<MsgVpnClientsResponse>>::extracted(clients);
            e.len() == 1 && flattens_array(e[0], "client"@, JsonValue::Array(cs))
        }),
        clients.data matches Some(cs) ==> ({
            let e = <MsgVpnClientReq as Metric<MsgVpnClientsResponse>>::extracted(clients);
            &&& e.len() == cs@.len()
            &&& forall|i: int| 0 <= i < cs@.len() ==> flattens_array(#[trigger] e[i], "client"@, cs@[i])
        }),
{
    if let Some(d) = vpn.data {
        lemma_object_point_flattens(d, "message-vpn"@);
    }
    if let Some(d) = queue.data {
        lemma_object_point_flattens(d, "message-vpn-queue"@);
    }
    if let Some(cs) = clients.data {
        lemma_array_point_flattens(JsonValue::Array(cs), "client"@);
        let e = <MsgVpnClientReq as Metric<MsgVpnClientsResponse>>::extracted(clients);
        assert forall|i: int| 0 <= i < cs@.len() implies flattens_array(#[trigger] e[i], "client"@, cs@[i]) by {
            lemma_array_point_flattens(cs@[i], "client"@);
        }
    }
}

} // verus!
