use influx_db_client::{Client, Point, Value};
use solace_monitor::client_conn::MsgVpnClientReq;
use solace_monitor::data::Data;
use solace_monitor::json::{JsonNumber, JsonValue};
use solace_monitor::metric::Metric as ListMetric;
use solace_monitor::metrics::Metric as PointMetric;
use solace_monitor::models::{MsgVpnClientsResponse, MsgVpnQueueResponse, MsgVpnResponse};
use solace_monitor::queue::MsgVpnQueueReq;
use solace_monitor::tags::{add_tags, has_distinct_tag_names, stamp_point, tag_point};
use solace_monitor::metric::make_fields_from_text as list_fields_from_text;
use solace_monitor::metrics::make_fields_from_text as point_fields_from_text;
use solace_monitor::json::parse_json;

fn num(n: i64) -> JsonValue {
    if n < 0 {
        JsonValue::Number(JsonNumber::NegInt(n))
    } else {
        JsonValue::Number(JsonNumber::PosInt(n as u64))
    }
}

fn obj(members: Vec<(&str, JsonValue)>) -> JsonValue {
    JsonValue::Object(members.into_iter().map(|(k, v)| (k.to_string(), v)).collect())
}

fn int_field(p: &Point, key: &str) -> Option<i64> {
    match p.fields.get(key) {
        Some(Value::Integer(i)) => Some(*i),
        _ => None,
    }
}

fn str_tag(p: &Point, key: &str) -> Option<String> {
    match p.tags.get(key) {
        Some(Value::String(s)) => Some(s.clone()),
        _ => None,
    }
}

fn vpn_doc() -> JsonValue {
    obj(vec![
        ("msgVpnName", JsonValue::String("default".to_string())),
        ("rxMsgCount", num(100)),
        ("rate", obj(vec![("rxMsgRate", num(5)), ("txMsgRate", num(6))])),
    ])
}

fn tags() -> Vec<(String, String)> {
    vec![("env".to_string(), "dev".to_string()), ("dc".to_string(), "eu".to_string())]
}

fn influx() -> Client {
    Client::new("http://localhost:8086", "test")
}

#[test]
fn data_gives_the_held_document() {
    let vpn = MsgVpnResponse { data: Some(num(3)) };
    assert!(matches!(vpn.data(), Some(JsonValue::Number(JsonNumber::PosInt(3)))));
    let none = MsgVpnResponse { data: None };
    assert!(none.data().is_none());
    let clients = MsgVpnClientsResponse { data: Some(vec![num(1), num(2)]) };
    assert_eq!(clients.data().map(|c| c.len()), Some(2));
}

struct Selfish(u8);

impl Data<Selfish> for Selfish {
    fn held(&self) -> Option<Selfish> {
        if self.0 > 0 { Some(Selfish(self.0)) } else { None }
    }

    fn data(&self) -> Option<&Selfish> {
        if self.0 > 0 { Some(self) } else { None }
    }
}

#[test]
fn data_through_a_reference_is_the_referents_data() {
    let s = Selfish(4);
    let r = &s;
    assert_eq!(Data::data(&r).map(|d| d.0), Some(4));
    let z = Selfish(0);
    let rz = &z;
    assert!(Data::data(&rz).is_none());
}

#[test]
fn point_metric_make_fields_flattens_object() {
    let vpn = MsgVpnResponse { data: None };
    let text = r#"{"msgVpnName":"default","rxMsgCount":100,"rate":{"rxMsgRate":5,"txMsgRate":6}}"#;
    let p = PointMetric::make_fields(&vpn, text.to_string(), "m").unwrap();
    assert_eq!(p.measurement, "m");
    assert_eq!(p.fields.len(), 3);
    assert_eq!(int_field(&p, "rxMsgCount"), Some(100));
    assert_eq!(int_field(&p, "rate_rxMsgRate"), Some(5));
    assert_eq!(int_field(&p, "rate_txMsgRate"), Some(6));
}

#[test]
fn point_metric_extract_data_names_measurement() {
    let vpn = MsgVpnResponse { data: Some(vpn_doc()) };
    let p = <MsgVpnResponse as PointMetric<MsgVpnResponse>>::extract_data(&vpn);
    assert_eq!(p.measurement, "message-vpn");
    assert_eq!(int_field(&p, "rxMsgCount"), Some(100));
    assert!(p.tags.is_empty());
    assert_eq!(p.timestamp, None);
}

#[test]
fn point_metric_create_metric_tags_and_stamps() {
    let vpn = MsgVpnResponse { data: Some(vpn_doc()) };
    let mut client = influx();
    let p = <MsgVpnResponse as PointMetric<MsgVpnResponse>>::create_metric(
        "vpn-stats", &vpn, tags(), &mut client);
    assert_eq!(p.measurement, "message-vpn");
    assert_eq!(p.fields.len(), 3);
    assert_eq!(str_tag(&p, "env"), Some("dev".to_string()));
    assert_eq!(str_tag(&p, "dc"), Some("eu".to_string()));
    assert_eq!(p.tags.len(), 2);
    assert!(p.timestamp.is_some());
}

#[test]
fn point_metric_create_metric_without_tags_still_stamps() {
    let vpn = MsgVpnResponse { data: Some(vpn_doc()) };
    let mut client = influx();
    let p = <MsgVpnResponse as PointMetric<MsgVpnResponse>>::create_metric(
        "vpn-stats", &vpn, vec![], &mut client);
    assert!(p.tags.is_empty());
    assert!(p.timestamp.is_some());
}

#[test]
fn list_metric_vpn_and_queue_extract_one_point() {
    let vpn = MsgVpnResponse { data: Some(vpn_doc()) };
    let ps = <MsgVpnResponse as ListMetric<MsgVpnResponse>>::extract_data(&vpn);
    assert_eq!(ps.len(), 1);
    assert_eq!(ps[0].measurement, "message-vpn");
    let queue = MsgVpnQueueResponse { data: Some(obj(vec![("spooledMsgCount", num(9))])) };
    let ps = <MsgVpnQueueResponse as ListMetric<MsgVpnQueueResponse>>::extract_data(&queue);
    assert_eq!(ps.len(), 1);
    assert_eq!(ps[0].measurement, "message-vpn-queue");
    assert_eq!(int_field(&ps[0], "spooledMsgCount"), Some(9));
}

#[test]
fn list_metric_clients_response_gathers_all_clients_in_one_point() {
    let clients = MsgVpnClientsResponse {
        data: Some(vec![
            obj(vec![("rxByteCount", num(1)), ("clientName", JsonValue::String("a".to_string()))]),
            obj(vec![("txByteCount", num(2))]),
        ]),
    };
    let ps = <MsgVpnClientsResponse as ListMetric<MsgVpnClientsResponse>>::extract_data(&clients);
    assert_eq!(ps.len(), 1);
    assert_eq!(ps[0].measurement, "client");
    assert_eq!(ps[0].fields.len(), 2);
    assert_eq!(int_field(&ps[0], "rxByteCount"), Some(1));
    assert_eq!(int_field(&ps[0], "txByteCount"), Some(2));
}

#[test]
fn clients_make_fields_reads_an_array() {
    let clients = MsgVpnClientsResponse { data: None };
    let text = r#"[{"a":1},{"a":2,"b":3}]"#;
    let p = ListMetric::make_fields(&clients, text.to_string(), "client").unwrap();
    assert_eq!(int_field(&p, "a"), Some(2));
    assert_eq!(int_field(&p, "b"), Some(3));
    assert_eq!(p.fields.len(), 2);
}

#[test]
fn single_item_array_matches_object() {
    let clients = MsgVpnClientsResponse { data: None };
    let vpn = MsgVpnResponse { data: None };
    let object = r#"{"rxMsgCount":100,"rate":{"rxMsgRate":5,"txMsgRate":6},"name":"x"}"#;
    let from_array = ListMetric::make_fields(&clients, format!("[{}]", object), "m").unwrap();
    let from_object = ListMetric::make_fields(&vpn, object.to_string(), "m").unwrap();
    assert_eq!(from_array.fields.len(), from_object.fields.len());
    for k in ["rxMsgCount", "rate_rxMsgRate", "rate_txMsgRate"] {
        assert_eq!(int_field(&from_array, k), int_field(&from_object, k));
    }
}

#[test]
fn queue_request_create_metric_tags_each_point() {
    let queue = MsgVpnQueueResponse { data: Some(obj(vec![("spooledMsgCount", num(9))])) };
    let mut client = influx();
    let ps = <MsgVpnQueueReq as ListMetric<MsgVpnQueueResponse>>::create_metric(
        "queue", &queue, tags(), &mut client);
    assert_eq!(ps.len(), 1);
    assert_eq!(ps[0].measurement, "message-vpn-queue");
    assert_eq!(str_tag(&ps[0], "env"), Some("dev".to_string()));
    assert_eq!(str_tag(&ps[0], "dc"), Some("eu".to_string()));
    assert!(ps[0].timestamp.is_some());
    assert_eq!(int_field(&ps[0], "spooledMsgCount"), Some(9));
}

#[test]
fn queue_request_create_metric_without_tags_sets_no_timestamp() {
    let queue = MsgVpnQueueResponse { data: Some(obj(vec![("spooledMsgCount", num(9))])) };
    let mut client = influx();
    let ps = <MsgVpnQueueReq as ListMetric<MsgVpnQueueResponse>>::create_metric(
        "queue", &queue, vec![], &mut client);
    assert_eq!(ps.len(), 1);
    assert!(ps[0].tags.is_empty());
    assert_eq!(ps[0].timestamp, None);
}

#[test]
fn queue_request_fields() {
    let req = MsgVpnQueueReq {
        msg_vpn_name: "default".to_string(),
        queue_name: "q1".to_string(),
        selectv: "*".to_string(),
    };
    assert_eq!(req.msg_vpn_name, "default");
    assert_eq!(req.queue_name, "q1");
    assert_eq!(req.selectv, "*");
}

#[test]
fn client_request_extract_data_one_point_per_client() {
    let clients = MsgVpnClientsResponse {
        data: Some(vec![
            JsonValue::Array(vec![obj(vec![("rxByteCount", num(1))])]),
            JsonValue::Array(vec![obj(vec![("rxByteCount", num(2))]), obj(vec![("x", num(3))])]),
        ]),
    };
    let ps = <MsgVpnClientReq as ListMetric<MsgVpnClientsResponse>>::extract_data(&clients);
    assert_eq!(ps.len(), 2);
    assert_eq!(ps[0].measurement, "client");
    assert_eq!(int_field(&ps[0], "rxByteCount"), Some(1));
    assert_eq!(int_field(&ps[1], "rxByteCount"), Some(2));
    assert_eq!(int_field(&ps[1], "x"), Some(3));
}

#[test]
fn client_request_with_no_clients_makes_no_points() {
    let clients = MsgVpnClientsResponse { data: Some(vec![]) };
    let mut client = influx();
    let ps = <MsgVpnClientReq as ListMetric<MsgVpnClientsResponse>>::create_metric(
        "client", &clients, tags(), &mut client);
    assert!(ps.is_empty());
}

#[test]
fn client_request_create_metric_tags_every_point() {
    let clients = MsgVpnClientsResponse {
        data: Some(vec![
            JsonValue::Array(vec![obj(vec![("a", num(1))])]),
            JsonValue::Array(vec![obj(vec![("a", num(2))])]),
        ]),
    };
    let mut client = influx();
    let ps = <MsgVpnClientReq as ListMetric<MsgVpnClientsResponse>>::create_metric(
        "client", &clients, tags(), &mut client);
    assert_eq!(ps.len(), 2);
    for p in &ps {
        assert_eq!(p.tags.len(), 2);
        assert_eq!(str_tag(p, "env"), Some("dev".to_string()));
        assert!(p.timestamp.is_some());
    }
    let req = MsgVpnClientReq {
        vpn_name: "default".to_string(),
        client_name: "c".to_string(),
        count: 10,
        cursor: String::new(),
        selector: "*".to_string(),
    };
    assert_eq!(req.count, 10);
}

#[test]
fn tag_point_sets_tag_and_timestamp() {
    let mut p = Point::new("m");
    tag_point(&mut p, &"host".to_string(), &"h1".to_string(), 1234);
    assert_eq!(str_tag(&p, "host"), Some("h1".to_string()));
    assert_eq!(p.timestamp, Some(1234));
    assert!(p.fields.is_empty());
}

#[test]
fn later_tag_of_same_name_wins() {
    let mut p = Point::new("m");
    let ts = vec![("k".to_string(), "1".to_string()), ("k".to_string(), "2".to_string())];
    add_tags(&mut p, &ts);
    assert_eq!(p.tags.len(), 1);
    assert_eq!(str_tag(&p, "k"), Some("2".to_string()));
    assert_eq!(p.timestamp, None);
}

#[test]
fn parse_json_reads_documents() {
    match parse_json(r#"{"b":1,"a":-2,"c":1.5,"d":[true,null,"s"]}"#) {
        Some(JsonValue::Object(members)) => {
            let names: Vec<&str> = members.iter().map(|(k, _)| k.as_str()).collect();
            assert_eq!(names, vec!["a", "b", "c", "d"]);
            assert!(matches!(members[0].1, JsonValue::Number(JsonNumber::NegInt(-2))));
            assert!(matches!(members[1].1, JsonValue::Number(JsonNumber::PosInt(1))));
            assert!(matches!(members[2].1, JsonValue::Number(JsonNumber::Float)));
            match &members[3].1 {
                JsonValue::Array(items) => {
                    assert_eq!(items.len(), 3);
                    assert!(matches!(items[0], JsonValue::Bool(true)));
                    assert!(matches!(items[1], JsonValue::Null));
                    assert!(matches!(&items[2], JsonValue::String(s) if s == "s"));
                }
                _ => panic!("expected an array"),
            }
        }
        _ => panic!("expected an object"),
    }
    assert!(parse_json("not json").is_none());
    assert!(parse_json("").is_none());
    assert!(matches!(parse_json("18446744073709551615"), Some(JsonValue::Number(JsonNumber::PosInt(u64::MAX)))));
}

#[test]
fn make_fields_from_text_checks_before_calling() {
    let vpn = MsgVpnResponse { data: None };
    let p = point_fields_from_text(&vpn, r#"{"a":1,"o":{"x":2}}"#.to_string(), "m").unwrap();
    assert_eq!(int_field(&p, "a"), Some(1));
    assert_eq!(int_field(&p, "o_x"), Some(2));
    assert!(point_fields_from_text(&vpn, "[1]".to_string(), "m").is_none());
    assert!(point_fields_from_text(&vpn, r#"{"a":1.5}"#.to_string(), "m").is_none());
    assert!(point_fields_from_text(&vpn, "{".to_string(), "m").is_none());
    assert!(point_fields_from_text(&vpn, r#"{"o":{"s":"x"}}"#.to_string(), "m").is_none());

    let clients = MsgVpnClientsResponse { data: None };
    let p = list_fields_from_text(&clients, r#"[{"a":1},{"b":2}]"#.to_string(), "client").unwrap();
    assert_eq!(int_field(&p, "a"), Some(1));
    assert_eq!(int_field(&p, "b"), Some(2));
    assert!(list_fields_from_text(&clients, r#"{"a":1}"#.to_string(), "client").is_none());
    let queue = MsgVpnQueueResponse { data: None };
    assert!(list_fields_from_text(&queue, r#"{"a":1}"#.to_string(), "q").is_some());
    let req = MsgVpnQueueReq {
        msg_vpn_name: "v".to_string(),
        queue_name: "q".to_string(),
        selectv: "*".to_string(),
    };
    let p = list_fields_from_text(&req, r#"{"a":1}"#.to_string(), "q").unwrap();
    assert_eq!(int_field(&p, "a"), Some(1));
    assert!(list_fields_from_text(&req, r#"[{"a":1}]"#.to_string(), "q").is_none());
}

#[test]
fn stamp_point_uses_the_given_time() {
    let mut p = Point::new("m");
    stamp_point(&mut p, &tags(), 1700000000);
    assert_eq!(p.timestamp, Some(1700000000));
    assert_eq!(str_tag(&p, "env"), Some("dev".to_string()));
    assert_eq!(str_tag(&p, "dc"), Some("eu".to_string()));
}

#[test]
fn distinct_tag_name_check() {
    assert!(has_distinct_tag_names(&tags()));
    assert!(has_distinct_tag_names(&vec![]));
    let dup = vec![("k".to_string(), "1".to_string()), ("k".to_string(), "2".to_string())];
    assert!(!has_distinct_tag_names(&dup));
}

#[test]
fn request_make_fields_flatten_objects() {
    let queue_req = MsgVpnQueueReq {
        msg_vpn_name: "default".to_string(),
        queue_name: "q1".to_string(),
        selectv: "*".to_string(),
    };
    let text = r#"{"spooledMsgCount":9,"rate":{"rx":1,"tx":2},"name":"q1"}"#;
    let p = queue_req.make_fields(text.to_string(), "message-vpn-queue").unwrap();
    assert_eq!(p.measurement, "message-vpn-queue");
    assert_eq!(p.fields.len(), 3);
    assert_eq!(int_field(&p, "spooledMsgCount"), Some(9));
    assert_eq!(int_field(&p, "rate_rx"), Some(1));
    assert_eq!(int_field(&p, "rate_tx"), Some(2));

    let client_req = MsgVpnClientReq {
        vpn_name: "default".to_string(),
        client_name: "c".to_string(),
        count: 10,
        cursor: String::new(),
        selector: "*".to_string(),
    };
    let p = client_req.make_fields(r#"{"rxByteCount":4}"#.to_string(), "client").unwrap();
    assert_eq!(p.measurement, "client");
    assert_eq!(p.fields.len(), 1);
    assert_eq!(int_field(&p, "rxByteCount"), Some(4));
}
