use influx_db_client::{Point, Value};
use solace_monitor::fields::{is_array_accepted, is_object_accepted, member_is_convertible};
use solace_monitor::helpers::{gencred, getPoint, getselect, getwhere};
use solace_monitor::json::{JsonNumber, JsonValue};

fn num(n: i64) -> JsonValue {
    if n < 0 {
        JsonValue::Number(JsonNumber::NegInt(n))
    } else {
        JsonValue::Number(JsonNumber::PosInt(n as u64))
    }
}

fn obj(members: Vec<(&str, JsonValue)>) -> JsonValue {
    JsonValue::Object(members.into_iter().map(|(k, v)| (k.to_string(), v)).collect())
}

fn int_field(p: &Point, key: &str) -> Option<i64> {
    match p.fields.get(key) {
        Some(Value::Integer(i)) => Some(*i),
        _ => None,
    }
}

#[test]
fn gencred_keeps_user_and_password() {
    let auth = gencred("admin".to_string(), "secret".to_string());
    assert_eq!(auth.0, "admin");
    assert_eq!(auth.1, Some("secret".to_string()));
}

#[test]
fn getselect_is_the_one_selector() {
    assert_eq!(getselect("*"), vec!["*".to_string()]);
    assert_eq!(getselect("msgVpnName,rate"), vec!["msgVpnName,rate".to_string()]);
}

#[test]
fn getwhere_builds_condition_and_select() {
    let (wherev, selectv) = getwhere("clientName", "client-1", "*");
    assert_eq!(wherev, vec!["clientName==client-1".to_string()]);
    assert_eq!(selectv, vec!["*".to_string()]);
}

#[test]
fn getwhere_select_matches_getselect() {
    let (_, selectv) = getwhere("queueName", "q", "a,b");
    assert_eq!(selectv, getselect("a,b"));
}

#[test]
fn get_point_flattens_numbers_and_one_level_of_objects() {
    let doc = obj(vec![
        ("averageRxMsgRate", num(12)),
        ("rate", obj(vec![("rxMsgRate", num(3)), ("txMsgRate", num(-4))])),
        ("msgVpnName", JsonValue::String("default".to_string())),
        ("enabled", JsonValue::Bool(true)),
        ("alias", JsonValue::Null),
        ("list", JsonValue::Array(vec![num(1)])),
    ]);
    let p = getPoint(doc, "message-vpn");
    assert_eq!(p.measurement, "message-vpn");
    assert_eq!(p.fields.len(), 3);
    assert_eq!(int_field(&p, "averageRxMsgRate"), Some(12));
    assert_eq!(int_field(&p, "rate_rxMsgRate"), Some(3));
    assert_eq!(int_field(&p, "rate_txMsgRate"), Some(-4));
    assert!(p.tags.is_empty());
    assert_eq!(p.timestamp, None);
}

#[test]
fn get_point_of_empty_object_has_no_fields() {
    let p = getPoint(obj(vec![]), "empty");
    assert_eq!(p.measurement, "empty");
    assert!(p.fields.is_empty());
}

#[test]
fn get_point_later_field_of_same_name_wins() {
    let doc = obj(vec![("a", obj(vec![("b", num(1))])), ("a_b", num(2))]);
    let p = getPoint(doc, "m");
    assert_eq!(p.fields.len(), 1);
    assert_eq!(int_field(&p, "a_b"), Some(2));
}

#[test]
fn get_point_integer_limits() {
    let doc = obj(vec![
        ("max", JsonValue::Number(JsonNumber::PosInt(i64::MAX as u64))),
        ("min", JsonValue::Number(JsonNumber::NegInt(i64::MIN))),
    ]);
    let p = getPoint(doc, "m");
    assert_eq!(int_field(&p, "max"), Some(i64::MAX));
    assert_eq!(int_field(&p, "min"), Some(i64::MIN));
}

#[test]
fn as_i64_of_numbers() {
    assert_eq!(JsonNumber::PosInt(7).as_i64(), Some(7));
    assert_eq!(JsonNumber::PosInt(i64::MAX as u64 + 1).as_i64(), None);
    assert_eq!(JsonNumber::NegInt(-7).as_i64(), Some(-7));
    assert_eq!(JsonNumber::Float.as_i64(), None);
    assert_eq!(JsonValue::String("7".to_string()).as_i64(), None);
    assert_eq!(num(5).as_i64(), Some(5));
}

#[test]
fn acceptance_checks() {
    assert!(member_is_convertible(&num(1)));
    assert!(member_is_convertible(&JsonValue::Bool(false)));
    assert!(!member_is_convertible(&JsonValue::Number(JsonNumber::Float)));
    assert!(!member_is_convertible(&JsonValue::Number(JsonNumber::PosInt(u64::MAX))));
    assert!(!member_is_convertible(&obj(vec![("x", JsonValue::String("s".to_string()))])));
    assert!(member_is_convertible(&obj(vec![("x", num(1))])));
    assert!(is_object_accepted(&obj(vec![("a", num(1)), ("s", JsonValue::Null)])));
    assert!(!is_object_accepted(&obj(vec![("a", obj(vec![("b", obj(vec![]))]))])));
    assert!(!is_object_accepted(&num(1)));
    assert!(!is_object_accepted(&JsonValue::Array(vec![])));
    assert!(is_array_accepted(&JsonValue::Array(vec![obj(vec![("a", num(1))])])));
    assert!(!is_array_accepted(&JsonValue::Array(vec![num(1)])));
    assert!(!is_array_accepted(&obj(vec![])));
}
