//! InfluxDB points and the client that writes them, as the `influx_db_client`
//! crate defines them.

use vstd::prelude::*;
use influx_db_client::{Point, Value};

verus! {

#[verifier::external_type_specification]
#[verifier::external_body]
pub struct ExPoint(influx_db_client::Point);

#[verifier::external_type_specification]
#[verifier::external_body]
pub struct ExClient(influx_db_client::Client);

/// What a point holds as the value of a tag or a field.
pub enum InfluxValue {
    Str(Seq<char>),
    Integer(i64),
    /// A float value; the number itself is not modelled.
    Float,
    Boolean(bool),
}

/// The contents of a point.
pub struct PointModel {
    pub measurement: Seq<char>,
    pub tags: Map<Seq<char>, InfluxValue>,
    pub fields: Map<Seq<char>, InfluxValue>,
    pub timestamp: Option<i64>,
}

impl PointModel {
    /// A point of this measurement with no tags, no fields and no timestamp.
    pub open spec fn empty(measurement: Seq<char>) -> PointModel {
        PointModel {
            measurement,
            tags: Map::empty(),
            fields: Map::empty(),
            timestamp: None,
        }
    }

    /// The point with one field set, replacing a field of the same name.
    pub open spec fn with_field(self, key: Seq<char>, value: InfluxValue) -> PointModel {
        PointModel { fields: self.fields.insert(key, value), ..self }
    }

    /// The point with one tag set, replacing a tag of the same name.
    pub open spec fn with_tag(self, key: Seq<char>, value: InfluxValue) -> PointModel {
        PointModel { tags: self.tags.insert(key, value), ..self }
    }

    /// The point with its timestamp set.
    pub open spec fn with_timestamp(self, timestamp: i64) -> PointModel {
        PointModel { timestamp: Some(timestamp), ..self }
    }
}

/// What an `influx_db_client::Point` holds: its measurement, its tag and
/// field maps, and its timestamp.
pub uninterp spec fn point_model(p: Point) -> PointModel;

/// Calls `Point::new`, which makes a point of the given measurement with no
/// tags, no fields and no timestamp.
#[verifier::external_body]
pub(crate) fn point_new(measurement: &str) -> (p: Point)
    ensures
        point_model(p) == PointModel::empty(measurement@),
{
    Point::new(measurement)
}

/// Calls `Point::add_field` with an integer value: the field map gets
/// `field` mapped to the integer, and nothing else of the point changes.
#[verifier::external_body]
pub(crate) fn point_add_integer_field(point: &mut Point, field: String, value: i64)
    ensures
        point_model(*final(point)) == point_model(*old(point)).with_field(
            field@,
            InfluxValue::Integer(value),
        ),
{
    point.add_field(field, Value::Integer(value));
}

/// Calls `Point::add_tag` with a string value: the tag map gets `tag` mapped
/// to the string, and nothing else of the point changes.
#[verifier::external_body]
pub(crate) fn point_add_string_tag(point: &mut Point, tag: &String, value: String)
    ensures
        point_model(*final(point)) == point_model(*old(point)).with_tag(
            tag@,
            InfluxValue::Str(value@),
        ),
{
    point.add_tag(tag, Value::String(value));
}

/// Calls `Point::add_timestamp`: the timestamp becomes `Some(timestamp)`,
/// and nothing else of the point changes.
#[verifier::external_body]
pub(crate) fn point_add_timestamp(point: &mut Point, timestamp: i64)
    ensures
        point_model(*final(point)) == point_model(*old(point)).with_timestamp(timestamp),
{
    point.add_timestamp(timestamp);
}

} // verus!
