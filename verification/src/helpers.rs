//! Helpers for building SEMP requests and InfluxDB points.

use vstd::prelude::*;
use crate::fields::{concat3, fields_point, object_accepted, object_fields, object_point};
use crate::influx::point_model;
use crate::json::JsonValue;
use influx_db_client::Point;

verus! {

/// Basic-auth credentials of the SEMP API: a user name and an optional password.
pub type BasicAuth = (String, Option<String>);

/// The `where` condition `key==name` of a SEMP request.
pub open spec fn where_condition(key: Seq<char>, name: Seq<char>) -> Seq<char> {
    key + seq!['=', '='] + name
}

/// The select list of a SEMP request: the one selector given.
pub open spec fn select_list(select: Seq<char>) -> Seq<Seq<char>> {
    seq![select]
}

/// The views of a list of strings.
pub open spec fn string_views(v: Seq<String>) -> Seq<Seq<char>> {
    v.map_values(|s: String| s@)
}

/// Generates basic-auth credentials from a user name and a password.
pub fn gencred(username: String, password: String) -> (r: BasicAuth)
    ensures
        r == (username, Some(password)),
{
    let password: Option<String> = Some(password);
    (username, password)
}

/// Builds the `where` and `select` lists of a SEMP request that selects the
/// objects whose `key` equals `name`.
pub fn getwhere(key: &str, name: &str, select: &str) -> (r: (Vec<String>, Vec<String>))
    ensures
        string_views(r.0@) == seq![where_condition(key@, name@)],
        string_views(r.1@) == select_list(select@),
{
    let mut wherevec: Vec<String> = Vec::new();
    let whereitem = concat3(key, "==", name);
    proof {
        reveal_strlit("==");
        assert(whereitem@ == where_condition(key@, name@));
    }
    wherevec.push(whereitem);
    let selectvec = getselect(select);
    proof {
        assert(string_views(wherevec@) =~= seq![where_condition(key@, name@)]);
    }
    (wherevec, selectvec)
}

/// Builds the `select` list of a SEMP request.
pub fn getselect(select: &str) -> (r: Vec<String>)
    ensures
        string_views(r@) == select_list(select@),
{
    let mut selectvec: Vec<String> = Vec::new();
    selectvec.push(select.to_owned());
    proof {
        assert(string_views(selectvec@) =~= select_list(select@));
    }
    selectvec
}

/// Makes a point of the given measurement from the members of a JSON object:
/// number members become fields, object members give one field per member.
#[allow(non_snake_case)]
pub fn getPoint(i: JsonValue, measurement_name: &str) -> (p: Point)
    requires
        object_accepted(i),
    ensures
        point_model(p) == fields_point(measurement_name@, object_fields(i)),
{
    match i {
        JsonValue::Object(members) => object_point(&members, measurement_name),
        _ => {
            proof {
                assert(false);
            }
            crate::influx::point_new(measurement_name)
        },
    }
}

} // verus!
