//! Flattening a JSON document into the integer fields of a point: the members
//! of the root object with number values become fields of the same name, and
//! the members of an object-valued member `k` become fields `k_<member>`.
//! Members of any other kind are skipped.

use vstd::prelude::*;
use crate::influx::{point_add_integer_field, point_model, point_new, InfluxValue, PointModel};
use influx_db_client::Point;
use crate::json::JsonValue;
use vstd::string::StringExecFns;

verus! {

/// The name of the field for member `inner` of the object-valued member `outer`.
pub open spec fn joined_key(outer: Seq<char>, inner: Seq<char>) -> Seq<char> {
    outer + seq!['_'] + inner
}

/// The fields that the members of the object value of `key` give, in order.
pub open spec fn nested_fields(key: Seq<char>, members: Seq<(String, JsonValue)>) -> Seq<
    (Seq<char>, i64),
> {
    Seq::new(
        members.len(),
        |i: int| (joined_key(key, members[i].0@), members[i].1.int_value().unwrap()),
    )
}

/// The fields that one member of the root object gives, in order.
pub open spec fn member_fields(key: Seq<char>, value: JsonValue) -> Seq<(Seq<char>, i64)> {
    match value {
        JsonValue::Object(members) => nested_fields(key, members@),
        JsonValue::Number(n) => seq![(key, n.int_value().unwrap())],
        _ => seq![],
    }
}

/// A member value that can be flattened: a number must be an `i64`, and so
/// must every member value of an object.
pub open spec fn member_convertible(value: JsonValue) -> bool {
    match value {
        JsonValue::Object(members) => forall|i: int|
            0 <= i < members@.len() ==> (#[trigger] members@[i]).1.int_value() is Some,
        JsonValue::Number(n) => n.int_value() is Some,
        _ => true,
    }
}

/// Every member of an object can be flattened.
pub open spec fn members_convertible(members: Seq<(String, JsonValue)>) -> bool {
    forall|i: int| 0 <= i < members.len() ==> member_convertible((#[trigger] members[i]).1)
}

/// The fields that the members of an object give, member by member.
pub open spec fn members_fields(members: Seq<(String, JsonValue)>) -> Seq<(Seq<char>, i64)>
    decreases members.len(),
{
    if members.len() == 0 {
        seq![]
    } else {
        members_fields(members.drop_last()) + member_fields(
            members.last().0@,
            members.last().1,
        )
    }
}

/// A document that flattens as an object: an object whose members can be
/// flattened.
pub open spec fn object_accepted(doc: JsonValue) -> bool {
    match doc {
        JsonValue::Object(members) => members_convertible(members@),
        _ => false,
    }
}

/// The fields of a document flattened as an object.
pub open spec fn object_fields(doc: JsonValue) -> Seq<(Seq<char>, i64)> {
    match doc {
        JsonValue::Object(members) => members_fields(members@),
        _ => seq![],
    }
}

/// Documents that each flatten as an object.
pub open spec fn items_accepted(items: Seq<JsonValue>) -> bool {
    forall|i: int| 0 <= i < items.len() ==> object_accepted(#[trigger] items[i])
}

/// The fields of a list of objects, flattened one after the other into one point.
pub open spec fn items_fields(items: Seq<JsonValue>) -> Seq<(Seq<char>, i64)>
    decreases items.len(),
{
    if items.len() == 0 {
        seq![]
    } else {
        items_fields(items.drop_last()) + object_fields(items.last())
    }
}

/// A document that flattens as an array: an array of flattenable objects.
pub open spec fn array_accepted(doc: JsonValue) -> bool {
    match doc {
        JsonValue::Array(items) => items_accepted(items@),
        _ => false,
    }
}

/// The fields of a document flattened as an array.
pub open spec fn array_fields(doc: JsonValue) -> Seq<(Seq<char>, i64)> {
    match doc {
        JsonValue::Array(items) => items_fields(items@),
        _ => seq![],
    }
}

/// A field map after writing integer fields in order; a later field replaces
/// an earlier one of the same name.
pub open spec fn insert_fields(
    m: Map<Seq<char>, InfluxValue>,
    fields: Seq<(Seq<char>, i64)>,
) -> Map<Seq<char>, InfluxValue>
    decreases fields.len(),
{
    if fields.len() == 0 {
        m
    } else {
        insert_fields(m, fields.drop_last()).insert(
            fields.last().0,
            InfluxValue::Integer(fields.last().1),
        )
    }
}

/// A point after writing integer fields in order.
pub open spec fn add_fields(p: PointModel, fields: Seq<(Seq<char>, i64)>) -> PointModel {
    PointModel { fields: insert_fields(p.fields, fields), ..p }
}

/// A fresh point of the given measurement holding the given fields.
pub open spec fn fields_point(measurement: Seq<char>, fields: Seq<(Seq<char>, i64)>) -> PointModel {
    add_fields(PointModel::empty(measurement), fields)
}

/// Writing two runs of fields one after the other is writing their concatenation.
pub proof fn lemma_insert_fields_append(
    m: Map<Seq<char>, InfluxValue>,
    a: Seq<(Seq<char>, i64)>,
    b: Seq<(Seq<char>, i64)>,
)
    ensures
        insert_fields(m, a + b) == insert_fields(insert_fields(m, a), b),
    decreases b.len(),
{
    if b.len() == 0 {
        assert(a + b =~= a);
    } else {
        lemma_insert_fields_append(m, a, b.drop_last());
        assert((a + b).drop_last() =~= a + b.drop_last());
    }
}

/// The names of the fields that one member of the root object gives.
pub open spec fn member_field_names(key: Seq<char>, value: JsonValue) -> Set<Seq<char>> {
    match value {
        JsonValue::Object(members) => Set::new(
            |n: Seq<char>|
                exists|j: int| 0 <= j < members@.len() && n == joined_key(key, #[trigger] members@[j].0@),
        ),
        JsonValue::Number(_) => set![key],
        _ => Set::empty(),
    }
}

/// The names of the fields that a document flattened as an object gives.
pub open spec fn object_field_names(doc: JsonValue) -> Set<Seq<char>> {
    match doc {
        JsonValue::Object(members) => Set::new(
            |n: Seq<char>|
                exists|i: int|
                    0 <= i < members@.len() && #[trigger] member_field_names(
                        members@[i].0@,
                        members@[i].1,
                    ).contains(n),
        ),
        _ => Set::empty(),
    }
}

/// A name is among the names of a run of fields.
pub open spec fn names_field(fields: Seq<(Seq<char>, i64)>, k: Seq<char>) -> bool {
    exists|i: int| 0 <= i < fields.len() && (#[trigger] fields[i]).0 == k
}

/// Writing fields adds exactly their names to the map.
pub proof fn lemma_insert_fields_dom(m: Map<Seq<char>, InfluxValue>, fields: Seq<(Seq<char>, i64)>)
    ensures
        forall|k: Seq<char>|
            #[trigger] insert_fields(m, fields).dom().contains(k) <==> (m.dom().contains(k)
                || names_field(fields, k)),
    decreases fields.len(),
{
    if fields.len() > 0 {
        let init = fields.drop_last();
        lemma_insert_fields_dom(m, init);
        assert(insert_fields(m, fields) == insert_fields(m, init).insert(
            fields.last().0,
            InfluxValue::Integer(fields.last().1),
        ));
        assert forall|k: Seq<char>|
            #[trigger] insert_fields(m, fields).dom().contains(k) <==> (m.dom().contains(k)
                || names_field(fields, k)) by {
            assert(insert_fields(m, init).dom().contains(k) <==> (m.dom().contains(k)
                || names_field(init, k)));
            if names_field(init, k) {
                let i = choose|i: int| 0 <= i < init.len() && (#[trigger] init[i]).0 == k;
                assert(fields[i] == init[i]);
            }
            if names_field(fields, k) && fields.last().0 != k {
                let i = choose|i: int| 0 <= i < fields.len() && (#[trigger] fields[i]).0 == k;
                assert(init[i] == fields[i]);
            }
            if fields.last().0 == k {
                assert(fields[fields.len() - 1].0 == k);
            }
        }
    }
}

/// A field holds the integer of the last entry of its name in the run.
pub proof fn lemma_insert_fields_last(
    m: Map<Seq<char>, InfluxValue>,
    fields: Seq<(Seq<char>, i64)>,
    i: int,
)
    requires
        0 <= i < fields.len(),
        forall|j: int| i < j < fields.len() ==> (#[trigger] fields[j]).0 != fields[i].0,
    ensures
        insert_fields(m, fields)[fields[i].0] == InfluxValue::Integer(fields[i].1),
    decreases fields.len(),
{
    if i < fields.len() - 1 {
        let init = fields.drop_last();
        assert(fields[fields.len() - 1].0 != fields[i].0);
        assert forall|j: int| i < j < init.len() implies (#[trigger] init[j]).0 != init[i].0 by {
            assert(init[j] == fields[j]);
        }
        lemma_insert_fields_last(m, init, i);
    }
}

/// A name that a run of fields writes holds an integer.
pub proof fn lemma_insert_fields_integer(m: Map<Seq<char>, InfluxValue>, fields: Seq<(Seq<char>, i64)>, k: Seq<char>)
    requires
        names_field(fields, k),
    ensures
        insert_fields(m, fields)[k] is Integer,
    decreases fields.len(),
{
    if fields.last().0 != k {
        let init = fields.drop_last();
        let i = choose|i: int| 0 <= i < fields.len() && (#[trigger] fields[i]).0 == k;
        assert(init[i] == fields[i]);
        lemma_insert_fields_integer(m, init, k);
    }
}

/// The names of the fields of one member are those its flattening writes.
proof fn lemma_member_fields_names(key: Seq<char>, value: JsonValue)
    ensures
        forall|k: Seq<char>|
            names_field(member_fields(key, value), k) <==> #[trigger] member_field_names(
                key,
                value,
            ).contains(k),
{
    assert forall|k: Seq<char>|
        names_field(member_fields(key, value), k) <==> #[trigger] member_field_names(
            key,
            value,
        ).contains(k) by {
        match value {
            JsonValue::Object(members) => {
                let fs = member_fields(key, value);
                if names_field(fs, k) {
                    let i = choose|i: int| 0 <= i < fs.len() && (#[trigger] fs[i]).0 == k;
                    assert(k == joined_key(key, members@[i].0@));
                }
                if member_field_names(key, value).contains(k) {
                    let j = choose|j: int|
                        0 <= j < members@.len() && k == joined_key(key, #[trigger] members@[j].0@);
                    assert(fs[j].0 == k);
                }
            },
            JsonValue::Number(_) => {
                let fs = member_fields(key, value);
                if k == key {
                    assert(fs[0].0 == k);
                }
            },
            _ => {},
        }
    }
}

/// The names of the fields of an object's members are those its flattening writes.
proof fn lemma_members_fields_names(members: Seq<(String, JsonValue)>)
    ensures
        forall|k: Seq<char>|
            #[trigger] names_field(members_fields(members), k) <==> exists|i: int|
                0 <= i < members.len() && #[trigger] member_field_names(
                    members[i].0@,
                    members[i].1,
                ).contains(k),
    decreases members.len(),
{
    if members.len() > 0 {
        let init = members.drop_last();
        let last = members.last();
        lemma_members_fields_names(init);
        lemma_member_fields_names(last.0@, last.1);
        let a = members_fields(init);
        let b = member_fields(last.0@, last.1);
        assert forall|k: Seq<char>|
            #[trigger] names_field(members_fields(members), k) <==> exists|i: int|
                0 <= i < members.len() && #[trigger] member_field_names(
                    members[i].0@,
                    members[i].1,
                ).contains(k) by {
            let all = a + b;
            if names_field(all, k) {
                let i = choose|i: int| 0 <= i < all.len() && (#[trigger] all[i]).0 == k;
                if i < a.len() {
                    assert(a[i] == all[i]);
                    assert(names_field(a, k));
                    let m = choose|m: int|
                        0 <= m < init.len() && #[trigger] member_field_names(
                            init[m].0@,
                            init[m].1,
                        ).contains(k);
                    assert(members[m] == init[m]);
                } else {
                    assert(b[i - a.len()] == all[i]);
                    assert(names_field(b, k));
                    assert(member_field_names(
                        members[members.len() - 1].0@,
                        members[members.len() - 1].1,
                    ).contains(k));
                }
            }
            if exists|i: int|
                0 <= i < members.len() && #[trigger] member_field_names(
                    members[i].0@,
                    members[i].1,
                ).contains(k) {
                let m = choose|m: int|
                    0 <= m < members.len() && #[trigger] member_field_names(
                        members[m].0@,
                        members[m].1,
                    ).contains(k);
                if m < init.len() {
                    assert(init[m] == members[m]);
                    assert(member_field_names(init[m].0@, init[m].1).contains(k));
                    assert(names_field(a, k));
                    let i = choose|i: int| 0 <= i < a.len() && (#[trigger] a[i]).0 == k;
                    assert(all[i] == a[i]);
                } else {
                    assert(names_field(b, k));
                    let i = choose|i: int| 0 <= i < b.len() && (#[trigger] b[i]).0 == k;
                    assert(all[a.len() + i] == b[i]);
                }
            }
        }
    }
}

/// Flattening an object gives exactly the fields named after its number
/// members and after the members of its object-valued members, each holding
/// an integer.
pub proof fn lemma_object_fields_named(doc: JsonValue, measurement: Seq<char>)
    ensures
        fields_point(measurement, object_fields(doc)).fields.dom() == object_field_names(doc),
        forall|k: Seq<char>|
            #[trigger] fields_point(measurement, object_fields(doc)).fields.dom().contains(k)
                ==> fields_point(measurement, object_fields(doc)).fields[k] is Integer,
{
    let fs = object_fields(doc);
    let m = Map::<Seq<char>, InfluxValue>::empty();
    lemma_insert_fields_dom(m, fs);
    match doc {
        JsonValue::Object(members) => {
            lemma_members_fields_names(members@);
        },
        _ => {},
    }
    assert(insert_fields(m, fs).dom() =~= object_field_names(doc));
    assert forall|k: Seq<char>| #[trigger] insert_fields(m, fs).dom().contains(k) implies insert_fields(
        m,
        fs,
    )[k] is Integer by {
        lemma_insert_fields_integer(m, fs, k);
    }
}

/// A field of a flattened object holds the integer of the last flattened
/// entry of its name.
pub proof fn lemma_object_field_value(doc: JsonValue, measurement: Seq<char>, i: int)
    requires
        0 <= i < object_fields(doc).len(),
        forall|j: int|
            i < j < object_fields(doc).len() ==> (#[trigger] object_fields(doc)[j]).0
                != object_fields(doc)[i].0,
    ensures
        fields_point(measurement, object_fields(doc)).fields[object_fields(doc)[i].0]
            == InfluxValue::Integer(object_fields(doc)[i].1),
{
    lemma_insert_fields_last(Map::empty(), object_fields(doc), i);
}

/// No member of `members` other than member `i` gives a field named `k`.
pub open spec fn named_only_by(members: Seq<(String, JsonValue)>, i: int, k: Seq<char>) -> bool {
    forall|i2: int|
        0 <= i2 < members.len() && i2 != i ==> !(#[trigger] member_field_names(
            members[i2].0@,
            members[i2].1,
        )).contains(k)
}

/// Read off the JSON alone: the document is an object, and the field `k` with
/// integer `v` comes from exactly one place in it. Either a number member
/// named `k` with value `v` that no other member's fields name, or the member
/// named `j` of an object member `o` with `k == o_j`, whose value is `v`,
/// where no other member's fields name `k` and no other member of `o` is
/// also named `j`.
pub open spec fn object_gives(doc: JsonValue, k: Seq<char>, v: i64) -> bool {
    doc matches JsonValue::Object(members) && exists|i: int|
        0 <= i < members@.len() && named_only_by(members@, i, k) && {
            let (name, value) = #[trigger] members@[i];
            ||| value matches JsonValue::Number(n) && k == name@ && n.int_value() == Some(v)
            ||| value matches JsonValue::Object(inner) && exists|j: int|
                0 <= j < inner@.len() && k == joined_key(name@, (#[trigger] inner@[j]).0@)
                    && inner@[j].1.int_value() == Some(v) && forall|j2: int|
                    0 <= j2 < inner@.len() && j2 != j ==> (#[trigger] inner@[j2]).0@
                        != inner@[j].0@
        }
}

/// `p` is the point that flattening `doc` as an object gives, read off the
/// JSON: it has the measurement asked for, no tags and no timestamp; its
/// field names are exactly those of the document's number members and of the
/// members of its object members; every field holds an integer; and a field
/// that comes from exactly one place in the document holds that place's
/// number.
pub open spec fn flattens_object(p: PointModel, measurement: Seq<char>, doc: JsonValue) -> bool {
    &&& p.measurement == measurement
    &&& p.tags == Map::<Seq<char>, InfluxValue>::empty()
    &&& p.timestamp is None
    &&& p.fields.dom() == object_field_names(doc)
    &&& forall|k: Seq<char>| #[trigger] p.fields.contains_key(k) ==> p.fields[k] is Integer
    &&& forall|k: Seq<char>, v: i64|
        #[trigger] object_gives(doc, k, v) ==> p.fields[k] == InfluxValue::Integer(v)
}

/// The names of the fields that a document flattened as an array gives: those
/// of each of its objects.
pub open spec fn array_field_names(doc: JsonValue) -> Set<Seq<char>> {
    match doc {
        JsonValue::Array(items) => Set::new(
            |n: Seq<char>|
                exists|a: int|
                    0 <= a < items@.len() && #[trigger] object_field_names(items@[a]).contains(n),
        ),
        _ => Set::empty(),
    }
}

/// `p` is the point that flattening `doc` as an array of objects gives, read
/// off the JSON: measurement, no tags, no timestamp; the field names of all
/// the objects together; integers in every field; and a field that comes
/// from exactly one place in exactly one object holds that place's number.
pub open spec fn flattens_array(p: PointModel, measurement: Seq<char>, doc: JsonValue) -> bool {
    &&& p.measurement == measurement
    &&& p.tags == Map::<Seq<char>, InfluxValue>::empty()
    &&& p.timestamp is None
    &&& p.fields.dom() == array_field_names(doc)
    &&& forall|k: Seq<char>| #[trigger] p.fields.contains_key(k) ==> p.fields[k] is Integer
    &&& doc matches JsonValue::Array(items) ==> forall|a: int, k: Seq<char>, v: i64|
        0 <= a < items@.len() && #[trigger] object_gives(items@[a], k, v) && (forall|a2: int|
            0 <= a2 < items@.len() && a2 != a ==> !(#[trigger] object_field_names(
                items@[a2],
            )).contains(k)) ==> p.fields[k] == InfluxValue::Integer(v)
}

/// Writing fields that do not name `k` leaves `k` as it was.
pub proof fn lemma_insert_fields_other(
    m: Map<Seq<char>, InfluxValue>,
    fields: Seq<(Seq<char>, i64)>,
    k: Seq<char>,
)
    requires
        !names_field(fields, k),
    ensures
        insert_fields(m, fields).contains_key(k) == m.contains_key(k),
        insert_fields(m, fields)[k] == m[k],
    decreases fields.len(),
{
    if fields.len() > 0 {
        let init = fields.drop_last();
        if names_field(init, k) {
            let i = choose|i: int| 0 <= i < init.len() && (#[trigger] init[i]).0 == k;
            assert(fields[i] == init[i]);
        }
        assert(fields[fields.len() - 1].0 != k);
        lemma_insert_fields_other(m, init, k);
    }
}

/// The names an object document's flattening writes are its field names.
proof fn lemma_object_fields_names(doc: JsonValue)
    ensures
        forall|k: Seq<char>|
            #[trigger] names_field(object_fields(doc), k) <==> object_field_names(doc).contains(k),
{
    match doc {
        JsonValue::Object(members) => {
            lemma_members_fields_names(members@);
        },
        _ => {},
    }
}

/// Only member `i` writes `k`, and entry `t` of its fields is the last that
/// names `k`, holding `v`: the object's fields give `k` the value `v`.
proof fn lemma_members_unique(
    m: Map<Seq<char>, InfluxValue>,
    ms: Seq<(String, JsonValue)>,
    i: int,
    t: int,
    k: Seq<char>,
    v: i64,
)
    requires
        0 <= i < ms.len(),
        0 <= t < member_fields(ms[i].0@, ms[i].1).len(),
        member_fields(ms[i].0@, ms[i].1)[t] == (k, v),
        forall|t2: int|
            t < t2 < member_fields(ms[i].0@, ms[i].1).len() ==> (#[trigger] member_fields(
                ms[i].0@,
                ms[i].1,
            )[t2]).0 != k,
        forall|i2: int|
            0 <= i2 < ms.len() && i2 != i ==> !names_field(
                member_fields((#[trigger] ms[i2]).0@, ms[i2].1),
                k,
            ),
    ensures
        insert_fields(m, members_fields(ms))[k] == InfluxValue::Integer(v),
    decreases ms.len(),
{
    let init = ms.drop_last();
    let last = ms.last();
    lemma_insert_fields_append(m, members_fields(init), member_fields(last.0@, last.1));
    let before = insert_fields(m, members_fields(init));
    if i == ms.len() - 1 {
        lemma_insert_fields_last(before, member_fields(last.0@, last.1), t);
    } else {
        assert(init[i] == ms[i]);
        assert forall|i2: int|
            0 <= i2 < init.len() && i2 != i implies !names_field(
                member_fields((#[trigger] init[i2]).0@, init[i2].1),
                k,
            ) by {
            assert(init[i2] == ms[i2]);
        }
        lemma_members_unique(m, init, i, t, k, v);
        assert(ms[ms.len() - 1] == last);
        lemma_insert_fields_other(before, member_fields(last.0@, last.1), k);
    }
}

/// The prefix `outer_` determines the rest of a joined name.
proof fn lemma_joined_key_injective(outer: Seq<char>, a: Seq<char>, b: Seq<char>)
    requires
        joined_key(outer, a) == joined_key(outer, b),
    ensures
        a == b,
{
    assert(a =~= joined_key(outer, a).skip(outer.len() as int + 1));
    assert(b =~= joined_key(outer, b).skip(outer.len() as int + 1));
}

/// A field that one place of an object document gives holds that place's number.
pub proof fn lemma_object_gives(m: Map<Seq<char>, InfluxValue>, doc: JsonValue, k: Seq<char>, v: i64)
    requires
        object_gives(doc, k, v),
    ensures
        insert_fields(m, object_fields(doc))[k] == InfluxValue::Integer(v),
{
    let ms = doc->Object_0@;
    let i = choose|i: int|
        0 <= i < ms.len() && named_only_by(ms, i, k) && {
            let (name, value) = #[trigger] ms[i];
            ||| value matches JsonValue::Number(n) && k == name@ && n.int_value() == Some(v)
            ||| value matches JsonValue::Object(inner) && exists|j: int|
                0 <= j < inner@.len() && k == joined_key(name@, (#[trigger] inner@[j]).0@)
                    && inner@[j].1.int_value() == Some(v) && forall|j2: int|
                    0 <= j2 < inner@.len() && j2 != j ==> (#[trigger] inner@[j2]).0@
                        != inner@[j].0@
        };
    let (name, value) = ms[i];
    assert forall|i2: int| 0 <= i2 < ms.len() && i2 != i implies !names_field(
        member_fields((#[trigger] ms[i2]).0@, ms[i2].1),
        k,
    ) by {
        lemma_member_fields_names(ms[i2].0@, ms[i2].1);
        assert(!member_field_names(ms[i2].0@, ms[i2].1).contains(k));
    }
    let mf = member_fields(name@, value);
    if value matches JsonValue::Number(n) && k == name@ && n.int_value() == Some(v) {
        lemma_members_unique(m, ms, i, 0, k, v);
    } else {
        let inner = value->Object_0@;
        let j = choose|j: int|
            0 <= j < inner.len() && k == joined_key(name@, (#[trigger] inner[j]).0@)
                && inner[j].1.int_value() == Some(v) && forall|j2: int|
                0 <= j2 < inner.len() && j2 != j ==> (#[trigger] inner[j2]).0@ != inner[j].0@;
        assert forall|t2: int| j < t2 < mf.len() implies (#[trigger] mf[t2]).0 != k by {
            if mf[t2].0 == k {
                lemma_joined_key_injective(name@, inner[t2].0@, inner[j].0@);
            }
        }
        lemma_members_unique(m, ms, i, j, k, v);
    }
}

/// The names of the fields of a list of objects are those of each object.
proof fn lemma_items_fields_names(items: Seq<JsonValue>)
    ensures
        forall|k: Seq<char>|
            #[trigger] names_field(items_fields(items), k) <==> exists|a: int|
                0 <= a < items.len() && #[trigger] object_field_names(items[a]).contains(k),
    decreases items.len(),
{
    if items.len() > 0 {
        let init = items.drop_last();
        let last = items.last();
        lemma_items_fields_names(init);
        lemma_object_fields_names(last);
        let a_ = items_fields(init);
        let b_ = object_fields(last);
        assert forall|k: Seq<char>|
            #[trigger] names_field(items_fields(items), k) <==> exists|a: int|
                0 <= a < items.len() && #[trigger] object_field_names(items[a]).contains(k) by {
            let all = a_ + b_;
            if names_field(all, k) {
                let i = choose|i: int| 0 <= i < all.len() && (#[trigger] all[i]).0 == k;
                if i < a_.len() {
                    assert(a_[i] == all[i]);
                    assert(names_field(a_, k));
                    let a = choose|a: int|
                        0 <= a < init.len() && #[trigger] object_field_names(init[a]).contains(k);
                    assert(items[a] == init[a]);
                } else {
                    assert(b_[i - a_.len()] == all[i]);
                    assert(names_field(b_, k));
                    assert(object_field_names(items[items.len() - 1]).contains(k));
                }
            }
            if exists|a: int|
                0 <= a < items.len() && #[trigger] object_field_names(items[a]).contains(k) {
                let a = choose|a: int|
                    0 <= a < items.len() && #[trigger] object_field_names(items[a]).contains(k);
                if a < init.len() {
                    assert(init[a] == items[a]);
                    assert(object_field_names(init[a]).contains(k));
                    assert(names_field(a_, k));
                    let i = choose|i: int| 0 <= i < a_.len() && (#[trigger] a_[i]).0 == k;
                    assert(all[i] == a_[i]);
                } else {
                    assert(items[a] == last);
                    assert(names_field(b_, k));
                    let i = choose|i: int| 0 <= i < b_.len() && (#[trigger] b_[i]).0 == k;
                    assert(all[a_.len() + i] == b_[i]);
                }
            }
        }
    }
}

/// Only object `a` of the list writes `k`, and it gives `k` the value `v`:
/// the list's fields give `k` the value `v`.
proof fn lemma_items_unique(
    m: Map<Seq<char>, InfluxValue>,
    items: Seq<JsonValue>,
    a: int,
    k: Seq<char>,
    v: i64,
)
    requires
        0 <= a < items.len(),
        object_gives(items[a], k, v),
        forall|a2: int|
            0 <= a2 < items.len() && a2 != a ==> !(#[trigger] object_field_names(
                items[a2],
            )).contains(k),
    ensures
        insert_fields(m, items_fields(items))[k] == InfluxValue::Integer(v),
    decreases items.len(),
{
    let init = items.drop_last();
    let last = items.last();
    lemma_insert_fields_append(m, items_fields(init), object_fields(last));
    let before = insert_fields(m, items_fields(init));
    if a == items.len() - 1 {
        lemma_object_gives(before, last, k, v);
    } else {
        assert(init[a] == items[a]);
        assert forall|a2: int| 0 <= a2 < init.len() && a2 != a implies !(#[trigger] object_field_names(
            init[a2],
        )).contains(k) by {
            assert(init[a2] == items[a2]);
        }
        lemma_items_unique(m, init, a, k, v);
        assert(items[items.len() - 1] == last);
        lemma_object_fields_names(last);
        lemma_insert_fields_other(before, object_fields(last), k);
    }
}

/// Law: flattening an object document makes the point that the JSON
/// describes (`flattens_object`).
pub proof fn lemma_object_point_flattens(doc: JsonValue, measurement: Seq<char>)
    ensures
        flattens_object(fields_point(measurement, object_fields(doc)), measurement, doc),
{
    lemma_object_fields_named(doc, measurement);
    assert forall|k: Seq<char>, v: i64| #[trigger] object_gives(doc, k, v) implies fields_point(
        measurement,
        object_fields(doc),
    ).fields[k] == InfluxValue::Integer(v) by {
        lemma_object_gives(Map::empty(), doc, k, v);
    }
}

/// Law: flattening an array document makes the point that the JSON describes
/// (`flattens_array`).
pub proof fn lemma_array_point_flattens(doc: JsonValue, measurement: Seq<char>)
    ensures
        flattens_array(fields_point(measurement, array_fields(doc)), measurement, doc),
{
    let p = fields_point(measurement, array_fields(doc));
    let m = Map::<Seq<char>, InfluxValue>::empty();
    lemma_insert_fields_dom(m, array_fields(doc));
    match doc {
        JsonValue::Array(items) => {
            lemma_items_fields_names(items@);
            assert forall|a: int, k: Seq<char>, v: i64|
                0 <= a < items@.len() && #[trigger] object_gives(items@[a], k, v) && (forall|a2: int|
                    0 <= a2 < items@.len() && a2 != a ==> !(#[trigger] object_field_names(
                        items@[a2],
                    )).contains(k)) implies p.fields[k] == InfluxValue::Integer(v) by {
                lemma_items_unique(m, items@, a, k, v);
            }
        },
        _ => {},
    }
    assert(p.fields.dom() =~= array_field_names(doc));
    assert forall|k: Seq<char>| #[trigger] p.fields.contains_key(k) implies p.fields[k] is Integer by {
        lemma_insert_fields_integer(m, array_fields(doc), k);
    }
}

/// Law: acceptance, read off the JSON. A document flattens as an object
/// exactly when it is an object whose number members are `i64`s and whose
/// object members hold only `i64` numbers; members of any other kind
/// (strings, booleans, nulls, arrays) never make it unacceptable.
pub proof fn lemma_object_accepted_iff(doc: JsonValue)
    ensures
        object_accepted(doc) <==> (doc matches JsonValue::Object(members) && forall|i: int|
            0 <= i < members@.len() ==> {
                let value = (#[trigger] members@[i]).1;
                &&& value is Number ==> value.int_value() is Some
                &&& value is Object ==> forall|j: int|
                    0 <= j < value->Object_0@.len() ==> (#[trigger] value->Object_0@[j]).1.int_value() is Some
            }),
{
}

/// Law: a document flattens as an array exactly when it is an array of
/// documents that each flatten as an object.
pub proof fn lemma_array_accepted_iff(doc: JsonValue)
    ensures
        array_accepted(doc) <==> (doc matches JsonValue::Array(items) && forall|a: int|
            0 <= a < items@.len() ==> object_accepted(#[trigger] items@[a])),
{
}

/// Joins three pieces of text.
pub fn concat3(a: &str, b: &str, c: &str) -> (r: String)
    ensures
        r@ == a@ + b@ + c@,
{
    let mut r = a.to_owned();
    r.append(b);
    r.append(c);
    r
}

/// Writes the fields `key_<member>` of the members of an object value into `point`.
pub fn add_nested_fields(point: &mut Point, key: &String, members: &Vec<(String, JsonValue)>)
    requires
        forall|j: int| 0 <= j < members@.len() ==> (#[trigger] members@[j]).1.int_value() is Some,
    ensures
        point_model(*final(point)) == add_fields(
            point_model(*old(point)),
            nested_fields(key@, members@),
        ),
{
    let ghost start = point_model(*point);
    let ghost all = nested_fields(key@, members@);
    let mut i: usize = 0;
    while i < members.len()
        invariant
            i <= members@.len(),
            all == nested_fields(key@, members@),
            forall|j: int| 0 <= j < members@.len() ==> (#[trigger] members@[j]).1.int_value() is Some,
            point_model(*point) == add_fields(start, all.take(i as int)),
        decreases members.len() - i,
    {
        let member = &members[i];
        let name = concat3(key.as_str(), "_", member.0.as_str());
        proof {
            reveal_strlit("_");
            assert(name@ == joined_key(key@, members@[i as int].0@));
        }
        let v = member.1.as_i64().unwrap();
        point_add_integer_field(point, name, v);
        proof {
            assert(all.take(i + 1).drop_last() =~= all.take(i as int));
        }
        i = i + 1;
    }
    assert(all.take(members@.len() as int) =~= all);
}

/// Writes the fields of one member of the root object into `point`.
pub fn add_member_fields(point: &mut Point, key: &String, value: &JsonValue)
    requires
        member_convertible(*value),
    ensures
        point_model(*final(point)) == add_fields(
            point_model(*old(point)),
            member_fields(key@, *value),
        ),
{
    if let JsonValue::Object(members) = value {
        add_nested_fields(point, key, members);
    } else if let JsonValue::Number(n) = value {
        let v = n.as_i64().unwrap();
        point_add_integer_field(point, key.clone(), v);
        proof {
            let single = member_fields(key@, *value);
            assert(single.drop_last() =~= Seq::<(Seq<char>, i64)>::empty());
            assert(insert_fields(point_model(*old(point)).fields, single.drop_last())
                == point_model(*old(point)).fields);
        }
    }
}

/// Writes the fields of every member of an object into `point`, member by member.
pub fn add_object_fields(point: &mut Point, members: &Vec<(String, JsonValue)>)
    requires
        members_convertible(members@),
    ensures
        point_model(*final(point)) == add_fields(
            point_model(*old(point)),
            members_fields(members@),
        ),
{
    let ghost start = point_model(*point);
    let mut i: usize = 0;
    while i < members.len()
        invariant
            i <= members@.len(),
            members_convertible(members@),
            point_model(*point) == add_fields(start, members_fields(members@.take(i as int))),
        decreases members.len() - i,
    {
        let member = &members[i];
        proof {
            assert(member_convertible(members@[i as int].1));
        }
        add_member_fields(point, &member.0, &member.1);
        proof {
            let before = members@.take(i as int);
            let after = members@.take(i + 1);
            assert(after.drop_last() =~= before);
            lemma_insert_fields_append(
                start.fields,
                members_fields(before),
                member_fields(member.0@, member.1),
            );
        }
        i = i + 1;
    }
    assert(members@.take(members@.len() as int) =~= members@);
}

/// Writes the fields of a list of objects into `point`, one object after the other.
pub fn add_items_fields(point: &mut Point, items: &Vec<JsonValue>)
    requires
        items_accepted(items@),
    ensures
        point_model(*final(point)) == add_fields(point_model(*old(point)), items_fields(items@)),
{
    let ghost start = point_model(*point);
    let mut i: usize = 0;
    while i < items.len()
        invariant
            i <= items@.len(),
            items_accepted(items@),
            point_model(*point) == add_fields(start, items_fields(items@.take(i as int))),
        decreases items.len() - i,
    {
        let item = &items[i];
        proof {
            assert(object_accepted(items@[i as int]));
        }
        match item {
            JsonValue::Object(members) => {
                add_object_fields(point, members);
            },
            _ => {},
        }
        proof {
            let before = items@.take(i as int);
            let after = items@.take(i + 1);
            assert(after.drop_last() =~= before);
            lemma_insert_fields_append(start.fields, items_fields(before), object_fields(*item));
        }
        i = i + 1;
    }
    assert(items@.take(items@.len() as int) =~= items@);
}

/// A point of the given measurement holding the fields of an object's members.
pub fn object_point(members: &Vec<(String, JsonValue)>, measurement_name: &str) -> (p: Point)
    requires
        members_convertible(members@),
    ensures
        point_model(p) == fields_point(measurement_name@, members_fields(members@)),
{
    let mut point = point_new(measurement_name);
    add_object_fields(&mut point, members);
    point
}

/// A point of the given measurement holding the fields of a list of objects.
pub fn items_point(items: &Vec<JsonValue>, measurement_name: &str) -> (p: Point)
    requires
        items_accepted(items@),
    ensures
        point_model(p) == fields_point(measurement_name@, items_fields(items@)),
{
    let mut point = point_new(measurement_name);
    add_items_fields(&mut point, items);
    point
}

/// Whether a member value can be flattened.
pub fn member_is_convertible(value: &JsonValue) -> (r: bool)
    ensures
        r == member_convertible(*value),
{
    match value {
        JsonValue::Object(members) => {
            let mut i: usize = 0;
            while i < members.len()
                invariant
                    i <= members@.len(),
                    *value == JsonValue::Object(*members),
                    forall|j: int| 0 <= j < i ==> (#[trigger] members@[j]).1.int_value() is Some,
                decreases members.len() - i,
            {
                if members[i].1.as_i64().is_none() {
                    assert(members@[i as int].1.int_value() is None);
                    return false;
                }
                i = i + 1;
            }
            true
        },
        JsonValue::Number(n) => n.as_i64().is_some(),
        _ => true,
    }
}

/// Whether a document flattens as an object.
pub fn is_object_accepted(doc: &JsonValue) -> (r: bool)
    ensures
        r == object_accepted(*doc),
{
    match doc {
        JsonValue::Object(members) => {
            let mut i: usize = 0;
            while i < members.len()
                invariant
                    i <= members@.len(),
                    *doc == JsonValue::Object(*members),
                    forall|j: int| 0 <= j < i ==> member_convertible((#[trigger] members@[j]).1),
                decreases members.len() - i,
            {
                if !member_is_convertible(&members[i].1) {
                    assert(!member_convertible(members@[i as int].1));
                    return false;
                }
                i = i + 1;
            }
            true
        },
        _ => false,
    }
}

/// Whether a document flattens as an array of objects.
pub fn is_array_accepted(doc: &JsonValue) -> (r: bool)
    ensures
        r == array_accepted(*doc),
{
    match doc {
        JsonValue::Array(items) => {
            let mut i: usize = 0;
            while i < items.len()
                invariant
                    i <= items@.len(),
                    *doc == JsonValue::Array(*items),
                    forall|j: int| 0 <= j < i ==> object_accepted(#[trigger] items@[j]),
                decreases items.len() - i,
            {
                if !is_object_accepted(&items[i]) {
                    assert(!object_accepted(items@[i as int]));
                    return false;
                }
                i = i + 1;
            }
            true
        },
        _ => false,
    }
}

/// The point of a document flattened as an object.
pub fn object_doc_point(doc: &JsonValue, measurement_name: &str) -> (r: Result<Point, &'static str>)
    requires
        object_accepted(*doc),
    ensures
        r matches Ok(p) && point_model(p) == fields_point(measurement_name@, object_fields(*doc)),
{
    match doc {
        JsonValue::Object(members) => Ok(object_point(members, measurement_name)),
        _ => Err("not a JSON object"),
    }
}

/// The point of a document flattened as an array of objects.
pub fn array_doc_point(doc: &JsonValue, measurement_name: &str) -> (r: Result<Point, &'static str>)
    requires
        array_accepted(*doc),
    ensures
        r matches Ok(p) && point_model(p) == fields_point(measurement_name@, array_fields(*doc)),
{
    match doc {
        JsonValue::Array(items) => Ok(items_point(items, measurement_name)),
        _ => Err("not a JSON array"),
    }
}

} // verus!
