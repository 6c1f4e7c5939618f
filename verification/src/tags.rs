//! Tagging and timestamping points.

use vstd::prelude::*;
use crate::clock::now_seconds;
use crate::influx::{point_add_string_tag, point_add_timestamp, point_model, InfluxValue, PointModel};
use influx_db_client::Point;

verus! {

/// A tag map after setting string tags in order; a later tag replaces an
/// earlier one of the same name.
pub open spec fn insert_tags(
    m: Map<Seq<char>, InfluxValue>,
    tags: Seq<(String, String)>,
) -> Map<Seq<char>, InfluxValue>
    decreases tags.len(),
{
    if tags.len() == 0 {
        m
    } else {
        insert_tags(m, tags.drop_last()).insert(
            tags.last().0@,
            InfluxValue::Str(tags.last().1@),
        )
    }
}

/// A point with string tags set in order.
pub open spec fn tagged(p: PointModel, tags: Seq<(String, String)>) -> PointModel {
    PointModel { tags: insert_tags(p.tags, tags), ..p }
}

/// `p` is `base` with the tags set and, where there was at least one tag, a
/// timestamp taken while tagging.
pub open spec fn stamped(p: PointModel, base: PointModel, tags: Seq<(String, String)>) -> bool {
    if tags.len() == 0 {
        p == base
    } else {
        exists|t: i64| p == #[trigger] tagged(base, tags).with_timestamp(t)
    }
}

/// The tag names of a list are pairwise distinct, as the keys of a map are.
pub open spec fn distinct_tag_names(tags: Seq<(String, String)>) -> bool {
    forall|i: int, j: int|
        0 <= i < tags.len() && 0 <= j < tags.len() && i != j ==> (#[trigger] tags[i]).0@
            != (#[trigger] tags[j]).0@
}

/// With pairwise distinct names, setting a list of tags sets each of them to
/// its own value, whatever the order of the list, and leaves every other tag
/// as it was.
pub proof fn lemma_distinct_tags(m: Map<Seq<char>, InfluxValue>, tags: Seq<(String, String)>)
    requires
        distinct_tag_names(tags),
    ensures
        forall|i: int|
            0 <= i < tags.len() ==> insert_tags(m, tags).contains_key(#[trigger] tags[i].0@)
                && insert_tags(m, tags)[tags[i].0@] == InfluxValue::Str(tags[i].1@),
        forall|k: Seq<char>|
            (forall|i: int| 0 <= i < tags.len() ==> #[trigger] tags[i].0@ != k) ==> (
            #[trigger] insert_tags(m, tags).contains_key(k) == m.contains_key(k) && (
            m.contains_key(k) ==> insert_tags(m, tags)[k] == m[k])),
    decreases tags.len(),
{
    if tags.len() > 0 {
        let init = tags.drop_last();
        let last = tags.last();
        assert(distinct_tag_names(init)) by {
            assert forall|i: int, j: int|
                0 <= i < init.len() && 0 <= j < init.len() && i != j implies (#[trigger] init[i]).0@
                != (#[trigger] init[j]).0@ by {
                assert(init[i] == tags[i]);
                assert(init[j] == tags[j]);
            }
        }
        lemma_distinct_tags(m, init);
        assert forall|i: int|
            0 <= i < tags.len() implies insert_tags(m, tags).contains_key(#[trigger] tags[i].0@)
                && insert_tags(m, tags)[tags[i].0@] == InfluxValue::Str(tags[i].1@) by {
            if i < tags.len() - 1 {
                assert(init[i] == tags[i]);
                assert(tags[i].0@ != tags[tags.len() - 1].0@);
            }
        }
        assert forall|k: Seq<char>|
            (forall|i: int| 0 <= i < tags.len() ==> #[trigger] tags[i].0@ != k) implies (
            #[trigger] insert_tags(m, tags).contains_key(k) == m.contains_key(k) && (
            m.contains_key(k) ==> insert_tags(m, tags)[k] == m[k])) by {
            assert(tags[tags.len() - 1].0@ != k);
            assert forall|i: int| 0 <= i < init.len() implies #[trigger] init[i].0@ != k by {
                assert(init[i] == tags[i]);
            }
        }
    }
}

/// Sets one tag of a point and its timestamp.
pub fn tag_point(point: &mut Point, tag: &String, value: &String, timestamp: i64)
    ensures
        point_model(*final(point)) == point_model(*old(point)).with_tag(
            tag@,
            InfluxValue::Str(value@),
        ).with_timestamp(timestamp),
{
    point_add_string_tag(point, tag, value.clone());
    point_add_timestamp(point, timestamp);
}

/// Sets every tag of the list on a point, in order.
pub fn add_tags(point: &mut Point, tags: &Vec<(String, String)>)
    ensures
        point_model(*final(point)) == tagged(point_model(*old(point)), tags@),
{
    let ghost start = point_model(*point);
    let mut i: usize = 0;
    while i < tags.len()
        invariant
            i <= tags@.len(),
            point_model(*point) == tagged(start, tags@.take(i as int)),
        decreases tags.len() - i,
    {
        let tag = &tags[i];
        point_add_string_tag(point, &tag.0, tag.1.clone());
        proof {
            assert(tags@.take(i + 1).drop_last() =~= tags@.take(i as int));
        }
        i = i + 1;
    }
    assert(tags@.take(tags@.len() as int) =~= tags@);
}

/// Sets every tag of the list on every point; each time a tag is set on a
/// point, the point's timestamp is set to the current time.
pub fn tag_points(points: &mut Vec<Point>, tags: &Vec<(String, String)>)
    ensures
        final(points)@.len() == old(points)@.len(),
        forall|j: int|
            0 <= j < old(points)@.len() ==> stamped(
                point_model(#[trigger] final(points)@[j]),
                point_model(old(points)@[j]),
                tags@,
            ),
{
    let ghost base = points@.map_values(|p: Point| point_model(p));
    let mut t: usize = 0;
    while t < tags.len()
        invariant
            t <= tags@.len(),
            points@.len() == base.len(),
            base == old(points)@.map_values(|p: Point| point_model(p)),
            forall|j: int|
                0 <= j < base.len() ==> stamped(
                    point_model(#[trigger] points@[j]),
                    base[j],
                    tags@.take(t as int),
                ),
        decreases tags.len() - t,
    {
        let tag = &tags[t];
        let mut j: usize = 0;
        while j < points.len()
            invariant
                t < tags@.len(),
                *tag == tags@[t as int],
                j <= points@.len(),
                points@.len() == base.len(),
                forall|k: int|
                    0 <= k < j ==> stamped(
                        point_model(#[trigger] points@[k]),
                        base[k],
                        tags@.take(t + 1),
                    ),
                forall|k: int|
                    j <= k < base.len() ==> stamped(
                        point_model(#[trigger] points@[k]),
                        base[k],
                        tags@.take(t as int),
                    ),
            decreases points.len() - j,
        {
            let now = now_seconds();
            let ghost before = point_model(points@[j as int]);
            tag_point(&mut points[j], &tag.0, &tag.1, now);
            proof {
                let b = base[j as int];
                let prev = tags@.take(t as int);
                let next = tags@.take(t + 1);
                assert(next.drop_last() =~= prev);
                let after = point_model(points@[j as int]);
                assert(after == tagged(b, next).with_timestamp(now)) by {
                    if t == 0 {
                        assert(prev =~= Seq::<(String, String)>::empty());
                        assert(before == b);
                    } else {
                        let t0 = choose|t0: i64| before == #[trigger] tagged(b, prev).with_timestamp(t0);
                        assert(before == tagged(b, prev).with_timestamp(t0));
                    }
                }
                assert(stamped(after, b, next));
            }
            j = j + 1;
        }
        t = t + 1;
    }
    assert(tags@.take(tags@.len() as int) =~= tags@);
}

/// Sets every tag of the list on a point, then stamps it with `timestamp`.
pub fn stamp_point(point: &mut Point, tags: &Vec<(String, String)>, timestamp: i64)
    ensures
        point_model(*final(point)) == tagged(point_model(*old(point)), tags@).with_timestamp(
            timestamp,
        ),
{
    add_tags(point, tags);
    point_add_timestamp(point, timestamp);
}

/// Whether the tag names of a list are pairwise distinct.
pub fn has_distinct_tag_names(tags: &Vec<(String, String)>) -> (r: bool)
    ensures
        r == distinct_tag_names(tags@),
{
    let mut i: usize = 0;
    while i < tags.len()
        invariant
            i <= tags@.len(),
            forall|a: int, b: int|
                0 <= a < i && 0 <= b < tags@.len() && a != b ==> (#[trigger] tags@[a]).0@
                    != (#[trigger] tags@[b]).0@,
        decreases tags.len() - i,
    {
        let mut j: usize = 0;
        while j < tags.len()
            invariant
                i < tags@.len(),
                j <= tags@.len(),
                forall|a: int, b: int|
                    0 <= a < i && 0 <= b < tags@.len() && a != b ==> (#[trigger] tags@[a]).0@
                        != (#[trigger] tags@[b]).0@,
                forall|b: int| 0 <= b < j && b != i ==> tags@[i as int].0@ != (#[trigger] tags@[b]).0@,
            decreases tags.len() - j,
        {
            if j != i && tags[i].0 == tags[j].0 {
                assert(tags@[i as int].0@ == tags@[j as int].0@);
                return false;
            }
            j = j + 1;
        }
        i = i + 1;
    }
    true
}

} // verus!
