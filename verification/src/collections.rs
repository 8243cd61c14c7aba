//! How clips are organised: the names of tags and collections, and the
//! order of the clips in a collection.
use vstd::prelude::*;
use crate::text::{owned, trim, trim_str};

verus! {

/// `tag_name` without its surrounding whitespace; refused when nothing is
/// left.
pub fn normalized_tag_name(tag_name: &str) -> (r: Result<String, String>)
    ensures
        trim(tag_name@).len() == 0 <==> r is Err,
        r matches Ok(n) ==> n@ == trim(tag_name@),
        r matches Err(m) ==> m@ == "tag name cannot be empty"@,
{
    let t = trim_str(tag_name);
    if t.as_str().is_empty() {
        Err(owned("tag name cannot be empty"))
    } else {
        Ok(t)
    }
}

/// `name` without its surrounding whitespace; refused when nothing is left.
pub fn normalized_collection_name(name: &str) -> (r: Result<String, String>)
    ensures
        trim(name@).len() == 0 <==> r is Err,
        r matches Ok(n) ==> n@ == trim(name@),
        r matches Err(m) ==> m@ == "collection name cannot be empty"@,
{
    let t = trim_str(name);
    if t.as_str().is_empty() {
        Err(owned("collection name cannot be empty"))
    } else {
        Ok(t)
    }
}

/// An optional text without its surrounding whitespace; none when nothing
/// is left.
pub fn normalized_optional_text(value: Option<&str>) -> (r: Option<String>)
    ensures
        match value {
            Some(v) => if trim(v@).len() == 0 {
                r is None
            } else {
                r matches Some(t) && t@ == trim(v@)
            },
            None => r is None,
        },
{
    match value {
        Some(v) => {
            let t = trim_str(v);
            if t.as_str().is_empty() {
                None
            } else {
                Some(t)
            }
        },
        None => None,
    }
}

/// The place a clip added to a collection takes: after the last one, or
/// first in an empty collection.
pub fn next_collection_sequence_index(max_index: Option<i64>) -> (r: i64)
    requires
        max_index matches Some(m) ==> m < i64::MAX,
    ensures
        r == match max_index {
            Some(m) => m + 1,
            None => 0,
        },
{
    match max_index {
        Some(m) => m + 1,
        None => 0,
    }
}

/// Where `x` first stands in `s`.
pub open spec fn first_position(s: Seq<i64>, x: i64) -> Option<int>
    decreases s.len(),
{
    if s.len() == 0 {
        None
    } else if s[0] == x {
        Some(0)
    } else {
        match first_position(s.drop_first(), x) {
            Some(i) => Some(i + 1),
            None => None,
        }
    }
}

/// The first position of `x` is the `i` before which it does not stand.
pub proof fn lemma_first_position(s: Seq<i64>, x: i64, i: int)
    requires
        0 <= i < s.len(),
        s[i] == x,
        forall|k: int| 0 <= k < i ==> s[k] != x,
    ensures
        first_position(s, x) == Some(i),
    decreases i,
{
    if i > 0 {
        lemma_first_position(s.drop_first(), x, i - 1);
    }
}

/// A value that is not in `s` has no position there.
pub proof fn lemma_first_position_none(s: Seq<i64>, x: i64)
    requires
        !s.contains(x),
    ensures
        first_position(s, x) is None,
    decreases s.len(),
{
    if s.len() > 0 {
        assert(s.drop_first().contains(x) ==> s.contains(x)) by {
            if s.drop_first().contains(x) {
                let k = choose|k: int| 0 <= k < s.drop_first().len() && s.drop_first()[k] == x;
                assert(s[k + 1] == x);
            }
        }
        assert(s[0] != x) by {
            if s[0] == x {
                assert(s.contains(x));
            }
        }
        lemma_first_position_none(s.drop_first(), x);
    }
}

/// Where a clip at `index` of a collection of `len` clips goes when it is
/// moved one place towards the front (`direction` below zero) or the back:
/// it stays put at either end.
pub open spec fn move_target(len: int, index: int, direction: i32) -> int {
    if direction < 0 {
        if index == 0 {
            0
        } else {
            index - 1
        }
    } else if index + 1 < len {
        index + 1
    } else {
        len - 1
    }
}

/// The order of a collection after its clip `clip_id` is moved one place;
/// none when nothing changes: no direction, the clip is not in it, or it is
/// already at that end.
pub open spec fn moved_order(order: Seq<i64>, clip_id: i64, direction: i32) -> Option<Seq<i64>> {
    if direction == 0 {
        None
    } else {
        match first_position(order, clip_id) {
            None => None,
            Some(i) => {
                let t = move_target(order.len() as int, i, direction);
                if t == i {
                    None
                } else {
                    Some(order.update(i, order[t]).update(t, order[i]))
                }
            },
        }
    }
}

/// The clips of a collection, in order, after `clip_id` is moved one place
/// towards the front (`direction` below zero) or the back (above zero);
/// none when the order stays as it is.
pub fn move_within_collection(order: &Vec<i64>, clip_id: i64, direction: i32) -> (r: Option<Vec<i64>>)
    ensures
        match (r, moved_order(order@, clip_id, direction)) {
            (Some(v), Some(s)) => v@ == s,
            (None, None) => true,
            _ => false,
        },
{
    if direction == 0 {
        return None;
    }
    let mut i: usize = 0;
    while i < order.len() && order[i] != clip_id
        invariant
            i <= order.len(),
            forall|k: int| 0 <= k < i ==> order@[k] != clip_id,
        decreases order.len() - i,
    {
        i = i + 1;
    }
    if i == order.len() {
        proof {
            assert(!order@.contains(clip_id));
            lemma_first_position_none(order@, clip_id);
        }
        return None;
    }
    proof {
        lemma_first_position(order@, clip_id, i as int);
    }
    let target: usize = if direction < 0 {
        if i == 0 {
            0
        } else {
            i - 1
        }
    } else if i + 1 < order.len() {
        i + 1
    } else {
        order.len() - 1
    };
    if target == i {
        return None;
    }
    let mut v = order.clone();
    let a = v[i];
    let b = v[target];
    v.set(i, b);
    v.set(target, a);
    Some(v)
}

/// Whether no clip stands twice in `order`, as in any collection.
pub open spec fn distinct_clips(order: Seq<i64>) -> bool {
    forall|a: int, b: int| 0 <= a < b < order.len() ==> order[a] != order[b]
}

/// Moving a clip of a collection one place towards the front and then one
/// place towards the back gives the order back, and the other way round.
pub proof fn lemma_move_back_and_forth(order: Seq<i64>, clip_id: i64, direction: i32)
    requires
        distinct_clips(order),
        direction != 0,
        moved_order(order, clip_id, direction) is Some,
    ensures
        moved_order(moved_order(order, clip_id, direction)->0, clip_id, if direction < 0 { 1i32 } else { -1i32 })
            == Some(order),
{
    let i = first_position(order, clip_id)->0;
    lemma_first_position_facts(order, clip_id);
    let t = move_target(order.len() as int, i, direction);
    let moved = order.update(i, order[t]).update(t, order[i]);
    assert(moved[t] == clip_id);
    assert forall|k: int| 0 <= k < t implies moved[k] != clip_id by {
        if k == i {
            assert(moved[k] == order[t]);
        } else {
            assert(moved[k] == order[k]);
        }
    }
    lemma_first_position(moved, clip_id, t);
    assert(moved.update(t, moved[i]).update(i, moved[t]) =~= order);
}

/// The first position of a value is where it stands, and it stands nowhere
/// before.
pub proof fn lemma_first_position_facts(s: Seq<i64>, x: i64)
    requires
        first_position(s, x) is Some,
    ensures
        0 <= first_position(s, x)->0 < s.len(),
        s[first_position(s, x)->0] == x,
        forall|k: int| 0 <= k < first_position(s, x)->0 ==> s[k] != x,
    decreases s.len(),
{
    if s[0] != x {
        lemma_first_position_facts(s.drop_first(), x);
        assert forall|k: int| 0 <= k < first_position(s, x)->0 implies s[k] != x by {
            if k > 0 {
                assert(s[k] == s.drop_first()[k - 1]);
            }
        }
    }
}

/// The clips of `clip_ids` that a collection holding `existing` does not
/// have yet, each with the place it takes, counting up from `next`.
pub open spec fn additions(existing: Seq<i64>, clip_ids: Seq<i64>, next: int) -> Seq<(i64, int)>
    decreases clip_ids.len(),
{
    if clip_ids.len() == 0 {
        Seq::empty()
    } else {
        let before = additions(existing, clip_ids.drop_last(), next);
        if existing.contains(clip_ids.last()) {
            before
        } else {
            before.push((clip_ids.last(), next + before.len()))
        }
    }
}

/// What adding `clip_ids` to a collection that holds `existing`, whose next
/// free place is `next_index`, inserts: the clips it does not hold yet, in
/// the order given, at consecutive places.
pub fn collection_additions(existing: &Vec<i64>, clip_ids: &Vec<i64>, next_index: i64) -> (r: Vec<(i64, i64)>)
    requires
        next_index + clip_ids@.len() <= i64::MAX,
    ensures
        r@.map_values(|p: (i64, i64)| (p.0, p.1 as int)) == additions(existing@, clip_ids@, next_index as int),
        forall|k: int| 0 <= k < r@.len() ==> (#[trigger] r@[k]).1 == next_index + k && !existing@.contains(r@[k].0),
{
    let mut r: Vec<(i64, i64)> = Vec::new();
    let mut next = next_index;
    let mut i: usize = 0;
    while i < clip_ids.len()
        invariant
            i <= clip_ids.len(),
            next_index + clip_ids@.len() <= i64::MAX,
            r@.len() <= i,
            next == next_index + r@.len(),
            r@.map_values(|p: (i64, i64)| (p.0, p.1 as int)) == additions(existing@, clip_ids@.take(i as int), next_index as int),
            forall|k: int| 0 <= k < r@.len() ==> (#[trigger] r@[k]).1 == next_index + k && !existing@.contains(r@[k].0),
        decreases clip_ids.len() - i,
    {
        let c = clip_ids[i];
        let mut held = false;
        let mut j: usize = 0;
        while j < existing.len()
            invariant
                j <= existing.len(),
                held <==> exists|k: int| 0 <= k < j && existing@[k] == c,
            decreases existing.len() - j,
        {
            if existing[j] == c {
                held = true;
            }
            j = j + 1;
        }
        let ghost before = r@;
        assert(clip_ids@.take(i as int + 1).drop_last() =~= clip_ids@.take(i as int));
        assert(clip_ids@.take(i as int + 1).last() == c);
        if !held {
            r.push((c, next));
            next = next + 1;
            assert(r@.map_values(|p: (i64, i64)| (p.0, p.1 as int)) =~= before.map_values(
                |p: (i64, i64)| (p.0, p.1 as int),
            ).push((c, next_index + before.len())));
        }
        i = i + 1;
    }
    assert(clip_ids@.take(clip_ids@.len() as int) =~= clip_ids@);
    r
}

} // verus!
