//! Cycling a display selection through the list of live agent ids.

use vstd::prelude::*;

verus! {

/// The position the cycling starts from: the first occurrence of the
/// current id, or the head of the list when it no longer occurs.
pub open spec fn anchor_pos(ids: Seq<u32>, current: u32) -> int {
    if ids.contains(current) {
        ids.index_of_first(current)->Some_0
    } else {
        0
    }
}

/// The id selected after stepping forward from `current`, wrapping at
/// the end of the list.
pub open spec fn next_selected(ids: Seq<u32>, current: Option<u32>) -> u32
    recommends
        ids.len() > 0,
{
    match current {
        Option::None => ids[0],
        Option::Some(c) => ids[(anchor_pos(ids, c) + 1) % (ids.len() as int)],
    }
}

/// The id selected after stepping backward from `current`, wrapping at
/// the head of the list.
pub open spec fn previous_selected(ids: Seq<u32>, current: Option<u32>) -> u32
    recommends
        ids.len() > 0,
{
    match current {
        Option::None => ids[ids.len() - 1],
        Option::Some(c) => {
            let p = anchor_pos(ids, c);
            if p == 0 {
                ids[ids.len() - 1]
            } else {
                ids[p - 1]
            }
        },
    }
}

/// The first position of `v` in `ids`, or the head when it is absent.
#[verifier::loop_isolation(false)]
fn find_anchor(ids: &Vec<u32>, v: u32) -> (r: usize)
    requires
        ids@.len() > 0,
    ensures
        r < ids@.len(),
        r == anchor_pos(ids@, v),
{
    proof {
        ids@.index_of_first_ensures(v);
    }
    let n: usize = ids.len();
    let mut i: usize = 0;
    while i < n
        invariant
            i <= n,
            n == ids@.len(),
            forall|k: int| 0 <= k < i ==> ids@[k] != v,
        decreases n - i,
    {
        if ids[i] == v {
            proof {
                assert(ids@.contains(v));
            }
            return i;
        }
        i = i + 1;
    }
    proof {
        assert(!ids@.contains(v));
    }
    0
}

/// The selection after a step forward: the next id in the list, the
/// first one when nothing was selected, and no change on an empty list.
pub fn select_next(ids: &Vec<u32>, current: Option<u32>) -> (r: Option<u32>)
    ensures
        r is Some <==> ids@.len() > 0,
        r matches Some(id) ==> id == next_selected(ids@, current),
{
    if ids.len() == 0 {
        return None;
    }
    match current {
        Option::None => Some(ids[0]),
        Option::Some(c) => {
            let p: usize = find_anchor(ids, c);
            Some(ids[(p + 1) % ids.len()])
        },
    }
}

/// The selection after a step backward: the previous id in the list,
/// the last one when nothing was selected, and no change on an empty
/// list.
pub fn select_previous(ids: &Vec<u32>, current: Option<u32>) -> (r: Option<u32>)
    ensures
        r is Some <==> ids@.len() > 0,
        r matches Some(id) ==> id == previous_selected(ids@, current),
{
    if ids.len() == 0 {
        return None;
    }
    match current {
        Option::None => Some(ids[ids.len() - 1]),
        Option::Some(c) => {
            let p: usize = find_anchor(ids, c);
            if p == 0 {
                Some(ids[ids.len() - 1])
            } else {
                Some(ids[p - 1])
            }
        },
    }
}

} // verus!
