//! The editor's selection among the segments of a timeline, by identifier:
//! which segments may be deleted and which one is selected after a deletion.

use vstd::prelude::*;

verus! {

/// Whether a video segment may be deleted: a timeline keeps at least one.
pub fn can_delete_video_segment(segments: Option<&Vec<u64>>) -> (r: bool)
    ensures
        r == match segments {
            Some(s) => s@.len() > 1,
            None => false,
        },
{
    match segments {
        Some(s) => s.len() > 1,
        None => false,
    }
}

/// The index of the first segment with identifier `id`, if any.
pub fn position_of(ids: &Vec<u64>, id: u64) -> (r: Option<usize>)
    ensures
        match r {
            Some(i) => i < ids@.len() && ids@[i as int] == id && forall|j: int| 0 <= j < i ==> ids@[j] != id,
            None => !ids@.contains(id),
        },
{
    let mut i: usize = 0;
    while i < ids.len()
        invariant
            i <= ids@.len(),
            forall|j: int| 0 <= j < i ==> ids@[j] != id,
        decreases ids@.len() - i,
    {
        if ids[i] == id {
            return Some(i);
        }
        i = i + 1;
    }
    None
}

/// The segment selected after the one at `index` was removed, leaving
/// `remaining`: the one that took its place, else the one before it.
pub open spec fn selection_after_removal(remaining: Seq<u64>, index: int) -> Option<u64> {
    if 0 <= index < remaining.len() {
        Some(remaining[index])
    } else if 0 <= index - 1 < remaining.len() {
        Some(remaining[index - 1])
    } else {
        None
    }
}

/// Removes the selected video segment `selected` from `ids` when a timeline
/// would keep at least one segment. Returns the index it had, and the new
/// selection; `None` when nothing was removed.
pub fn delete_video_segment(ids: &mut Vec<u64>, selected: u64) -> (r: Option<(usize, Option<u64>)>)
    ensures
        old(ids)@.len() <= 1 || !old(ids)@.contains(selected) ==> r is None && final(ids)@ == old(ids)@,
        r matches Some((i, next)) ==> {
            &&& old(ids)@.len() > 1
            &&& i < old(ids)@.len()
            &&& old(ids)@[i as int] == selected
            &&& forall|j: int| 0 <= j < i ==> old(ids)@[j] != selected
            &&& final(ids)@ == old(ids)@.remove(i as int)
            &&& next == selection_after_removal(final(ids)@, i as int)
        },
        old(ids)@.len() > 1 && old(ids)@.contains(selected) ==> r is Some,
{
    if ids.len() <= 1 {
        return None;
    }
    let i = match position_of(ids, selected) {
        Some(i) => i,
        None => return None,
    };
    ids.remove(i);
    let next = if i < ids.len() {
        Some(ids[i])
    } else if i >= 1 && i - 1 < ids.len() {
        Some(ids[i - 1])
    } else {
        None
    };
    Some((i, next))
}

/// Removes every zoom segment with identifier `id`; returns whether any was.
pub fn delete_zoom_segment(ids: &mut Vec<u64>, id: u64) -> (r: bool)
    ensures
        final(ids)@ == old(ids)@.filter(|x: u64| x != id),
        r == old(ids)@.contains(id),
{
    let mut kept: Vec<u64> = Vec::new();
    let mut found = false;
    let mut i: usize = 0;
    let ghost start = ids@;
    while i < ids.len()
        invariant
            i <= ids@.len(),
            ids@ == start,
            kept@ == start.take(i as int).filter(|x: u64| x != id),
            found == exists|k: int| 0 <= k < i && start[k] == id,
        decreases ids@.len() - i,
    {
        proof {
            start.take(i as int).lemma_filter_push(start[i as int], |x: u64| x != id);
            assert(start.take(i as int).push(start[i as int]) =~= start.take(i + 1));
        }
        if ids[i] != id {
            kept.push(ids[i]);
        } else {
            found = true;
        }
        i = i + 1;
    }
    proof {
        assert(start.take(start.len() as int) =~= start);
    }
    *ids = kept;
    found
}

} // verus!
