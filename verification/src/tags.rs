//! The "all of" match between the tags asked for and the tags of a record.

use vstd::prelude::*;
use crate::types::Tag;
use crate::types::tags_view;
use crate::bytes::bytes_eq;

verus! {

/// Whether every target occurs among the tags of the range.
pub open spec fn covers(targets: Seq<Seq<u8>>, range: Seq<Seq<u8>>) -> bool {
    forall|i: int| 0 <= i < targets.len() ==> range.contains(#[trigger] targets[i])
}

/// Whether a tag occurs in a list of tags.
pub fn has_tag(range: &Vec<Tag>, tag: &Tag) -> (found: bool)
    ensures
        found == tags_view(range@).contains(tag@),
{
    let mut j: usize = 0;
    while j < range.len()
        invariant
            j <= range.len(),
            forall|k: int| 0 <= k < j ==> tags_view(range@)[k] != tag@,
        decreases range.len() - j,
    {
        if bytes_eq(&range[j], tag) {
            assert(tags_view(range@)[j as int] == tag@);
            return true;
        }
        j += 1;
    }
    false
}

/// Whether the range holds all the targets: tags of the range that are no
/// target do not matter, and neither does the order of either list.
pub fn is_in_tags(targets: &Vec<Tag>, range: &Vec<Tag>) -> (all: bool)
    ensures
        all == covers(tags_view(targets@), tags_view(range@)),
{
    let mut i: usize = 0;
    while i < targets.len()
        invariant
            i <= targets.len(),
            forall|k: int| 0 <= k < i ==> tags_view(range@).contains(#[trigger] tags_view(targets@)[k]),
        decreases targets.len() - i,
    {
        if !has_tag(range, &targets[i]) {
            assert(!tags_view(range@).contains(tags_view(targets@)[i as int]));
            return false;
        }
        i += 1;
    }
    true
}

} // verus!
