//! Merging of segments: which segments a caller may ask to merge.
use vstd::prelude::*;
use crate::engine::{segment_id_parses, segment_id_valid};
use crate::text::texts;

verus! {

/// Whether every text is the identifier of a segment.
pub open spec fn all_segment_ids(ids: Seq<Seq<char>>) -> bool {
    forall|i: int| 0 <= i < ids.len() ==> segment_id_valid(#[trigger] ids[i])
}

/// Whether a merge can be asked for: there is a segment, and every text is
/// the identifier of one.
pub open spec fn mergeable(ids: Seq<Seq<char>>) -> bool {
    ids.len() > 0 && all_segment_ids(ids)
}

/// Judges a list of segments by what the engine made of each identifier.
pub fn merge_request_checked(valid: &Vec<bool>) -> (ok: bool)
    ensures
        ok == (valid@.len() > 0 && forall|i: int| 0 <= i < valid@.len() ==> valid@[i]),
{
    let mut i: usize = 0;
    while i < valid.len()
        invariant
            i <= valid.len(),
            forall|k: int| 0 <= k < i ==> valid@[k],
        decreases valid.len() - i,
    {
        if !valid[i] {
            return false;
        }
        i += 1;
    }
    valid.len() > 0
}

/// Checks the segments of a merge that is asked for.
pub fn index_writer_merge_segments(segment_ids: &Vec<String>) -> (ok: bool)
    ensures
        ok == mergeable(texts(segment_ids@)),
{
    let ghost ids = texts(segment_ids@);
    let mut valid: Vec<bool> = Vec::new();
    let mut i: usize = 0;
    while i < segment_ids.len()
        invariant
            i <= segment_ids.len(),
            ids == texts(segment_ids@),
            valid.len() == i,
            forall|k: int| 0 <= k < i ==> valid@[k] == segment_id_valid(#[trigger] ids[k]),
        decreases segment_ids.len() - i,
    {
        let ok = segment_id_parses(segment_ids[i].as_str());
        proof {
            assert(ids[i as int] == segment_ids@[i as int]@);
        }
        valid.push(ok);
        i += 1;
    }
    let ok = merge_request_checked(&valid);
    proof {
        if ok {
            assert forall|k: int| 0 <= k < ids.len() implies segment_id_valid(
                #[trigger] ids[k],
            ) by {
                assert(valid@[k]);
            }
        } else if ids.len() > 0 {
            let k = choose|k: int| 0 <= k < valid@.len() && !valid@[k];
            assert(!segment_id_valid(ids[k]));
        }
    }
    ok
}

} // verus!
