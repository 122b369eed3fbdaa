//! Bookkeeping for playlists: how often each track is referenced by the
//! entries of a playlist.

use std::collections::HashMap;

use vstd::prelude::*;

verus! {

/// The number of entries that refer to the track `track_id`.
pub open spec fn ref_count(entries: Seq<Option<i64>>, track_id: i64) -> nat
    decreases entries.len(),
{
    if entries.len() == 0 {
        0
    } else {
        ref_count(entries.drop_last(), track_id) + if entries.last() == Some(track_id) {
            1nat
        } else {
            0nat
        }
    }
}

proof fn lemma_ref_count_bound(entries: Seq<Option<i64>>, track_id: i64)
    ensures
        ref_count(entries, track_id) <= entries.len(),
    decreases entries.len(),
{
    if entries.len() > 0 {
        lemma_ref_count_bound(entries.drop_last(), track_id);
    }
}

/// The reference counts of the tracks in the entries of a playlist: each
/// referenced track with the number of entries that refer to it. Each
/// entry is the track it refers to, or `None` for a separator or a track
/// that is not known.
pub fn track_ref_counts(entries: &[Option<i64>]) -> (counts: HashMap<i64, usize>)
    ensures
        forall|track_id: i64| #[trigger] counts@.contains_key(track_id) <==> ref_count(entries@, track_id) > 0,
        forall|track_id: i64| #[trigger] counts@.contains_key(track_id) ==> counts@[track_id] == ref_count(
            entries@,
            track_id,
        ),
{
    broadcast use vstd::std_specs::hash::group_hash_axioms;

    let mut counts: HashMap<i64, usize> = HashMap::new();
    let mut i: usize = 0;
    while i < entries.len()
        invariant
            i <= entries.len(),
            forall|track_id: i64| #[trigger] counts@.contains_key(track_id) <==> ref_count(
                entries@.take(i as int),
                track_id,
            ) > 0,
            forall|track_id: i64| #[trigger] counts@.contains_key(track_id) ==> counts@[track_id] == ref_count(
                entries@.take(i as int),
                track_id,
            ),
        decreases entries.len() - i,
    {
        let ghost prefix = entries@.take(i as int);
        let ghost next = entries@.take(i + 1);
        assert(next.drop_last() =~= prefix);
        assert(next.last() == entries@[i as int]);
        if let Some(track_id) = entries[i] {
            proof {
                lemma_ref_count_bound(prefix, track_id);
            }
            let count: usize = match counts.get(&track_id) {
                Some(count) => *count,
                None => 0,
            };
            counts.insert(track_id, count + 1);
            assert forall|t: i64| #[trigger] counts@.contains_key(t) <==> ref_count(next, t) > 0 by {
                assert(ref_count(next, t) == ref_count(prefix, t) + if t == track_id { 1nat } else { 0nat });
            }
        } else {
            assert forall|t: i64| #[trigger] counts@.contains_key(t) <==> ref_count(next, t) > 0 by {
                assert(ref_count(next, t) == ref_count(prefix, t));
            }
        }
        i += 1;
    }
    assert(entries@.take(i as int) =~= entries@);
    counts
}

} // verus!
