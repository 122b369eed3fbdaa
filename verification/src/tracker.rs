//! Tracking the digests of media directories between scans.
//!
//! Each tracked directory of a collection is identified by its URI and has
//! a status, the digest of its last scan and the time of its last update.
//! The rules below decide how the entries change when a new digest or a new
//! status arrives.

use vstd::prelude::*;

use crate::text::{str_eq, str_starts_with};

verus! {

#[derive(Debug, Clone, Copy, PartialEq, Eq, Structural)]
pub enum TrackingStatus {
    /// Unchanged since the last scan.
    Current,
    /// Marked for a rescan.
    Outdated,
    /// New in the last scan, not yet processed.
    Added,
    /// Changed in the last scan, not yet processed.
    Modified,
    /// Not found in the last scan.
    Orphaned,
}

#[derive(Debug, Clone, Copy, PartialEq, Eq, Structural)]
pub enum UpdateOutcome {
    /// The digest is unchanged and the entry is current again.
    Current,
    /// A new entry was added.
    Inserted,
    /// The digest has changed.
    Updated,
    /// Nothing changed: the entry is still waiting to be processed.
    Skipped,
}

#[derive(Debug, Clone, Copy, PartialEq, Eq)]
pub struct TrackedEntry {
    pub status: TrackingStatus,
    pub digest: [u8; 32],
    /// Milliseconds since the Unix epoch.
    pub updated_at_ms: i64,
}

/// The outcome of a new digest for a directory, and its entry afterwards:
/// an unknown directory is added; a changed digest marks it as modified; an
/// unchanged digest makes an outdated or orphaned entry current again, while
/// an entry that is still waiting to be processed is left alone.
pub open spec fn digest_update(entry: Option<TrackedEntry>, updated_at_ms: i64, digest: [u8; 32]) -> (UpdateOutcome, TrackedEntry) {
    match entry {
        None => (UpdateOutcome::Inserted, TrackedEntry { status: TrackingStatus::Added, digest, updated_at_ms }),
        Some(e) => if e.digest@ == digest@ {
            if e.status == TrackingStatus::Outdated || e.status == TrackingStatus::Orphaned {
                (UpdateOutcome::Current, TrackedEntry { status: TrackingStatus::Current, updated_at_ms, ..e })
            } else {
                (UpdateOutcome::Skipped, e)
            }
        } else {
            (UpdateOutcome::Updated, TrackedEntry { status: TrackingStatus::Modified, digest, updated_at_ms })
        },
    }
}

fn digests_equal(a: &[u8; 32], b: &[u8; 32]) -> (eq: bool)
    ensures
        eq == (a@ == b@),
{
    let mut i: usize = 0;
    while i < 32
        invariant
            i <= 32,
            a@.len() == 32,
            b@.len() == 32,
            forall|j: int| 0 <= j < i ==> a@[j] == b@[j],
        decreases 32 - i,
    {
        if a[i] != b[i] {
            return false;
        }
        i += 1;
    }
    assert(a@ =~= b@);
    true
}

/// The entry after a new digest, as [`digest_update`] says.
fn next_entry(entry: Option<TrackedEntry>, updated_at_ms: i64, digest: &[u8; 32]) -> (next: (UpdateOutcome, TrackedEntry))
    ensures
        next == digest_update(entry, updated_at_ms, *digest),
{
    match entry {
        None => (UpdateOutcome::Inserted, TrackedEntry { status: TrackingStatus::Added, digest: *digest, updated_at_ms }),
        Some(e) => {
            if digests_equal(&e.digest, digest) {
                match e.status {
                    TrackingStatus::Outdated | TrackingStatus::Orphaned => (
                        UpdateOutcome::Current,
                        TrackedEntry { status: TrackingStatus::Current, digest: e.digest, updated_at_ms },
                    ),
                    _ => (UpdateOutcome::Skipped, e),
                }
            } else {
                (UpdateOutcome::Updated, TrackedEntry { status: TrackingStatus::Modified, digest: *digest, updated_at_ms })
            }
        },
    }
}

/// A status filter: any status, or the given one.
pub open spec fn status_matches(status: TrackingStatus, filter: Option<TrackingStatus>) -> bool {
    match filter {
        None => true,
        Some(s) => s == status,
    }
}

/// The entry with the URI `uri` lies below `uri_prefix` as the database
/// query selects it: its first characters, as many as `uri_prefix` has
/// bytes in UTF-8 (all of them if it has fewer), equal `uri_prefix`. For a
/// prefix of ASCII characters this is a plain prefix test; a prefix with
/// other characters selects only the URI equal to it.
pub open spec fn below_uri_prefix(uri: Seq<char>, uri_prefix: Seq<char>) -> bool {
    let n = vstd::utf8::encode_utf8(uri_prefix).len() as usize;
    if uri.len() <= n {
        uri == uri_prefix
    } else {
        uri.take(n as int) == uri_prefix
    }
}

/// Whether the URI lies below the prefix, as the database query selects it.
fn uri_below_prefix(uri: &str, uri_prefix: &str) -> (below: bool)
    ensures
        below == below_uri_prefix(uri@, uri_prefix@),
{
    let n = uri_prefix.len();
    if uri.unicode_len() <= n {
        str_eq(uri, uri_prefix)
    } else if uri_prefix.unicode_len() != n {
        assert(uri@.take(n as int).len() != uri_prefix@.len());
        false
    } else {
        let below = str_starts_with(uri, uri_prefix);
        assert(uri@.take(n as int) =~= uri@.subrange(0, uri_prefix@.len() as int));
        below
    }
}

/// The entry with the URI `uri` takes part in a bulk update of the entries
/// below `uri_prefix` with the status filter `old_status`.
pub open spec fn selected_for_update(
    uri: Seq<char>,
    entry: TrackedEntry,
    uri_prefix: Seq<char>,
    old_status: Option<TrackingStatus>,
) -> bool {
    below_uri_prefix(uri, uri_prefix) && status_matches(entry.status, old_status)
}

/// Only orphaned entries below `uri_prefix` that pass the status filter are
/// deleted.
pub open spec fn selected_for_deletion(
    uri: Seq<char>,
    entry: TrackedEntry,
    uri_prefix: Seq<char>,
    status: Option<TrackingStatus>,
) -> bool {
    below_uri_prefix(uri, uri_prefix) && entry.status == TrackingStatus::Orphaned && status_matches(entry.status, status)
}

/// The entries after a bulk update of their status.
pub open spec fn status_updated(
    entries: Seq<(Seq<char>, TrackedEntry)>,
    updated_at_ms: i64,
    uri_prefix: Seq<char>,
    old_status: Option<TrackingStatus>,
    new_status: TrackingStatus,
) -> Seq<(Seq<char>, TrackedEntry)> {
    Seq::new(
        entries.len(),
        |i: int|
            if selected_for_update(entries[i].0, entries[i].1, uri_prefix, old_status) {
                (entries[i].0, TrackedEntry { status: new_status, updated_at_ms, ..entries[i].1 })
            } else {
                entries[i]
            },
    )
}

/// The number of entries that a bulk update of their status selects.
pub open spec fn update_count(
    entries: Seq<(Seq<char>, TrackedEntry)>,
    uri_prefix: Seq<char>,
    old_status: Option<TrackingStatus>,
) -> nat
    decreases entries.len(),
{
    if entries.len() == 0 {
        0
    } else {
        update_count(entries.drop_last(), uri_prefix, old_status) + if selected_for_update(
            entries.last().0,
            entries.last().1,
            uri_prefix,
            old_status,
        ) {
            1nat
        } else {
            0nat
        }
    }
}

/// The entries that a deletion keeps, in order.
pub open spec fn kept_after_deletion(
    entries: Seq<(Seq<char>, TrackedEntry)>,
    uri_prefix: Seq<char>,
    status: Option<TrackingStatus>,
) -> Seq<(Seq<char>, TrackedEntry)>
    decreases entries.len(),
{
    if entries.len() == 0 {
        Seq::empty()
    } else if selected_for_deletion(entries.last().0, entries.last().1, uri_prefix, status) {
        kept_after_deletion(entries.drop_last(), uri_prefix, status)
    } else {
        kept_after_deletion(entries.drop_last(), uri_prefix, status).push(entries.last())
    }
}

/// The number of entries below `uri_prefix` with the given status.
pub open spec fn status_count(
    entries: Seq<(Seq<char>, TrackedEntry)>,
    uri_prefix: Seq<char>,
    status: TrackingStatus,
) -> nat
    decreases entries.len(),
{
    if entries.len() == 0 {
        0
    } else {
        status_count(entries.drop_last(), uri_prefix, status) + if below_uri_prefix(entries.last().0, uri_prefix)
            && entries.last().1.status == status {
            1nat
        } else {
            0nat
        }
    }
}

/// No URI occurs twice.
pub open spec fn uris_unique(entries: Seq<(Seq<char>, TrackedEntry)>) -> bool {
    forall|i: int, j: int| 0 <= i < j < entries.len() ==> #[trigger] entries[i].0 != #[trigger] entries[j].0
}

/// The position of the entry with the given URI, if there is one.
pub open spec fn index_of_uri(entries: Seq<(Seq<char>, TrackedEntry)>, uri: Seq<char>) -> Option<int> {
    if exists|i: int| 0 <= i < entries.len() && #[trigger] entries[i].0 == uri {
        Some(choose|i: int| 0 <= i < entries.len() && #[trigger] entries[i].0 == uri)
    } else {
        None
    }
}

/// A tracked directory: its URI and its entry.
#[derive(Debug, Clone, PartialEq, Eq)]
pub struct TrackedDirectory {
    pub uri: String,
    pub entry: TrackedEntry,
}

/// The tracked directories of a collection, in the order in which they
/// were added.
pub struct DirTracker {
    dirs: Vec<TrackedDirectory>,
}

impl DirTracker {
    /// The URI and the entry of each tracked directory.
    pub closed spec fn entries(&self) -> Seq<(Seq<char>, TrackedEntry)> {
        Seq::new(self.dirs.len() as nat, |i: int| (self.dirs[i].uri@, self.dirs[i].entry))
    }

    pub open spec fn wf(&self) -> bool {
        uris_unique(self.entries())
    }

    pub fn new() -> (tracker: Self)
        ensures
            tracker.wf(),
            tracker.entries() == Seq::<(Seq<char>, TrackedEntry)>::empty(),
    {
        let tracker = DirTracker { dirs: Vec::new() };
        assert(tracker.entries() =~= Seq::<(Seq<char>, TrackedEntry)>::empty());
        tracker
    }

    fn find(&self, uri: &str) -> (index: Option<usize>)
        requires
            self.wf(),
        ensures
            match index_of_uri(self.entries(), uri@) {
                Some(i) => index == Some(i as usize),
                None => index is None,
            },
    {
        let ghost entries = self.entries();
        let mut i: usize = 0;
        while i < self.dirs.len()
            invariant
                i <= self.dirs.len(),
                entries == self.entries(),
                uris_unique(entries),
                forall|j: int| 0 <= j < i ==> #[trigger] entries[j].0 != uri@,
            decreases self.dirs.len() - i,
        {
            if str_eq(self.dirs[i].uri.as_str(), uri) {
                assert(entries[i as int].0 == uri@);
                let ghost chosen = choose|k: int| 0 <= k < entries.len() && #[trigger] entries[k].0 == uri@;
                assert(chosen == i as int) by {
                    if chosen != i as int {
                        if chosen < i {
                            assert(entries[chosen].0 != uri@);
                        } else {
                            assert(entries[i as int].0 != entries[chosen].0);
                        }
                    }
                }
                return Some(i);
            }
            i += 1;
        }
        None
    }

    /// The status of the directory with the given URI, if it is tracked.
    pub fn load_entry_status(&self, uri: &str) -> (status: Option<TrackingStatus>)
        requires
            self.wf(),
        ensures
            match index_of_uri(self.entries(), uri@) {
                Some(i) => status == Some(self.entries()[i].1.status),
                None => status is None,
            },
    {
        match self.find(uri) {
            Some(i) => Some(self.dirs[i].entry.status),
            None => None,
        }
    }

    /// Records the digest of a scanned directory, as [`digest_update`] says.
    pub fn update_entry_digest(&mut self, updated_at_ms: i64, uri: &str, digest: &[u8; 32]) -> (outcome: UpdateOutcome)
        requires
            old(self).wf(),
        ensures
            final(self).wf(),
            match index_of_uri(old(self).entries(), uri@) {
                Some(i) => {
                    let (o, next) = digest_update(Some(old(self).entries()[i].1), updated_at_ms, *digest);
                    &&& outcome == o
                    &&& final(self).entries() == old(self).entries().update(i, (uri@, next))
                },
                None => {
                    &&& outcome == UpdateOutcome::Inserted
                    &&& final(self).entries() == old(self).entries().push(
                        (uri@, digest_update(None, updated_at_ms, *digest).1),
                    )
                },
            },
    {
        let ghost old_entries = self.entries();
        match self.find(uri) {
            Some(i) => {
                let (outcome, next) = next_entry(Some(self.dirs[i].entry), updated_at_ms, digest);
                let dir_uri = self.dirs[i].uri.clone();
                assert(dir_uri@ == uri@);
                self.dirs.set(i, TrackedDirectory { uri: dir_uri, entry: next });
                assert(self.entries() =~= old_entries.update(i as int, (uri@, next)));
                outcome
            },
            None => {
                let (outcome, next) = next_entry(None, updated_at_ms, digest);
                self.dirs.push(TrackedDirectory { uri: uri.to_owned(), entry: next });
                assert(self.entries() =~= old_entries.push((uri@, next)));
                outcome
            },
        }
    }

    /// Marks a directory as current if its digest is unchanged; answers
    /// whether it was.
    pub fn confirm_entry_digest_current(&mut self, updated_at_ms: i64, uri: &str, digest: &[u8; 32]) -> (confirmed: bool)
        requires
            old(self).wf(),
        ensures
            final(self).wf(),
            match index_of_uri(old(self).entries(), uri@) {
                Some(i) => if old(self).entries()[i].1.digest@ == digest@ {
                    &&& confirmed
                    &&& final(self).entries() == old(self).entries().update(
                        i,
                        (
                            uri@,
                            TrackedEntry {
                                status: TrackingStatus::Current,
                                updated_at_ms,
                                ..old(self).entries()[i].1
                            },
                        ),
                    )
                } else {
                    !confirmed && final(self).entries() == old(self).entries()
                },
                None => !confirmed && final(self).entries() == old(self).entries(),
            },
    {
        let ghost old_entries = self.entries();
        match self.find(uri) {
            Some(i) => {
                let entry = self.dirs[i].entry;
                if digests_equal(&entry.digest, digest) {
                    let dir_uri = self.dirs[i].uri.clone();
                    let next = TrackedEntry { status: TrackingStatus::Current, digest: entry.digest, updated_at_ms };
                    self.dirs.set(i, TrackedDirectory { uri: dir_uri, entry: next });
                    assert(self.entries() =~= old_entries.update(i as int, (uri@, next)));
                    true
                } else {
                    false
                }
            },
            None => false,
        }
    }

    /// Sets the status of all directories below `uri_prefix` that pass the
    /// status filter `old_status`; answers how many they were.
    pub fn update_entries_status(
        &mut self,
        updated_at_ms: i64,
        uri_prefix: &str,
        old_status: Option<TrackingStatus>,
        new_status: TrackingStatus,
    ) -> (count: usize)
        requires
            old(self).wf(),
        ensures
            final(self).wf(),
            final(self).entries() == status_updated(
                old(self).entries(),
                updated_at_ms,
                uri_prefix@,
                old_status,
                new_status,
            ),
            count == update_count(old(self).entries(), uri_prefix@, old_status),
    {
        let ghost old_entries = self.entries();
        let ghost updated = status_updated(old_entries, updated_at_ms, uri_prefix@, old_status, new_status);
        let mut count: usize = 0;
        let mut i: usize = 0;
        while i < self.dirs.len()
            invariant
                i <= self.dirs.len() == old_entries.len(),
                updated == status_updated(old_entries, updated_at_ms, uri_prefix@, old_status, new_status),
                uris_unique(old_entries),
                count <= i,
                count == update_count(old_entries.take(i as int), uri_prefix@, old_status),
                forall|j: int| 0 <= j < i ==> #[trigger] self.entries()[j] == updated[j],
                forall|j: int| i <= j < old_entries.len() ==> #[trigger] self.entries()[j] == old_entries[j],
            decreases self.dirs.len() - i,
        {
            assert(old_entries.take(i + 1).drop_last() =~= old_entries.take(i as int));
            assert(self.entries()[i as int] == old_entries[i as int]);
            let entry = self.dirs[i].entry;
            let status_passes = match old_status {
                None => true,
                Some(status) => status == entry.status,
            };
            if status_passes && uri_below_prefix(self.dirs[i].uri.as_str(), uri_prefix) {
                let dir_uri = self.dirs[i].uri.clone();
                let ghost before = self.entries();
                self.dirs.set(
                    i,
                    TrackedDirectory { uri: dir_uri, entry: TrackedEntry { status: new_status, updated_at_ms, ..entry } },
                );
                assert(self.entries() =~= before.update(i as int, updated[i as int]));
                count = count + 1;
            }
            i += 1;
        }
        assert(old_entries.take(i as int) =~= old_entries);
        assert(self.entries() =~= updated);
        count
    }

    /// Deletes the orphaned directories below `uri_prefix` that pass the
    /// status filter; answers how many they were.
    pub fn delete_entries(&mut self, uri_prefix: &str, status: Option<TrackingStatus>) -> (count: usize)
        requires
            old(self).wf(),
        ensures
            final(self).wf(),
            final(self).entries() == kept_after_deletion(old(self).entries(), uri_prefix@, status),
            count == old(self).entries().len() - final(self).entries().len(),
    {
        let ghost old_entries = self.entries();
        let mut dirs: Vec<TrackedDirectory> = Vec::new();
        std::mem::swap(&mut dirs, &mut self.dirs);
        let mut kept: Vec<TrackedDirectory> = Vec::new();
        let ghost mut sources: Seq<int> = Seq::empty();
        let mut i: usize = 0;
        while i < dirs.len()
            invariant
                i <= dirs.len() == old_entries.len(),
                kept.len() <= i,
                forall|j: int| 0 <= j < dirs.len() ==> (#[trigger] dirs@[j]).uri@ == old_entries[j].0 && dirs@[j].entry
                    == old_entries[j].1,
                uris_unique(old_entries),
                Seq::new(kept.len() as nat, |k: int| (kept@[k].uri@, kept@[k].entry)) == kept_after_deletion(
                    old_entries.take(i as int),
                    uri_prefix@,
                    status,
                ),
                sources.len() == kept.len(),
                forall|k: int| 0 <= k < kept.len() ==> 0 <= #[trigger] sources[k] < i && kept@[k].uri@ == old_entries[sources[k]].0,
                forall|a: int, b: int| 0 <= a < b < kept.len() ==> #[trigger] sources[a] < #[trigger] sources[b],
            decreases dirs.len() - i,
        {
            let ghost before = Seq::new(kept.len() as nat, |k: int| (kept@[k].uri@, kept@[k].entry));
            assert(old_entries.take(i + 1).drop_last() =~= old_entries.take(i as int));
            assert(old_entries.take(i + 1).last() == old_entries[i as int]);
            let entry = dirs[i].entry;
            let status_passes = match status {
                None => true,
                Some(s) => s == entry.status,
            };
            let orphaned = match entry.status {
                TrackingStatus::Orphaned => true,
                _ => false,
            };
            let deleted = orphaned && status_passes && uri_below_prefix(dirs[i].uri.as_str(), uri_prefix);
            if !deleted {
                let dir = TrackedDirectory { uri: dirs[i].uri.clone(), entry: dirs[i].entry };
                kept.push(dir);
                proof {
                    sources = sources.push(i as int);
                }
                assert(Seq::new(kept.len() as nat, |k: int| (kept@[k].uri@, kept@[k].entry)) =~= before.push(
                    old_entries[i as int],
                ));
            } else {
                assert(Seq::new(kept.len() as nat, |k: int| (kept@[k].uri@, kept@[k].entry)) =~= before);
            }
            i += 1;
        }
        assert(old_entries.take(i as int) =~= old_entries);
        let count = dirs.len() - kept.len();
        self.dirs = kept;
        assert(self.entries() =~= kept_after_deletion(old_entries, uri_prefix@, status));
        assert forall|a: int, b: int| 0 <= a < b < self.entries().len() implies #[trigger] self.entries()[a].0
            != #[trigger] self.entries()[b].0 by {
            assert(sources[a] < sources[b]);
            assert(old_entries[sources[a]].0 != old_entries[sources[b]].0);
        }
        count
    }

    /// The number of directories below `uri_prefix` with each status.
    pub fn load_aggregate_status(&self, uri_prefix: &str) -> (aggregated: TrackingStatusAggregated)
        ensures
            aggregated.current == status_count(self.entries(), uri_prefix@, TrackingStatus::Current),
            aggregated.outdated == status_count(self.entries(), uri_prefix@, TrackingStatus::Outdated),
            aggregated.added == status_count(self.entries(), uri_prefix@, TrackingStatus::Added),
            aggregated.modified == status_count(self.entries(), uri_prefix@, TrackingStatus::Modified),
            aggregated.orphaned == status_count(self.entries(), uri_prefix@, TrackingStatus::Orphaned),
    {
        let ghost entries = self.entries();
        let mut aggregated = TrackingStatusAggregated { current: 0, outdated: 0, added: 0, modified: 0, orphaned: 0 };
        let mut i: usize = 0;
        while i < self.dirs.len()
            invariant
                i <= self.dirs.len() == entries.len(),
                entries == self.entries(),
                aggregated.current + aggregated.outdated + aggregated.added + aggregated.modified + aggregated.orphaned
                    <= i,
                aggregated.current == status_count(entries.take(i as int), uri_prefix@, TrackingStatus::Current),
                aggregated.outdated == status_count(entries.take(i as int), uri_prefix@, TrackingStatus::Outdated),
                aggregated.added == status_count(entries.take(i as int), uri_prefix@, TrackingStatus::Added),
                aggregated.modified == status_count(entries.take(i as int), uri_prefix@, TrackingStatus::Modified),
                aggregated.orphaned == status_count(entries.take(i as int), uri_prefix@, TrackingStatus::Orphaned),
            decreases self.dirs.len() - i,
        {
            assert(entries.take(i + 1).drop_last() =~= entries.take(i as int));
            assert(entries.take(i + 1).last() == entries[i as int]);
            if uri_below_prefix(self.dirs[i].uri.as_str(), uri_prefix) {
                match self.dirs[i].entry.status {
                    TrackingStatus::Current => aggregated.current = aggregated.current + 1,
                    TrackingStatus::Outdated => aggregated.outdated = aggregated.outdated + 1,
                    TrackingStatus::Added => aggregated.added = aggregated.added + 1,
                    TrackingStatus::Modified => aggregated.modified = aggregated.modified + 1,
                    TrackingStatus::Orphaned => aggregated.orphaned = aggregated.orphaned + 1,
                }
            }
            i += 1;
        }
        assert(entries.take(i as int) =~= entries);
        aggregated
    }
}

/// The number of entries with each status.
#[derive(Debug, Clone, Copy, PartialEq, Eq, Structural)]
pub struct TrackingStatusAggregated {
    pub current: usize,
    pub outdated: usize,
    pub added: usize,
    pub modified: usize,
    pub orphaned: usize,
}

/// The count of the last row with the given status, or 0.
pub open spec fn count_of(rows: Seq<(TrackingStatus, usize)>, status: TrackingStatus) -> usize
    decreases rows.len(),
{
    if rows.len() == 0 {
        0
    } else if rows.last().0 == status {
        rows.last().1
    } else {
        count_of(rows.drop_last(), status)
    }
}

/// Aggregates counts that were grouped by status, one row for each status
/// that occurs (of two rows with the same status, the later one counts).
pub fn aggregate_status(rows: &[(TrackingStatus, usize)]) -> (aggregated: TrackingStatusAggregated)
    ensures
        aggregated == (TrackingStatusAggregated {
            current: count_of(rows@, TrackingStatus::Current),
            outdated: count_of(rows@, TrackingStatus::Outdated),
            added: count_of(rows@, TrackingStatus::Added),
            modified: count_of(rows@, TrackingStatus::Modified),
            orphaned: count_of(rows@, TrackingStatus::Orphaned),
        }),
{
    let mut aggregated = TrackingStatusAggregated { current: 0, outdated: 0, added: 0, modified: 0, orphaned: 0 };
    let mut i: usize = 0;
    while i < rows.len()
        invariant
            i <= rows.len(),
            aggregated == (TrackingStatusAggregated {
                current: count_of(rows@.take(i as int), TrackingStatus::Current),
                outdated: count_of(rows@.take(i as int), TrackingStatus::Outdated),
                added: count_of(rows@.take(i as int), TrackingStatus::Added),
                modified: count_of(rows@.take(i as int), TrackingStatus::Modified),
                orphaned: count_of(rows@.take(i as int), TrackingStatus::Orphaned),
            }),
        decreases rows.len() - i,
    {
        let (status, count) = rows[i];
        assert(rows@.take(i + 1).drop_last() =~= rows@.take(i as int));
        assert(rows@.take(i + 1).last() == rows@[i as int]);
        match status {
            TrackingStatus::Current => aggregated.current = count,
            TrackingStatus::Outdated => aggregated.outdated = count,
            TrackingStatus::Added => aggregated.added = count,
            TrackingStatus::Modified => aggregated.modified = count,
            TrackingStatus::Orphaned => aggregated.orphaned = count,
        }
        i += 1;
    }
    assert(rows@.take(i as int) =~= rows@);
    aggregated
}

/// After a digest has been recorded, the entry holds that digest; it is
/// current again only if the digest did not change, and it is modified
/// exactly if the digest changed.
pub proof fn law_update_records_digest(entry: Option<TrackedEntry>, updated_at_ms: i64, digest: [u8; 32])
    ensures
        ({
            let (outcome, next) = digest_update(entry, updated_at_ms, digest);
            &&& next.digest@ == digest@
            &&& outcome == UpdateOutcome::Inserted <==> entry is None
            &&& outcome == UpdateOutcome::Updated <==> (entry matches Some(e) && e.digest@ != digest@)
            &&& outcome == UpdateOutcome::Current ==> (entry matches Some(e) && e.digest@ == digest@)
            &&& outcome == UpdateOutcome::Updated ==> next.status == TrackingStatus::Modified
        }),
{
}

/// Recording the same digest twice in a row changes nothing the second time.
pub proof fn law_repeated_update_is_skipped(entry: Option<TrackedEntry>, first_at_ms: i64, second_at_ms: i64, digest: [u8; 32])
    ensures
        ({
            let (_, next) = digest_update(entry, first_at_ms, digest);
            digest_update(Some(next), second_at_ms, digest) == (UpdateOutcome::Skipped, next)
        }),
{
}

} // verus!
