use aoide_library::tracker::{
    aggregate_status, DirTracker, TrackingStatus, TrackingStatusAggregated,
    UpdateOutcome,
};

#[test]
fn update_entry_digest() {
    let mut db = DirTracker::new();

    let updated_at = 1_600_000_000_000;
    let uri = "file:///test";
    let mut digest = [0u8; 32];

    // -> Added
    assert_eq!(UpdateOutcome::Inserted, db.update_entry_digest(updated_at, uri, &digest));
    assert_eq!(Some(TrackingStatus::Added), db.load_entry_status(uri));
    // Added -> Added
    assert_eq!(UpdateOutcome::Skipped, db.update_entry_digest(updated_at, uri, &digest));
    assert_eq!(Some(TrackingStatus::Added), db.load_entry_status(uri));

    digest[0] = !digest[0];

    // Added -> Modified
    assert_eq!(UpdateOutcome::Updated, db.update_entry_digest(updated_at, uri, &digest));
    assert_eq!(Some(TrackingStatus::Modified), db.load_entry_status(uri));
    // Modified -> Modified
    assert_eq!(UpdateOutcome::Skipped, db.update_entry_digest(updated_at, uri, &digest));
    assert_eq!(Some(TrackingStatus::Modified), db.load_entry_status(uri));

    // -> Orphaned
    assert_eq!(1, db.update_entries_status(updated_at, uri, None, TrackingStatus::Orphaned));
    assert_eq!(Some(TrackingStatus::Orphaned), db.load_entry_status(uri));
    // Orphaned -> Current (digest unchanged)
    assert_eq!(UpdateOutcome::Current, db.update_entry_digest(updated_at, uri, &digest));
    assert_eq!(Some(TrackingStatus::Current), db.load_entry_status(uri));

    digest[0] = !digest[0];

    // Orphaned -> Modified (after digest changed)
    assert_eq!(UpdateOutcome::Updated, db.update_entry_digest(updated_at, uri, &digest));
    assert_eq!(Some(TrackingStatus::Modified), db.load_entry_status(uri));

    // -> Current
    assert_eq!(1, db.update_entries_status(updated_at, uri, None, TrackingStatus::Current));
    assert_eq!(Some(TrackingStatus::Current), db.load_entry_status(uri));

    digest[0] = !digest[0];

    // Current -> Modified (after digest changed)
    assert_eq!(UpdateOutcome::Updated, db.update_entry_digest(updated_at, uri, &digest));
    assert_eq!(Some(TrackingStatus::Modified), db.load_entry_status(uri));

    // -> Outdated
    assert_eq!(1, db.update_entries_status(updated_at, uri, None, TrackingStatus::Outdated));
    assert_eq!(Some(TrackingStatus::Outdated), db.load_entry_status(uri));

    // Outdated -> Current (digest unchanged)
    assert_eq!(UpdateOutcome::Current, db.update_entry_digest(updated_at, uri, &digest));
    assert_eq!(Some(TrackingStatus::Current), db.load_entry_status(uri));

    // -> Outdated
    assert_eq!(1, db.update_entries_status(updated_at, uri, None, TrackingStatus::Outdated));
    assert_eq!(Some(TrackingStatus::Outdated), db.load_entry_status(uri));

    digest[0] = !digest[0];

    // Outdated -> Modified (after digest changed)
    assert_eq!(UpdateOutcome::Updated, db.update_entry_digest(updated_at, uri, &digest));
    assert_eq!(Some(TrackingStatus::Modified), db.load_entry_status(uri));
}

#[test]
fn unknown_directories_have_no_status() {
    let db = DirTracker::new();
    assert_eq!(None, db.load_entry_status("file:///music/"));
}

#[test]
fn status_updates_below_a_prefix_with_a_status_filter() {
    let mut db = DirTracker::new();
    let digest = [1u8; 32];
    db.update_entry_digest(1, "file:///music/a/", &digest);
    db.update_entry_digest(1, "file:///music/b/", &digest);
    db.update_entry_digest(1, "file:///other/", &digest);
    assert_eq!(2, db.update_entries_status(2, "file:///music/", None, TrackingStatus::Current));
    // Without a status filter, entries are selected whatever their status.
    assert_eq!(
        2,
        db.update_entries_status(3, "file:///music/", None, TrackingStatus::Current)
    );
    assert_eq!(
        0,
        db.update_entries_status(4, "file:///music/", Some(TrackingStatus::Added), TrackingStatus::Outdated)
    );
    assert_eq!(Some(TrackingStatus::Added), db.load_entry_status("file:///other/"));
    assert_eq!(
        3,
        db.update_entries_status(5, "file:///", Some(TrackingStatus::Current), TrackingStatus::Outdated)
            + db.update_entries_status(5, "file:///", Some(TrackingStatus::Added), TrackingStatus::Outdated)
    );
}

#[test]
fn only_orphaned_entries_are_deleted() {
    let mut db = DirTracker::new();
    let digest = [1u8; 32];
    db.update_entry_digest(1, "file:///music/a/", &digest);
    db.update_entry_digest(1, "file:///music/b/", &digest);
    db.update_entry_digest(1, "file:///other/", &digest);
    assert_eq!(0, db.delete_entries("file:///", None));
    db.update_entries_status(2, "file:///music/a/", None, TrackingStatus::Orphaned);
    db.update_entries_status(2, "file:///other/", None, TrackingStatus::Orphaned);
    assert_eq!(0, db.delete_entries("file:///music/", Some(TrackingStatus::Current)));
    assert_eq!(1, db.delete_entries("file:///music/", None));
    assert_eq!(None, db.load_entry_status("file:///music/a/"));
    assert_eq!(Some(TrackingStatus::Added), db.load_entry_status("file:///music/b/"));
    assert_eq!(Some(TrackingStatus::Orphaned), db.load_entry_status("file:///other/"));
    assert_eq!(1, db.delete_entries("file:///", Some(TrackingStatus::Orphaned)));
    assert_eq!(None, db.load_entry_status("file:///other/"));
}

#[test]
fn confirm_current_digest() {
    let mut db = DirTracker::new();
    let digest = [1u8; 32];
    assert!(!db.confirm_entry_digest_current(1, "file:///a/", &digest));
    db.update_entry_digest(1, "file:///a/", &digest);
    assert!(!db.confirm_entry_digest_current(2, "file:///a/", &[2u8; 32]));
    assert_eq!(Some(TrackingStatus::Added), db.load_entry_status("file:///a/"));
    assert!(db.confirm_entry_digest_current(3, "file:///a/", &digest));
    assert_eq!(Some(TrackingStatus::Current), db.load_entry_status("file:///a/"));
}

#[test]
fn aggregate_status_below_a_prefix() {
    let mut db = DirTracker::new();
    let digest = [1u8; 32];
    db.update_entry_digest(1, "file:///music/a/", &digest);
    db.update_entry_digest(1, "file:///music/b/", &digest);
    db.update_entry_digest(1, "file:///music/c/", &digest);
    db.update_entry_digest(1, "file:///other/", &digest);
    db.update_entries_status(2, "file:///music/b/", None, TrackingStatus::Orphaned);
    db.update_entry_digest(3, "file:///music/c/", &[2u8; 32]);
    assert_eq!(
        TrackingStatusAggregated { current: 0, outdated: 0, added: 1, modified: 1, orphaned: 1 },
        db.load_aggregate_status("file:///music/")
    );
    assert_eq!(
        TrackingStatusAggregated { current: 0, outdated: 0, added: 2, modified: 1, orphaned: 1 },
        db.load_aggregate_status("")
    );
}

#[test]
fn aggregate_counts_per_status() {
    let rows = [
        (TrackingStatus::Modified, 4),
        (TrackingStatus::Current, 10),
        (TrackingStatus::Orphaned, 2),
    ];
    assert_eq!(
        TrackingStatusAggregated { current: 10, outdated: 0, added: 0, modified: 4, orphaned: 2 },
        aggregate_status(&rows)
    );
    assert_eq!(
        TrackingStatusAggregated { current: 0, outdated: 0, added: 0, modified: 0, orphaned: 0 },
        aggregate_status(&[])
    );
}

#[test]
fn prefix_with_non_ascii_characters_selects_as_the_query_does() {
    let mut db = DirTracker::new();
    let digest = [1u8; 32];
    db.update_entry_digest(1, "file:///Müsik", &digest);
    db.update_entry_digest(1, "file:///Müsik/a", &digest);
    db.update_entry_digest(1, "file:///Music/a", &digest);
    // The prefix has 13 characters and 14 bytes: only the URI equal to it
    // is selected.
    assert_eq!(1, db.update_entries_status(2, "file:///Müsik", None, TrackingStatus::Current));
    assert_eq!(Some(TrackingStatus::Current), db.load_entry_status("file:///Müsik"));
    assert_eq!(Some(TrackingStatus::Added), db.load_entry_status("file:///Müsik/a"));
    // An ASCII prefix is a plain prefix test.
    assert_eq!(1, db.update_entries_status(2, "file:///Mus", None, TrackingStatus::Current));
    assert_eq!(Some(TrackingStatus::Current), db.load_entry_status("file:///Music/a"));
}
