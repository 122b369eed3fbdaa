use std::time::{Duration, UNIX_EPOCH};

use aoide_library::digest::FsMetadata;
use aoide_library::dir_digest::{
    is_hidden_dir_entry, path_eq, path_starts_with, AfterDirFinished, Completion, DirScanOutcome,
    DirectoryHasher, DirectoryScanner, HashStep, NextDirScanStep, OpenDirectories, Outcome,
    Placement, Progress, ProgressEvent, ScanStep, Status,
};

fn path(components: &[&str]) -> Vec<String> {
    components.iter().map(|c| c.to_string()).collect()
}

fn file_metadata(len: u64, modified_nanos: u64) -> FsMetadata {
    FsMetadata {
        is_file: true,
        is_dir: false,
        is_symlink: false,
        len,
        created: None,
        modified: Some(UNIX_EPOCH + Duration::from_nanos(modified_nanos)),
    }
}

fn dir_metadata(modified_nanos: u64) -> FsMetadata {
    FsMetadata {
        is_file: false,
        is_dir: true,
        is_symlink: false,
        len: 4096,
        created: Some(UNIX_EPOCH + Duration::from_nanos(1_000)),
        modified: Some(UNIX_EPOCH + Duration::from_nanos(modified_nanos)),
    }
}

/// The fingerprint bytes of an entry, written out by hand.
fn fingerprint(metadata: &FsMetadata, file_name: &str) -> Vec<u8> {
    let mut bytes = Vec::new();
    let mut flags = 0u8;
    if metadata.is_file {
        flags |= 1;
    }
    if metadata.is_dir {
        flags |= 2;
    }
    if metadata.is_symlink {
        flags |= 4;
    }
    bytes.push(flags);
    bytes.extend_from_slice(&metadata.len.to_be_bytes());
    for time_stamp in [metadata.created, metadata.modified].into_iter().flatten() {
        let nanos = time_stamp.duration_since(UNIX_EPOCH).unwrap().as_nanos();
        bytes.extend_from_slice(&nanos.to_be_bytes());
    }
    bytes.extend_from_slice(file_name.as_bytes());
    bytes
}

fn hash_of(parts: &[Vec<u8>]) -> [u8; 32] {
    let mut hasher = blake3::Hasher::new();
    for part in parts {
        hasher.update(part);
    }
    *hasher.finalize().as_bytes()
}

#[test]
fn hash_directories_of_small_tree() {
    let meta_a = dir_metadata(5_000);
    let meta_x = file_metadata(1234, 7_000);
    let meta_b = file_metadata(99, 9_000);

    let mut hasher = DirectoryHasher::new();
    // The root directory itself.
    assert!(matches!(hasher.visit_entry(0, None), HashStep::Ready));
    // "a"
    assert!(matches!(hasher.visit_entry(1, Some(path(&[]))), HashStep::DigestEntry));
    hasher.digest_entry(&meta_a, "a");
    // "a/x.mp3"
    assert!(matches!(hasher.visit_entry(2, Some(path(&["a"]))), HashStep::DigestEntry));
    hasher.digest_entry(&meta_x, "x.mp3");
    // "b.mp3": leaves "a" behind.
    match hasher.visit_entry(1, Some(path(&[]))) {
        HashStep::FinishDirectory { path: finished, digest } => {
            assert_eq!(path(&["a"]), finished);
            assert_eq!(hash_of(&[fingerprint(&meta_x, "x.mp3")]), digest);
        }
        other => panic!("unexpected step {:?}", other),
    }
    assert!(matches!(hasher.after_dir_finished(AfterDirFinished::Continue), HashStep::DigestEntry));
    hasher.digest_entry(&meta_b, "b.mp3");
    // The root directory remains.
    match hasher.finish_walk() {
        HashStep::FinishDirectory { path: finished, digest } => {
            assert!(finished.is_empty());
            assert_eq!(
                hash_of(&[fingerprint(&meta_a, "a"), fingerprint(&meta_b, "b.mp3")]),
                digest
            );
        }
        other => panic!("unexpected step {:?}", other),
    }
    assert!(matches!(hasher.after_dir_finished(AfterDirFinished::Continue), HashStep::Done));
    assert_eq!(
        Outcome {
            completion: Completion::Finished,
            progress: Progress { entries_skipped: 1, entries_finished: 3, directories_finished: 2 },
        },
        hasher.outcome()
    );
}

#[test]
fn hash_directories_aborted_by_receiver() {
    let mut hasher = DirectoryHasher::new();
    assert!(matches!(hasher.visit_entry(1, Some(path(&["a"]))), HashStep::DigestEntry));
    hasher.digest_entry(&file_metadata(1, 1), "x");
    match hasher.visit_entry(1, Some(path(&["b"]))) {
        HashStep::FinishDirectory { path: finished, .. } => assert_eq!(path(&["a"]), finished),
        other => panic!("unexpected step {:?}", other),
    }
    assert!(matches!(hasher.after_dir_finished(AfterDirFinished::Abort), HashStep::Done));
    assert_eq!(
        ProgressEvent {
            status: Status::Aborted,
            progress: Progress { entries_skipped: 0, entries_finished: 1, directories_finished: 1 },
        },
        hasher.progress_event()
    );
    assert_eq!(Completion::Aborted, hasher.outcome().completion);
}

#[test]
fn hash_directories_skips_entries_outside_of_the_tree() {
    let mut hasher = DirectoryHasher::new();
    assert!(matches!(hasher.visit_entry(3, None), HashStep::Ready));
    hasher.skip_entry();
    assert_eq!(2, hasher.progress_event().progress.entries_skipped);
    hasher.abort();
    assert_eq!(Status::Aborted, hasher.progress_event().status);
}

#[test]
fn hash_directories_fails() {
    let mut hasher = DirectoryHasher::new();
    assert!(matches!(hasher.visit_entry(1, Some(path(&[]))), HashStep::DigestEntry));
    hasher.fail();
    assert_eq!(Status::Failed, hasher.progress_event().status);
}

#[test]
fn empty_walk_finishes_at_once() {
    let mut hasher = DirectoryHasher::new();
    assert!(matches!(hasher.finish_walk(), HashStep::Done));
    assert_eq!(
        Outcome { completion: Completion::Finished, progress: Progress::default() },
        hasher.outcome()
    );
}

#[test]
fn sibling_directories_are_finished_one_after_the_other() {
    // Parents of the entries in walk order: a, a/b, a, c
    let mut hasher = DirectoryHasher::new();
    let mut finished = Vec::new();
    let parents = [path(&["a"]), path(&["a", "b"]), path(&["a"]), path(&["c"])];
    for (i, parent) in parents.iter().enumerate() {
        let mut step = hasher.visit_entry(parent.len() + 1, Some(parent.clone()));
        loop {
            match step {
                HashStep::FinishDirectory { path, .. } => {
                    finished.push(path);
                    step = hasher.after_dir_finished(AfterDirFinished::Continue);
                }
                HashStep::DigestEntry => {
                    hasher.digest_entry(&file_metadata(i as u64, 1), "entry");
                    break;
                }
                other => panic!("unexpected step {:?}", other),
            }
        }
    }
    let mut step = hasher.finish_walk();
    while let HashStep::FinishDirectory { path, .. } = step {
        finished.push(path);
        step = hasher.after_dir_finished(AfterDirFinished::Continue);
    }
    assert!(matches!(step, HashStep::Done));
    assert_eq!(vec![path(&["a", "b"]), path(&["a"]), path(&["c"])], finished);
}

#[test]
fn scan_directories_excludes_root() {
    let meta_x = file_metadata(10, 20);
    let meta_y = file_metadata(30, 40);
    let mut scanner = DirectoryScanner::new();
    // "a" lies directly in the root.
    assert!(matches!(scanner.visit_entry(Some(path(&[]))), ScanStep::Ready));
    assert!(matches!(scanner.visit_entry(Some(path(&["a"]))), ScanStep::DigestEntry));
    scanner.digest_entry(&meta_x, "x");
    assert!(matches!(scanner.visit_entry(Some(path(&["a"]))), ScanStep::DigestEntry));
    scanner.digest_entry(&meta_y, "y");
    match scanner.finish_walk() {
        ScanStep::FinishDirectory { path: finished, digest } => {
            assert_eq!(path(&["a"]), finished);
            assert_eq!(hash_of(&[fingerprint(&meta_x, "x"), fingerprint(&meta_y, "y")]), digest);
        }
        other => panic!("unexpected step {:?}", other),
    }
    assert!(matches!(
        scanner.after_dir_finished(NextDirScanStep::Continue),
        ScanStep::Done(DirScanOutcome::Finished(1))
    ));
}

#[test]
fn scan_directories_aborted() {
    let mut scanner = DirectoryScanner::new();
    assert!(matches!(scanner.visit_entry(Some(path(&["a"]))), ScanStep::DigestEntry));
    scanner.digest_entry(&file_metadata(1, 1), "x");
    assert!(matches!(scanner.finish_walk(), ScanStep::FinishDirectory { .. }));
    assert!(matches!(
        scanner.after_dir_finished(NextDirScanStep::Abort),
        ScanStep::Done(DirScanOutcome::Aborted)
    ));
}

#[test]
fn open_directories_placement() {
    let mut open = OpenDirectories::new();
    assert!(open.is_empty());
    assert_eq!(Placement::OpenParent, open.placement(&path(&["a"])));
    open.open_parent(path(&["a"]), &file_metadata(1, 1), "x");
    assert_eq!(Placement::DigestIntoInnermost, open.placement(&path(&["a"])));
    assert_eq!(Placement::OpenParent, open.placement(&path(&["a", "b"])));
    assert_eq!(Placement::FinishInnermost, open.placement(&path(&["ab"])));
    assert_eq!(Placement::FinishInnermost, open.placement(&path(&[])));
    open.digest_into_innermost(&file_metadata(2, 2), "y");
    let (finished, digest) = open.finish_innermost(None);
    assert_eq!(path(&["a"]), finished);
    assert_eq!(
        hash_of(&[fingerprint(&file_metadata(1, 1), "x"), fingerprint(&file_metadata(2, 2), "y")]),
        digest
    );
    assert!(open.is_empty());
}

#[test]
fn paths_compare_by_components() {
    assert!(path_starts_with(&path(&["a", "b"]), &path(&["a"])));
    assert!(path_starts_with(&path(&["a"]), &path(&[])));
    assert!(!path_starts_with(&path(&["ab"]), &path(&["a"])));
    assert!(!path_starts_with(&path(&["a"]), &path(&["a", "b"])));
    assert!(path_eq(&path(&["a", "b"]), &path(&["a", "b"])));
    assert!(!path_eq(&path(&["a", "b"]), &path(&["a"])));
}

#[test]
fn hidden_entries() {
    assert!(is_hidden_dir_entry(true, Some(".DS_Store")));
    assert!(!is_hidden_dir_entry(false, Some(".DS_Store")));
    assert!(!is_hidden_dir_entry(true, Some("music")));
    assert!(!is_hidden_dir_entry(true, None));
}

#[test]
fn progress_event_transitions() {
    let progress = Progress { entries_skipped: 1, entries_finished: 2, directories_finished: 3 };
    let mut event = ProgressEvent { status: Status::InProgress, progress };
    event.finish();
    assert_eq!(ProgressEvent { status: Status::Finished, progress }, event);
    assert_eq!(Outcome { completion: Completion::Finished, progress }, event.finalize());

    let mut event = ProgressEvent { status: Status::InProgress, progress };
    event.abort();
    assert_eq!(Outcome { completion: Completion::Aborted, progress }, event.finalize());

    let mut event = ProgressEvent { status: Status::InProgress, progress };
    event.fail();
    assert_eq!(Status::Failed, event.status);
}
