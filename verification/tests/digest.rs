use std::time::{Duration, UNIX_EPOCH};

use aoide_library::digest::{
    digest_dir_entry_for_detecting_changes, digest_duration, digest_fs_metadata_for_detecting_changes,
    digest_os_str, digest_path, digest_system_time, digest_u128, digest_u64, hasher_finalize,
    new_hasher, FsMetadata,
};

fn expected(bytes: &[u8]) -> [u8; 32] {
    *blake3::hash(bytes).as_bytes()
}

#[test]
fn fresh_hasher_hashes_nothing() {
    let hasher = new_hasher();
    assert_eq!(expected(&[]), hasher_finalize(&hasher));
}

#[test]
fn u64_is_fed_big_endian() {
    let mut hasher = new_hasher();
    digest_u64(&mut hasher, 0x0102_0304_0506_0708);
    assert_eq!(expected(&[1, 2, 3, 4, 5, 6, 7, 8]), hasher_finalize(&hasher));
    assert_ne!(expected(&[8, 7, 6, 5, 4, 3, 2, 1]), hasher_finalize(&hasher));
}

#[test]
fn u128_is_fed_big_endian() {
    let mut hasher = new_hasher();
    digest_u128(&mut hasher, 0x0102_0304_0506_0708_090a_0b0c_0d0e_0f10);
    assert_eq!(
        expected(&[1, 2, 3, 4, 5, 6, 7, 8, 9, 10, 11, 12, 13, 14, 15, 16]),
        hasher_finalize(&hasher)
    );
}

#[test]
fn duration_is_fed_as_nanoseconds() {
    let mut hasher = new_hasher();
    digest_duration(&mut hasher, Duration::new(1, 5));
    assert_eq!(expected(&1_000_000_005u128.to_be_bytes()), hasher_finalize(&hasher));
}

#[test]
fn system_time_is_fed_since_epoch() {
    let mut hasher = new_hasher();
    digest_system_time(&mut hasher, UNIX_EPOCH + Duration::from_millis(1500));
    assert_eq!(expected(&1_500_000_000u128.to_be_bytes()), hasher_finalize(&hasher));
}

#[test]
fn names_are_fed_as_utf8() {
    let mut hasher = new_hasher();
    digest_os_str(&mut hasher, "Björk");
    digest_path(&mut hasher, "/music/a.flac");
    let mut bytes = "Björk".as_bytes().to_vec();
    bytes.extend_from_slice(b"/music/a.flac");
    assert_eq!(expected(&bytes), hasher_finalize(&hasher));
}

#[test]
fn metadata_fingerprint() {
    let metadata = FsMetadata {
        is_file: true,
        is_dir: false,
        is_symlink: true,
        len: 258,
        created: None,
        modified: Some(UNIX_EPOCH + Duration::from_nanos(3)),
    };
    let mut hasher = new_hasher();
    digest_fs_metadata_for_detecting_changes(&mut hasher, &metadata);
    let mut bytes = vec![0b101u8];
    bytes.extend_from_slice(&258u64.to_be_bytes());
    bytes.extend_from_slice(&3u128.to_be_bytes());
    assert_eq!(expected(&bytes), hasher_finalize(&hasher));

    let mut hasher = new_hasher();
    digest_dir_entry_for_detecting_changes(&mut hasher, &metadata, "x.mp3");
    bytes.extend_from_slice(b"x.mp3");
    assert_eq!(expected(&bytes), hasher_finalize(&hasher));
}

#[test]
fn metadata_without_time_stamps() {
    let metadata = FsMetadata {
        is_file: false,
        is_dir: true,
        is_symlink: false,
        len: 0,
        created: None,
        modified: None,
    };
    let mut hasher = new_hasher();
    digest_fs_metadata_for_detecting_changes(&mut hasher, &metadata);
    assert_eq!(expected(&[2, 0, 0, 0, 0, 0, 0, 0, 0]), hasher_finalize(&hasher));
}

use aoide_library::digest::time_stamps_valid;

#[test]
fn time_stamps_before_the_epoch_are_invalid() {
    let mut metadata = FsMetadata {
        is_file: true,
        is_dir: false,
        is_symlink: false,
        len: 0,
        created: None,
        modified: Some(UNIX_EPOCH + Duration::from_secs(1)),
    };
    assert!(time_stamps_valid(&metadata));
    metadata.created = Some(UNIX_EPOCH - Duration::from_secs(1));
    assert!(!time_stamps_valid(&metadata));
    metadata.created = None;
    metadata.modified = None;
    assert!(time_stamps_valid(&metadata));
}
