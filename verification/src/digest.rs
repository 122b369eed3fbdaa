//! Fingerprinting primitives on top of the BLAKE3 hasher.

use vstd::prelude::*;

verus! {

#[verifier::external_type_specification]
#[verifier::external_body]
pub struct ExBlake3Hasher(blake3::Hasher);

/// The bytes that have been fed into a hasher since it was created.
pub uninterp spec fn hasher_input(hasher: blake3::Hasher) -> Seq<u8>;

/// The 32-byte BLAKE3 hash of a byte sequence.
pub uninterp spec fn blake3_hash(input: Seq<u8>) -> Seq<u8>;

/// A hasher of the plain (unkeyed) BLAKE3 hash. It is only made by
/// `new_hasher` and only fed through `hasher_update`, so it never has a key,
/// a derived key or an input offset.
pub struct DigestHasher {
    hasher: blake3::Hasher,
}

impl DigestHasher {
    /// The bytes fed into the hasher since it was made.
    pub closed spec fn input(&self) -> Seq<u8> {
        hasher_input(self.hasher)
    }
}

/// `blake3::Hasher::new`: a fresh hasher that has seen no input.
#[verifier::external_body]
fn blake3_new() -> (hasher: DigestHasher)
    ensures
        hasher_input(hasher.hasher) == Seq::<u8>::empty(),
{
    DigestHasher { hasher: blake3::Hasher::new() }
}

/// A fresh hasher that has seen no input.
pub fn new_hasher() -> (hasher: DigestHasher)
    ensures
        hasher.input() == Seq::<u8>::empty(),
{
    blake3_new()
}

/// `blake3::Hasher::update` on a hasher made by `blake3::Hasher::new`:
/// appends `bytes` to its input.
#[verifier::external_body]
fn hasher_update(hasher: &mut DigestHasher, bytes: &[u8])
    ensures
        hasher_input(final(hasher).hasher) == hasher_input(old(hasher).hasher) + bytes@,
{
    hasher.hasher.update(bytes);
}

/// `blake3::Hasher::finalize` on a hasher made by `blake3::Hasher::new`:
/// the plain BLAKE3 hash of all input so far, as raw bytes.
#[verifier::external_body]
fn blake3_finalize(hasher: &DigestHasher) -> (hash: [u8; 32])
    ensures
        hash@ == blake3_hash(hasher_input(hasher.hasher)),
{
    *hasher.hasher.finalize().as_bytes()
}

/// The hash of all input so far.
pub fn hasher_finalize(hasher: &DigestHasher) -> (hash: [u8; 32])
    ensures
        hash@ == blake3_hash(hasher.input()),
{
    blake3_finalize(hasher)
}

/// The 8 bytes of `v` in big-endian order (most significant byte first).
pub open spec fn u64_be_bytes(v: u64) -> Seq<u8> {
    seq![(v >> 56u32) as u8, (v >> 48u32) as u8, (v >> 40u32) as u8, (v >> 32u32) as u8, (v >> 24u32) as u8, (v >> 16u32) as u8, (v >> 8u32) as u8, v as u8]
}

/// The 16 bytes of `v` in big-endian order (most significant byte first).
pub open spec fn u128_be_bytes(v: u128) -> Seq<u8> {
    seq![(v >> 120u32) as u8, (v >> 112u32) as u8, (v >> 104u32) as u8, (v >> 96u32) as u8, (v >> 88u32) as u8, (v >> 80u32) as u8, (v >> 72u32) as u8, (v >> 64u32) as u8, (v >> 56u32) as u8, (v >> 48u32) as u8, (v >> 40u32) as u8, (v >> 32u32) as u8, (v >> 24u32) as u8, (v >> 16u32) as u8, (v >> 8u32) as u8, v as u8]
}

/// Feeds the 8 big-endian bytes of `val` into the hasher.
pub fn digest_u64(digest: &mut DigestHasher, val: u64)
    ensures
        final(digest).input() == old(digest).input() + u64_be_bytes(val),
{
    let v = val;
    let bytes: [u8; 8] = [(v >> 56u32) as u8, (v >> 48u32) as u8, (v >> 40u32) as u8, (v >> 32u32) as u8, (v >> 24u32) as u8, (v >> 16u32) as u8, (v >> 8u32) as u8, v as u8];
    assert(bytes@ == u64_be_bytes(val));
    hasher_update(digest, &bytes);
}

/// Feeds the 16 big-endian bytes of `val` into the hasher.
pub fn digest_u128(digest: &mut DigestHasher, val: u128)
    ensures
        final(digest).input() == old(digest).input() + u128_be_bytes(val),
{
    let v = val;
    let bytes: [u8; 16] = [(v >> 120u32) as u8, (v >> 112u32) as u8, (v >> 104u32) as u8, (v >> 96u32) as u8, (v >> 88u32) as u8, (v >> 80u32) as u8, (v >> 72u32) as u8, (v >> 64u32) as u8, (v >> 56u32) as u8, (v >> 48u32) as u8, (v >> 40u32) as u8, (v >> 32u32) as u8, (v >> 24u32) as u8, (v >> 16u32) as u8, (v >> 8u32) as u8, v as u8];
    assert(bytes@ == u128_be_bytes(val));
    hasher_update(digest, &bytes);
}

#[verifier::external_type_specification]
#[verifier::external_body]
pub struct ExSystemTime(std::time::SystemTime);

/// The whole length of a duration in nanoseconds.
pub uninterp spec fn duration_nanos(duration: std::time::Duration) -> u128;

/// The time elapsed from the Unix epoch to a system time, or `None` for a
/// system time before the epoch.
pub uninterp spec fn since_unix_epoch(system_time: std::time::SystemTime) -> Option<std::time::Duration>;

/// `Duration::as_nanos`: the total number of whole nanoseconds.
#[verifier::external_body]
fn duration_as_nanos(duration: std::time::Duration) -> (nanos: u128)
    ensures
        nanos == duration_nanos(duration),
{
    duration.as_nanos()
}

/// `SystemTime::duration_since(UNIX_EPOCH)`, which fails exactly for
/// system times before the epoch.
#[verifier::external_body]
fn duration_since_unix_epoch(system_time: std::time::SystemTime) -> (elapsed: Option<std::time::Duration>)
    ensures
        elapsed == since_unix_epoch(system_time),
{
    system_time.duration_since(std::time::UNIX_EPOCH).ok()
}

/// Feeds the length of `duration` in nanoseconds, as 16 big-endian bytes.
pub fn digest_duration(digest: &mut DigestHasher, duration: std::time::Duration)
    ensures
        final(digest).input() == old(digest).input() + u128_be_bytes(duration_nanos(duration)),
{
    let nanos = duration_as_nanos(duration);
    digest_u128(digest, nanos);
}

/// Feeds the time elapsed since the Unix epoch, as for [`digest_duration`].
pub fn digest_system_time(digest: &mut DigestHasher, system_time: std::time::SystemTime)
    requires
        since_unix_epoch(system_time) is Some,
    ensures
        final(digest).input() == old(digest).input()
            + u128_be_bytes(duration_nanos(since_unix_epoch(system_time)->0)),
{
    let elapsed = duration_since_unix_epoch(system_time);
    match elapsed {
        Some(duration) => digest_duration(digest, duration),
        None => {},
    }
}

/// The UTF-8 bytes of a string.
pub open spec fn utf8_bytes(s: Seq<char>) -> Seq<u8> {
    vstd::utf8::encode_utf8(s)
}

/// Feeds the UTF-8 bytes of a file or path name.
///
/// Names that are not valid Unicode are converted lossily by the caller
/// before they reach the library.
pub fn digest_os_str(digest: &mut DigestHasher, os_str: &str)
    ensures
        final(digest).input() == old(digest).input() + utf8_bytes(os_str@),
{
    let bytes = os_str.as_bytes();
    hasher_update(digest, bytes);
}

/// Feeds the UTF-8 bytes of a path.
pub fn digest_path(digest: &mut DigestHasher, path: &str)
    ensures
        final(digest).input() == old(digest).input() + utf8_bytes(path@),
{
    digest_os_str(digest, path);
}

/// The properties of a file system entry that take part in change detection.
///
/// Access time stamps and permissions are deliberately not part of it, to
/// avoid false positives. Time stamps that the platform cannot provide are
/// `None`.
#[derive(Debug, Clone, Copy)]
pub struct FsMetadata {
    pub is_file: bool,
    pub is_dir: bool,
    pub is_symlink: bool,
    pub len: u64,
    pub created: Option<std::time::SystemTime>,
    pub modified: Option<std::time::SystemTime>,
}

/// One bit for each file type: file (1), directory (2), symbolic link (4).
pub open spec fn file_type_flags(is_file: bool, is_dir: bool, is_symlink: bool) -> u8 {
    (if is_file { 1u8 } else { 0u8 }) | (if is_dir { 2u8 } else { 0u8 }) | (if is_symlink { 4u8 } else { 0u8 })
}

/// The bytes that a present time stamp contributes: nanoseconds since the
/// Unix epoch, big-endian.
pub open spec fn time_stamp_bytes(time_stamp: Option<std::time::SystemTime>) -> Seq<u8> {
    match time_stamp {
        Some(t) => u128_be_bytes(duration_nanos(since_unix_epoch(t)->0)),
        None => Seq::empty(),
    }
}

/// Time stamps that are present do not lie before the Unix epoch.
pub open spec fn time_stamps_after_epoch(metadata: FsMetadata) -> bool {
    &&& metadata.created is Some ==> since_unix_epoch(metadata.created->0) is Some
    &&& metadata.modified is Some ==> since_unix_epoch(metadata.modified->0) is Some
}

/// Whether the time stamps of file metadata can be fingerprinted: none of
/// them lies before the Unix epoch.
pub fn time_stamps_valid(fs_metadata: &FsMetadata) -> (valid: bool)
    ensures
        valid == time_stamps_after_epoch(*fs_metadata),
{
    let created_valid = match fs_metadata.created {
        Some(created) => duration_since_unix_epoch(created).is_some(),
        None => true,
    };
    let modified_valid = match fs_metadata.modified {
        Some(modified) => duration_since_unix_epoch(modified).is_some(),
        None => true,
    };
    created_valid && modified_valid
}

/// The change-detection fingerprint of file metadata: the file type flags,
/// the size, then the creation and modification time stamps.
pub open spec fn metadata_fingerprint(metadata: FsMetadata) -> Seq<u8> {
    seq![file_type_flags(metadata.is_file, metadata.is_dir, metadata.is_symlink)]
        + u64_be_bytes(metadata.len) + time_stamp_bytes(metadata.created)
        + time_stamp_bytes(metadata.modified)
}

/// The change-detection fingerprint of a directory entry: its metadata,
/// followed by its file name.
pub open spec fn entry_fingerprint(metadata: FsMetadata, file_name: Seq<char>) -> Seq<u8> {
    metadata_fingerprint(metadata) + utf8_bytes(file_name)
}

/// Fingerprints file metadata for detecting changes in a file system tree.
pub fn digest_fs_metadata_for_detecting_changes(digest: &mut DigestHasher, fs_metadata: &FsMetadata)
    requires
        time_stamps_after_epoch(*fs_metadata),
    ensures
        final(digest).input() == old(digest).input() + metadata_fingerprint(*fs_metadata),
{
    let ghost start = digest.input();
    // File type
    let flags: u8 = (if fs_metadata.is_file { 1u8 } else { 0u8 }) | (if fs_metadata.is_dir { 2u8 } else { 0u8 })
        | (if fs_metadata.is_symlink { 4u8 } else { 0u8 });
    let flag_bytes = [flags];
    hasher_update(digest, &flag_bytes);
    digest_u64(digest, fs_metadata.len);
    if let Some(created) = fs_metadata.created {
        digest_system_time(digest, created);
    }
    if let Some(modified) = fs_metadata.modified {
        digest_system_time(digest, modified);
    }
    assert(digest.input() =~= start + metadata_fingerprint(*fs_metadata));
}

/// Fingerprints a directory entry: its metadata followed by its file name.
pub fn digest_dir_entry_for_detecting_changes(
    digest: &mut DigestHasher,
    fs_metadata: &FsMetadata,
    file_name: &str,
)
    requires
        time_stamps_after_epoch(*fs_metadata),
    ensures
        final(digest).input() == old(digest).input() + entry_fingerprint(*fs_metadata, file_name@),
{
    let ghost start = digest.input();
    digest_fs_metadata_for_detecting_changes(digest, fs_metadata);
    digest_os_str(digest, file_name);
    assert(digest.input() =~= start + entry_fingerprint(*fs_metadata, file_name@));
}

} // verus!
