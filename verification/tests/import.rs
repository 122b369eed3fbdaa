use aoide_library::import::{ImportTrackOptions, ALL_BITS};

#[test]
fn default_options_are_empty() {
    assert_eq!(0, ImportTrackOptions::default().bits());
    assert_eq!(ImportTrackOptions::empty(), ImportTrackOptions::default());
    assert!(ImportTrackOptions::default().is_valid());
}

#[test]
fn implied_options_are_contained() {
    assert!(ImportTrackOptions::artwork_digest().contains(ImportTrackOptions::artwork()));
    assert!(ImportTrackOptions::artwork_digest_sha256().contains(ImportTrackOptions::artwork_digest()));
    assert!(ImportTrackOptions::mixxx_custom_tags().contains(ImportTrackOptions::metadata()));
    assert!(ImportTrackOptions::serato_tags().contains(ImportTrackOptions::metadata()));
    assert!(!ImportTrackOptions::metadata().contains(ImportTrackOptions::serato_tags()));
    assert!(!ImportTrackOptions::artwork().contains(ImportTrackOptions::content_digest()));
}

#[test]
fn all_options() {
    let all = ImportTrackOptions::metadata()
        .union(ImportTrackOptions::content_digest())
        .union(ImportTrackOptions::artwork_digest_sha256())
        .union(ImportTrackOptions::itunes_id3v2_grouping_movement_work())
        .union(ImportTrackOptions::mixxx_custom_tags())
        .union(ImportTrackOptions::serato_tags());
    assert_eq!(ImportTrackOptions::all(), all);
    assert_eq!(ALL_BITS, all.bits());
    assert_eq!(0x0F0F, ALL_BITS);
    assert!(all.is_valid());
}

#[test]
fn undefined_bits() {
    assert_eq!(None, ImportTrackOptions::from_bits(0x0010));
    assert_eq!(Some(ImportTrackOptions::serato_tags()), ImportTrackOptions::from_bits(0x0801));
    let retained = ImportTrackOptions::from_bits_retain(0x8001);
    assert_eq!(0x8001, retained.bits());
    assert!(!retained.is_valid());
    assert!(retained.contains(ImportTrackOptions::metadata()));
}
