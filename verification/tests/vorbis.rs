use aoide_library::media_util::{KeyMode, KeySignature};
use aoide_library::media_util::{ActorKind, ActorRole};
use aoide_library::tag_import::{
    AlbumKind, CalendarDate, DateOrDateTime, FacetedTagMappingConfig, Index, TitleKind,
};
use aoide_library::vorbis::{
    import_album_kind, import_key_signature, import_release_copyright, import_released_by,
    audio_from_streaminfo, import_flac_audio, import_vorbis_track, CommentReader, FlacAudio, ImportTrack,
};

fn tag_with(fields: &[(&str, &[&str])]) -> metaflac::Tag {
    let mut tag = metaflac::Tag::new();
    for (key, values) in fields {
        tag.set_vorbis(*key, values.to_vec());
    }
    tag
}

#[test]
fn first_value_of_a_field_in_any_case() {
    let tag = tag_with(&[("label", &["Warp", "Other"])]);
    assert_eq!(Some("Warp"), tag.read_first_value("LABEL"));
    assert_eq!(Some("Warp"), tag.read_first_value("Label"));
    assert_eq!(None, tag.read_first_value("COPYRIGHT"));
}

#[test]
fn release_fields() {
    let tag = tag_with(&[("LABEL", &["Warp"]), ("COPYRIGHT", &["(c) 2001"])]);
    assert_eq!(Some("Warp".to_string()), import_released_by(&tag));
    assert_eq!(Some("(c) 2001".to_string()), import_release_copyright(&tag));
    let empty = metaflac::Tag::new();
    assert_eq!(None, import_released_by(&empty));
    assert_eq!(None, import_release_copyright(&empty));
}

#[test]
fn compilation_flag() {
    assert_eq!(Some(AlbumKind::Compilation), import_album_kind(&tag_with(&[("COMPILATION", &["1"])])));
    assert_eq!(Some(AlbumKind::Compilation), import_album_kind(&tag_with(&[("COMPILATION", &["+1"])])));
    assert_eq!(None, import_album_kind(&tag_with(&[("COMPILATION", &["0"])])));
    assert_eq!(None, import_album_kind(&tag_with(&[("COMPILATION", &["yes"])])));
    assert_eq!(None, import_album_kind(&tag_with(&[("COMPILATION", &[" 1"])])));
    assert_eq!(None, import_album_kind(&metaflac::Tag::new()));
}

#[test]
fn key_signature_from_initial_key_or_key() {
    assert_eq!(
        Some(KeySignature::OpenKey { code: 4, mode: KeyMode::Minor }),
        import_key_signature(&tag_with(&[("INITIALKEY", &["4m"]), ("KEY", &["8A"])]))
    );
    assert_eq!(
        Some(KeySignature::Lancelot { code: 8, mode: KeyMode::Minor }),
        import_key_signature(&tag_with(&[("INITIALKEY", &["Am"]), ("KEY", &["8A"])]))
    );
    assert_eq!(
        Some(KeySignature::KeyCode(3)),
        import_key_signature(&tag_with(&[("KEY", &["3"])]))
    );
    assert_eq!(None, import_key_signature(&tag_with(&[("INITIALKEY", &["Am"])])));
}

fn no_separators() -> FacetedTagMappingConfig {
    FacetedTagMappingConfig {
        comment_separator: None,
        genre_separator: Some(";".to_string()),
        mood_separator: None,
        grouping_separator: None,
    }
}

#[test]
fn vorbis_import_follows_the_picard_mapping() {
    let tag = tag_with(&[
        ("TITLE", &["Windowlicker"]),
        ("SUBTITLE", &["Single"]),
        ("ARTIST", &["Aphex Twin", "AFX"]),
        ("COMPOSER", &["Richard D. James"]),
        ("ALBUM", &["Windowlicker EP"]),
        ("ALBUM ARTIST", &["Aphex Twin"]),
        ("ENSEMBLE", &["Ignored"]),
        ("COMPILATION", &["1"]),
        ("DATE", &["1999-03-22"]),
        ("LABEL", &["Warp"]),
        ("TRACKNUMBER", &["1"]),
        ("TRACKTOTAL", &["3"]),
        ("DISCNUMBER", &["1/2"]),
        ("GENRE", &["Electronic;IDM"]),
        ("DESCRIPTION", &["Great"]),
        ("MOOD", &["Dark"]),
        ("INITIALKEY", &["8A"]),
    ]);
    let track = import_vorbis_track(&tag, &no_separators());
    assert_eq!(2, track.titles.len());
    assert_eq!("Windowlicker", track.titles[0].name);
    assert_eq!(TitleKind::Main, track.titles[0].kind);
    assert_eq!("Single", track.titles[1].name);
    assert_eq!(TitleKind::Sub, track.titles[1].kind);
    assert_eq!(3, track.actors.len());
    assert_eq!(("Aphex Twin", ActorKind::Primary, ActorRole::Artist),
        (track.actors[0].name.as_str(), track.actors[0].kind, track.actors[0].role));
    assert_eq!(("AFX", ActorKind::Primary, ActorRole::Artist),
        (track.actors[1].name.as_str(), track.actors[1].kind, track.actors[1].role));
    assert_eq!(("Richard D. James", ActorKind::Summary, ActorRole::Composer),
        (track.actors[2].name.as_str(), track.actors[2].kind, track.actors[2].role));
    assert_eq!(1, track.album_titles.len());
    assert_eq!("Windowlicker EP", track.album_titles[0].name);
    assert_eq!(1, track.album_actors.len());
    assert_eq!("Aphex Twin", track.album_actors[0].name);
    assert_eq!(ActorKind::Summary, track.album_actors[0].kind);
    assert_eq!(Some(AlbumKind::Compilation), track.album_kind);
    assert_eq!(
        Some(DateOrDateTime::Date(CalendarDate { year: 1999, month: 3, day: 22 })),
        track.released_at
    );
    assert_eq!(Some("Warp".to_string()), track.released_by);
    assert_eq!(None, track.copyright);
    assert_eq!(Some(KeySignature::Lancelot { code: 8, mode: KeyMode::Minor }), track.key_signature);
    assert_eq!(Some(Index { number: Some(1), total: Some(3) }), track.track_index);
    assert_eq!(Some(Index { number: Some(1), total: Some(2) }), track.disc_index);
    assert_eq!(None, track.movement_index);
    assert_eq!(vec!["Electronic".to_string(), "IDM".to_string()], track.genres);
    assert_eq!(vec!["Great".to_string()], track.comments);
    assert_eq!(vec!["Dark".to_string()], track.moods);
    assert!(track.groupings.is_empty());
}

#[test]
fn vorbis_import_of_an_empty_tag() {
    let track = import_vorbis_track(&metaflac::Tag::new(), &no_separators());
    assert!(track.titles.is_empty());
    assert!(track.actors.is_empty());
    assert!(track.album_actors.is_empty());
    assert_eq!(None, track.released_at);
    assert_eq!(None, track.track_index);
    assert!(track.genres.is_empty());
}

#[test]
fn all_values_of_a_field() {
    let tag = tag_with(&[("Genre", &["A", "B"])]);
    assert_eq!(Some(vec!["A".to_string(), "B".to_string()]), tag.read_values("GENRE"));
    assert_eq!(None, tag.read_values("MOOD"));
}

#[test]
fn comment_takes_precedence_over_description() {
    let tag = tag_with(&[("COMMENT", &["c"]), ("DESCRIPTION", &["d"])]);
    let track = import_vorbis_track(&tag, &no_separators());
    assert_eq!(vec!["c".to_string()], track.comments);
}

#[test]
fn flac_audio_properties() {
    let mut tag = metaflac::Tag::new();
    assert_eq!(None, import_flac_audio(&tag));
    let mut info = metaflac::block::StreamInfo::new();
    info.num_channels = 2;
    info.sample_rate = 44100;
    info.total_samples = 441000;
    tag.set_streaminfo(info);
    assert_eq!(
        Some(FlacAudio { channels: 2, sample_rate_hz: Some(44100), total_samples: Some(441000) }),
        import_flac_audio(&tag)
    );
}

#[test]
fn audio_without_sample_rate_has_no_length() {
    assert_eq!(
        Some(FlacAudio { channels: 1, sample_rate_hz: None, total_samples: None }),
        audio_from_streaminfo(Some((1, 0, 1000)))
    );
    assert_eq!(None, audio_from_streaminfo(None));
}

#[test]
fn flac_import_of_comments_and_stream() {
    let mut tag = tag_with(&[("TITLE", &["T"]), ("GENRE", &["A;B"])]);
    let mut info = metaflac::block::StreamInfo::new();
    info.num_channels = 1;
    info.sample_rate = 48000;
    info.total_samples = 96000;
    tag.set_streaminfo(info);
    let (track, audio) = ImportTrack.import_track(&tag, &no_separators());
    assert_eq!("T", track.titles[0].name);
    assert_eq!(vec!["A".to_string(), "B".to_string()], track.genres);
    assert_eq!(Some(FlacAudio { channels: 1, sample_rate_hz: Some(48000), total_samples: Some(96000) }), audio);
}
