use aoide_library::id3_frames::{
    import_track, parse_timestamp, text_frame_values, DescribedText, Id3Frames, TextFrame,
    Timestamp,
};
use aoide_library::import::ImportTrackOptions;
use aoide_library::media_util::{ActorKind, ActorRole};
use aoide_library::tag_import::{
    AlbumKind, CalendarDate, DateOrDateTime, FacetedTagMappingConfig, Index, TitleKind,
};

fn frame(id: &str, text: &str) -> TextFrame {
    TextFrame { id: id.to_string(), text: text.to_string() }
}

fn described(description: &str, text: &str) -> DescribedText {
    DescribedText { description: description.to_string(), text: text.to_string() }
}

fn config() -> FacetedTagMappingConfig {
    FacetedTagMappingConfig {
        comment_separator: None,
        genre_separator: Some(";".to_string()),
        mood_separator: None,
        grouping_separator: None,
    }
}

fn ts(year: i32, month: Option<u8>, day: Option<u8>) -> Timestamp {
    Timestamp { year, month, day, hour: None, minute: None, second: None }
}

fn frames() -> Id3Frames {
    Id3Frames {
        text_frames: vec![
            frame("TIT2", "Song"),
            frame("TIT1", "Work or grouping"),
            frame("GRP1", "Grouping"),
            frame("TPE1", "Artist"),
            frame("TCOM", "Composer A\u{0}Composer B"),
            frame("TALB", "Album"),
            frame("TPE2", "Album Artist"),
            frame("TCMP", "1"),
            frame("TPUB", "Label"),
            frame("TKEY", "1d"),
            frame("TCON", "Pop;Rock\u{0}Jazz"),
            frame("MVIN", "2/4"),
        ],
        extended_texts: vec![described("WORK", "The Work")],
        comments: vec![described("", "first"), described("lang", "other"), described("", " last ")],
        date_released: None,
        date_recorded: Some(ts(2001, Some(5), None)),
        track: Some(70001),
        total_tracks: None,
        disc: None,
        total_discs: None,
    }
}

#[test]
fn text_frames_split_at_nul() {
    let values = text_frame_values(&frames().text_frames, "TCOM");
    assert_eq!(vec!["Composer A".to_string(), "Composer B".to_string()], values);
}

#[test]
fn id3_import_without_itunes_mapping() {
    let track = import_track(&frames(), &config(), ImportTrackOptions::empty());
    let titles: Vec<(&str, TitleKind)> = track.titles.iter().map(|t| (t.name.as_str(), t.kind)).collect();
    assert_eq!(vec![("Song", TitleKind::Main), ("The Work", TitleKind::Work)], titles);
    let actors: Vec<(&str, ActorKind, ActorRole)> =
        track.actors.iter().map(|a| (a.name.as_str(), a.kind, a.role)).collect();
    assert_eq!(
        vec![
            ("Artist", ActorKind::Summary, ActorRole::Artist),
            ("Composer A", ActorKind::Primary, ActorRole::Composer),
            ("Composer B", ActorKind::Primary, ActorRole::Composer),
        ],
        actors
    );
    assert_eq!("Album", track.album_titles[0].name);
    assert_eq!("Album Artist", track.album_actors[0].name);
    assert_eq!(Some(AlbumKind::Compilation), track.album_kind);
    assert_eq!(
        Some(DateOrDateTime::Date(CalendarDate { year: 2001, month: 5, day: 0 })),
        track.released_at
    );
    assert_eq!(Some("Label".to_string()), track.released_by);
    assert_eq!(Some(Index { number: Some(4465), total: None }), track.track_index);
    assert_eq!(None, track.disc_index);
    assert_eq!(Some(Index { number: Some(2), total: Some(4) }), track.movement_index);
    assert_eq!(vec!["last".to_string()], track.comments);
    assert_eq!(vec!["Pop".to_string(), "Rock".to_string(), "Jazz".to_string()], track.genres);
    assert_eq!(vec!["Work or grouping".to_string()], track.groupings);
}

#[test]
fn id3_import_with_itunes_mapping() {
    let options = ImportTrackOptions::itunes_id3v2_grouping_movement_work();
    let track = import_track(&frames(), &config(), options);
    let work = track.titles.iter().find(|t| t.kind == TitleKind::Work).unwrap();
    assert_eq!("Work or grouping", work.name);
    assert_eq!(vec!["Grouping".to_string()], track.groupings);
}

#[test]
fn release_date_takes_precedence_over_recording_date() {
    let mut f = frames();
    f.date_released = Some(ts(1999, None, None));
    let track = import_track(&f, &config(), ImportTrackOptions::empty());
    assert_eq!(
        Some(DateOrDateTime::Date(CalendarDate { year: 1999, month: 0, day: 0 })),
        track.released_at
    );
}

#[test]
fn timestamps() {
    let full = Timestamp { year: 2020, month: Some(2), day: Some(29), hour: Some(23), minute: Some(59), second: Some(59) };
    assert_eq!(
        DateOrDateTime::DateTime {
            date: CalendarDate { year: 2020, month: 2, day: 29 },
            hour: 23,
            minute: 59,
            second: 59,
            nanosecond: 0,
            offset_seconds: 0
        },
        parse_timestamp(full)
    );
    assert_eq!(
        DateOrDateTime::Date(CalendarDate { year: 2019, month: 2, day: 0 }),
        parse_timestamp(ts(2019, Some(2), Some(29)))
    );
    assert_eq!(
        DateOrDateTime::Date(CalendarDate { year: 2019, month: 0, day: 0 }),
        parse_timestamp(ts(2019, Some(13), None))
    );
    let bad_time = Timestamp { hour: Some(24), minute: Some(0), second: Some(0), ..ts(2019, Some(1), Some(1)) };
    assert_eq!(DateOrDateTime::Date(CalendarDate { year: 2019, month: 1, day: 1 }), parse_timestamp(bad_time));
}
