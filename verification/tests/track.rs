use aoide_library::track::{
    concat_faceted_track_tag_labels, filter_faceted_track_tag_labels, track_year, FacetedTagLabels,
    Scope, TrackYear,
};

#[test]
fn scope_codes() {
    assert_eq!(0, Scope::Track.to_i16());
    assert_eq!(1, Scope::Album.to_i16());
    assert_eq!(Some(Scope::Track), Scope::from_i16(0));
    assert_eq!(Some(Scope::Album), Scope::from_i16(1));
    assert_eq!(None, Scope::from_i16(2));
    assert_eq!(None, Scope::from_i16(-1));
    for scope in [Scope::Track, Scope::Album] {
        assert_eq!(Some(scope), Scope::from_i16(scope.to_i16()));
    }
}

#[test]
fn track_year_range() {
    assert_eq!(None, track_year(None, None, None));
    assert_eq!(Some(TrackYear { min: 1999, max: 1999 }), track_year(None, Some(1999), None));
    assert_eq!(
        Some(TrackYear { min: 1975, max: 2001 }),
        track_year(Some(1980), Some(2001), Some(1975))
    );
    assert_eq!(Some(TrackYear { min: 1990, max: 1995 }), track_year(Some(1995), None, Some(1990)));
}

fn facets() -> Vec<FacetedTagLabels> {
    vec![
        FacetedTagLabels {
            facet_id: "genre".to_string(),
            labels: vec![Some("Pop".to_string()), None, Some("Hip-Hop/Rap".to_string())],
        },
        FacetedTagLabels { facet_id: "mood".to_string(), labels: vec![Some("Happy".to_string())] },
        FacetedTagLabels { facet_id: "genre".to_string(), labels: vec![Some("Nu Metal".to_string())] },
    ]
}

#[test]
fn labels_of_a_facet() {
    assert_eq!(
        vec!["Pop".to_string(), "Hip-Hop/Rap".to_string(), "Nu Metal".to_string()],
        filter_faceted_track_tag_labels(&facets(), "genre")
    );
    assert!(filter_faceted_track_tag_labels(&facets(), "grouping").is_empty());
}

#[test]
fn joined_labels_of_a_facet() {
    assert_eq!(
        Some("Pop;Hip-Hop/Rap;Nu Metal".to_string()),
        concat_faceted_track_tag_labels(&facets(), "genre", ";")
    );
    assert_eq!(Some("Happy".to_string()), concat_faceted_track_tag_labels(&facets(), "mood", ";"));
    assert_eq!(None, concat_faceted_track_tag_labels(&facets(), "grouping", ";"));
    let unlabeled = vec![FacetedTagLabels { facet_id: "genre".to_string(), labels: vec![None] }];
    assert_eq!(None, concat_faceted_track_tag_labels(&unlabeled, "genre", ";"));
}

use aoide_library::track::track_list_item_label;

#[test]
fn track_list_labels() {
    assert_eq!("Untitled", track_list_item_label(None, None, None, None, None, ""));
    assert_eq!(
        "Artist - Title [Album]",
        track_list_item_label(Some("Title"), Some("Artist"), Some("Album"), Some("Artist"), None, "")
    );
    assert_eq!(
        "Artist - Title [Album by Various]",
        track_list_item_label(Some("Title"), Some("Artist"), Some("Album"), Some("Various"), None, "")
    );
    assert_eq!(
        "Title [Album by Various]",
        track_list_item_label(Some("Title"), None, Some("Album"), Some("Various"), None, "")
    );
    assert_eq!(
        "Artist - Title [Album]",
        track_list_item_label(Some("Title"), Some("Artist"), Some("Album"), None, None, "")
    );
    assert_eq!(
        "Artist - Title",
        track_list_item_label(Some("Title"), Some("Artist"), None, Some("Various"), None, "")
    );
    assert_eq!(
        "Untitled [Album]",
        track_list_item_label(None, None, Some("Album"), None, None, "")
    );
    assert_eq!("Title", track_list_item_label(Some("Title"), None, None, Some("X"), None, ""));
}

#[test]
fn track_list_labels_with_tempo_and_key() {
    assert_eq!(
        "Artist - Title {128}",
        track_list_item_label(Some("Title"), Some("Artist"), None, None, Some(128), "")
    );
    assert_eq!(
        "Artist - Title {95 8A}",
        track_list_item_label(Some("Title"), Some("Artist"), None, None, Some(95), "8A")
    );
    assert_eq!("Title {12B}", track_list_item_label(Some("Title"), None, None, None, None, "12B"));
    assert_eq!("Title {7}", track_list_item_label(Some("Title"), None, None, None, Some(7), ""));
    assert_eq!(
        "Title {65534}",
        track_list_item_label(Some("Title"), None, None, None, Some(65534), "")
    );
    assert_eq!("Title {10}", track_list_item_label(Some("Title"), None, None, None, Some(10), ""));
}
