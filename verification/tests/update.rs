use aoide_library::track_search::{FetchedItems, MemoState, PendingChangeOutcome};
use aoide_library::update::{
    on_library_event, CurrentState, on_track_search_action, EventAction, LibraryEvent, ModelMode, SyncFinished,
    TrackSearchAction, TrackSearchStep,
};

type Mode = ModelMode<u32, u32, u32, u32, u32, Vec<u32>>;

#[test]
fn track_search_event_enters_the_mode() {
    let mut mode: Option<Mode> = None;
    let action = on_library_event(&mut mode, LibraryEvent::TrackSearchStateChanged, None);
    assert_eq!(EventAction::TrackSearchStateChanged { mode_entered: true }, action);
    match &mode {
        Some(ModelMode::TrackSearch(ts)) => {
            assert!(ts.track_list.is_none());
            assert!(matches!(ts.memo_state, MemoState::Ready(_)));
        }
        _ => panic!("track search mode expected"),
    }
    let again = on_library_event(&mut mode, LibraryEvent::TrackSearchStateChanged, None);
    assert_eq!(EventAction::TrackSearchStateChanged { mode_entered: false }, again);
}

#[test]
fn sync_progress_and_outcome() {
    let mut mode: Option<Mode> = Some(ModelMode::MusicDirSync { last_progress: 0, final_outcome: None });
    assert_eq!(EventAction::Nothing, on_library_event(&mut mode, LibraryEvent::MusicDirSyncProgress(5), None));
    assert_eq!(
        EventAction::Nothing,
        on_library_event(&mut mode, LibraryEvent::MusicDirSyncFinished(SyncFinished::Succeeded(9)), None)
    );
    assert!(matches!(mode, Some(ModelMode::MusicDirSync { last_progress: 5, final_outcome: Some(9) })));
    on_library_event(&mut mode, LibraryEvent::MusicDirSyncFinished(SyncFinished::Failed), None);
    assert!(matches!(mode, Some(ModelMode::MusicDirSync { last_progress: 5, final_outcome: None })));
}

#[test]
fn dir_list_only_for_the_current_collection() {
    let mut mode: Option<Mode> = Some(ModelMode::MusicDirList { content_paths_with_count: vec![] });
    let event = |uid: &str| LibraryEvent::MusicDirListResult { collection_uid: uid.to_string(), result: Some(vec![1, 2]) };
    on_library_event(&mut mode, event("other"), Some("current"));
    assert!(matches!(&mode, Some(ModelMode::MusicDirList { content_paths_with_count }) if content_paths_with_count.is_empty()));
    on_library_event(&mut mode, event("current"), Some("current"));
    assert!(matches!(&mode, Some(ModelMode::MusicDirList { content_paths_with_count }) if content_paths_with_count == &vec![1, 2]));
}

#[test]
fn track_search_action_discarded_in_another_mode() {
    let mut mode: Option<Mode> = Some(ModelMode::MusicDirList { content_paths_with_count: vec![3] });
    let (entered, step) = on_track_search_action(&mut mode, TrackSearchAction::FetchMore, |m: u32, _d: u32| m);
    assert!(!entered);
    assert!(matches!(step, TrackSearchStep::Discarded));
}

#[test]
fn track_search_action_enters_the_mode() {
    let mut mode: Option<Mode> = None;
    let (entered, step) =
        on_track_search_action(&mut mode, TrackSearchAction::Search("abc".to_string()), |m: u32, _d: u32| m);
    assert!(entered);
    assert!(matches!(step, TrackSearchStep::Search(ref s) if s == "abc"));
    let (entered, step) = on_track_search_action(
        &mut mode,
        TrackSearchAction::ApplyPendingStateChange(FetchedItems::Replace(vec![1])),
        |m: u32, _d: u32| m,
    );
    assert!(!entered);
    assert!(matches!(step, TrackSearchStep::Handled(PendingChangeOutcome::NotPending)));
}

#[test]
fn offered_actions() {
    let state = CurrentState {
        music_dir_is_set: true,
        collection_is_ready: true,
        synchronizing_music_dir_pending: true,
        track_search_pending: false,
        track_search_can_fetch_more: None,
    };
    assert!(state.could_reset_music_dir());
    assert!(state.could_synchronize_music_dir_task());
    assert!(state.could_abort_synchronize_music_dir_task());
    assert!(!state.could_view_music_dir_list());
    assert!(state.could_search_tracks());
    assert!(!state.could_fetch_more_track_search_results());
    let state = CurrentState { track_search_can_fetch_more: Some(true), track_search_pending: true, ..state };
    assert!(state.could_fetch_more_track_search_results());
    assert!(!state.could_search_tracks());
}
