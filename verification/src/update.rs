//! The decisions of the frontend on events of the library and on track
//! search actions: how the mode of the view changes, and what the caller
//! has to do next.

use vstd::prelude::*;

use crate::track_search::{
    abort_pending_state_change, aborted, apply_pending_state_change, completion, fetched_items_fit,
    fetched_list, list_view, FetchedItems, MemoState, MemoStateCompletionError,
    PendingChangeOutcome,
};

verus! {

/// The view of found tracks with the memo of the search that found them.
pub struct TrackSearchMode<M, D, T> {
    pub track_list: Option<Vec<T>>,
    pub memo_state: MemoState<M, D>,
}

/// What the main view shows.
pub enum ModelMode<M, D, T, P, O, L> {
    TrackSearch(TrackSearchMode<M, D, T>),
    MusicDirSync { last_progress: P, final_outcome: Option<O> },
    MusicDirList { content_paths_with_count: L },
}

/// How a synchronization of the music directory ended.
pub enum SyncFinished<O> {
    Succeeded(O),
    Aborted,
    Failed,
}

/// An event of the library.
pub enum LibraryEvent<P, O, L> {
    SettingsStateChanged,
    CollectionStateChanged,
    TrackSearchStateChanged,
    MusicDirSyncProgress(P),
    MusicDirSyncFinished(SyncFinished<O>),
    /// The list of a music directory of a collection; `None` if it could
    /// not be read.
    MusicDirListResult { collection_uid: String, result: Option<L> },
}

/// What the caller does after an event.
#[derive(Debug, Clone, Copy, PartialEq, Eq, Structural)]
pub enum EventAction {
    /// Nothing: the event was applied or discarded.
    Nothing,
    /// Hand the new settings state on.
    SettingsStateChanged,
    /// Hand the new collection state on.
    CollectionStateChanged,
    /// Bring the memo of the track search up to date; repaint if the mode
    /// was just entered.
    TrackSearchStateChanged { mode_entered: bool },
}

/// The outcome of a synchronization that is kept: only a successful one.
pub open spec fn kept_outcome<O>(finished: SyncFinished<O>) -> Option<O> {
    match finished {
        SyncFinished::Succeeded(outcome) => Some(outcome),
        _ => None,
    }
}

/// A freshly entered track search: no tracks and a ready memo.
pub open spec fn is_fresh_track_search<M, D, T, P, O, L>(mode: Option<ModelMode<M, D, T, P, O, L>>) -> bool {
    mode matches Some(ModelMode::TrackSearch(ts)) && ts.track_list is None && ts.memo_state is Ready
}

/// The mode after an event that is not about the track search: progress
/// and outcome go into a running synchronization, the list of a music
/// directory into its view if it belongs to the current collection; in
/// any other mode the event is discarded.
pub open spec fn mode_after_event<M, D, T, P, O, L>(
    mode: Option<ModelMode<M, D, T, P, O, L>>,
    event: LibraryEvent<P, O, L>,
    current_collection_uid: Option<Seq<char>>,
) -> Option<ModelMode<M, D, T, P, O, L>> {
    match event {
        LibraryEvent::MusicDirSyncProgress(progress) => match mode {
            Some(ModelMode::MusicDirSync { final_outcome, .. }) => Some(
                ModelMode::MusicDirSync { last_progress: progress, final_outcome },
            ),
            _ => mode,
        },
        LibraryEvent::MusicDirSyncFinished(finished) => match mode {
            Some(ModelMode::MusicDirSync { last_progress, .. }) => Some(
                ModelMode::MusicDirSync { last_progress, final_outcome: kept_outcome(finished) },
            ),
            _ => mode,
        },
        LibraryEvent::MusicDirListResult { collection_uid, result } => match (result, mode) {
            (Some(list), Some(ModelMode::MusicDirList { .. })) => if current_collection_uid == Some(collection_uid@) {
                Some(ModelMode::MusicDirList { content_paths_with_count: list })
            } else {
                mode
            },
            _ => mode,
        },
        _ => mode,
    }
}

/// Handles an event of the library.
pub fn on_library_event<M: Default, D, T, P, O, L>(
    mode: &mut Option<ModelMode<M, D, T, P, O, L>>,
    event: LibraryEvent<P, O, L>,
    current_collection_uid: Option<&str>,
) -> (action: EventAction)
    ensures
        match event {
            LibraryEvent::SettingsStateChanged => action == EventAction::SettingsStateChanged && *final(mode)
                == *old(mode),
            LibraryEvent::CollectionStateChanged => action == EventAction::CollectionStateChanged && *final(mode)
                == *old(mode),
            LibraryEvent::TrackSearchStateChanged => match *old(mode) {
                None => action == (EventAction::TrackSearchStateChanged { mode_entered: true })
                    && is_fresh_track_search(*final(mode)),
                Some(ModelMode::TrackSearch(_)) => action == (EventAction::TrackSearchStateChanged {
                    mode_entered: false,
                }) && *final(mode) == *old(mode),
                Some(_) => action == EventAction::Nothing && *final(mode) == *old(mode),
            },
            _ => action == EventAction::Nothing && *final(mode) == mode_after_event(
                *old(mode),
                event,
                match current_collection_uid {
                    Some(uid) => Some(uid@),
                    None => None,
                },
            ),
        },
{
    match event {
        LibraryEvent::SettingsStateChanged => EventAction::SettingsStateChanged,
        LibraryEvent::CollectionStateChanged => EventAction::CollectionStateChanged,
        LibraryEvent::TrackSearchStateChanged => {
            if mode.is_none() {
                *mode = Some(
                    ModelMode::TrackSearch(TrackSearchMode { track_list: None, memo_state: MemoState::default() }),
                );
                EventAction::TrackSearchStateChanged { mode_entered: true }
            } else if let Some(ModelMode::TrackSearch(_)) = mode {
                EventAction::TrackSearchStateChanged { mode_entered: false }
            } else {
                EventAction::Nothing
            }
        },
        LibraryEvent::MusicDirSyncProgress(progress) => {
            let old_mode = mode.take();
            *mode = match old_mode {
                Some(ModelMode::MusicDirSync { last_progress: _, final_outcome }) => Some(
                    ModelMode::MusicDirSync { last_progress: progress, final_outcome },
                ),
                other => other,
            };
            EventAction::Nothing
        },
        LibraryEvent::MusicDirSyncFinished(finished) => {
            let outcome = match finished {
                SyncFinished::Succeeded(outcome) => Some(outcome),
                _ => None,
            };
            let old_mode = mode.take();
            *mode = match old_mode {
                Some(ModelMode::MusicDirSync { last_progress, final_outcome: _ }) => Some(
                    ModelMode::MusicDirSync { last_progress, final_outcome: outcome },
                ),
                other => other,
            };
            EventAction::Nothing
        },
        LibraryEvent::MusicDirListResult { collection_uid, result } => {
            let list = match result {
                Some(list) => list,
                None => return EventAction::Nothing,
            };
            let current = match current_collection_uid {
                Some(uid) => crate::text::str_eq(uid, collection_uid.as_str()),
                None => false,
            };
            if current {
                if let Some(ModelMode::MusicDirList { .. }) = mode {
                    *mode = Some(ModelMode::MusicDirList { content_paths_with_count: list });
                }
            }
            EventAction::Nothing
        },
    }
}

/// An action on the track search.
pub enum TrackSearchAction<T> {
    Search(String),
    FetchMore,
    AbortPendingStateChange,
    ApplyPendingStateChange(FetchedItems<T>),
}

/// What the caller does after a track search action.
pub enum TrackSearchStep {
    /// The view shows another mode: the action was discarded.
    Discarded,
    /// The memo was reset: now search with this input.
    Search(String),
    /// The memo was reset: now fetch more results.
    FetchMore,
    /// The pending change was handled.
    Handled(PendingChangeOutcome),
}

/// The memo of the track search before an action, where there is one.
pub open spec fn search_mode_before<M, D, T, P, O, L>(mode: Option<ModelMode<M, D, T, P, O, L>>) -> Option<
    TrackSearchMode<M, D, T>,
> {
    match mode {
        Some(ModelMode::TrackSearch(ts)) => Some(ts),
        _ => None,
    }
}

/// Handles an action on the track search, entering the track search mode
/// if there is no mode yet. `apply_delta` brings the memo up to date when
/// a pending change is applied. Answers whether the mode was entered and
/// what the caller does next.
pub fn on_track_search_action<M: Default, D, T, P, O, L, F>(
    mode: &mut Option<ModelMode<M, D, T, P, O, L>>,
    action: TrackSearchAction<T>,
    apply_delta: F,
) -> (step: (bool, TrackSearchStep))
    where F: FnOnce(M, D) -> M,
    requires
        action matches TrackSearchAction::ApplyPendingStateChange(items) ==> match search_mode_before(*old(mode)) {
            Some(ts) => fetched_items_fit(ts.track_list, items) && (completion(ts.memo_state) matches Ok((memo, delta))
                ==> apply_delta.requires((memo, delta))),
            None => fetched_items_fit(None::<Vec<T>>, items),
        },
    ensures
        step.0 == (*old(mode) is None),
        *old(mode) is Some && search_mode_before(*old(mode)) is None ==> step.1 is Discarded && *final(mode)
            == *old(mode),
        *old(mode) is None ==> is_fresh_track_search(*final(mode)) && match action {
            TrackSearchAction::Search(input) => step.1 matches TrackSearchStep::Search(s) && s == input,
            TrackSearchAction::FetchMore => step.1 is FetchMore,
            _ => step.1 matches TrackSearchStep::Handled(o) && o == PendingChangeOutcome::NotPending,
        },
        search_mode_before(*old(mode)) matches Some(ts) ==> (search_mode_before(*final(mode)) matches Some(next)
            && match action {
            TrackSearchAction::Search(input) => step.1 matches TrackSearchStep::Search(s) && s == input
                && next.memo_state == aborted(ts.memo_state) && next.track_list == ts.track_list,
            TrackSearchAction::FetchMore => step.1 is FetchMore && next.memo_state == aborted(ts.memo_state)
                && next.track_list == ts.track_list,
            TrackSearchAction::AbortPendingStateChange => next.track_list == ts.track_list && match completion(
                ts.memo_state,
            ) {
                Ok(_) => step.1 == TrackSearchStep::Handled(PendingChangeOutcome::Aborted) && next.memo_state
                    == aborted(ts.memo_state),
                Err(MemoStateCompletionError::NotPending) => step.1 == TrackSearchStep::Handled(
                    PendingChangeOutcome::NotPending,
                ) && next.memo_state == ts.memo_state,
                Err(MemoStateCompletionError::AbortPendingAndRetry) => step.1 == TrackSearchStep::Handled(
                    PendingChangeOutcome::Retry,
                ) && next.memo_state == aborted(ts.memo_state),
            },
            TrackSearchAction::ApplyPendingStateChange(items) => match completion(ts.memo_state) {
                Ok((memo, delta)) => {
                    &&& list_view(next.track_list) == fetched_list(list_view(ts.track_list), items)
                    &&& step.1 == TrackSearchStep::Handled(
                        PendingChangeOutcome::Applied {
                            new_offset: match list_view(next.track_list) {
                                Some(l) => Some(l.len() as usize),
                                None => None,
                            },
                        },
                    )
                    &&& next.memo_state matches MemoState::Ready(m) && apply_delta.ensures((memo, delta), m)
                },
                Err(MemoStateCompletionError::NotPending) => step.1 == TrackSearchStep::Handled(
                    PendingChangeOutcome::NotPending,
                ) && next.memo_state == ts.memo_state && next.track_list == ts.track_list,
                Err(MemoStateCompletionError::AbortPendingAndRetry) => step.1 == TrackSearchStep::Handled(
                    PendingChangeOutcome::Retry,
                ) && next.memo_state == aborted(ts.memo_state) && next.track_list == ts.track_list,
            },
        }),
{
    let entered = mode.is_none();
    let old_mode = mode.take();
    let mut ts = match old_mode {
        None => TrackSearchMode { track_list: None, memo_state: MemoState::default() },
        Some(ModelMode::TrackSearch(ts)) => ts,
        Some(other) => {
            *mode = Some(other);
            return (false, TrackSearchStep::Discarded);
        },
    };
    let step = match action {
        TrackSearchAction::Search(input) => {
            ts.memo_state.abort();
            TrackSearchStep::Search(input)
        },
        TrackSearchAction::FetchMore => {
            ts.memo_state.abort();
            TrackSearchStep::FetchMore
        },
        TrackSearchAction::AbortPendingStateChange => TrackSearchStep::Handled(
            abort_pending_state_change(&mut ts.memo_state),
        ),
        TrackSearchAction::ApplyPendingStateChange(items) => TrackSearchStep::Handled(
            apply_pending_state_change(&mut ts.memo_state, &mut ts.track_list, items, apply_delta),
        ),
    };
    *mode = Some(ModelMode::TrackSearch(ts));
    (entered, step)
}


/// What the frontend knows of the library's state when it offers actions.
pub struct CurrentState {
    /// A music directory is set in the settings.
    pub music_dir_is_set: bool,
    /// The collection is ready.
    pub collection_is_ready: bool,
    /// A synchronization of the music directory is pending.
    pub synchronizing_music_dir_pending: bool,
    /// The track search has a pending update.
    pub track_search_pending: bool,
    /// Whether more search results can be fetched, if that is known.
    pub track_search_can_fetch_more: Option<bool>,
}

impl CurrentState {
    pub fn could_reset_music_dir(&self) -> (could: bool)
        ensures
            could == self.music_dir_is_set,
    {
        self.music_dir_is_set
    }

    pub fn could_synchronize_music_dir_task(&self) -> (could: bool)
        ensures
            could == self.collection_is_ready,
    {
        self.collection_is_ready
    }

    pub fn could_abort_synchronize_music_dir_task(&self) -> (could: bool)
        ensures
            could == self.synchronizing_music_dir_pending,
    {
        self.synchronizing_music_dir_pending
    }

    /// The list of the music directory can be viewed while the collection
    /// is ready and no synchronization can be aborted.
    pub fn could_view_music_dir_list(&self) -> (could: bool)
        ensures
            could == (self.collection_is_ready && !self.synchronizing_music_dir_pending),
    {
        self.collection_is_ready && !self.could_abort_synchronize_music_dir_task()
    }

    /// Tracks can be searched while the collection is ready and no search
    /// update is pending.
    pub fn could_search_tracks(&self) -> (could: bool)
        ensures
            could == (self.collection_is_ready && !self.track_search_pending),
    {
        self.collection_is_ready && !self.track_search_pending
    }

    /// More results can be fetched only where that is known to be possible.
    pub fn could_fetch_more_track_search_results(&self) -> (could: bool)
        ensures
            could == (self.track_search_can_fetch_more == Some(true)),
    {
        match self.track_search_can_fetch_more {
            Some(can) => can,
            None => false,
        }
    }
}

} // verus!
