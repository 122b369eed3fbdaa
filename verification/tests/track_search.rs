use aoide_library::track_search::{
    parse_filter_from_input, FacetsFilter, MemoState, MemoStateCompletionError, PredefinedFacet,
    SearchFilter, TempoBpmFilter, TermFilter,
};

fn predefined() -> Vec<PredefinedFacet> {
    vec![
        PredefinedFacet::Comment,
        PredefinedFacet::Grouping,
        PredefinedFacet::Genre,
        PredefinedFacet::Mood,
        PredefinedFacet::Description,
        PredefinedFacet::Xid,
        PredefinedFacet::Isrc,
    ]
}

fn any(term: &str) -> TermFilter {
    TermFilter::AnyField { term: term.to_string(), tag_facets: FacetsFilter::AnyOf(predefined()) }
}

fn hashtag(label: &str) -> TermFilter {
    TermFilter::HashtagLabelPrefix { label: label.to_string(), facets: FacetsFilter::NoneOf(predefined()) }
}

#[test]
fn empty_input_has_no_filter() {
    assert_eq!(None, parse_filter_from_input(""));
}

#[test]
fn bpm_range_filter() {
    assert_eq!(
        Some(SearchFilter {
            all_of: vec![
                TermFilter::TempoBpm(TempoBpmFilter::GreaterOrEqual(80)),
                TermFilter::TempoBpm(TempoBpmFilter::LessOrEqual(120)),
            ],
        }),
        parse_filter_from_input("+80 -120")
    );
}

#[test]
fn hashtag_filter() {
    assert_eq!(
        Some(SearchFilter {
            all_of: vec![
                hashtag("Afterhour"),
                hashtag("Main%20Floor"),
            ],
        }),
        parse_filter_from_input("#Afterhour #Main%20Floor")
    );
    assert_eq!(
        Some(SearchFilter { all_of: vec![hashtag("main")] }),
        parse_filter_from_input("#main")
    );
}

#[test]
fn other_terms_match_any_field() {
    assert_eq!(
        Some(SearchFilter { all_of: vec![any("Daft"), any("Punk")] }),
        parse_filter_from_input("Daft  Punk")
    );
    // A lone prefix is an ordinary term.
    assert_eq!(
        Some(SearchFilter { all_of: vec![any("#"), any("+"), any("-")] }),
        parse_filter_from_input("# + -")
    );
}

#[test]
fn bpm_terms_as_the_standard_library_parses_them() {
    assert_eq!(
        Some(SearchFilter {
            all_of: vec![
                TermFilter::TempoBpm(TempoBpmFilter::GreaterOrEqual(5)),
                TermFilter::TempoBpm(TempoBpmFilter::LessOrEqual(7)),
                any("+-5"),
                any("+70000"),
                any("+12a"),
                TermFilter::TempoBpm(TempoBpmFilter::GreaterOrEqual(65535)),
            ],
        }),
        parse_filter_from_input("++5 -+7 +-5 +70000 +12a +65535")
    );
}

#[test]
fn terms_are_separated_by_unicode_whitespace() {
    assert_eq!(
        Some(SearchFilter { all_of: vec![any("a"), any("b"), any("c")] }),
        parse_filter_from_input("a\u{3000}b\tc")
    );
}

#[test]
fn memo_state_start_and_complete() {
    let mut state: MemoState<Vec<u32>, u32> = MemoState::default();
    assert!(state.pending_since().is_none());
    assert_eq!(Err(MemoStateCompletionError::NotPending), state.complete().map(|_| ()));
    let diff = state.try_start_pending(|memo: &Vec<u32>| (memo.len() as u32 + 7, "diff"));
    assert_eq!(Some("diff"), diff);
    assert!(state.pending_since().is_some());
    match state.complete() {
        Ok((memo, delta)) => {
            assert!(memo.is_empty());
            assert_eq!(7, *delta);
        }
        Err(err) => panic!("unexpected error {:?}", err),
    }
    state.apply_pending(|mut memo, delta| {
        memo.push(delta);
        memo
    });
    assert!(state.pending_since().is_none());
    assert_eq!(&vec![7], state.memo());
}

#[test]
fn memo_state_change_while_pending() {
    let mut state: MemoState<u32, u32> = MemoState::Ready(1);
    assert_eq!(Some(()), state.try_start_pending(|memo: &u32| (*memo + 1, ())));
    let since = state.pending_since();
    // The shared state changes again while the update is pending.
    assert_eq!(None, state.try_start_pending(|_: &u32| -> (u32, ()) { panic!("not called") }));
    assert_eq!(since, state.pending_since());
    assert_eq!(
        Err(MemoStateCompletionError::AbortPendingAndRetry),
        state.complete().map(|_| ())
    );
    assert!(state.abort());
    assert_eq!(&1, state.memo());
    assert!(!state.abort());
    assert_eq!(&1, state.memo());
}

use aoide_library::track_search::{
    abort_pending_state_change, abort_pending_with_completion_error, apply_fetched_items,
    apply_pending_state_change, forward_fetched, FetchedEntitiesDiff, FetchedItems, ForwardFetched,
    PendingChangeOutcome,
};

#[test]
fn fetched_items_reset_replace_append() {
    let mut list: Option<Vec<u32>> = None;
    assert_eq!(Some(2), apply_fetched_items(&mut list, FetchedItems::Append(vec![1, 2])));
    assert_eq!(Some(vec![1, 2]), list);
    assert_eq!(Some(4), apply_fetched_items(&mut list, FetchedItems::Append(vec![3, 4])));
    assert_eq!(Some(vec![1, 2, 3, 4]), list);
    assert_eq!(Some(1), apply_fetched_items(&mut list, FetchedItems::Replace(vec![9])));
    assert_eq!(Some(vec![9]), list);
    assert_eq!(None, apply_fetched_items(&mut list, FetchedItems::Reset));
    assert_eq!(None, list);
    assert_eq!(Some(0), apply_fetched_items(&mut list, FetchedItems::Replace(vec![])));
    assert_eq!(Some(vec![]), list);
}

#[test]
fn abort_pending_change() {
    let mut state: MemoState<u32, u32> = MemoState::Ready(3);
    assert_eq!(PendingChangeOutcome::NotPending, abort_pending_state_change(&mut state));
    assert_eq!(&3, state.memo());
    state.try_start_pending(|memo: &u32| (*memo * 2, ()));
    assert_eq!(PendingChangeOutcome::Aborted, abort_pending_state_change(&mut state));
    assert!(state.pending_since().is_none());
    assert_eq!(&3, state.memo());
    state.try_start_pending(|memo: &u32| (*memo * 2, ()));
    state.try_start_pending(|memo: &u32| (*memo * 2, ()));
    assert_eq!(PendingChangeOutcome::Retry, abort_pending_state_change(&mut state));
    assert!(state.pending_since().is_none());
}

#[test]
fn completion_errors() {
    let mut state: MemoState<u32, u32> = MemoState::Ready(3);
    assert_eq!(
        PendingChangeOutcome::NotPending,
        abort_pending_with_completion_error(&mut state, MemoStateCompletionError::NotPending)
    );
    state.try_start_pending(|memo: &u32| (*memo + 1, ()));
    assert_eq!(
        PendingChangeOutcome::Retry,
        abort_pending_with_completion_error(&mut state, MemoStateCompletionError::AbortPendingAndRetry)
    );
    assert!(state.pending_since().is_none());
    assert_eq!(&3, state.memo());
}

#[test]
fn apply_pending_change() {
    let mut state: MemoState<u32, u32> = MemoState::Ready(3);
    let mut list = Some(vec!["a"]);
    assert_eq!(
        PendingChangeOutcome::NotPending,
        apply_pending_state_change(&mut state, &mut list, FetchedItems::Append(vec!["b"]), |m, d| m + d)
    );
    assert_eq!(Some(vec!["a"]), list);

    state.try_start_pending(|memo: &u32| (*memo + 1, ()));
    assert_eq!(
        PendingChangeOutcome::Applied { new_offset: Some(2) },
        apply_pending_state_change(&mut state, &mut list, FetchedItems::Append(vec!["b"]), |m, d| m + d)
    );
    assert_eq!(Some(vec!["a", "b"]), list);
    assert!(state.pending_since().is_none());
    assert_eq!(&7, state.memo());

    state.try_start_pending(|memo: &u32| (*memo + 1, ()));
    state.try_start_pending(|memo: &u32| (*memo + 1, ()));
    assert_eq!(
        PendingChangeOutcome::Retry,
        apply_pending_state_change(&mut state, &mut list, FetchedItems::Reset, |m, d| m + d)
    );
    assert_eq!(Some(vec!["a", "b"]), list);
    assert_eq!(&7, state.memo());
}

#[test]
fn forward_fetched_results() {
    assert_eq!(ForwardFetched::Reset, forward_fetched(None, 0, FetchedEntitiesDiff::Replace));
    assert_eq!(ForwardFetched::Discard, forward_fetched(Some(3), 4, FetchedEntitiesDiff::Append));
    assert_eq!(
        ForwardFetched::Append { from: 3 },
        forward_fetched(Some(3), 3, FetchedEntitiesDiff::Append)
    );
    assert_eq!(
        ForwardFetched::Replace { from: 0 },
        forward_fetched(Some(10), 0, FetchedEntitiesDiff::Replace)
    );
}

use aoide_library::track_search::fetched_items_offset;

#[test]
fn offsets_of_fetched_results() {
    assert_eq!(0, fetched_items_offset(FetchedEntitiesDiff::Replace, Some(50)));
    assert_eq!(50, fetched_items_offset(FetchedEntitiesDiff::Append, Some(50)));
    assert_eq!(0, fetched_items_offset(FetchedEntitiesDiff::Append, None));
}
