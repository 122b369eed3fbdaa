//! Track search: the memo state that mediates between the shared search
//! state and a view of its results, and parsing of the search input.

use vstd::prelude::*;

use crate::text::{
    char_is_whitespace, collect_chars, is_whitespace, lemma_word_len, lemma_word_len_bound, parse_u16, parse_u16_in,
    split_whitespace, is_trimmed,
};

verus! {

/// An event could not be emitted, because its receiver is gone.
#[derive(Debug, Clone, Copy, PartialEq, Eq, Structural)]
pub struct NoReceiverForEvent;

#[verifier::external_type_specification]
#[verifier::external_body]
pub struct ExInstant(std::time::Instant);

/// `Instant::now`: the current point in monotonic time.
#[verifier::external_body]
fn instant_now() -> std::time::Instant {
    std::time::Instant::now()
}

/// The state of a memo of search results that is brought up to date with
/// the shared search state.
///
/// While the difference to the shared state is being applied, the memo is
/// pending; a change of the shared state in the meantime is recorded, so
/// that the pending update can be retried.
#[derive(Debug)]
pub enum MemoState<M, D> {
    Ready(M),
    Pending { memo: M, memo_delta: D, state_changed_again: bool, pending_since: std::time::Instant },
}

#[derive(Debug, Clone, Copy, PartialEq, Eq, Structural)]
pub enum MemoStateCompletionError {
    /// There is no pending update.
    NotPending,
    /// The shared state changed while the update was pending.
    AbortPendingAndRetry,
}

/// The state after a request to start a pending update, when the memo was
/// ready and `memo_delta` was computed from it at `now`.
pub open spec fn started<M, D>(state: MemoState<M, D>, memo_delta: D, now: std::time::Instant) -> MemoState<M, D> {
    match state {
        MemoState::Ready(memo) => MemoState::Pending {
            memo,
            memo_delta,
            state_changed_again: false,
            pending_since: now,
        },
        MemoState::Pending { memo, memo_delta, state_changed_again: _, pending_since } => MemoState::Pending {
            memo,
            memo_delta,
            state_changed_again: true,
            pending_since,
        },
    }
}

/// The state after aborting a pending update: the memo as it was before.
pub open spec fn aborted<M, D>(state: MemoState<M, D>) -> MemoState<M, D> {
    match state {
        MemoState::Ready(memo) => MemoState::Ready(memo),
        MemoState::Pending { memo, .. } => MemoState::Ready(memo),
    }
}

/// The result of completing: the memo and the delta of a pending update,
/// unless nothing is pending or the shared state changed again.
pub open spec fn completion<M, D>(state: MemoState<M, D>) -> Result<(M, D), MemoStateCompletionError> {
    match state {
        MemoState::Ready(_) => Err(MemoStateCompletionError::NotPending),
        MemoState::Pending { memo, memo_delta, state_changed_again, .. } => if state_changed_again {
            Err(MemoStateCompletionError::AbortPendingAndRetry)
        } else {
            Ok((memo, memo_delta))
        },
    }
}

impl<M: Default, D> Default for MemoState<M, D> {
    fn default() -> (state: Self)
        ensures
            state is Ready,
    {
        MemoState::Ready(M::default())
    }
}

impl<M: Default, D> MemoState<M, D> {
    /// A pending update of `memo` by `memo_delta`, starting now.
    fn new_pending(memo: M, memo_delta: D) -> (state: Self)
        ensures
            state matches MemoState::Pending { memo: m, memo_delta: d, state_changed_again, .. } && m == memo && d
                == memo_delta && !state_changed_again,
    {
        MemoState::Pending { memo, memo_delta, state_changed_again: false, pending_since: instant_now() }
    }

    /// Starts a pending update if the memo is ready: `update_memo_delta`
    /// computes the delta to the shared state and the difference that the
    /// caller applies to its view. If an update is already pending, it is
    /// only recorded that the shared state changed again.
    pub fn try_start_pending<F, Diff>(&mut self, update_memo_delta: F) -> (memo_diff: Option<Diff>)
        where F: FnOnce(&M) -> (D, Diff),
        requires
            *old(self) matches MemoState::Ready(memo) ==> update_memo_delta.requires((&memo,)),
        ensures
            match *old(self) {
                MemoState::Ready(memo) => {
                    &&& memo_diff is Some
                    &&& *final(self) matches MemoState::Pending { memo_delta, pending_since, .. }
                    &&& update_memo_delta.ensures((&memo,), (memo_delta, memo_diff->0))
                    &&& *final(self) == started(*old(self), memo_delta, pending_since)
                },
                MemoState::Pending { memo_delta, pending_since, .. } => {
                    &&& memo_diff is None
                    &&& *final(self) == started(*old(self), memo_delta, pending_since)
                },
            },
    {
        let mut state = MemoState::Ready(M::default());
        std::mem::swap(&mut state, self);
        match state {
            MemoState::Ready(memo) => {
                let (memo_delta, memo_diff) = update_memo_delta(&memo);
                *self = Self::new_pending(memo, memo_delta);
                Some(memo_diff)
            },
            MemoState::Pending { memo, memo_delta, state_changed_again: _, pending_since } => {
                *self = MemoState::Pending { memo, memo_delta, state_changed_again: true, pending_since };
                None
            },
        }
    }

    /// Aborts a pending update and restores the memo; answers whether
    /// anything was pending.
    pub fn abort(&mut self) -> (changed: bool)
        ensures
            changed == (*old(self) is Pending),
            *final(self) == aborted(*old(self)),
    {
        let mut state = MemoState::Ready(M::default());
        std::mem::swap(&mut state, self);
        match state {
            MemoState::Ready(memo) => {
                *self = MemoState::Ready(memo);
                false
            },
            MemoState::Pending { memo, .. } => {
                *self = MemoState::Ready(memo);
                true
            },
        }
    }

    /// Applies the delta of a pending update to the memo, which becomes
    /// ready again.
    pub fn apply_pending<F>(&mut self, apply_delta: F)
        where F: FnOnce(M, D) -> M,
        requires
            *old(self) matches MemoState::Pending { memo, memo_delta, state_changed_again, .. } && !state_changed_again
                && apply_delta.requires((memo, memo_delta)),
        ensures
            *old(self) matches MemoState::Pending { memo, memo_delta, .. } && *final(self) matches MemoState::Ready(
                next,
            ) && apply_delta.ensures((memo, memo_delta), next),
    {
        let mut state = MemoState::Ready(M::default());
        std::mem::swap(&mut state, self);
        match state {
            MemoState::Pending { memo, memo_delta, .. } => {
                *self = MemoState::Ready(apply_delta(memo, memo_delta));
            },
            MemoState::Ready(memo) => {
                *self = MemoState::Ready(memo);
            },
        }
    }
}

impl<M, D> MemoState<M, D> {
    /// Since when an update is pending, if one is.
    pub fn pending_since(&self) -> (since: Option<std::time::Instant>)
        ensures
            match *self {
                MemoState::Ready(_) => since is None,
                MemoState::Pending { pending_since, .. } => since == Some(pending_since),
            },
    {
        match self {
            MemoState::Ready(_) => None,
            MemoState::Pending { pending_since, .. } => Some(*pending_since),
        }
    }

    /// The memo and delta of a pending update that can be applied.
    pub fn complete(&self) -> (completed: Result<(&M, &D), MemoStateCompletionError>)
        ensures
            match completion(*self) {
                Ok((memo, memo_delta)) => completed matches Ok((m, d)) && *m == memo && *d == memo_delta,
                Err(err) => completed == Err::<(&M, &D), MemoStateCompletionError>(err),
            },
    {
        match self {
            MemoState::Ready(_) => Err(MemoStateCompletionError::NotPending),
            MemoState::Pending { memo, memo_delta, state_changed_again, .. } => {
                if *state_changed_again {
                    Err(MemoStateCompletionError::AbortPendingAndRetry)
                } else {
                    Ok((memo, memo_delta))
                }
            },
        }
    }

    /// The memo, whether an update is pending or not.
    pub fn memo(&self) -> (memo: &M)
        ensures
            match *self {
                MemoState::Ready(m) => *memo == m,
                MemoState::Pending { memo: m, .. } => *memo == m,
            },
    {
        match self {
            MemoState::Ready(memo) => memo,
            MemoState::Pending { memo, .. } => memo,
        }
    }
}

/// What a fetch of search results brings for the list of found tracks.
#[derive(Debug)]
pub enum FetchedItems<T> {
    /// No results are available: the list is dropped.
    Reset,
    /// The results replace the whole list.
    Replace(Vec<T>),
    /// The results continue the list.
    Append(Vec<T>),
}

/// The list after applying fetched items: `None` for no list.
pub open spec fn fetched_list<T>(list: Option<Seq<T>>, fetched_items: FetchedItems<T>) -> Option<Seq<T>> {
    match fetched_items {
        FetchedItems::Reset => None,
        FetchedItems::Replace(items) => Some(items@),
        FetchedItems::Append(items) => Some(
            match list {
                Some(l) => l,
                None => Seq::empty(),
            } + items@,
        ),
    }
}

pub open spec fn list_view<T>(list: Option<Vec<T>>) -> Option<Seq<T>> {
    match list {
        Some(l) => Some(l@),
        None => None,
    }
}

/// Appending fits into memory.
pub open spec fn fetched_items_fit<T>(list: Option<Vec<T>>, fetched_items: FetchedItems<T>) -> bool {
    fetched_items matches FetchedItems::Append(items) ==> (match list {
        Some(l) => l.len(),
        None => 0,
    }) + items.len() <= usize::MAX
}

/// Applies fetched items to the list of found tracks and answers the new
/// length of the list, which is where the next fetch continues.
pub fn apply_fetched_items<T>(track_list: &mut Option<Vec<T>>, fetched_items: FetchedItems<T>) -> (new_offset: Option<usize>)
    requires
        fetched_items_fit(*old(track_list), fetched_items),
    ensures
        list_view(*final(track_list)) == fetched_list(list_view(*old(track_list)), fetched_items),
        new_offset == (match list_view(*final(track_list)) {
            Some(l) => Some(l.len() as usize),
            None => None,
        }),
{
    match fetched_items {
        FetchedItems::Reset => {
            *track_list = None;
            None
        },
        FetchedItems::Replace(items) => {
            let len = items.len();
            *track_list = Some(items);
            Some(len)
        },
        FetchedItems::Append(mut items) => {
            let mut list = match track_list.take() {
                Some(list) => list,
                None => Vec::new(),
            };
            list.append(&mut items);
            let len = list.len();
            *track_list = Some(list);
            Some(len)
        },
    }
}

/// How a request to abort or to apply a pending change of the search state
/// was handled.
#[derive(Debug, Clone, Copy, PartialEq, Eq, Structural)]
pub enum PendingChangeOutcome {
    /// Nothing was pending: nothing changed.
    NotPending,
    /// The pending change was dropped and the memo restored.
    Aborted,
    /// The pending change was applied; the list now has the given length.
    Applied { new_offset: Option<usize> },
    /// The search state changed again in the meantime: the pending change
    /// was dropped, and the state change has to be handled once more.
    Retry,
}

/// Handles an error of completing a pending change: a change that has to
/// be retried is aborted.
pub fn abort_pending_with_completion_error<M: Default, D>(
    memo_state: &mut MemoState<M, D>,
    err: MemoStateCompletionError,
) -> (outcome: PendingChangeOutcome)
    ensures
        err == MemoStateCompletionError::NotPending ==> outcome == PendingChangeOutcome::NotPending && *final(memo_state)
            == *old(memo_state),
        err == MemoStateCompletionError::AbortPendingAndRetry ==> outcome == PendingChangeOutcome::Retry
            && *final(memo_state) == aborted(*old(memo_state)),
{
    match err {
        MemoStateCompletionError::NotPending => PendingChangeOutcome::NotPending,
        MemoStateCompletionError::AbortPendingAndRetry => {
            memo_state.abort();
            PendingChangeOutcome::Retry
        },
    }
}

/// Aborts a pending change of the search state on request.
pub fn abort_pending_state_change<M: Default, D>(memo_state: &mut MemoState<M, D>) -> (outcome: PendingChangeOutcome)
    ensures
        match completion(*old(memo_state)) {
            Ok(_) => outcome == PendingChangeOutcome::Aborted && *final(memo_state) == aborted(*old(memo_state)),
            Err(MemoStateCompletionError::NotPending) => outcome == PendingChangeOutcome::NotPending
                && *final(memo_state) == *old(memo_state),
            Err(MemoStateCompletionError::AbortPendingAndRetry) => outcome == PendingChangeOutcome::Retry
                && *final(memo_state) == aborted(*old(memo_state)),
        },
{
    let err = match memo_state.complete() {
        Ok(_) => None,
        Err(err) => Some(err),
    };
    match err {
        None => {
            memo_state.abort();
            PendingChangeOutcome::Aborted
        },
        Some(err) => abort_pending_with_completion_error(memo_state, err),
    }
}

/// Applies a pending change of the search state on request: the fetched
/// items go into the list of found tracks, and `apply_delta` brings the
/// memo up to date.
pub fn apply_pending_state_change<M: Default, D, T, F>(
    memo_state: &mut MemoState<M, D>,
    track_list: &mut Option<Vec<T>>,
    fetched_items: FetchedItems<T>,
    apply_delta: F,
) -> (outcome: PendingChangeOutcome)
    where F: FnOnce(M, D) -> M,
    requires
        fetched_items_fit(*old(track_list), fetched_items),
        completion(*old(memo_state)) matches Ok((memo, memo_delta)) ==> apply_delta.requires((memo, memo_delta)),
    ensures
        match completion(*old(memo_state)) {
            Ok((memo, memo_delta)) => {
                &&& list_view(*final(track_list)) == fetched_list(list_view(*old(track_list)), fetched_items)
                &&& outcome == PendingChangeOutcome::Applied {
                    new_offset: match list_view(*final(track_list)) {
                        Some(l) => Some(l.len() as usize),
                        None => None,
                    },
                }
                &&& *final(memo_state) matches MemoState::Ready(next) && apply_delta.ensures((memo, memo_delta), next)
            },
            Err(MemoStateCompletionError::NotPending) => {
                &&& outcome == PendingChangeOutcome::NotPending
                &&& *final(memo_state) == *old(memo_state)
                &&& *final(track_list) == *old(track_list)
            },
            Err(MemoStateCompletionError::AbortPendingAndRetry) => {
                &&& outcome == PendingChangeOutcome::Retry
                &&& *final(memo_state) == aborted(*old(memo_state))
                &&& *final(track_list) == *old(track_list)
            },
        },
{
    let err = match memo_state.complete() {
        Ok(_) => None,
        Err(err) => Some(err),
    };
    match err {
        None => {
            let new_offset = apply_fetched_items(track_list, fetched_items);
            memo_state.apply_pending(apply_delta);
            PendingChangeOutcome::Applied { new_offset }
        },
        Some(err) => abort_pending_with_completion_error(memo_state, err),
    }
}

/// How the fetched search results changed.
#[derive(Debug, Clone, Copy, PartialEq, Eq, Structural)]
pub enum FetchedEntitiesDiff {
    Replace,
    Append,
}

/// Where a change of the search results starts: at the beginning when they
/// are replaced, and after the results fetched before (the memo's offset,
/// if any) when more of them are appended.
pub fn fetched_items_offset(diff: FetchedEntitiesDiff, fetched_before: Option<usize>) -> (offset: usize)
    ensures
        offset == (match diff {
            FetchedEntitiesDiff::Replace => 0,
            FetchedEntitiesDiff::Append => match fetched_before {
                Some(n) => n,
                None => 0,
            },
        }),
{
    match diff {
        FetchedEntitiesDiff::Replace => 0,
        FetchedEntitiesDiff::Append => match fetched_before {
            Some(n) => n,
            None => 0,
        },
    }
}

/// Which of the fetched search results to forward to the list of found
/// tracks.
#[derive(Debug, Clone, Copy, PartialEq, Eq, Structural)]
pub enum ForwardFetched {
    /// The results changed again in the meantime: abort the pending change.
    Discard,
    /// No results are available.
    Reset,
    /// The results from the given index on replace the list.
    Replace { from: usize },
    /// The results from the given index on continue the list.
    Append { from: usize },
}

/// Decides which fetched results to forward, given how many are available
/// (`None` for none) and where the change starts.
pub fn forward_fetched(fetched_len: Option<usize>, offset: usize, diff: FetchedEntitiesDiff) -> (forward: ForwardFetched)
    ensures
        forward == (match fetched_len {
            None => ForwardFetched::Reset,
            Some(len) => if offset > len {
                ForwardFetched::Discard
            } else if diff == FetchedEntitiesDiff::Replace {
                ForwardFetched::Replace { from: offset }
            } else {
                ForwardFetched::Append { from: offset }
            },
        }),
{
    match fetched_len {
        None => ForwardFetched::Reset,
        Some(len) => {
            if offset > len {
                ForwardFetched::Discard
            } else {
                match diff {
                    FetchedEntitiesDiff::Replace => ForwardFetched::Replace { from: offset },
                    FetchedEntitiesDiff::Append => ForwardFetched::Append { from: offset },
                }
            }
        },
    }
}

/// A tempo bound, from a `+<digits>` or `-<digits>` term.
#[derive(Debug, Clone, Copy, PartialEq, Eq, Structural)]
pub enum TempoBpmFilter {
    GreaterOrEqual(u16),
    LessOrEqual(u16),
}

/// The predefined facets of tags, whose labels are searched as fields
/// rather than as hashtags.
#[derive(Debug, Clone, Copy, PartialEq, Eq, Structural)]
pub enum PredefinedFacet {
    Comment,
    Grouping,
    Genre,
    Mood,
    Description,
    Xid,
    Isrc,
}

/// The predefined facets, in this order.
pub open spec fn predefined_facets() -> Seq<PredefinedFacet> {
    seq![
        PredefinedFacet::Comment,
        PredefinedFacet::Grouping,
        PredefinedFacet::Genre,
        PredefinedFacet::Mood,
        PredefinedFacet::Description,
        PredefinedFacet::Xid,
        PredefinedFacet::Isrc,
    ]
}

fn predefined_facet_list() -> (facets: Vec<PredefinedFacet>)
    ensures
        facets@ == predefined_facets(),
{
    let facets = vec![
        PredefinedFacet::Comment,
        PredefinedFacet::Grouping,
        PredefinedFacet::Genre,
        PredefinedFacet::Mood,
        PredefinedFacet::Description,
        PredefinedFacet::Xid,
        PredefinedFacet::Isrc,
    ];
    assert(facets@ =~= predefined_facets());
    facets
}

/// The facets whose tags a tag filter looks at.
#[derive(Debug, Clone, PartialEq, Eq)]
pub enum FacetsFilter {
    AnyOf(Vec<PredefinedFacet>),
    NoneOf(Vec<PredefinedFacet>),
}

/// The filter for a single term of the search input.
#[derive(Debug, Clone, PartialEq, Eq)]
pub enum TermFilter {
    /// A `#label` term: tags with a label that starts with `label`, in any
    /// facet except the predefined ones.
    HashtagLabelPrefix { label: String, facets: FacetsFilter },
    /// A `+<digits>` or `-<digits>` term: the tempo in BPM is at least or at
    /// most the given value.
    TempoBpm(TempoBpmFilter),
    /// Any other term: it occurs in a title, an actor name or the publisher,
    /// or in a tag label of one of the predefined facets.
    AnyField { term: String, tag_facets: FacetsFilter },
}

/// A search filter that all terms of the input have to match.
#[derive(Debug, Clone, PartialEq, Eq)]
pub struct SearchFilter {
    pub all_of: Vec<TermFilter>,
}

/// The filter for a single term.
pub open spec fn is_term_filter(filter: TermFilter, term: Seq<char>) -> bool {
    if term.len() > 1 && term[0] == '#' {
        filter matches TermFilter::HashtagLabelPrefix { label, facets: FacetsFilter::NoneOf(excluded) }
            && label@ == term.drop_first() && excluded@ == predefined_facets()
    } else if term.len() > 0 && term[0] == '+' && parse_u16(term.drop_first()) is Some {
        filter == TermFilter::TempoBpm(TempoBpmFilter::GreaterOrEqual(parse_u16(term.drop_first())->0))
    } else if term.len() > 0 && term[0] == '-' && parse_u16(term.drop_first()) is Some {
        filter == TermFilter::TempoBpm(TempoBpmFilter::LessOrEqual(parse_u16(term.drop_first())->0))
    } else {
        filter matches TermFilter::AnyField { term: any, tag_facets: FacetsFilter::AnyOf(included) } && any@ == term
            && included@ == predefined_facets()
    }
}

/// The filters for the terms of an input, term by term.
pub open spec fn is_filter_for(filter: SearchFilter, input: Seq<char>) -> bool {
    let terms = split_whitespace(input);
    &&& filter.all_of.len() == terms.len()
    &&& forall|i: int| 0 <= i < terms.len() ==> is_term_filter(#[trigger] filter.all_of[i], terms[i])
}

/// The filter for the term `chars[start..end]`.
fn term_filter(input: &str, chars: &Vec<char>, start: usize, end: usize) -> (filter: TermFilter)
    requires
        chars@ == input@,
        start < end <= chars.len(),
    ensures
        is_term_filter(filter, chars@.subrange(start as int, end as int)),
{
    let ghost term = chars@.subrange(start as int, end as int);
    let first = chars[start];
    if first == '#' && end - start > 1 {
        let label = input.substring_char(start + 1, end).to_owned();
        assert(label@ =~= term.drop_first());
        return TermFilter::HashtagLabelPrefix { label, facets: FacetsFilter::NoneOf(predefined_facet_list()) };
    }
    if first == '+' || first == '-' {
        assert(chars@.subrange(start + 1, end as int) =~= term.drop_first());
        if let Some(bpm) = parse_u16_in(chars, start + 1, end) {
            if first == '+' {
                return TermFilter::TempoBpm(TempoBpmFilter::GreaterOrEqual(bpm));
            } else {
                return TermFilter::TempoBpm(TempoBpmFilter::LessOrEqual(bpm));
            }
        }
    }
    let any = input.substring_char(start, end).to_owned();
    TermFilter::AnyField { term: any, tag_facets: FacetsFilter::AnyOf(predefined_facet_list()) }
}

/// Parses the search input into a filter: the terms are separated by
/// whitespace, and a track has to match all of them. Empty input means no
/// filter. A hashtag term leaves out the tags of the predefined facets; any
/// other term that is no tempo bound looks into the tags of exactly those.
pub fn parse_filter_from_input(input: &str) -> (filter: Option<SearchFilter>)
    ensures
        filter is None <==> input@.len() == 0,
        filter matches Some(filter) ==> is_filter_for(filter, input@),
{
    let chars = collect_chars(input);
    if chars.len() == 0 {
        return None;
    }
    let ghost s = input@;
    let mut all_of: Vec<TermFilter> = Vec::new();
    let mut i: usize = 0;
    assert(s.skip(0) =~= s);
    while i < chars.len()
        invariant
            chars@ == s,
            s == input@,
            i <= chars.len(),
            all_of.len() + split_whitespace(s.skip(i as int)).len() == split_whitespace(s).len(),
            forall|k: int| 0 <= k < all_of.len() ==> is_term_filter(#[trigger] all_of@[k], split_whitespace(s)[k]),
            split_whitespace(s) == split_whitespace(s).take(all_of.len() as int) + split_whitespace(s.skip(i as int)),
        decreases chars.len() - i,
    {
        let ghost rest = s.skip(i as int);
        if char_is_whitespace(chars[i]) {
            assert(rest.drop_first() =~= s.skip(i + 1));
            i = i + 1;
        } else {
            let mut j = i + 1;
            while j < chars.len() && !char_is_whitespace(chars[j])
                invariant
                    i < j <= chars.len(),
                    chars@ == s,
                    forall|m: int| i <= m < j ==> !is_whitespace(#[trigger] s[m]),
                decreases chars.len() - j,
            {
                j = j + 1;
            }
            proof {
                lemma_word_len(rest, j - i);
                assert(rest.take(j - i) =~= s.subrange(i as int, j as int));
                assert(rest.skip(j - i) =~= s.skip(j as int));
            }
            let term = term_filter(input, &chars, i, j);
            let ghost before = split_whitespace(s).take(all_of.len() as int);
            all_of.push(term);
            assert(split_whitespace(s).take(all_of.len() as int) =~= before.push(s.subrange(i as int, j as int)));
            i = j;
        }
    }
    assert(s.skip(i as int) =~= Seq::<char>::empty());
    Some(SearchFilter { all_of })
}

/// A non-empty input without leading or trailing whitespace has at least
/// one term, so its filter is never empty.
pub proof fn law_trimmed_input_has_terms(input: Seq<char>)
    requires
        is_trimmed(input),
        input.len() > 0,
    ensures
        split_whitespace(input).len() > 0,
{
    lemma_word_len_bound(input);
}

/// Aborting an update right after it was started restores the memo as it
/// was before.
pub proof fn law_abort_undoes_start<M, D>(memo: M, memo_delta: D, now: std::time::Instant)
    ensures
        aborted(started(MemoState::Ready(memo), memo_delta, now)) == MemoState::<M, D>::Ready(memo),
{
}

/// Aborting when nothing is pending changes nothing.
pub proof fn law_abort_ready_unchanged<M, D>(memo: M)
    ensures
        aborted(MemoState::<M, D>::Ready(memo)) == MemoState::<M, D>::Ready(memo),
{
}

/// An update that was started and not disturbed completes with the memo and
/// the delta that was computed for it.
pub proof fn law_started_update_completes<M, D>(memo: M, memo_delta: D, now: std::time::Instant)
    ensures
        completion(started(MemoState::Ready(memo), memo_delta, now)) == Ok::<(M, D), MemoStateCompletionError>((memo, memo_delta)),
{
}

/// When the shared state changes again while an update is pending, the
/// pending update cannot complete and has to be retried.
pub proof fn law_change_while_pending_forces_retry<M, D>(state: MemoState<M, D>, memo_delta: D, now: std::time::Instant)
    requires
        state is Pending,
    ensures
        started(state, memo_delta, now) is Pending,
        completion(started(state, memo_delta, now)) == Err::<(M, D), MemoStateCompletionError>(
            MemoStateCompletionError::AbortPendingAndRetry,
        ),
{
}

/// Nothing completes unless an update is pending.
pub proof fn law_ready_does_not_complete<M, D>(memo: M)
    ensures
        completion(MemoState::<M, D>::Ready(memo)) == Err::<(M, D), MemoStateCompletionError>(
            MemoStateCompletionError::NotPending,
        ),
{
}

} // verus!
