//! A mathematical model of a depth-first walk over the entries of a
//! directory tree, with the laws that the directory digests rest on: each
//! directory that holds entries is finished exactly once, and its digest
//! covers exactly the entries directly inside it.
//!
//! An entry is given by the path of its parent directory and, where digests
//! are concerned, its fingerprint. Placing an entry finishes the innermost
//! open directories that do not contain it, then either digests it into the
//! innermost open directory (its parent) or opens its parent.

use vstd::prelude::*;

use crate::dir_digest::{is_nested_chain, is_path_prefix, placement_of, Placement};

verus! {

/// The directories that are finished, innermost first, and the open
/// directories afterwards, when an entry with the given parent is placed.
pub open spec fn place_parent(open: Seq<Seq<Seq<char>>>, parent: Seq<Seq<char>>) -> (Seq<Seq<Seq<char>>>, Seq<Seq<Seq<char>>>)
    decreases open.len(),
{
    match placement_of(open, parent) {
        Placement::FinishInnermost => {
            let rest = place_parent(open.drop_last(), parent);
            (seq![open.last()] + rest.0, rest.1)
        },
        Placement::DigestIntoInnermost => (Seq::empty(), open),
        Placement::OpenParent => (Seq::empty(), open.push(parent)),
    }
}

/// The directories that are finished while placing entries with the given
/// parents one after the other, and the open directories afterwards.
pub open spec fn walk_dirs(open: Seq<Seq<Seq<char>>>, parents: Seq<Seq<Seq<char>>>) -> (Seq<Seq<Seq<char>>>, Seq<Seq<Seq<char>>>)
    decreases parents.len(),
{
    if parents.len() == 0 {
        (Seq::empty(), open)
    } else {
        let placed = place_parent(open, parents[0]);
        let rest = walk_dirs(placed.1, parents.drop_first());
        (placed.0 + rest.0, rest.1)
    }
}

/// All directories in the order in which a walk over entries with the given
/// parents finishes them: during the walk, then the ones still open at its
/// end, innermost first.
pub open spec fn finished_dirs(parents: Seq<Seq<Seq<char>>>) -> Seq<Seq<Seq<char>>> {
    let walked = walk_dirs(Seq::empty(), parents);
    walked.0 + walked.1.reverse()
}

/// In a depth-first walk, the entries below any directory come in one
/// uninterrupted stretch.
pub open spec fn subtrees_contiguous(parents: Seq<Seq<Seq<char>>>) -> bool {
    forall|dir: Seq<Seq<char>>, i: int, j: int, k: int|
        0 <= i < j < k < parents.len() && #[trigger] is_path_prefix(dir, parents[i]) && #[trigger] is_path_prefix(
            dir,
            parents[k],
        ) ==> #[trigger] is_path_prefix(dir, parents[j])
}

pub open spec fn disjoint<A>(a: Seq<A>, b: Seq<A>) -> bool {
    forall|x: A| a.contains(x) ==> !b.contains(x)
}

proof fn lemma_no_dup_concat<A>(a: Seq<A>, b: Seq<A>)
    requires
        a.no_duplicates(),
        b.no_duplicates(),
        disjoint(a, b),
    ensures
        (a + b).no_duplicates(),
{
    let c = a + b;
    assert forall|i: int, j: int| 0 <= i < c.len() && 0 <= j < c.len() && i != j implies c[i] != c[j] by {
        if i < a.len() && j >= a.len() {
            assert(a.contains(c[i]));
            assert(b.contains(b[j - a.len()]));
        } else if j < a.len() && i >= a.len() {
            assert(a.contains(c[j]));
            assert(b.contains(b[i - a.len()]));
        } else if i >= a.len() && j >= a.len() {
            assert(c[i] == b[i - a.len()] && c[j] == b[j - a.len()]);
        }
    }
}

proof fn lemma_concat_contains<A>(a: Seq<A>, b: Seq<A>)
    ensures
        forall|x: A| #[trigger] (a + b).contains(x) <==> a.contains(x) || b.contains(x),
{
    assert forall|x: A| #[trigger] (a + b).contains(x) <==> a.contains(x) || b.contains(x) by {
        let c = a + b;
        if c.contains(x) {
            let i = choose|i: int| 0 <= i < c.len() && c[i] == x;
            if i < a.len() {
                assert(a[i] == x);
            } else {
                assert(b[i - a.len()] == x);
            }
        }
        if a.contains(x) {
            let i = choose|i: int| 0 <= i < a.len() && a[i] == x;
            assert(c[i] == x);
        }
        if b.contains(x) {
            let i = choose|i: int| 0 <= i < b.len() && b[i] == x;
            assert(c[a.len() + i] == x);
        }
    }
}

proof fn lemma_reverse_facts<A>(s: Seq<A>)
    ensures
        s.reverse().len() == s.len(),
        forall|x: A| s.reverse().contains(x) <==> s.contains(x),
        s.no_duplicates() ==> s.reverse().no_duplicates(),
{
    let r = s.reverse();
    assert forall|x: A| r.contains(x) <==> s.contains(x) by {
        if r.contains(x) {
            let i = choose|i: int| 0 <= i < r.len() && r[i] == x;
            assert(s[s.len() - 1 - i] == x);
        }
        if s.contains(x) {
            let i = choose|i: int| 0 <= i < s.len() && s[i] == x;
            assert(r[s.len() - 1 - i] == x);
        }
    }
    if s.no_duplicates() {
        assert forall|i: int, j: int| 0 <= i < r.len() && 0 <= j < r.len() && i != j implies r[i] != r[j] by {
            assert(r[i] == s[s.len() - 1 - i]);
            assert(r[j] == s[s.len() - 1 - j]);
        }
    }
}

proof fn lemma_chain_no_duplicates(chain: Seq<Seq<Seq<char>>>)
    requires
        is_nested_chain(chain),
    ensures
        chain.no_duplicates(),
{
    assert forall|i: int, j: int| 0 <= i < chain.len() && 0 <= j < chain.len() && i != j implies chain[i] != chain[j] by {
        if i < j {
            assert(is_path_prefix(chain[i], chain[j]) && chain[i].len() < chain[j].len());
        } else {
            assert(is_path_prefix(chain[j], chain[i]) && chain[j].len() < chain[i].len());
        }
    }
}

/// Placing an entry finishes the innermost directories that do not contain
/// it, keeps the others, and leaves its parent open.
proof fn lemma_place_parent(open: Seq<Seq<Seq<char>>>, parent: Seq<Seq<char>>) -> (kept: int)
    requires
        is_nested_chain(open),
    ensures
        0 <= kept <= open.len(),
        place_parent(open, parent).0 == open.skip(kept).reverse(),
        forall|x: Seq<Seq<char>>| #[trigger] open.skip(kept).contains(x) ==> !is_path_prefix(x, parent),
        place_parent(open, parent).1 == open.take(kept) || place_parent(open, parent).1 == open.take(kept).push(parent),
        place_parent(open, parent).1 == open.take(kept).push(parent) ==> !open.take(kept).contains(parent),
        is_nested_chain(place_parent(open, parent).1),
        place_parent(open, parent).1.contains(parent),
    decreases open.len(),
{
    match placement_of(open, parent) {
        Placement::FinishInnermost => {
            let init = open.drop_last();
            assert(is_nested_chain(init)) by {
                assert forall|i: int, j: int| 0 <= i < j < init.len() implies #[trigger] is_path_prefix(init[i], init[j])
                    && init[i].len() < #[trigger] init[j].len() by {
                    assert(init[i] == open[i] && init[j] == open[j]);
                }
            }
            let kept = lemma_place_parent(init, parent);
            assert(init.take(kept) =~= open.take(kept));
            assert(open.skip(kept) =~= init.skip(kept).push(open.last()));
            assert(open.skip(kept).reverse() =~= seq![open.last()] + init.skip(kept).reverse());
            assert forall|x: Seq<Seq<char>>| #[trigger] open.skip(kept).contains(x) implies !is_path_prefix(x, parent) by {
                if x != open.last() {
                    let i = choose|i: int| 0 <= i < open.skip(kept).len() && open.skip(kept)[i] == x;
                    assert(init.skip(kept)[i] == x);
                    assert(init.skip(kept).contains(x));
                }
            }
            kept
        },
        Placement::DigestIntoInnermost => {
            assert(open.take(open.len() as int) =~= open);
            assert(open.skip(open.len() as int).reverse() =~= Seq::<Seq<Seq<char>>>::empty());
            assert(open[open.len() - 1] == parent);
            open.len() as int
        },
        Placement::OpenParent => {
            assert(open.take(open.len() as int) =~= open);
            assert(open.skip(open.len() as int).reverse() =~= Seq::<Seq<Seq<char>>>::empty());
            let pushed = open.push(parent);
            assert(pushed[open.len() as int] == parent);
            if open.len() > 0 {
                let last = open.last();
                if last.len() == parent.len() {
                    assert(last =~= parent);
                }
            }
            assert forall|i: int, j: int| 0 <= i < j < pushed.len() implies #[trigger] is_path_prefix(pushed[i], pushed[j])
                && pushed[i].len() < #[trigger] pushed[j].len() by {
                if j < open.len() {
                    assert(pushed[i] == open[i] && pushed[j] == open[j]);
                } else {
                    let last = open.last();
                    assert(pushed[i] == open[i]);
                    if i < open.len() - 1 {
                        assert(is_path_prefix(open[i], last));
                        assert forall|k: int| 0 <= k < open[i].len() implies #[trigger] open[i][k] == parent[k] by {
                            assert(open[i][k] == last[k]);
                            assert(last[k] == parent[k]);
                        }
                    }
                }
            }
            assert(!open.contains(parent)) by {
                if open.contains(parent) {
                    let i = choose|i: int| 0 <= i < open.len() && open[i] == parent;
                    assert(pushed[i] == parent);
                    assert(pushed[i].len() < pushed[open.len() as int].len());
                }
            }
            open.len() as int
        },
    }
}

/// What holds between the steps of a walk: the open directories form a
/// chain; each directory that entries have been placed in so far is either
/// finished, once, or open; and no entry still to come lies in a finished
/// directory.
pub open spec fn walk_invariant(
    finished: Seq<Seq<Seq<char>>>,
    open: Seq<Seq<Seq<char>>>,
    done: Seq<Seq<Seq<char>>>,
    rest: Seq<Seq<Seq<char>>>,
) -> bool {
    &&& is_nested_chain(open)
    &&& finished.no_duplicates()
    &&& disjoint(finished, open)
    &&& forall|x: Seq<Seq<char>>| (#[trigger] finished.contains(x) || open.contains(x)) <==> done.contains(x)
    &&& forall|d: Seq<Seq<char>>, k: int| #[trigger] finished.contains(d) && 0 <= k < rest.len() ==> !is_path_prefix(d, #[trigger] rest[k])
    &&& subtrees_contiguous(done + rest)
}

/// Placing the next entry keeps the invariant of the walk.
proof fn lemma_walk_step(
    finished: Seq<Seq<Seq<char>>>,
    open: Seq<Seq<Seq<char>>>,
    done: Seq<Seq<Seq<char>>>,
    rest: Seq<Seq<Seq<char>>>,
)
    requires
        walk_invariant(finished, open, done, rest),
        rest.len() > 0,
    ensures
        ({
            let placed = place_parent(open, rest[0]);
            &&& walk_invariant(finished + placed.0, placed.1, done.push(rest[0]), rest.drop_first())
            &&& done.push(rest[0]) + rest.drop_first() == done + rest
        }),
{
    lemma_chain_no_duplicates(open);
    let parent = rest[0];
    let kept = lemma_place_parent(open, parent);
    let placed = place_parent(open, parent);
    let popped = open.skip(kept);
    let next_finished = finished + placed.0;
    let next_done = done.push(parent);
    let next_rest = rest.drop_first();
    assert(open =~= open.take(kept) + popped);
    lemma_reverse_facts(popped);
    // The popped directories are new among the finished ones.
    assert(popped.no_duplicates()) by {
        assert forall|i: int, j: int| 0 <= i < popped.len() && 0 <= j < popped.len() && i != j implies popped[i] != popped[j] by {
            assert(popped[i] == open[kept + i] && popped[j] == open[kept + j]);
        }
    }
    assert(disjoint(finished, placed.0)) by {
        assert forall|x: Seq<Seq<char>>| finished.contains(x) implies !placed.0.contains(x) by {
            if popped.contains(x) {
                let i = choose|i: int| 0 <= i < popped.len() && popped[i] == x;
                assert(open[kept + i] == x);
            }
        }
    }
    lemma_no_dup_concat(finished, placed.0);
    // The remaining open directories are neither finished before nor now.
    assert(disjoint(next_finished, placed.1)) by {
        assert forall|x: Seq<Seq<char>>| next_finished.contains(x) implies !placed.1.contains(x) by {
            if placed.1.contains(x) {
                let i = choose|i: int| 0 <= i < placed.1.len() && placed.1[i] == x;
                if i < kept {
                    assert(open[i] == x);
                    assert(open.contains(x));
                    if popped.contains(x) {
                        let j = choose|j: int| 0 <= j < popped.len() && popped[j] == x;
                        assert(open[kept + j] == x);
                    }
                    if finished.contains(x) {
                    }
                    let idx = choose|idx: int| 0 <= idx < next_finished.len() && next_finished[idx] == x;
                    if idx < finished.len() {
                        assert(finished.contains(x));
                    } else {
                        assert(placed.0.contains(x));
                    }
                } else {
                    assert(x == parent);
                    assert(is_path_prefix(parent, parent));
                    let idx = choose|idx: int| 0 <= idx < next_finished.len() && next_finished[idx] == x;
                    if idx < finished.len() {
                        assert(finished.contains(x));
                        assert(!is_path_prefix(x, rest[0]));
                    } else {
                        assert(placed.0.contains(x));
                        assert(popped.contains(x));
                    }
                }
            }
        }
    }
    // Every finished directory is left behind for good.
    assert forall|d: Seq<Seq<char>>, k: int| #[trigger] next_finished.contains(d) && 0 <= k < next_rest.len() implies !is_path_prefix(
        d,
        #[trigger] next_rest[k],
    ) by {
        assert(next_rest[k] == rest[k + 1]);
        let idx = choose|idx: int| 0 <= idx < next_finished.len() && next_finished[idx] == d;
        if idx < finished.len() {
            assert(finished.contains(d));
        } else {
            assert(placed.0.contains(d));
            assert(popped.contains(d));
            assert(!is_path_prefix(d, parent));
            assert(open.contains(d)) by {
                let j = choose|j: int| 0 <= j < popped.len() && popped[j] == d;
                assert(open[kept + j] == d);
            }
            assert(done.contains(d));
            let m = choose|m: int| 0 <= m < done.len() && done[m] == d;
            let all = done + rest;
            assert(all[m] == d);
            assert(all[done.len() as int] == parent);
            assert(all[done.len() + 1 + k] == rest[k + 1]);
            assert(is_path_prefix(d, d));
            if is_path_prefix(d, rest[k + 1]) {
                assert(is_path_prefix(d, all[m]));
                assert(is_path_prefix(d, all[done.len() + 1 + k]));
                assert(is_path_prefix(d, all[done.len() as int]));
            }
        }
    }
    assert forall|x: Seq<Seq<char>>| (#[trigger] next_finished.contains(x) || placed.1.contains(x)) <==> next_done.contains(x) by {
        if next_done.contains(x) && x != parent {
            let m = choose|m: int| 0 <= m < next_done.len() && next_done[m] == x;
            assert(done[m] == x);
            assert(done.contains(x));
            if finished.contains(x) {
                let i = choose|i: int| 0 <= i < finished.len() && finished[i] == x;
                assert(next_finished[i] == x);
            } else {
                assert(open.contains(x));
                let i = choose|i: int| 0 <= i < open.len() && open[i] == x;
                if i < kept {
                    assert(placed.1[i] == x);
                } else {
                    assert(popped[i - kept] == x);
                    assert(popped.contains(x));
                    assert(popped.reverse().contains(x));
                    assert(placed.0.contains(x));
                    let j = choose|j: int| 0 <= j < placed.0.len() && placed.0[j] == x;
                    assert(next_finished[finished.len() + j] == x);
                }
            }
        }
        if next_finished.contains(x) {
            let i = choose|i: int| 0 <= i < next_finished.len() && next_finished[i] == x;
            if i < finished.len() {
                assert(finished.contains(x));
                assert(done.contains(x));
            } else {
                assert(placed.0.contains(x));
                assert(popped.contains(x));
                let j = choose|j: int| 0 <= j < popped.len() && popped[j] == x;
                assert(open[kept + j] == x);
                assert(done.contains(x));
            }
            let m = choose|m: int| 0 <= m < done.len() && done[m] == x;
            assert(next_done[m] == x);
        }
        if placed.1.contains(x) && x != parent {
            let i = choose|i: int| 0 <= i < placed.1.len() && placed.1[i] == x;
            assert(i < kept);
            assert(open[i] == x);
            assert(open.contains(x));
            assert(done.contains(x));
            let m = choose|m: int| 0 <= m < done.len() && done[m] == x;
            assert(next_done[m] == x);
        }
        if x == parent {
            assert(next_done[done.len() as int] == x);
        }
    }
    assert(next_done + next_rest =~= done + rest);
}

proof fn lemma_walk_dirs(
    finished: Seq<Seq<Seq<char>>>,
    open: Seq<Seq<Seq<char>>>,
    done: Seq<Seq<Seq<char>>>,
    rest: Seq<Seq<Seq<char>>>,
)
    requires
        walk_invariant(finished, open, done, rest),
    ensures
        ({
            let walked = walk_dirs(open, rest);
            let all = finished + walked.0 + walked.1.reverse();
            &&& all.no_duplicates()
            &&& forall|x: Seq<Seq<char>>| #[trigger] all.contains(x) <==> (done + rest).contains(x)
        }),
    decreases rest.len(),
{
    lemma_chain_no_duplicates(open);
    if rest.len() == 0 {
        let walked = walk_dirs(open, rest);
        lemma_reverse_facts(open);
        assert(disjoint(finished, open.reverse()));
        lemma_no_dup_concat(finished, open.reverse());
        lemma_concat_contains(finished, open.reverse());
        assert(finished + walked.0 + walked.1.reverse() =~= finished + open.reverse());
        assert(done + rest =~= done);
    } else {
        let placed = place_parent(open, rest[0]);
        let next_finished = finished + placed.0;
        let next_rest = rest.drop_first();
        lemma_walk_step(finished, open, done, rest);
        lemma_walk_dirs(next_finished, placed.1, done.push(rest[0]), next_rest);
        let walked = walk_dirs(open, rest);
        let next_walked = walk_dirs(placed.1, next_rest);
        assert(finished + walked.0 + walked.1.reverse() =~= next_finished + next_walked.0 + next_walked.1.reverse());
    }
}


/// The paths of directories given together with their digest inputs.
pub open spec fn dir_paths(dirs: Seq<(Seq<Seq<char>>, Seq<u8>)>) -> Seq<Seq<Seq<char>>> {
    Seq::new(dirs.len(), |i: int| dirs[i].0)
}

/// The digest input of a directory after the given entries: the
/// fingerprints of the entries directly inside it, in walk order. Each
/// entry is given by its parent directory and its fingerprint.
pub open spec fn entries_input(entries: Seq<(Seq<Seq<char>>, Seq<u8>)>, dir: Seq<Seq<char>>) -> Seq<u8>
    decreases entries.len(),
{
    if entries.len() == 0 {
        Seq::empty()
    } else {
        entries_input(entries.drop_last(), dir) + if entries.last().0 == dir {
            entries.last().1
        } else {
            Seq::empty()
        }
    }
}

/// Placing an entry, given by its parent and fingerprint, among the open
/// directories with their digest inputs: the directories that are
/// finished, innermost first, and the open directories afterwards.
pub open spec fn place_entry(
    open: Seq<(Seq<Seq<char>>, Seq<u8>)>,
    entry: (Seq<Seq<char>>, Seq<u8>),
) -> (Seq<(Seq<Seq<char>>, Seq<u8>)>, Seq<(Seq<Seq<char>>, Seq<u8>)>)
    decreases open.len(),
{
    match placement_of(dir_paths(open), entry.0) {
        Placement::FinishInnermost => {
            let rest = place_entry(open.drop_last(), entry);
            (seq![open.last()] + rest.0, rest.1)
        },
        Placement::DigestIntoInnermost => (
            Seq::empty(),
            open.update(open.len() - 1, (open.last().0, open.last().1 + entry.1)),
        ),
        Placement::OpenParent => (Seq::empty(), open.push(entry)),
    }
}

/// The directories, with their digest inputs, that are finished while
/// placing the entries one after the other, and the open ones afterwards.
pub open spec fn digest_walk(
    open: Seq<(Seq<Seq<char>>, Seq<u8>)>,
    entries: Seq<(Seq<Seq<char>>, Seq<u8>)>,
) -> (Seq<(Seq<Seq<char>>, Seq<u8>)>, Seq<(Seq<Seq<char>>, Seq<u8>)>)
    decreases entries.len(),
{
    if entries.len() == 0 {
        (Seq::empty(), open)
    } else {
        let placed = place_entry(open, entries[0]);
        let rest = digest_walk(placed.1, entries.drop_first());
        (placed.0 + rest.0, rest.1)
    }
}

/// All directories with the inputs of their digests, in the order in which
/// a walk over the given entries finishes them.
pub open spec fn directory_digest_inputs(entries: Seq<(Seq<Seq<char>>, Seq<u8>)>) -> Seq<(Seq<Seq<char>>, Seq<u8>)> {
    let walked = digest_walk(Seq::empty(), entries);
    walked.0 + walked.1.reverse()
}

proof fn lemma_dir_paths_concat(a: Seq<(Seq<Seq<char>>, Seq<u8>)>, b: Seq<(Seq<Seq<char>>, Seq<u8>)>)
    ensures
        dir_paths(a + b) == dir_paths(a) + dir_paths(b),
        dir_paths(a.reverse()) == dir_paths(a).reverse(),
{
    assert(dir_paths(a + b) =~= dir_paths(a) + dir_paths(b));
    assert(dir_paths(a.reverse()) =~= dir_paths(a).reverse());
}

/// Placing an entry with its fingerprint moves the directories as placing
/// its parent alone does; the finished ones are popped off the open ones,
/// and the fingerprint goes into the innermost or a new open directory.
proof fn lemma_place_entry(open: Seq<(Seq<Seq<char>>, Seq<u8>)>, entry: (Seq<Seq<char>>, Seq<u8>)) -> (kept: int)
    ensures
        dir_paths(place_entry(open, entry).0) == place_parent(dir_paths(open), entry.0).0,
        dir_paths(place_entry(open, entry).1) == place_parent(dir_paths(open), entry.0).1,
        0 <= kept <= open.len(),
        place_entry(open, entry).0 == open.skip(kept).reverse(),
        place_entry(open, entry).1 == open.take(kept).push(entry) || (0 < kept && open[kept - 1].0 == entry.0
            && place_entry(open, entry).1 == open.take(kept).update(
            kept - 1,
            (entry.0, open[kept - 1].1 + entry.1),
        )),
    decreases open.len(),
{
    let paths = dir_paths(open);
    match placement_of(paths, entry.0) {
        Placement::FinishInnermost => {
            let init = open.drop_last();
            assert(dir_paths(init) =~= paths.drop_last());
            let kept = lemma_place_entry(init, entry);
            let rest = place_entry(init, entry);
            assert(dir_paths(seq![open.last()] + rest.0) =~= seq![paths.last()] + dir_paths(rest.0));
            assert(init.take(kept) =~= open.take(kept));
            assert(open.skip(kept) =~= init.skip(kept).push(open.last()));
            assert(open.skip(kept).reverse() =~= seq![open.last()] + init.skip(kept).reverse());
            if 0 < kept {
                assert(init[kept - 1] == open[kept - 1]);
            }
            kept
        },
        Placement::DigestIntoInnermost => {
            let n = open.len() as int;
            assert(dir_paths(open.update(n - 1, (open.last().0, open.last().1 + entry.1))) =~= paths);
            assert(open.take(n) =~= open);
            assert(open.skip(n).reverse() =~= Seq::<(Seq<Seq<char>>, Seq<u8>)>::empty());
            assert(dir_paths(Seq::<(Seq<Seq<char>>, Seq<u8>)>::empty()) =~= Seq::<Seq<Seq<char>>>::empty());
            assert(paths[n - 1] == entry.0);
            n
        },
        Placement::OpenParent => {
            let n = open.len() as int;
            assert(dir_paths(open.push(entry)) =~= paths.push(entry.0));
            assert(open.take(n) =~= open);
            assert(open.skip(n).reverse() =~= Seq::<(Seq<Seq<char>>, Seq<u8>)>::empty());
            assert(dir_paths(Seq::<(Seq<Seq<char>>, Seq<u8>)>::empty()) =~= Seq::<Seq<Seq<char>>>::empty());
            n
        },
    }
}


/// Each directory's digest input consists of the fingerprints of the given
/// entries that lie directly inside it.
pub open spec fn inputs_match(dirs: Seq<(Seq<Seq<char>>, Seq<u8>)>, entries: Seq<(Seq<Seq<char>>, Seq<u8>)>) -> bool {
    forall|k: int| 0 <= k < dirs.len() ==> #[trigger] dirs[k].1 == entries_input(entries, dirs[k].0)
}

pub(crate) proof fn lemma_entries_input_push(
    entries: Seq<(Seq<Seq<char>>, Seq<u8>)>,
    entry: (Seq<Seq<char>>, Seq<u8>),
    dir: Seq<Seq<char>>,
)
    ensures
        entries_input(entries.push(entry), dir) == entries_input(entries, dir) + if entry.0 == dir {
            entry.1
        } else {
            Seq::empty()
        },
{
    assert(entries.push(entry).drop_last() =~= entries);
}

pub(crate) proof fn lemma_entries_input_absent(entries: Seq<(Seq<Seq<char>>, Seq<u8>)>, dir: Seq<Seq<char>>)
    requires
        !dir_paths(entries).contains(dir),
    ensures
        entries_input(entries, dir) == Seq::<u8>::empty(),
    decreases entries.len(),
{
    if entries.len() > 0 {
        let init = entries.drop_last();
        assert(!dir_paths(init).contains(dir)) by {
            if dir_paths(init).contains(dir) {
                let i = choose|i: int| 0 <= i < dir_paths(init).len() && dir_paths(init)[i] == dir;
                assert(dir_paths(entries)[i] == dir);
            }
        }
        assert(dir_paths(entries)[entries.len() - 1] == entries.last().0);
        lemma_entries_input_absent(init, dir);
        assert(entries_input(init, dir) + Seq::<u8>::empty() =~= Seq::<u8>::empty());
    }
}

proof fn lemma_digest_walk(
    finished: Seq<(Seq<Seq<char>>, Seq<u8>)>,
    open: Seq<(Seq<Seq<char>>, Seq<u8>)>,
    done: Seq<(Seq<Seq<char>>, Seq<u8>)>,
    rest: Seq<(Seq<Seq<char>>, Seq<u8>)>,
)
    requires
        walk_invariant(dir_paths(finished), dir_paths(open), dir_paths(done), dir_paths(rest)),
        inputs_match(finished, done),
        inputs_match(open, done),
    ensures
        ({
            let walked = digest_walk(open, rest);
            &&& dir_paths(walked.0) == walk_dirs(dir_paths(open), dir_paths(rest)).0
            &&& dir_paths(walked.1) == walk_dirs(dir_paths(open), dir_paths(rest)).1
            &&& inputs_match(finished + walked.0 + walked.1.reverse(), done + rest)
        }),
    decreases rest.len(),
{
    if rest.len() == 0 {
        let all = finished + open.reverse();
        assert(done + rest =~= done);
        assert(dir_paths(Seq::<(Seq<Seq<char>>, Seq<u8>)>::empty()) =~= Seq::<Seq<Seq<char>>>::empty());
        assert forall|k: int| 0 <= k < all.len() implies #[trigger] all[k].1 == entries_input(done + rest, all[k].0) by {
            if k < finished.len() {
                assert(all[k] == finished[k]);
            } else {
                assert(all[k] == open[open.len() - 1 - (k - finished.len())]);
            }
        }
        assert(finished + digest_walk(open, rest).0 + digest_walk(open, rest).1.reverse() =~= all);
    } else {
        let entry = rest[0];
        let paths = dir_paths(open);
        let placed = place_entry(open, entry);
        let kept = lemma_place_entry(open, entry);
        let kept_paths = lemma_place_parent(paths, entry.0);
        assert(kept_paths == kept) by {
            assert(dir_paths(placed.0).len() == placed.0.len());
        }
        let popped = open.skip(kept);
        let next_finished = finished + placed.0;
        let next_done = done.push(entry);
        let next_rest = rest.drop_first();
        lemma_walk_step(dir_paths(finished), paths, dir_paths(done), dir_paths(rest));
        assert(dir_paths(rest)[0] == entry.0);
        lemma_dir_paths_concat(finished, placed.0);
        assert(dir_paths(next_done) =~= dir_paths(done).push(entry.0));
        assert(dir_paths(next_rest) =~= dir_paths(rest).drop_first());
        assert(is_path_prefix(entry.0, entry.0));
        // No directory but the parent of the entry gets its fingerprint.
        assert forall|k: int| 0 <= k < finished.len() implies #[trigger] finished[k].0 != entry.0 by {
            assert(dir_paths(finished)[k] == finished[k].0);
            assert(dir_paths(finished).contains(finished[k].0));
            assert(!is_path_prefix(finished[k].0, dir_paths(rest)[0]));
        }
        assert forall|k: int| 0 <= k < popped.len() implies #[trigger] popped[k].0 != entry.0 by {
            assert(paths.skip(kept)[k] == popped[k].0);
            assert(paths.skip(kept).contains(popped[k].0));
        }
        assert(inputs_match(next_finished, next_done)) by {
            assert forall|k: int| 0 <= k < next_finished.len() implies #[trigger] next_finished[k].1 == entries_input(
                next_done,
                next_finished[k].0,
            ) by {
                if k < finished.len() {
                    assert(next_finished[k] == finished[k]);
                    lemma_entries_input_push(done, entry, finished[k].0);
                    assert(entries_input(done, finished[k].0) + Seq::<u8>::empty() =~= entries_input(done, finished[k].0));
                } else {
                    let j = popped.len() - 1 - (k - finished.len());
                    assert(next_finished[k] == popped[j]);
                    assert(popped[j] == open[kept + j]);
                    lemma_entries_input_push(done, entry, popped[j].0);
                    assert(entries_input(done, popped[j].0) + Seq::<u8>::empty() =~= entries_input(done, popped[j].0));
                }
            }
        }
        assert(inputs_match(placed.1, next_done)) by {
            assert forall|k: int| 0 <= k < placed.1.len() implies #[trigger] placed.1[k].1 == entries_input(
                next_done,
                placed.1[k].0,
            ) by {
                let x = placed.1[k];
                lemma_entries_input_push(done, entry, x.0);
                if placed.1 == open.take(kept).push(entry) {
                    if k < kept {
                        assert(x == open[k]);
                        // The parent was not open before.
                        assert(place_parent(paths, entry.0).1 == paths.take(kept).push(entry.0)) by {
                            assert(dir_paths(placed.1) =~= paths.take(kept).push(entry.0));
                        }
                        assert(paths.take(kept)[k] == x.0);
                        assert(x.0 != entry.0);
                        assert(entries_input(done, x.0) + Seq::<u8>::empty() =~= entries_input(done, x.0));
                    } else {
                        assert(x == entry);
                        // The parent holds no earlier entry.
                        assert(!dir_paths(done).contains(entry.0)) by {
                            if dir_paths(done).contains(entry.0) {
                                if dir_paths(finished).contains(entry.0) {
                                    assert(!is_path_prefix(entry.0, dir_paths(rest)[0]));
                                } else {
                                    let i = choose|i: int| 0 <= i < paths.len() && paths[i] == entry.0;
                                    if i < kept {
                                        assert(place_parent(paths, entry.0).1 == paths.take(kept).push(entry.0)) by {
                                            assert(dir_paths(placed.1) =~= paths.take(kept).push(entry.0));
                                        }
                                        assert(paths.take(kept)[i] == entry.0);
                                    } else {
                                        assert(paths.skip(kept)[i - kept] == entry.0);
                                        assert(paths.skip(kept).contains(entry.0));
                                    }
                                }
                            }
                        }
                        lemma_entries_input_absent(done, entry.0);
                        assert(Seq::<u8>::empty() + entry.1 =~= entry.1);
                    }
                } else {
                    if k < kept - 1 {
                        assert(x == open[k]);
                        assert(is_path_prefix(paths[k], paths[kept - 1]) && paths[k].len() < paths[kept - 1].len());
                        assert(x.0 != entry.0);
                        assert(entries_input(done, x.0) + Seq::<u8>::empty() =~= entries_input(done, x.0));
                    } else {
                        assert(x == (entry.0, open[kept - 1].1 + entry.1));
                        assert(open[kept - 1].1 == entries_input(done, entry.0));
                    }
                }
            }
        }
        lemma_digest_walk(next_finished, placed.1, next_done, next_rest);
        assert(next_done + next_rest =~= done + rest);
        let walked = digest_walk(open, rest);
        let next_walked = digest_walk(placed.1, next_rest);
        assert(finished + walked.0 + walked.1.reverse() =~= next_finished + next_walked.0 + next_walked.1.reverse());
        lemma_dir_paths_concat(placed.0, next_walked.0);
    }
}

/// In a depth-first walk, the digest of each directory covers exactly the
/// entries directly inside it, in the order of the walk, and the
/// directories are digested in the order in which the walk finishes them.
pub proof fn law_directory_digest_covers_its_entries(entries: Seq<(Seq<Seq<char>>, Seq<u8>)>)
    requires
        subtrees_contiguous(dir_paths(entries)),
    ensures
        dir_paths(directory_digest_inputs(entries)) == finished_dirs(dir_paths(entries)),
        forall|k: int|
            0 <= k < directory_digest_inputs(entries).len() ==> #[trigger] directory_digest_inputs(entries)[k].1
                == entries_input(entries, directory_digest_inputs(entries)[k].0),
{
    let empty = Seq::<(Seq<Seq<char>>, Seq<u8>)>::empty();
    let no_paths = Seq::<Seq<Seq<char>>>::empty();
    assert(dir_paths(empty) =~= no_paths);
    assert(no_paths + dir_paths(entries) =~= dir_paths(entries));
    assert(empty + entries =~= entries);
    lemma_digest_walk(empty, empty, empty, entries);
    let walked = digest_walk(empty, entries);
    assert(empty + walked.0 + walked.1.reverse() =~= directory_digest_inputs(entries));
    lemma_dir_paths_concat(walked.0, walked.1.reverse());
    lemma_dir_paths_concat(walked.1, walked.1);
}

/// In a depth-first walk, every directory that holds entries is finished
/// exactly once, and only such directories are finished.
pub proof fn law_each_directory_finished_once(parents: Seq<Seq<Seq<char>>>)
    requires
        subtrees_contiguous(parents),
    ensures
        finished_dirs(parents).no_duplicates(),
        forall|dir: Seq<Seq<char>>| #[trigger] finished_dirs(parents).contains(dir) <==> parents.contains(dir),
{
    let empty = Seq::<Seq<Seq<char>>>::empty();
    assert(empty + parents =~= parents);
    lemma_walk_dirs(empty, empty, empty, parents);
    let walked = walk_dirs(empty, parents);
    assert(empty + walked.0 + walked.1.reverse() =~= finished_dirs(parents));
}

} // verus!
