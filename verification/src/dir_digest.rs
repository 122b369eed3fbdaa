//! Digesting directory trees for detecting changes.
//!
//! A directory tree is walked depth-first, parents before their contents.
//! Every directory that contains at least one entry gets a digest over the
//! fingerprints of its entries, in the order in which they were visited.
//! Walking the file system is done by the caller, who hands each visited
//! entry to one of the state machines of this module and carries out the
//! step that it answers with.

use vstd::prelude::*;

use crate::text::str_eq;
use crate::dir_walk::{
    dir_paths, disjoint, subtrees_contiguous, entries_input, inputs_match, lemma_entries_input_absent, lemma_entries_input_push,
};
use crate::digest::{
    blake3_hash, digest_dir_entry_for_detecting_changes, entry_fingerprint, hasher_finalize, DigestHasher,
    new_hasher, time_stamps_after_epoch, FsMetadata,
};

verus! {

/// Relative paths are sequences of path components.
pub open spec fn path_view(path: Vec<String>) -> Seq<Seq<char>> {
    path.deep_view()
}

/// `prefix` is a leading part of `path`, component by component.
pub open spec fn is_path_prefix(prefix: Seq<Seq<char>>, path: Seq<Seq<char>>) -> bool {
    &&& prefix.len() <= path.len()
    &&& forall|i: int| 0 <= i < prefix.len() ==> #[trigger] prefix[i] == path[i]
}

/// Whether `path` starts with `prefix`, component by component.
pub fn path_starts_with(path: &Vec<String>, prefix: &Vec<String>) -> (starts_with: bool)
    ensures
        starts_with == is_path_prefix(path_view(*prefix), path_view(*path)),
{
    if prefix.len() > path.len() {
        return false;
    }
    let mut i: usize = 0;
    while i < prefix.len()
        invariant
            i <= prefix.len() <= path.len(),
            forall|j: int| 0 <= j < i ==> #[trigger] path_view(*prefix)[j] == path_view(*path)[j],
        decreases prefix.len() - i,
    {
        if !(prefix[i] == path[i]) {
            assert(path_view(*prefix)[i as int] != path_view(*path)[i as int]);
            return false;
        }
        i += 1;
    }
    true
}

/// Whether two paths consist of the same components.
pub fn path_eq(a: &Vec<String>, b: &Vec<String>) -> (eq: bool)
    ensures
        eq == (path_view(*a) == path_view(*b)),
{
    assert(path_view(*a).len() == a.len());
    assert(path_view(*b).len() == b.len());
    if a.len() != b.len() {
        return false;
    }
    let r = path_starts_with(a, b);
    if r {
        assert(path_view(*a) =~= path_view(*b));
    }
    r
}

/// Where the next entry goes, given the open directories and the entry's
/// parent directory.
#[derive(Debug, Clone, Copy, PartialEq, Eq, Structural)]
pub enum Placement {
    /// The innermost open directory does not contain the entry: it is done.
    FinishInnermost,
    /// The entry belongs to the innermost open directory.
    DigestIntoInnermost,
    /// The entry's parent is a new directory, nested in all open ones.
    OpenParent,
}

pub open spec fn placement_of(open_paths: Seq<Seq<Seq<char>>>, parent: Seq<Seq<char>>) -> Placement {
    if open_paths.len() == 0 {
        Placement::OpenParent
    } else if is_path_prefix(open_paths.last(), parent) {
        if parent == open_paths.last() {
            Placement::DigestIntoInnermost
        } else {
            Placement::OpenParent
        }
    } else {
        Placement::FinishInnermost
    }
}

/// Each open directory strictly contains all that were opened after it.
pub open spec fn is_nested_chain(paths: Seq<Seq<Seq<char>>>) -> bool {
    forall|i: int, j: int|
        #![trigger paths[i], paths[j]]
        0 <= i < j < paths.len() ==> is_path_prefix(paths[i], paths[j]) && paths[i].len() < paths[j].len()
}

struct OpenDir {
    path: Vec<String>,
    digest: DigestHasher,
}

/// The directories whose digests are still being computed, outermost first,
/// together with the history of the walk: the parents of the entries placed
/// so far, the entries digested so far and the directories handed out so
/// far.
pub struct OpenDirectories {
    dirs: Vec<OpenDir>,
    digested: Ghost<Seq<(Seq<Seq<char>>, Seq<u8>)>>,
    handed_out: Ghost<Seq<(Seq<Seq<char>>, Seq<u8>)>>,
    depth_first: Ghost<bool>,
    visited: Ghost<Seq<Seq<Seq<char>>>>,
    unwinding: Ghost<bool>,
}

/// The directory `dir` was the parent of a visited entry, and a later entry
/// lay outside of it: the walk has left it behind.
pub open spec fn left_behind_by(visited: Seq<Seq<Seq<char>>>, dir: Seq<Seq<char>>) -> bool {
    exists|i: int, j: int| 0 <= i < j < visited.len() && #[trigger] visited[i] == dir && !is_path_prefix(dir, #[trigger] visited[j])
}

/// The record of the walk: each handed out directory was left behind by a
/// later entry, unless the walk is over; and each open directory is the
/// parent of a visited entry.
pub open spec fn walk_recorded(
    paths: Seq<Seq<Seq<char>>>,
    visited: Seq<Seq<Seq<char>>>,
    handed_out: Seq<(Seq<Seq<char>>, Seq<u8>)>,
    unwinding: bool,
) -> bool {
    &&& forall|k: int| 0 <= k < handed_out.len() ==> unwinding || left_behind_by(visited, #[trigger] handed_out[k].0)
    &&& forall|x: Seq<Seq<char>>| #[trigger] paths.contains(x) ==> visited.contains(x)
}

/// None of the directories lies on the path to `parent`: an entry with
/// this parent comes after all of them in a depth-first walk.
pub open spec fn left_behind(dirs: Seq<(Seq<Seq<char>>, Seq<u8>)>, parent: Seq<Seq<char>>) -> bool {
    forall|k: int| 0 <= k < dirs.len() ==> !is_path_prefix(#[trigger] dirs[k].0, parent)
}

/// `dir` holds one of the digested entries.
pub open spec fn holds_entry(digested: Seq<(Seq<Seq<char>>, Seq<u8>)>, dir: Seq<Seq<char>>) -> bool {
    dir_paths(digested).contains(dir)
}

/// The history of a depth-first walk is consistent: the digest input of
/// every open and every handed out directory consists of the fingerprints
/// of its own entries, and each directory that holds an entry is either open
/// or handed out, once.
pub open spec fn history_holds(
    paths: Seq<Seq<Seq<char>>>,
    inputs: Seq<Seq<u8>>,
    digested: Seq<(Seq<Seq<char>>, Seq<u8>)>,
    handed_out: Seq<(Seq<Seq<char>>, Seq<u8>)>,
) -> bool {
    &&& forall|i: int| 0 <= i < paths.len() ==> #[trigger] inputs[i] == entries_input(digested, paths[i])
    &&& inputs_match(handed_out, digested)
    &&& forall|x: Seq<Seq<char>>| #[trigger] holds_entry(digested, x) <==> (dir_paths(handed_out).contains(x)
        || paths.contains(x))
    &&& dir_paths(handed_out).no_duplicates()
    &&& disjoint(dir_paths(handed_out), paths)
}

proof fn lemma_chain_innermost(paths: Seq<Seq<Seq<char>>>, parent: Seq<Seq<char>>)
    requires
        is_nested_chain(paths),
    ensures
        placement_of(paths, parent) == Placement::OpenParent ==> !paths.contains(parent),
        placement_of(paths, parent) == Placement::DigestIntoInnermost ==> paths.last() == parent,
        paths.len() > 0 ==> forall|i: int| 0 <= i < paths.len() - 1 ==> #[trigger] paths[i] != paths.last(),
{
    let n = paths.len() as int;
    if placement_of(paths, parent) == Placement::OpenParent && paths.contains(parent) {
        let i = choose|i: int| 0 <= i < paths.len() && paths[i] == parent;
        assert(is_path_prefix(paths.last(), parent));
        if i < n - 1 {
            assert(is_path_prefix(paths[i], paths[n - 1]) && paths[i].len() < paths[n - 1].len());
        } else {
            assert(paths[i] == paths.last());
        }
    }
    if n > 0 {
        assert forall|i: int| 0 <= i < paths.len() - 1 implies #[trigger] paths[i] != paths.last() by {
            assert(is_path_prefix(paths[i], paths[n - 1]) && paths[i].len() < paths[n - 1].len());
        }
    }
}

proof fn lemma_push_contains<A>(s: Seq<A>, a: A, x: A)
    ensures
        s.push(a).contains(x) <==> s.contains(x) || x == a,
{
    if s.push(a).contains(x) {
        let i = choose|i: int| 0 <= i < s.push(a).len() && s.push(a)[i] == x;
        if i < s.len() {
            assert(s[i] == x);
        }
    }
    if s.contains(x) {
        let i = choose|i: int| 0 <= i < s.len() && s[i] == x;
        assert(s.push(a)[i] == x);
    }
    if x == a {
        assert(s.push(a)[s.len() as int] == x);
    }
}

/// Handing out the innermost open directory keeps the history consistent.
proof fn lemma_hand_out(
    paths: Seq<Seq<Seq<char>>>,
    inputs: Seq<Seq<u8>>,
    digested: Seq<(Seq<Seq<char>>, Seq<u8>)>,
    handed_out: Seq<(Seq<Seq<char>>, Seq<u8>)>,
)
    requires
        paths.len() == inputs.len(),
        paths.len() > 0,
        is_nested_chain(paths),
        history_holds(paths, inputs, digested, handed_out),
    ensures
        history_holds(
            paths.drop_last(),
            inputs.drop_last(),
            digested,
            handed_out.push((paths.last(), inputs.last())),
        ),
{
    let handed = handed_out.push((paths.last(), inputs.last()));
    let rest = paths.drop_last();
    let n = paths.len() as int;
    let d = paths.last();
    assert(dir_paths(handed) =~= dir_paths(handed_out).push(d));
    lemma_chain_innermost(paths, d);
    assert(paths[n - 1] == d);
    assert(paths.contains(d));
    assert(!dir_paths(handed_out).contains(d));
    assert(dir_paths(handed).no_duplicates()) by {
        assert forall|i: int, j: int|
            0 <= i < dir_paths(handed).len() && 0 <= j < dir_paths(handed).len() && i != j implies dir_paths(handed)[i]
            != dir_paths(handed)[j] by {
            if i == handed_out.len() {
                assert(dir_paths(handed_out)[j] == dir_paths(handed)[j]);
            } else if j == handed_out.len() {
                assert(dir_paths(handed_out)[i] == dir_paths(handed)[i]);
            } else {
                assert(dir_paths(handed_out)[i] == dir_paths(handed)[i]);
                assert(dir_paths(handed_out)[j] == dir_paths(handed)[j]);
            }
        }
    }
    assert(paths =~= rest.push(d));
    assert forall|x: Seq<Seq<char>>| #[trigger] holds_entry(digested, x) <==> (dir_paths(handed).contains(x)
        || rest.contains(x)) by {
        lemma_push_contains(dir_paths(handed_out), d, x);
        lemma_push_contains(rest, d, x);
    }
    assert(disjoint(dir_paths(handed), rest)) by {
        assert forall|x: Seq<Seq<char>>| dir_paths(handed).contains(x) implies !rest.contains(x) by {
            lemma_push_contains(dir_paths(handed_out), d, x);
            lemma_push_contains(rest, d, x);
            if rest.contains(x) {
                let i = choose|i: int| 0 <= i < rest.len() && rest[i] == x;
                assert(paths[i] == x);
            }
        }
    }
    assert forall|k: int| 0 <= k < handed.len() implies #[trigger] handed[k].1 == entries_input(digested, handed[k].0) by {
        if k < handed_out.len() {
            assert(handed[k] == handed_out[k]);
        } else {
            assert(inputs[n - 1] == entries_input(digested, paths[n - 1]));
        }
    }
    assert forall|i: int| 0 <= i < rest.len() implies #[trigger] inputs.drop_last()[i] == entries_input(digested, rest[i]) by {
        assert(inputs.drop_last()[i] == inputs[i]);
        assert(rest[i] == paths[i]);
    }
}

/// Digesting an entry with the parent `parent` into the innermost open
/// directory, or into a newly opened one, keeps the history consistent, as
/// long as the parent lies outside of all handed out directories.
proof fn lemma_record_entry(
    paths: Seq<Seq<Seq<char>>>,
    inputs: Seq<Seq<u8>>,
    digested: Seq<(Seq<Seq<char>>, Seq<u8>)>,
    handed_out: Seq<(Seq<Seq<char>>, Seq<u8>)>,
    parent: Seq<Seq<char>>,
    fingerprint: Seq<u8>,
    next_paths: Seq<Seq<Seq<char>>>,
    next_inputs: Seq<Seq<u8>>,
)
    requires
        paths.len() == inputs.len(),
        is_nested_chain(paths),
        history_holds(paths, inputs, digested, handed_out),
        left_behind(handed_out, parent),
        (placement_of(paths, parent) == Placement::OpenParent && next_paths == paths.push(parent) && next_inputs
            == inputs.push(fingerprint)) || (placement_of(paths, parent) == Placement::DigestIntoInnermost && next_paths
            == paths && next_inputs == inputs.update(inputs.len() - 1, inputs.last() + fingerprint)),
    ensures
        history_holds(next_paths, next_inputs, digested.push((parent, fingerprint)), handed_out),
{
    let entry = (parent, fingerprint);
    let next = digested.push(entry);
    let open_parent = placement_of(paths, parent) == Placement::OpenParent;
    lemma_chain_innermost(paths, parent);
    assert(is_path_prefix(parent, parent));
    assert(dir_paths(next) =~= dir_paths(digested).push(parent));
    // The parent is not a handed out directory.
    assert(!dir_paths(handed_out).contains(parent)) by {
        if dir_paths(handed_out).contains(parent) {
            let k = choose|k: int| 0 <= k < dir_paths(handed_out).len() && dir_paths(handed_out)[k] == parent;
            assert(handed_out[k].0 == parent);
        }
    }
    // Only the parent's digest input grows.
    assert forall|q: Seq<Seq<char>>| q != parent implies #[trigger] entries_input(next, q) == entries_input(digested, q) by {
        lemma_entries_input_push(digested, entry, q);
        assert(entries_input(digested, q) + Seq::<u8>::empty() =~= entries_input(digested, q));
    }
    lemma_entries_input_push(digested, entry, parent);
    assert forall|k: int| 0 <= k < handed_out.len() implies #[trigger] handed_out[k].1 == entries_input(
        next,
        handed_out[k].0,
    ) by {
        assert(dir_paths(handed_out)[k] == handed_out[k].0);
    }
    assert forall|x: Seq<Seq<char>>| #[trigger] holds_entry(next, x) <==> (dir_paths(handed_out).contains(x)
        || next_paths.contains(x)) by {
        lemma_push_contains(dir_paths(digested), parent, x);
        assert(holds_entry(next, x) == dir_paths(next).contains(x));
        assert(holds_entry(digested, x) == dir_paths(digested).contains(x));
        if open_parent {
            lemma_push_contains(paths, parent, x);
        } else {
            assert(paths[paths.len() - 1] == parent);
            assert(paths.contains(parent));
        }
    }
    if open_parent {
        assert(!holds_entry(digested, parent));
        lemma_entries_input_absent(digested, parent);
        assert(Seq::<u8>::empty() + fingerprint =~= fingerprint);
        assert forall|i: int| 0 <= i < next_paths.len() implies #[trigger] next_inputs[i] == entries_input(
            next,
            next_paths[i],
        ) by {
            if i < paths.len() {
                assert(next_paths[i] == paths[i]);
                assert(paths.contains(paths[i]));
            }
        }
        assert(disjoint(dir_paths(handed_out), next_paths)) by {
            assert forall|x: Seq<Seq<char>>| dir_paths(handed_out).contains(x) implies !next_paths.contains(x) by {
                lemma_push_contains(paths, parent, x);
            }
        }
    } else {
        let n = paths.len() as int;
        assert forall|i: int| 0 <= i < next_paths.len() implies #[trigger] next_inputs[i] == entries_input(
            next,
            next_paths[i],
        ) by {
            if i < n - 1 {
                assert(paths[i] != parent);
            }
        }
    }
}

impl OpenDirectories {
    pub closed spec fn paths(&self) -> Seq<Seq<Seq<char>>> {
        Seq::new(self.dirs.len() as nat, |i: int| path_view(self.dirs[i].path))
    }

    /// The bytes fed into the digest of each open directory so far.
    pub closed spec fn inputs(&self) -> Seq<Seq<u8>> {
        Seq::new(self.dirs.len() as nat, |i: int| self.dirs[i].digest.input())
    }

    /// The entries digested so far, each as its parent directory and its
    /// fingerprint.
    pub closed spec fn digested(&self) -> Seq<(Seq<Seq<char>>, Seq<u8>)> {
        self.digested@
    }

    /// The directories handed out so far, each with the input of its digest.
    pub closed spec fn handed_out(&self) -> Seq<(Seq<Seq<char>>, Seq<u8>)> {
        self.handed_out@
    }

    /// No entry so far lay in a directory that had already been handed out,
    /// as in a depth-first walk.
    pub closed spec fn depth_first(&self) -> bool {
        self.depth_first@
    }

    /// The parents of the entries placed so far, in walk order.
    pub closed spec fn visited(&self) -> Seq<Seq<Seq<char>>> {
        self.visited@
    }

    /// The walk is over and the remaining open directories are being
    /// handed out.
    pub closed spec fn unwinding(&self) -> bool {
        self.unwinding@
    }

    /// The open directories form a chain of nested paths; the history is
    /// consistent as long as the walk has been depth-first, which it has as
    /// long as the subtrees of the visited parents came in one stretch each.
    pub open spec fn wf(&self) -> bool {
        &&& self.paths().len() == self.inputs().len()
        &&& is_nested_chain(self.paths())
        &&& self.depth_first() ==> history_holds(self.paths(), self.inputs(), self.digested(), self.handed_out())
        &&& subtrees_contiguous(self.visited()) ==> self.depth_first()
        &&& walk_recorded(self.paths(), self.visited(), self.handed_out(), self.unwinding())
    }

    pub fn new() -> (open: Self)
        ensures
            open.wf(),
            open.paths() == Seq::<Seq<Seq<char>>>::empty(),
            open.inputs() == Seq::<Seq<u8>>::empty(),
            open.digested() == Seq::<(Seq<Seq<char>>, Seq<u8>)>::empty(),
            open.handed_out() == Seq::<(Seq<Seq<char>>, Seq<u8>)>::empty(),
            open.depth_first(),
            open.visited() == Seq::<Seq<Seq<char>>>::empty(),
            !open.unwinding(),
    {
        let open = OpenDirectories {
            dirs: Vec::new(),
            digested: Ghost(Seq::empty()),
            handed_out: Ghost(Seq::empty()),
            depth_first: Ghost(true),
            visited: Ghost(Seq::empty()),
            unwinding: Ghost(false),
        };
        assert(open.paths() =~= Seq::<Seq<Seq<char>>>::empty());
        assert(open.inputs() =~= Seq::<Seq<u8>>::empty());
        assert(dir_paths(open.handed_out()) =~= Seq::<Seq<Seq<char>>>::empty());
        assert(dir_paths(open.digested()) =~= Seq::<Seq<Seq<char>>>::empty());
        open
    }

    pub fn is_empty(&self) -> (empty: bool)
        ensures
            empty == (self.paths().len() == 0),
    {
        self.dirs.len() == 0
    }

    /// Decides where an entry with the given parent directory goes.
    pub fn placement(&self, parent: &Vec<String>) -> (placement: Placement)
        ensures
            placement == placement_of(self.paths(), path_view(*parent)),
    {
        let n = self.dirs.len();
        if n == 0 {
            return Placement::OpenParent;
        }
        let innermost = &self.dirs[n - 1].path;
        assert(path_view(*innermost) == self.paths().last());
        if path_starts_with(parent, innermost) {
            if path_eq(parent, innermost) {
                Placement::DigestIntoInnermost
            } else {
                Placement::OpenParent
            }
        } else {
            Placement::FinishInnermost
        }
    }

    /// Notes the parent of the next entry: the walk stays depth-first as
    /// long as the parent lies outside of all handed out directories.
    pub fn note_parent(&mut self, parent: &Vec<String>)
        requires
            old(self).wf(),
            !old(self).unwinding(),
        ensures
            final(self).wf(),
            final(self).paths() == old(self).paths(),
            final(self).inputs() == old(self).inputs(),
            final(self).digested() == old(self).digested(),
            final(self).handed_out() == old(self).handed_out(),
            final(self).depth_first() == (old(self).depth_first() && left_behind(
                old(self).handed_out(),
                path_view(*parent),
            )),
            final(self).visited() == old(self).visited().push(path_view(*parent)),
            !final(self).unwinding(),
    {
        let ghost p = path_view(*parent);
        let ghost old_visited = self.visited@;
        let ghost handed = self.handed_out@;
        assert forall|k: int| 0 <= k < handed.len() implies left_behind_by(old_visited, #[trigger] handed[k].0) by {
            assert(self.unwinding() || left_behind_by(self.visited(), self.handed_out()[k].0));
        }
        let ghost still_depth_first = self.depth_first@ && left_behind(handed, p);
        self.depth_first = Ghost(still_depth_first);
        self.visited = Ghost(old_visited.push(p));
        proof {
            let visited = self.visited@;
            assert forall|k: int| 0 <= k < handed.len() implies left_behind_by(visited, #[trigger] handed[k].0) by {
                let d = handed[k].0;
                let (i, j) = choose|i: int, j: int|
                    0 <= i < j < old_visited.len() && #[trigger] old_visited[i] == d && !is_path_prefix(d, #[trigger] old_visited[j]);
                assert(visited[i] == d && visited[j] == old_visited[j]);
            }
            assert forall|x: Seq<Seq<char>>| #[trigger] self.paths().contains(x) implies visited.contains(x) by {
                let i = choose|i: int| 0 <= i < old_visited.len() && old_visited[i] == x;
                assert(visited[i] == x);
            }
            if subtrees_contiguous(visited) {
                assert(subtrees_contiguous(old_visited)) by {
                    assert forall|dir: Seq<Seq<char>>, i: int, j: int, k: int|
                        0 <= i < j < k < old_visited.len() && #[trigger] is_path_prefix(dir, old_visited[i])
                            && #[trigger] is_path_prefix(dir, old_visited[k]) implies #[trigger] is_path_prefix(
                        dir,
                        old_visited[j],
                    ) by {
                        assert(visited[i] == old_visited[i] && visited[j] == old_visited[j] && visited[k]
                            == old_visited[k]);
                    }
                }
                // Each handed out directory was left behind before this entry.
                assert forall|k: int| 0 <= k < handed.len() implies !is_path_prefix(#[trigger] handed[k].0, p) by {
                    let d = handed[k].0;
                    let (i, j) = choose|i: int, j: int|
                        0 <= i < j < old_visited.len() && #[trigger] old_visited[i] == d && !is_path_prefix(
                            d,
                            #[trigger] old_visited[j],
                        );
                    let n = old_visited.len() as int;
                    assert(visited[i] == d && visited[j] == old_visited[j] && visited[n] == p);
                    assert(is_path_prefix(d, d));
                    if is_path_prefix(d, p) {
                        assert(is_path_prefix(d, visited[i]));
                        assert(is_path_prefix(d, visited[n]));
                        assert(is_path_prefix(d, visited[j]));
                    }
                }
            }
        }
    }

    /// Closes the innermost open directory, hands it out and yields its path
    /// and digest: either because the last noted parent lies outside of it,
    /// or, without a parent, because the walk is over.
    pub fn finish_innermost(&mut self, parent: Option<&Vec<String>>) -> (finished: (Vec<String>, [u8; 32]))
        requires
            old(self).wf(),
            old(self).paths().len() > 0,
            parent matches Some(p) ==> {
                &&& !old(self).unwinding()
                &&& old(self).visited().len() > 0
                &&& old(self).visited().last() == path_view(*p)
                &&& !is_path_prefix(old(self).paths().last(), path_view(*p))
            },
        ensures
            final(self).visited() == old(self).visited(),
            final(self).unwinding() == (old(self).unwinding() || parent is None),
            final(self).wf(),
            path_view(finished.0) == old(self).paths().last(),
            finished.1@ == blake3_hash(old(self).inputs().last()),
            final(self).paths() == old(self).paths().drop_last(),
            final(self).inputs() == old(self).inputs().drop_last(),
            final(self).digested() == old(self).digested(),
            final(self).handed_out() == old(self).handed_out().push((old(self).paths().last(), old(self).inputs().last())),
            final(self).depth_first() == old(self).depth_first(),
    {
        let ghost paths = self.paths();
        let ghost inputs = self.inputs();
        let ghost old_handed = self.handed_out@;
        let ghost visited = self.visited@;
        let dir = self.dirs.pop().unwrap();
        let digest = hasher_finalize(&dir.digest);
        self.handed_out = Ghost(old_handed.push((paths.last(), inputs.last())));
        let ghost unwinding = self.unwinding@ || parent is None;
        self.unwinding = Ghost(unwinding);
        assert(self.paths() =~= paths.drop_last());
        assert(self.inputs() =~= inputs.drop_last());
        proof {
            if self.depth_first@ {
                lemma_hand_out(paths, inputs, self.digested@, old_handed);
            }
            let handed = self.handed_out@;
            let d = paths.last();
            assert(paths[paths.len() - 1] == d);
            assert(paths.contains(d));
            if !unwinding {
                // The noted parent leaves the finished directory behind.
                let p = visited.last();
                let n = visited.len() as int;
                let i = choose|i: int| 0 <= i < visited.len() && visited[i] == d;
                assert(is_path_prefix(p, p));
                assert(i < n - 1) by {
                    if i == n - 1 {
                        assert(visited[n - 1] == p);
                    }
                }
                assert(left_behind_by(visited, d)) by {
                    assert(visited[i] == d && !is_path_prefix(d, visited[n - 1]));
                }
            }
            assert forall|k: int| 0 <= k < handed.len() implies unwinding || left_behind_by(visited, #[trigger] handed[k].0) by {
                if k < old_handed.len() {
                    assert(handed[k] == old_handed[k]);
                }
            }
            assert forall|x: Seq<Seq<char>>| #[trigger] self.paths().contains(x) implies visited.contains(x) by {
                let i = choose|i: int| 0 <= i < self.paths().len() && self.paths()[i] == x;
                assert(paths[i] == x);
                assert(paths.contains(x));
            }
        }
        (dir.path, digest)
    }

    /// Feeds the fingerprint of an entry into the innermost open directory,
    /// which is its parent.
    pub fn digest_into_innermost(&mut self, fs_metadata: &FsMetadata, file_name: &str)
        requires
            old(self).wf(),
            old(self).paths().len() > 0,
            time_stamps_after_epoch(*fs_metadata),
            old(self).depth_first() ==> left_behind(old(self).handed_out(), old(self).paths().last()),
        ensures
            final(self).wf(),
            final(self).paths() == old(self).paths(),
            final(self).inputs() == old(self).inputs().update(
                old(self).inputs().len() - 1,
                old(self).inputs().last() + entry_fingerprint(*fs_metadata, file_name@),
            ),
            final(self).digested() == old(self).digested().push(
                (old(self).paths().last(), entry_fingerprint(*fs_metadata, file_name@)),
            ),
            final(self).handed_out() == old(self).handed_out(),
            final(self).depth_first() == old(self).depth_first(),
            final(self).visited() == old(self).visited(),
            final(self).unwinding() == old(self).unwinding(),
    {
        let ghost old_paths = self.paths();
        let ghost old_inputs = self.inputs();
        let ghost old_digested = self.digested@;
        let ghost fingerprint = entry_fingerprint(*fs_metadata, file_name@);
        let mut dir = self.dirs.pop().unwrap();
        digest_dir_entry_for_detecting_changes(&mut dir.digest, fs_metadata, file_name);
        self.dirs.push(dir);
        self.digested = Ghost(old_digested.push((old_paths.last(), fingerprint)));
        assert(self.paths() =~= old_paths);
        assert(self.inputs() =~= old_inputs.update(old_inputs.len() - 1, old_inputs.last() + fingerprint));
        proof {
            if self.depth_first@ {
                let n = old_paths.len() as int;
                assert(is_path_prefix(old_paths.last(), old_paths.last()));
                assert(placement_of(old_paths, old_paths.last()) == Placement::DigestIntoInnermost);
                lemma_record_entry(
                    old_paths,
                    old_inputs,
                    old_digested,
                    self.handed_out@,
                    old_paths.last(),
                    fingerprint,
                    self.paths(),
                    self.inputs(),
                );
            }
        }
    }

    /// Opens the parent directory of an entry, starting its digest with the
    /// fingerprint of that entry.
    pub fn open_parent(&mut self, parent: Vec<String>, fs_metadata: &FsMetadata, file_name: &str)
        requires
            old(self).wf(),
            placement_of(old(self).paths(), path_view(parent)) == Placement::OpenParent,
            time_stamps_after_epoch(*fs_metadata),
            old(self).depth_first() ==> left_behind(old(self).handed_out(), path_view(parent)),
            old(self).visited().contains(path_view(parent)),
        ensures
            final(self).wf(),
            final(self).paths() == old(self).paths().push(path_view(parent)),
            final(self).inputs() == old(self).inputs().push(entry_fingerprint(*fs_metadata, file_name@)),
            final(self).digested() == old(self).digested().push(
                (path_view(parent), entry_fingerprint(*fs_metadata, file_name@)),
            ),
            final(self).handed_out() == old(self).handed_out(),
            final(self).depth_first() == old(self).depth_first(),
            final(self).visited() == old(self).visited(),
            final(self).unwinding() == old(self).unwinding(),
    {
        let ghost old_paths = self.paths();
        let ghost old_inputs = self.inputs();
        let ghost old_digested = self.digested@;
        let ghost p = path_view(parent);
        let ghost fingerprint = entry_fingerprint(*fs_metadata, file_name@);
        let mut digest = new_hasher();
        digest_dir_entry_for_detecting_changes(&mut digest, fs_metadata, file_name);
        assert(digest.input() =~= fingerprint);
        self.dirs.push(OpenDir { path: parent, digest });
        self.digested = Ghost(old_digested.push((p, fingerprint)));
        assert(self.paths() =~= old_paths.push(p));
        assert(self.inputs() =~= old_inputs.push(fingerprint));
        proof {
            if old_paths.len() > 0 {
                let last = old_paths.last();
                assert(is_path_prefix(last, p));
                if last.len() == p.len() {
                    assert(last =~= p);
                }
            }
            let paths = self.paths();
            assert forall|i: int, j: int|
                #![trigger paths[i], paths[j]]
                0 <= i < j < paths.len() implies is_path_prefix(paths[i], paths[j]) && paths[i].len() < paths[j].len() by {
                if j < old_paths.len() {
                    assert(paths[i] == old_paths[i] && paths[j] == old_paths[j]);
                } else {
                    let last = old_paths.last();
                    assert(paths[j] == p);
                    assert(paths[i] == old_paths[i]);
                    if i < old_paths.len() - 1 {
                        assert(is_path_prefix(old_paths[i], old_paths[old_paths.len() - 1]));
                        assert forall|k: int| 0 <= k < old_paths[i].len() implies #[trigger] old_paths[i][k] == p[k] by {
                            assert(old_paths[i][k] == last[k]);
                            assert(last[k] == p[k]);
                        }
                    }
                }
            }
            if self.depth_first@ {
                lemma_record_entry(
                    old_paths,
                    old_inputs,
                    old_digested,
                    self.handed_out@,
                    p,
                    fingerprint,
                    self.paths(),
                    self.inputs(),
                );
            }
            assert forall|x: Seq<Seq<char>>| #[trigger] self.paths().contains(x) implies self.visited@.contains(x) by {
                lemma_push_contains(old_paths, p, x);
            }
        }
    }
}

/// What to do after a finished directory has been handled.
#[derive(Debug, Clone, Copy, PartialEq, Eq, Structural)]
pub enum AfterDirFinished {
    Continue,
    Abort,
}

/// Counters of a directory tree traversal.
#[derive(Debug, Clone, Copy, PartialEq, Eq, Structural)]
pub struct Progress {
    pub entries_skipped: usize,
    pub entries_finished: usize,
    pub directories_finished: usize,
}

impl Default for Progress {
    fn default() -> (progress: Self)
        ensures
            progress == (Progress { entries_skipped: 0, entries_finished: 0, directories_finished: 0 }),
    {
        Progress { entries_skipped: 0, entries_finished: 0, directories_finished: 0 }
    }
}

#[derive(Debug, Clone, Copy, PartialEq, Eq, Structural)]
pub enum Status {
    InProgress,
    Finished,
    Aborted,
    Failed,
}

#[derive(Debug, Clone, Copy, PartialEq, Eq, Structural)]
pub enum Completion {
    Finished,
    Aborted,
}

/// The result of a traversal that was not interrupted by an error.
#[derive(Debug, Clone, Copy, PartialEq, Eq, Structural)]
pub struct Outcome {
    pub completion: Completion,
    pub progress: Progress,
}

/// The status and counters of a traversal, as reported to observers.
#[derive(Debug, Clone, Copy, PartialEq, Eq, Structural)]
pub struct ProgressEvent {
    pub status: Status,
    pub progress: Progress,
}

impl ProgressEvent {
    pub fn finish(&mut self)
        requires
            old(self).status == Status::InProgress,
        ensures
            *final(self) == (ProgressEvent { status: Status::Finished, progress: old(self).progress }),
    {
        self.status = Status::Finished;
    }

    pub fn abort(&mut self)
        requires
            old(self).status == Status::InProgress,
        ensures
            *final(self) == (ProgressEvent { status: Status::Aborted, progress: old(self).progress }),
    {
        self.status = Status::Aborted;
    }

    pub fn fail(&mut self)
        requires
            old(self).status == Status::InProgress,
        ensures
            *final(self) == (ProgressEvent { status: Status::Failed, progress: old(self).progress }),
    {
        self.status = Status::Failed;
    }

    /// The outcome of a traversal that has either finished or been aborted.
    pub fn finalize(self) -> (outcome: Outcome)
        requires
            self.status == Status::Finished || self.status == Status::Aborted,
        ensures
            outcome == finalized(self),
    {
        let ProgressEvent { status, progress } = self;
        let completion = match status {
            Status::Finished => Completion::Finished,
            _ => Completion::Aborted,
        };
        Outcome { completion, progress }
    }
}

pub open spec fn finalized(event: ProgressEvent) -> Outcome {
    Outcome {
        completion: if event.status == Status::Finished {
            Completion::Finished
        } else {
            Completion::Aborted
        },
        progress: event.progress,
    }
}

pub open spec fn with_status(event: ProgressEvent, status: Status) -> ProgressEvent {
    ProgressEvent { status, progress: event.progress }
}

pub open spec fn with_entry_skipped(event: ProgressEvent) -> ProgressEvent {
    ProgressEvent {
        status: event.status,
        progress: Progress { entries_skipped: (event.progress.entries_skipped + 1) as usize, ..event.progress },
    }
}

pub open spec fn with_entry_finished(event: ProgressEvent) -> ProgressEvent {
    ProgressEvent {
        status: event.status,
        progress: Progress { entries_finished: (event.progress.entries_finished + 1) as usize, ..event.progress },
    }
}

pub open spec fn with_directory_finished(event: ProgressEvent) -> ProgressEvent {
    ProgressEvent {
        status: event.status,
        progress: Progress {
            directories_finished: (event.progress.directories_finished + 1) as usize,
            ..event.progress
        },
    }
}

/// What the caller of a [`DirectoryHasher`] has to do next.
#[derive(Debug)]
pub enum HashStep {
    /// Go on with the next entry of the walk.
    Ready,
    /// Read the metadata of the current entry and pass it to
    /// [`DirectoryHasher::digest_entry`].
    DigestEntry,
    /// Hand the finished directory and its digest to the receiver and pass
    /// its answer to [`DirectoryHasher::after_dir_finished`].
    FinishDirectory { path: Vec<String>, digest: [u8; 32] },
    /// The traversal is over, finished or aborted.
    Done,
}

/// Where a [`DirectoryHasher`] stands between two calls.
#[derive(Debug)]
pub enum HashPhase {
    Walking,
    /// A finished directory has been handed out. With a parent path, an
    /// entry with this parent is still to be placed; without one, the
    /// remaining open directories are being finished.
    AwaitingDirFinished { parent: Option<Vec<String>> },
    /// The current entry goes into its parent's digest, which is opened
    /// first if `open_parent` holds.
    AwaitingMetadata { parent: Vec<String>, open_parent: bool },
    Done,
}

/// Digests all directories of a tree, for detecting changes.
///
/// The caller walks the tree depth-first, parents before their contents,
/// and feeds every entry below the root. The root directory itself is
/// skipped (depth 0), but it is digested as the parent of its entries,
/// with the empty path.
pub struct DirectoryHasher {
    open: OpenDirectories,
    progress_event: ProgressEvent,
    phase: HashPhase,
}

/// The step that places an entry with the given parent among the open
/// directories `paths` with digest inputs `inputs`, as seen in `next`.
pub open spec fn placed(
    paths: Seq<Seq<Seq<char>>>,
    inputs: Seq<Seq<u8>>,
    parent: Vec<String>,
    next: DirectoryHasher,
    step: HashStep,
) -> bool {
    match placement_of(paths, path_view(parent)) {
        Placement::FinishInnermost => {
            &&& step matches HashStep::FinishDirectory { path, digest }
            &&& path_view(path) == paths.last()
            &&& digest@ == blake3_hash(inputs.last())
            &&& next.open_paths() == paths.drop_last()
            &&& next.open_inputs() == inputs.drop_last()
            &&& next.phase() == (HashPhase::AwaitingDirFinished { parent: Some(parent) })
        },
        Placement::DigestIntoInnermost => {
            &&& step is DigestEntry
            &&& next.open_paths() == paths
            &&& next.open_inputs() == inputs
            &&& next.phase() == (HashPhase::AwaitingMetadata { parent, open_parent: false })
        },
        Placement::OpenParent => {
            &&& step is DigestEntry
            &&& next.open_paths() == paths
            &&& next.open_inputs() == inputs
            &&& next.phase() == (HashPhase::AwaitingMetadata { parent, open_parent: true })
        },
    }
}

/// The step that finishes the innermost remaining open directory after the
/// walk, or the whole traversal when none is left.
pub open spec fn unwound(
    paths: Seq<Seq<Seq<char>>>,
    inputs: Seq<Seq<u8>>,
    event: ProgressEvent,
    next: DirectoryHasher,
    step: HashStep,
) -> bool {
    if paths.len() > 0 {
        &&& step matches HashStep::FinishDirectory { path, digest }
        &&& path_view(path) == paths.last()
        &&& digest@ == blake3_hash(inputs.last())
        &&& next.open_paths() == paths.drop_last()
        &&& next.open_inputs() == inputs.drop_last()
        &&& next.event() == event
        &&& next.phase() == (HashPhase::AwaitingDirFinished { parent: None })
    } else {
        &&& step is Done
        &&& next.open_paths() == paths
        &&& next.open_inputs() == inputs
        &&& next.event() == with_status(event, Status::Finished)
        &&& next.phase() is Done
    }
}

/// The directories handed out after a step: a finished directory is the
/// innermost open one, with its digest input.
pub open spec fn handed_out_after(
    paths: Seq<Seq<Seq<char>>>,
    inputs: Seq<Seq<u8>>,
    handed_out: Seq<(Seq<Seq<char>>, Seq<u8>)>,
    finished: bool,
) -> Seq<(Seq<Seq<char>>, Seq<u8>)> {
    if finished {
        handed_out.push((paths.last(), inputs.last()))
    } else {
        handed_out
    }
}

impl DirectoryHasher {
    /// The paths of the directories whose digests are still open, outermost
    /// first.
    pub closed spec fn open_paths(&self) -> Seq<Seq<Seq<char>>> {
        self.open.paths()
    }

    /// The bytes fed so far into the digest of each open directory.
    pub closed spec fn open_inputs(&self) -> Seq<Seq<u8>> {
        self.open.inputs()
    }

    /// The entries digested so far, each as its parent directory and its
    /// fingerprint.
    pub closed spec fn digested(&self) -> Seq<(Seq<Seq<char>>, Seq<u8>)> {
        self.open.digested()
    }

    /// The directories handed out so far, each with the input of its digest.
    pub closed spec fn handed_out(&self) -> Seq<(Seq<Seq<char>>, Seq<u8>)> {
        self.open.handed_out()
    }

    /// No entry so far lay in a directory that had already been handed out,
    /// as in a depth-first walk.
    pub closed spec fn depth_first(&self) -> bool {
        self.open.depth_first()
    }

    /// The parents of the entries placed so far, in walk order.
    pub closed spec fn visited(&self) -> Seq<Seq<Seq<char>>> {
        self.open.visited()
    }

    /// The walk is over and the remaining open directories are being
    /// handed out.
    pub closed spec fn unwinding(&self) -> bool {
        self.open.unwinding()
    }

    pub closed spec fn event(&self) -> ProgressEvent {
        self.progress_event
    }

    pub closed spec fn phase(&self) -> HashPhase {
        self.phase
    }

    /// The invariant of a traversal: the open directories form a chain of
    /// nested paths; the traversal is in progress until it is done; a
    /// traversal that finished has no open directory left; in a depth-first
    /// walk the history is consistent and the entry being placed lies
    /// outside of all handed out directories.
    pub open spec fn wf(&self) -> bool {
        &&& self.open_paths().len() == self.open_inputs().len()
        &&& is_nested_chain(self.open_paths())
        &&& (self.phase() is Done) == (self.event().status != Status::InProgress)
        &&& (self.phase() is Done && self.event().status == Status::Finished) ==> self.open_paths().len() == 0
        &&& self.phase() matches HashPhase::AwaitingMetadata { parent, open_parent } ==> placement_of(
            self.open_paths(),
            path_view(parent),
        ) == (if open_parent {
            Placement::OpenParent
        } else {
            Placement::DigestIntoInnermost
        })
        &&& self.depth_first() ==> history_holds(
            self.open_paths(),
            self.open_inputs(),
            self.digested(),
            self.handed_out(),
        )
        &&& self.depth_first() ==> (self.phase() matches HashPhase::AwaitingMetadata { parent, .. } ==> left_behind(
            self.handed_out(),
            path_view(parent),
        ))
        &&& self.depth_first() ==> (self.phase() matches HashPhase::AwaitingDirFinished { parent: Some(parent) }
            ==> left_behind(self.handed_out(), path_view(parent)))
        &&& self.phase() matches HashPhase::AwaitingMetadata { parent, .. } ==> !self.unwinding() && self.visited().len()
            > 0 && self.visited().last() == path_view(parent)
        &&& self.phase() matches HashPhase::AwaitingDirFinished { parent: Some(parent) } ==> !self.unwinding()
            && self.visited().len() > 0 && self.visited().last() == path_view(parent)
        &&& self.phase() is Walking ==> !self.unwinding()
        &&& subtrees_contiguous(self.visited()) ==> self.depth_first()
        &&& walk_recorded(self.open_paths(), self.visited(), self.handed_out(), self.unwinding())
    }

    /// Unless the traversal failed, the directories counted as finished are
    /// those handed out, but for one whose receiver has not answered yet.
    pub open spec fn directories_counted(&self) -> bool {
        self.event().status != Status::Failed ==> self.event().progress.directories_finished + (if self.phase() is AwaitingDirFinished {
            1int
        } else {
            0int
        }) == self.handed_out().len()
    }

    pub fn new() -> (hasher: Self)
        ensures
            hasher.wf(),
            hasher.open_paths().len() == 0,
            hasher.event() == (ProgressEvent {
                status: Status::InProgress,
                progress: Progress { entries_skipped: 0, entries_finished: 0, directories_finished: 0 },
            }),
            hasher.phase() is Walking,
            hasher.digested() == Seq::<(Seq<Seq<char>>, Seq<u8>)>::empty(),
            hasher.handed_out() == Seq::<(Seq<Seq<char>>, Seq<u8>)>::empty(),
            hasher.depth_first(),
            hasher.visited() == Seq::<Seq<Seq<char>>>::empty(),
            hasher.directories_counted(),
    {
        DirectoryHasher {
            open: OpenDirectories::new(),
            progress_event: ProgressEvent { status: Status::InProgress, progress: Progress::default() },
            phase: HashPhase::Walking,
        }
    }

    /// The current status and counters.
    pub fn progress_event(&self) -> (event: ProgressEvent)
        ensures
            event == self.event(),
    {
        self.progress_event
    }

    fn place(&mut self, parent: Vec<String>) -> (step: HashStep)
        requires
            old(self).wf(),
            old(self).event().status == Status::InProgress,
            old(self).depth_first() ==> left_behind(old(self).handed_out(), path_view(parent)),
            !old(self).unwinding(),
            old(self).visited().len() > 0,
            old(self).visited().last() == path_view(parent),
        ensures
            final(self).wf(),
            final(self).visited() == old(self).visited(),
            final(self).event() == old(self).event(),
            placed(old(self).open_paths(), old(self).open_inputs(), parent, *final(self), step),
            final(self).digested() == old(self).digested(),
            final(self).depth_first() == old(self).depth_first(),
            final(self).handed_out() == handed_out_after(
                old(self).open_paths(),
                old(self).open_inputs(),
                old(self).handed_out(),
                step is FinishDirectory,
            ),
    {
        let ghost p = path_view(parent);
        let ghost paths = self.open.paths();
        let ghost old_handed = self.open.handed_out();
        match self.open.placement(&parent) {
            Placement::FinishInnermost => {
                let (path, digest) = self.open.finish_innermost(Some(&parent));
                self.phase = HashPhase::AwaitingDirFinished { parent: Some(parent) };
                proof {
                    if self.open.depth_first() {
                        let handed = self.open.handed_out();
                        assert forall|k: int| 0 <= k < handed.len() implies !is_path_prefix(#[trigger] handed[k].0, p) by {
                            if k == handed.len() - 1 {
                                assert(handed[k].0 == paths.last());
                            } else {
                                assert(handed[k] == old_handed[k]);
                            }
                        }
                    }
                }
                HashStep::FinishDirectory { path, digest }
            },
            Placement::DigestIntoInnermost => {
                self.phase = HashPhase::AwaitingMetadata { parent, open_parent: false };
                HashStep::DigestEntry
            },
            Placement::OpenParent => {
                self.phase = HashPhase::AwaitingMetadata { parent, open_parent: true };
                HashStep::DigestEntry
            },
        }
    }

    fn unwind(&mut self) -> (step: HashStep)
        requires
            old(self).wf(),
            old(self).event().status == Status::InProgress,
        ensures
            final(self).wf(),
            unwound(old(self).open_paths(), old(self).open_inputs(), old(self).event(), *final(self), step),
            final(self).digested() == old(self).digested(),
            final(self).depth_first() == old(self).depth_first(),
            final(self).handed_out() == handed_out_after(
                old(self).open_paths(),
                old(self).open_inputs(),
                old(self).handed_out(),
                step is FinishDirectory,
            ),
    {
        if self.open.is_empty() {
            self.progress_event.finish();
            self.phase = HashPhase::Done;
            HashStep::Done
        } else {
            let (path, digest) = self.open.finish_innermost(None);
            self.phase = HashPhase::AwaitingDirFinished { parent: None };
            HashStep::FinishDirectory { path, digest }
        }
    }

    /// Visits the next entry of the walk, given its depth below the root and
    /// the path of its parent directory relative to the root (`None` for an
    /// entry outside of the tree).
    pub fn visit_entry(&mut self, depth: usize, parent: Option<Vec<String>>) -> (step: HashStep)
        requires
            old(self).wf(),
            old(self).phase() is Walking,
            old(self).event().progress.entries_skipped < usize::MAX,
        ensures
            old(self).directories_counted() ==> final(self).directories_counted(),
            final(self).wf(),
            (depth == 0 || parent is None) ==> {
                &&& step is Ready
                &&& final(self).event() == with_entry_skipped(old(self).event())
                &&& final(self).open_paths() == old(self).open_paths()
                &&& final(self).open_inputs() == old(self).open_inputs()
                &&& final(self).phase() is Walking
                &&& final(self).depth_first() == old(self).depth_first()
            },
            (depth != 0 && parent is Some) ==> {
                &&& final(self).event() == old(self).event()
                &&& placed(old(self).open_paths(), old(self).open_inputs(), parent->0, *final(self), step)
                &&& final(self).depth_first() == (old(self).depth_first() && left_behind(
                    old(self).handed_out(),
                    path_view(parent->0),
                ))
                &&& final(self).visited() == old(self).visited().push(path_view(parent->0))
            },
            (depth == 0 || parent is None) ==> final(self).visited() == old(self).visited(),
            final(self).digested() == old(self).digested(),
            final(self).handed_out() == handed_out_after(
                old(self).open_paths(),
                old(self).open_inputs(),
                old(self).handed_out(),
                step is FinishDirectory,
            ),
    {
        if depth == 0 {
            // The root directory has no parent.
            self.progress_event.progress.entries_skipped = self.progress_event.progress.entries_skipped + 1;
            return HashStep::Ready;
        }
        match parent {
            Some(parent) => {
                self.open.note_parent(&parent);
                self.place(parent)
            },
            None => {
                self.progress_event.progress.entries_skipped = self.progress_event.progress.entries_skipped + 1;
                HashStep::Ready
            },
        }
    }

    /// Skips an entry that could not be visited without following a cycle of
    /// links.
    pub fn skip_entry(&mut self)
        requires
            old(self).wf(),
            old(self).phase() is Walking,
            old(self).event().progress.entries_skipped < usize::MAX,
        ensures
            old(self).directories_counted() ==> final(self).directories_counted(),
            final(self).wf(),
            final(self).event() == with_entry_skipped(old(self).event()),
            final(self).open_paths() == old(self).open_paths(),
            final(self).open_inputs() == old(self).open_inputs(),
            final(self).phase() is Walking,
            final(self).digested() == old(self).digested(),
            final(self).handed_out() == old(self).handed_out(),
            final(self).depth_first() == old(self).depth_first(),
    {
        self.progress_event.progress.entries_skipped = self.progress_event.progress.entries_skipped + 1;
    }

    /// Feeds the fingerprint of the current entry into the digest of its
    /// parent directory.
    pub fn digest_entry(&mut self, fs_metadata: &FsMetadata, file_name: &str)
        requires
            old(self).wf(),
            old(self).phase() is AwaitingMetadata,
            old(self).event().progress.entries_finished < usize::MAX,
            time_stamps_after_epoch(*fs_metadata),
        ensures
            old(self).directories_counted() ==> final(self).directories_counted(),
            final(self).wf(),
            final(self).event() == with_entry_finished(old(self).event()),
            final(self).phase() is Walking,
            old(self).phase() matches HashPhase::AwaitingMetadata { parent, open_parent } && {
                &&& open_parent ==> final(self).open_paths() == old(self).open_paths().push(path_view(parent))
                    && final(self).open_inputs() == old(self).open_inputs().push(
                    entry_fingerprint(*fs_metadata, file_name@),
                )
                &&& !open_parent ==> final(self).open_paths() == old(self).open_paths()
                    && final(self).open_inputs() == old(self).open_inputs().update(
                    old(self).open_inputs().len() - 1,
                    old(self).open_inputs().last() + entry_fingerprint(*fs_metadata, file_name@),
                )
                &&& final(self).digested() == old(self).digested().push(
                    (path_view(parent), entry_fingerprint(*fs_metadata, file_name@)),
                )
            },
            final(self).handed_out() == old(self).handed_out(),
            final(self).depth_first() == old(self).depth_first(),
    {
        let mut phase = HashPhase::Walking;
        std::mem::swap(&mut phase, &mut self.phase);
        match phase {
            HashPhase::AwaitingMetadata { parent, open_parent } => {
                proof {
                    lemma_chain_innermost(self.open.paths(), path_view(parent));
                }
                if open_parent {
                    self.open.open_parent(parent, fs_metadata, file_name);
                } else {
                    self.open.digest_into_innermost(fs_metadata, file_name);
                }
            },
            _ => {},
        }
        self.progress_event.progress.entries_finished = self.progress_event.progress.entries_finished + 1;
    }

    /// Continues after the receiver of a finished directory has answered.
    pub fn after_dir_finished(&mut self, after: AfterDirFinished) -> (step: HashStep)
        requires
            old(self).wf(),
            old(self).phase() is AwaitingDirFinished,
            old(self).event().progress.directories_finished < usize::MAX,
        ensures
            old(self).directories_counted() ==> final(self).directories_counted(),
            final(self).wf(),
            after == AfterDirFinished::Abort ==> {
                &&& step is Done
                &&& final(self).event() == with_status(
                    with_directory_finished(old(self).event()),
                    Status::Aborted,
                )
                &&& final(self).open_paths() == old(self).open_paths()
                &&& final(self).open_inputs() == old(self).open_inputs()
            },
            after == AfterDirFinished::Continue ==> match old(self).phase() {
                HashPhase::AwaitingDirFinished { parent: Some(parent) } => {
                    &&& final(self).event() == with_directory_finished(old(self).event())
                    &&& placed(old(self).open_paths(), old(self).open_inputs(), parent, *final(self), step)
                },
                _ => unwound(
                    old(self).open_paths(),
                    old(self).open_inputs(),
                    with_directory_finished(old(self).event()),
                    *final(self),
                    step,
                ),
            },
            final(self).digested() == old(self).digested(),
            final(self).depth_first() == old(self).depth_first(),
            final(self).handed_out() == handed_out_after(
                old(self).open_paths(),
                old(self).open_inputs(),
                old(self).handed_out(),
                step is FinishDirectory,
            ),
    {
        self.progress_event.progress.directories_finished = self.progress_event.progress.directories_finished + 1;
        let mut phase = HashPhase::Walking;
        std::mem::swap(&mut phase, &mut self.phase);
        match after {
            AfterDirFinished::Abort => {
                self.progress_event.abort();
                self.phase = HashPhase::Done;
                HashStep::Done
            },
            AfterDirFinished::Continue => match phase {
                HashPhase::AwaitingDirFinished { parent: Some(parent) } => self.place(parent),
                _ => {
                    self.phase = HashPhase::AwaitingDirFinished { parent: None };
                    self.unwind()
                },
            },
        }
    }

    /// Finishes the open directories after the walk has visited all entries.
    pub fn finish_walk(&mut self) -> (step: HashStep)
        requires
            old(self).wf(),
            old(self).phase() is Walking,
        ensures
            old(self).directories_counted() ==> final(self).directories_counted(),
            final(self).wf(),
            unwound(old(self).open_paths(), old(self).open_inputs(), old(self).event(), *final(self), step),
            final(self).digested() == old(self).digested(),
            final(self).depth_first() == old(self).depth_first(),
            final(self).handed_out() == handed_out_after(
                old(self).open_paths(),
                old(self).open_inputs(),
                old(self).handed_out(),
                step is FinishDirectory,
            ),
    {
        self.unwind()
    }

    /// Aborts the traversal on request, before the next entry.
    pub fn abort(&mut self)
        requires
            old(self).wf(),
            old(self).phase() is Walking,
        ensures
            old(self).directories_counted() ==> final(self).directories_counted(),
            final(self).wf(),
            final(self).event() == with_status(old(self).event(), Status::Aborted),
            final(self).open_paths() == old(self).open_paths(),
            final(self).open_inputs() == old(self).open_inputs(),
            final(self).phase() is Done,
            final(self).digested() == old(self).digested(),
            final(self).handed_out() == old(self).handed_out(),
            final(self).depth_first() == old(self).depth_first(),
    {
        self.progress_event.abort();
        self.phase = HashPhase::Done;
    }

    /// Ends the traversal after an I/O error.
    pub fn fail(&mut self)
        requires
            old(self).wf(),
            !(old(self).phase() is Done),
        ensures
            old(self).directories_counted() ==> final(self).directories_counted(),
            final(self).wf(),
            final(self).event() == with_status(old(self).event(), Status::Failed),
            final(self).open_paths() == old(self).open_paths(),
            final(self).open_inputs() == old(self).open_inputs(),
            final(self).phase() is Done,
            final(self).digested() == old(self).digested(),
            final(self).handed_out() == old(self).handed_out(),
            final(self).depth_first() == old(self).depth_first(),
    {
        self.progress_event.fail();
        self.phase = HashPhase::Done;
    }

    /// The outcome of a traversal that finished or was aborted.
    pub fn outcome(&self) -> (outcome: Outcome)
        requires
            self.wf(),
            self.phase() is Done,
            self.event().status != Status::Failed,
        ensures
            outcome == finalized(self.event()),
    {
        self.progress_event.finalize()
    }
}

/// When a walk has finished whose entries came depth-first (the entries
/// below any directory in one stretch), every directory that holds an entry
/// has been handed out exactly once, no other directory has, and the input
/// of each directory's digest consists of the fingerprints of exactly the
/// entries directly inside it, in the order of the walk.
pub proof fn law_finished_walk_digests_each_directory(hasher: DirectoryHasher)
    requires
        hasher.wf(),
        hasher.phase() is Done,
        hasher.event().status == Status::Finished,
        subtrees_contiguous(hasher.visited()),
    ensures
        hasher.depth_first(),
        dir_paths(hasher.handed_out()).no_duplicates(),
        forall|dir: Seq<Seq<char>>| #[trigger] holds_entry(hasher.digested(), dir) <==> dir_paths(hasher.handed_out()).contains(dir),
        inputs_match(hasher.handed_out(), hasher.digested()),
{
}

/// Whether a directory scan goes on after a finished directory.
#[derive(Debug, Clone, Copy, PartialEq, Eq, Structural)]
pub enum NextDirScanStep {
    Continue,
    Abort,
}

/// The result of a directory scan: the number of directories that were
/// received, or that the receiver aborted the scan.
#[derive(Debug, Clone, Copy, PartialEq, Eq, Structural)]
pub enum DirScanOutcome {
    Finished(usize),
    Aborted,
}

/// What the caller of a [`DirectoryScanner`] has to do next.
#[derive(Debug)]
pub enum ScanStep {
    Ready,
    DigestEntry,
    FinishDirectory { path: Vec<String>, digest: [u8; 32] },
    Done(DirScanOutcome),
}

/// Where a [`DirectoryScanner`] stands between two calls.
#[derive(Debug)]
pub enum ScanPhase {
    Walking,
    AwaitingNextStep { parent: Option<Vec<String>> },
    AwaitingMetadata { parent: Vec<String>, open_parent: bool },
    Done,
}

/// Scans all directories below a root directory and digests each of them,
/// excluding the root directory itself.
///
/// The caller walks the tree depth-first, parents before their contents,
/// starting below the root, and feeds every entry.
pub struct DirectoryScanner {
    open: OpenDirectories,
    total_count: usize,
    phase: ScanPhase,
}

pub open spec fn scan_placed(
    paths: Seq<Seq<Seq<char>>>,
    inputs: Seq<Seq<u8>>,
    parent: Vec<String>,
    next: DirectoryScanner,
    step: ScanStep,
) -> bool {
    match placement_of(paths, path_view(parent)) {
        Placement::FinishInnermost => {
            &&& step matches ScanStep::FinishDirectory { path, digest }
            &&& path_view(path) == paths.last()
            &&& digest@ == blake3_hash(inputs.last())
            &&& next.open_paths() == paths.drop_last()
            &&& next.open_inputs() == inputs.drop_last()
            &&& next.phase() == (ScanPhase::AwaitingNextStep { parent: Some(parent) })
        },
        Placement::DigestIntoInnermost => {
            &&& step is DigestEntry
            &&& next.open_paths() == paths
            &&& next.open_inputs() == inputs
            &&& next.phase() == (ScanPhase::AwaitingMetadata { parent, open_parent: false })
        },
        Placement::OpenParent => {
            &&& step is DigestEntry
            &&& next.open_paths() == paths
            &&& next.open_inputs() == inputs
            &&& next.phase() == (ScanPhase::AwaitingMetadata { parent, open_parent: true })
        },
    }
}

pub open spec fn scan_unwound(
    paths: Seq<Seq<Seq<char>>>,
    inputs: Seq<Seq<u8>>,
    total_count: usize,
    next: DirectoryScanner,
    step: ScanStep,
) -> bool {
    &&& next.total_count() == total_count
    &&& if paths.len() > 0 {
        &&& step matches ScanStep::FinishDirectory { path, digest }
        &&& path_view(path) == paths.last()
        &&& digest@ == blake3_hash(inputs.last())
        &&& next.open_paths() == paths.drop_last()
        &&& next.open_inputs() == inputs.drop_last()
        &&& next.phase() == (ScanPhase::AwaitingNextStep { parent: None })
    } else {
        &&& step == ScanStep::Done(DirScanOutcome::Finished(total_count))
        &&& next.open_paths() == paths
        &&& next.open_inputs() == inputs
        &&& next.phase() is Done
    }
}

impl DirectoryScanner {
    pub closed spec fn open_paths(&self) -> Seq<Seq<Seq<char>>> {
        self.open.paths()
    }

    pub closed spec fn open_inputs(&self) -> Seq<Seq<u8>> {
        self.open.inputs()
    }

    /// The number of directories that the receiver has accepted so far.
    pub closed spec fn total_count(&self) -> usize {
        self.total_count
    }

    pub closed spec fn phase(&self) -> ScanPhase {
        self.phase
    }

    /// The entries digested so far, each as its parent directory and its
    /// fingerprint.
    pub closed spec fn digested(&self) -> Seq<(Seq<Seq<char>>, Seq<u8>)> {
        self.open.digested()
    }

    /// The directories handed out so far, each with the input of its digest.
    pub closed spec fn handed_out(&self) -> Seq<(Seq<Seq<char>>, Seq<u8>)> {
        self.open.handed_out()
    }

    /// No entry so far lay in a directory that had already been handed out,
    /// as in a depth-first walk.
    pub closed spec fn depth_first(&self) -> bool {
        self.open.depth_first()
    }

    /// The parents of the entries placed so far, in walk order.
    pub closed spec fn visited(&self) -> Seq<Seq<Seq<char>>> {
        self.open.visited()
    }

    /// The walk is over and the remaining open directories are being
    /// handed out.
    pub closed spec fn unwinding(&self) -> bool {
        self.open.unwinding()
    }

    pub open spec fn wf(&self) -> bool {
        &&& self.open_paths().len() == self.open_inputs().len()
        &&& is_nested_chain(self.open_paths())
        &&& self.phase() matches ScanPhase::AwaitingMetadata { parent, open_parent } ==> placement_of(
            self.open_paths(),
            path_view(parent),
        ) == (if open_parent {
            Placement::OpenParent
        } else {
            Placement::DigestIntoInnermost
        })
        &&& self.depth_first() ==> history_holds(
            self.open_paths(),
            self.open_inputs(),
            self.digested(),
            self.handed_out(),
        )
        &&& self.depth_first() ==> (self.phase() matches ScanPhase::AwaitingMetadata { parent, .. } ==> left_behind(
            self.handed_out(),
            path_view(parent),
        ))
        &&& self.depth_first() ==> (self.phase() matches ScanPhase::AwaitingNextStep { parent: Some(parent) }
            ==> left_behind(self.handed_out(), path_view(parent)))
        &&& self.phase() matches ScanPhase::AwaitingMetadata { parent, .. } ==> !self.unwinding() && self.visited().len()
            > 0 && self.visited().last() == path_view(parent)
        &&& self.phase() matches ScanPhase::AwaitingNextStep { parent: Some(parent) } ==> !self.unwinding()
            && self.visited().len() > 0 && self.visited().last() == path_view(parent)
        &&& self.phase() is Walking ==> !self.unwinding()
        &&& subtrees_contiguous(self.visited()) ==> self.depth_first()
        &&& walk_recorded(self.open_paths(), self.visited(), self.handed_out(), self.unwinding())
    }

    pub fn new() -> (scanner: Self)
        ensures
            scanner.wf(),
            scanner.open_paths().len() == 0,
            scanner.total_count() == 0,
            scanner.phase() is Walking,
            scanner.digested() == Seq::<(Seq<Seq<char>>, Seq<u8>)>::empty(),
            scanner.handed_out() == Seq::<(Seq<Seq<char>>, Seq<u8>)>::empty(),
            scanner.depth_first(),
            scanner.visited() == Seq::<Seq<Seq<char>>>::empty(),
    {
        DirectoryScanner { open: OpenDirectories::new(), total_count: 0, phase: ScanPhase::Walking }
    }

    fn place(&mut self, parent: Vec<String>) -> (step: ScanStep)
        requires
            old(self).wf(),
            old(self).depth_first() ==> left_behind(old(self).handed_out(), path_view(parent)),
            !old(self).unwinding(),
            old(self).visited().len() > 0,
            old(self).visited().last() == path_view(parent),
        ensures
            final(self).wf(),
            final(self).visited() == old(self).visited(),
            final(self).total_count() == old(self).total_count(),
            scan_placed(old(self).open_paths(), old(self).open_inputs(), parent, *final(self), step),
            final(self).digested() == old(self).digested(),
            final(self).depth_first() == old(self).depth_first(),
            final(self).handed_out() == handed_out_after(
                old(self).open_paths(),
                old(self).open_inputs(),
                old(self).handed_out(),
                step is FinishDirectory,
            ),
    {
        let ghost p = path_view(parent);
        let ghost paths = self.open.paths();
        let ghost old_handed = self.open.handed_out();
        match self.open.placement(&parent) {
            Placement::FinishInnermost => {
                let (path, digest) = self.open.finish_innermost(Some(&parent));
                self.phase = ScanPhase::AwaitingNextStep { parent: Some(parent) };
                proof {
                    if self.open.depth_first() {
                        let handed = self.open.handed_out();
                        assert forall|k: int| 0 <= k < handed.len() implies !is_path_prefix(#[trigger] handed[k].0, p) by {
                            if k == handed.len() - 1 {
                                assert(handed[k].0 == paths.last());
                            } else {
                                assert(handed[k] == old_handed[k]);
                            }
                        }
                    }
                }
                ScanStep::FinishDirectory { path, digest }
            },
            Placement::DigestIntoInnermost => {
                self.phase = ScanPhase::AwaitingMetadata { parent, open_parent: false };
                ScanStep::DigestEntry
            },
            Placement::OpenParent => {
                self.phase = ScanPhase::AwaitingMetadata { parent, open_parent: true };
                ScanStep::DigestEntry
            },
        }
    }

    fn unwind(&mut self) -> (step: ScanStep)
        requires
            old(self).wf(),
        ensures
            final(self).wf(),
            scan_unwound(old(self).open_paths(), old(self).open_inputs(), old(self).total_count(), *final(self), step),
            final(self).digested() == old(self).digested(),
            final(self).depth_first() == old(self).depth_first(),
            final(self).handed_out() == handed_out_after(
                old(self).open_paths(),
                old(self).open_inputs(),
                old(self).handed_out(),
                step is FinishDirectory,
            ),
    {
        if self.open.is_empty() {
            self.phase = ScanPhase::Done;
            ScanStep::Done(DirScanOutcome::Finished(self.total_count))
        } else {
            let (path, digest) = self.open.finish_innermost(None);
            self.phase = ScanPhase::AwaitingNextStep { parent: None };
            ScanStep::FinishDirectory { path, digest }
        }
    }

    /// Visits the next entry of the walk, given the path of its parent
    /// directory relative to the root (`None` for an entry outside of the
    /// tree). Entries outside of the tree and entries directly in the root
    /// directory are passed over.
    pub fn visit_entry(&mut self, parent: Option<Vec<String>>) -> (step: ScanStep)
        requires
            old(self).wf(),
            old(self).phase() is Walking,
        ensures
            final(self).wf(),
            final(self).total_count() == old(self).total_count(),
            (parent is None || parent->0.len() == 0) ==> {
                &&& step is Ready
                &&& final(self).open_paths() == old(self).open_paths()
                &&& final(self).open_inputs() == old(self).open_inputs()
                &&& final(self).phase() is Walking
            },
            (parent is None || parent->0.len() == 0) ==> final(self).depth_first() == old(self).depth_first(),
            (parent is Some && parent->0.len() > 0) ==> {
                &&& scan_placed(old(self).open_paths(), old(self).open_inputs(), parent->0, *final(self), step)
                &&& final(self).depth_first() == (old(self).depth_first() && left_behind(
                    old(self).handed_out(),
                    path_view(parent->0),
                ))
                &&& final(self).visited() == old(self).visited().push(path_view(parent->0))
            },
            (parent is None || parent->0.len() == 0) ==> final(self).visited() == old(self).visited(),
            final(self).digested() == old(self).digested(),
            final(self).handed_out() == handed_out_after(
                old(self).open_paths(),
                old(self).open_inputs(),
                old(self).handed_out(),
                step is FinishDirectory,
            ),
    {
        match parent {
            Some(parent) => {
                if parent.len() == 0 {
                    // The root directory is not digested.
                    ScanStep::Ready
                } else {
                    self.open.note_parent(&parent);
                    self.place(parent)
                }
            },
            None => ScanStep::Ready,
        }
    }

    /// Feeds the fingerprint of the current entry into the digest of its
    /// parent directory.
    pub fn digest_entry(&mut self, fs_metadata: &FsMetadata, file_name: &str)
        requires
            old(self).wf(),
            old(self).phase() is AwaitingMetadata,
            time_stamps_after_epoch(*fs_metadata),
        ensures
            final(self).wf(),
            final(self).total_count() == old(self).total_count(),
            final(self).phase() is Walking,
            old(self).phase() matches ScanPhase::AwaitingMetadata { parent, open_parent } && {
                &&& open_parent ==> final(self).open_paths() == old(self).open_paths().push(path_view(parent))
                    && final(self).open_inputs() == old(self).open_inputs().push(
                    entry_fingerprint(*fs_metadata, file_name@),
                )
                &&& !open_parent ==> final(self).open_paths() == old(self).open_paths()
                    && final(self).open_inputs() == old(self).open_inputs().update(
                    old(self).open_inputs().len() - 1,
                    old(self).open_inputs().last() + entry_fingerprint(*fs_metadata, file_name@),
                )
                &&& final(self).digested() == old(self).digested().push(
                    (path_view(parent), entry_fingerprint(*fs_metadata, file_name@)),
                )
            },
            final(self).handed_out() == old(self).handed_out(),
            final(self).depth_first() == old(self).depth_first(),
    {
        let mut phase = ScanPhase::Walking;
        std::mem::swap(&mut phase, &mut self.phase);
        match phase {
            ScanPhase::AwaitingMetadata { parent, open_parent } => {
                proof {
                    lemma_chain_innermost(self.open.paths(), path_view(parent));
                }
                if open_parent {
                    self.open.open_parent(parent, fs_metadata, file_name);
                } else {
                    self.open.digest_into_innermost(fs_metadata, file_name);
                }
            },
            _ => {},
        }
    }

    /// Continues after the receiver of a finished directory has answered.
    pub fn after_dir_finished(&mut self, next: NextDirScanStep) -> (step: ScanStep)
        requires
            old(self).wf(),
            old(self).phase() is AwaitingNextStep,
            old(self).total_count() < usize::MAX,
        ensures
            final(self).wf(),
            next == NextDirScanStep::Abort ==> {
                &&& step == ScanStep::Done(DirScanOutcome::Aborted)
                &&& final(self).total_count() == old(self).total_count()
                &&& final(self).open_paths() == old(self).open_paths()
                &&& final(self).phase() is Done
            },
            next == NextDirScanStep::Continue ==> match old(self).phase() {
                ScanPhase::AwaitingNextStep { parent: Some(parent) } => {
                    &&& final(self).total_count() == old(self).total_count() + 1
                    &&& scan_placed(old(self).open_paths(), old(self).open_inputs(), parent, *final(self), step)
                },
                _ => scan_unwound(
                    old(self).open_paths(),
                    old(self).open_inputs(),
                    (old(self).total_count() + 1) as usize,
                    *final(self),
                    step,
                ),
            },
            final(self).digested() == old(self).digested(),
            final(self).depth_first() == old(self).depth_first(),
            final(self).handed_out() == handed_out_after(
                old(self).open_paths(),
                old(self).open_inputs(),
                old(self).handed_out(),
                step is FinishDirectory,
            ),
    {
        let mut phase = ScanPhase::Walking;
        std::mem::swap(&mut phase, &mut self.phase);
        match next {
            NextDirScanStep::Abort => {
                self.phase = ScanPhase::Done;
                ScanStep::Done(DirScanOutcome::Aborted)
            },
            NextDirScanStep::Continue => {
                self.total_count = self.total_count + 1;
                match phase {
                    ScanPhase::AwaitingNextStep { parent: Some(parent) } => self.place(parent),
                    _ => {
                        self.phase = ScanPhase::AwaitingNextStep { parent: None };
                        self.unwind()
                    },
                }
            },
        }
    }

    /// Finishes the remaining directories after the walk has visited all
    /// entries.
    pub fn finish_walk(&mut self) -> (step: ScanStep)
        requires
            old(self).wf(),
            old(self).phase() is Walking,
        ensures
            final(self).wf(),
            scan_unwound(old(self).open_paths(), old(self).open_inputs(), old(self).total_count(), *final(self), step),
            final(self).digested() == old(self).digested(),
            final(self).depth_first() == old(self).depth_first(),
            final(self).handed_out() == handed_out_after(
                old(self).open_paths(),
                old(self).open_inputs(),
                old(self).handed_out(),
                step is FinishDirectory,
            ),
    {
        self.unwind()
    }
}

/// Once a scan whose entries came depth-first has finished all open
/// directories, every directory below the root that holds an entry has been
/// handed out exactly once, no other directory has, and the input of each
/// directory's digest consists of the fingerprints of exactly the entries
/// directly inside it.
pub proof fn law_finished_scan_digests_each_directory(scanner: DirectoryScanner)
    requires
        scanner.wf(),
        scanner.open_paths().len() == 0,
        subtrees_contiguous(scanner.visited()),
    ensures
        scanner.depth_first(),
        dir_paths(scanner.handed_out()).no_duplicates(),
        forall|dir: Seq<Seq<char>>| #[trigger] holds_entry(scanner.digested(), dir) <==> dir_paths(scanner.handed_out()).contains(dir),
        inputs_match(scanner.handed_out(), scanner.digested()),
{
}

/// Directories named `.DS_Store` are hidden from the traversal, together
/// with their contents.
pub fn is_hidden_dir_entry(is_dir: bool, file_name: Option<&str>) -> (hidden: bool)
    ensures
        hidden == (is_dir && file_name is Some && file_name->0@ == ".DS_Store"@),
{
    if is_dir {
        match file_name {
            Some(name) => str_eq(name, ".DS_Store"),
            None => false,
        }
    } else {
        false
    }
}

} // verus!
