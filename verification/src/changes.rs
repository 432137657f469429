//! What changed in a session since it was last saved, so that a host need
//! save only that: the files written or created, the files deleted, and
//! whether the history or the environment changed.
//!
//! A run that leaves a file with new contents (or creates it) counts it as
//! written and no longer as deleted; a run that removes a file counts it as
//! deleted and no longer as written.
use vstd::prelude::*;
use crate::text::{str_eq, to_owned_string};
use crate::vfs::{Vfs, file_map};

verus! {

/// The paths a list holds.
pub open spec fn path_set(v: Seq<String>) -> Set<Seq<char>> {
    Set::new(|p: Seq<char>| exists|j: int| 0 <= j < v.len() && (#[trigger] v[j])@ == p)
}

/// The files of `after` that `before` does not hold with the same contents.
pub open spec fn written(before: Map<Seq<char>, Seq<char>>, after: Map<Seq<char>, Seq<char>>) -> Set<Seq<char>> {
    Set::new(|p: Seq<char>| after.dom().contains(p) && !(before.dom().contains(p) && before[p] == after[p]))
}

/// The files of `before` that `after` no longer holds.
pub open spec fn removed(before: Map<Seq<char>, Seq<char>>, after: Map<Seq<char>, Seq<char>>) -> Set<Seq<char>> {
    Set::new(|p: Seq<char>| before.dom().contains(p) && !after.dom().contains(p))
}

/// The changes recorded: written files, deleted files, whether the history
/// changed, whether the environment changed.
pub type ChangesView = (Set<Seq<char>>, Set<Seq<char>>, bool, bool);

/// The changes after a run that turned the files `before` into `after`,
/// and changed the history and the environment as `history` and `env` say.
pub open spec fn noted(
    c: ChangesView,
    before: Map<Seq<char>, Seq<char>>,
    after: Map<Seq<char>, Seq<char>>,
    history: bool,
    env: bool,
) -> ChangesView {
    (
        c.0.difference(removed(before, after)).union(written(before, after)),
        c.1.difference(after.dom()).union(removed(before, after)),
        c.2 || history,
        c.3 || env,
    )
}

/// The list `v` holds exactly the files of `m`, with their contents.
pub open spec fn lists_files(v: Seq<(String, String)>, m: Map<Seq<char>, Seq<char>>) -> bool {
    &&& forall|j: int| 0 <= j < v.len() ==> #[trigger] m.dom().contains(v[j].0@) && m[v[j].0@] == v[j].1@
    &&& forall|p: Seq<char>| #[trigger] m.dom().contains(p) ==> exists|j: int| 0 <= j < v.len() && (#[trigger] v[j]).0@ == p
}

/// Whether `v` holds the path `p`.
fn holds(v: &Vec<String>, p: &str) -> (r: bool)
    ensures
        r == path_set(v@).contains(p@),
{
    let mut i: usize = 0;
    while i < v.len()
        invariant
            i <= v@.len(),
            forall|j: int| 0 <= j < i ==> (#[trigger] v@[j])@ != p@,
        decreases v.len() - i,
    {
        if str_eq(v[i].as_str(), p) {
            assert(v@[i as int]@ == p@);
            return true;
        }
        i += 1;
    }
    false
}

/// Add `p` to `v` unless it holds it already.
fn add_path(v: &mut Vec<String>, p: String)
    ensures
        path_set(final(v)@) == path_set(old(v)@).insert(p@),
{
    if !holds(v, p.as_str()) {
        let ghost before = v@;
        let ghost pv = p@;
        v.push(p);
        assert(path_set(v@) =~= path_set(before).insert(pv)) by {
            assert forall|q: Seq<char>| path_set(v@).contains(q) implies path_set(before).insert(pv).contains(q) by {
                let j = choose|j: int| 0 <= j < v@.len() && (#[trigger] v@[j])@ == q;
                if j < before.len() {
                    assert(before[j] == v@[j]);
                }
            }
            assert forall|q: Seq<char>| path_set(before).insert(pv).contains(q) implies path_set(v@).contains(q) by {
                if q == pv {
                    assert(v@[before.len() as int]@ == q);
                } else {
                    let j = choose|j: int| 0 <= j < before.len() && (#[trigger] before[j])@ == q;
                    assert(v@[j] == before[j]);
                }
            }
        }
    } else {
        assert(path_set(v@) =~= path_set(v@).insert(p@));
    }
}

/// The paths among the first `i` of `v`.
pub open spec fn first_paths(v: Seq<String>, i: int) -> Set<Seq<char>> {
    Set::new(|p: Seq<char>| exists|j: int| 0 <= j < i && (#[trigger] v[j])@ == p)
}

/// The file names among the first `i` of `v`.
pub open spec fn first_names(v: Seq<(String, String)>, i: int) -> Set<Seq<char>> {
    Set::new(|p: Seq<char>| exists|j: int| 0 <= j < i && (#[trigger] v[j]).0@ == p)
}

proof fn lemma_first_paths(v: Seq<String>, i: int)
    requires
        0 <= i < v.len(),
    ensures
        first_paths(v, i + 1) == first_paths(v, i).insert(v[i]@),
        first_paths(v, v.len() as int) == path_set(v),
{
    assert(first_paths(v, i + 1) =~= first_paths(v, i).insert(v[i]@)) by {
        assert forall|q: Seq<char>| first_paths(v, i + 1).contains(q) implies first_paths(v, i).insert(v[i]@).contains(q) by {
            let j = choose|j: int| 0 <= j < i + 1 && (#[trigger] v[j])@ == q;
            if j < i {
                assert(first_paths(v, i).contains(q));
            }
        }
    }
    assert(first_paths(v, v.len() as int) =~= path_set(v));
}

proof fn lemma_first_names(v: Seq<(String, String)>, i: int)
    requires
        0 <= i < v.len(),
    ensures
        first_names(v, i + 1) == first_names(v, i).insert(v[i].0@),
{
    assert(first_names(v, i + 1) =~= first_names(v, i).insert(v[i].0@)) by {
        assert forall|q: Seq<char>| first_names(v, i + 1).contains(q) implies first_names(v, i).insert(v[i].0@).contains(q) by {
            let j = choose|j: int| 0 <= j < i + 1 && (#[trigger] v[j]).0@ == q;
            if j < i {
                assert(first_names(v, i).contains(q));
            }
        }
    }
}

/// Whether the file list `v` names `p`; and whether it holds `p` with the
/// contents `c`.
fn names_file(v: &Vec<(String, String)>, p: &str, c: &str) -> (r: (bool, bool))
    ensures
        r.0 == exists|j: int| 0 <= j < v@.len() && (#[trigger] v@[j]).0@ == p@,
        r.1 == exists|j: int| 0 <= j < v@.len() && (#[trigger] v@[j]).0@ == p@ && v@[j].1@ == c@,
{
    let mut named = false;
    let mut same = false;
    let mut i: usize = 0;
    while i < v.len()
        invariant
            i <= v@.len(),
            named == exists|j: int| 0 <= j < i && (#[trigger] v@[j]).0@ == p@,
            same == exists|j: int| 0 <= j < i && (#[trigger] v@[j]).0@ == p@ && v@[j].1@ == c@,
        decreases v.len() - i,
    {
        let n = str_eq(v[i].0.as_str(), p);
        let m = n && str_eq(v[i].1.as_str(), c);
        proof {
            if named {
                let j = choose|j: int| 0 <= j < i && (#[trigger] v@[j]).0@ == p@;
                assert(0 <= j < i + 1);
            }
            if same {
                let j = choose|j: int| 0 <= j < i && (#[trigger] v@[j]).0@ == p@ && v@[j].1@ == c@;
                assert(0 <= j < i + 1);
            }
        }
        named = named || n;
        same = same || m;
        i += 1;
    }
    (named, same)
}

/// The paths of `v` outside `removed(b, a)` (when `removed_only`) or
/// outside `a`'s files.
fn drop_paths(
    v: &Vec<String>,
    before: &Vec<(String, String)>,
    after: &Vec<(String, String)>,
    Ghost(b): Ghost<Map<Seq<char>, Seq<char>>>,
    Ghost(a): Ghost<Map<Seq<char>, Seq<char>>>,
    removed_only: bool,
) -> (r: Vec<String>)
    requires
        lists_files(before@, b),
        lists_files(after@, a),
    ensures
        path_set(r@) == path_set(v@).difference(if removed_only { removed(b, a) } else { a.dom() }),
{
    let ghost gone = if removed_only { removed(b, a) } else { a.dom() };
    let mut out: Vec<String> = Vec::new();
    let mut i: usize = 0;
    assert(path_set(out@) =~= first_paths(v@, 0).difference(gone));
    while i < v.len()
        invariant
            i <= v@.len(),
            lists_files(before@, b),
            lists_files(after@, a),
            gone == (if removed_only { removed(b, a) } else { a.dom() }),
            path_set(out@) == first_paths(v@, i as int).difference(gone),
        decreases v.len() - i,
    {
        let x = v[i].as_str();
        let (in_after, _) = names_file(after, x, "");
        let (in_before, _) = names_file(before, x, "");
        proof {
            lemma_first_paths(v@, i as int);
            if in_after {
                let j = choose|j: int| 0 <= j < after@.len() && (#[trigger] after@[j]).0@ == x@;
                assert(a.dom().contains(after@[j].0@));
            }
            if a.dom().contains(x@) {
                let j = choose|j: int| 0 <= j < after@.len() && (#[trigger] after@[j]).0@ == x@;
            }
            if in_before {
                let j = choose|j: int| 0 <= j < before@.len() && (#[trigger] before@[j]).0@ == x@;
                assert(b.dom().contains(before@[j].0@));
            }
            if b.dom().contains(x@) {
                let j = choose|j: int| 0 <= j < before@.len() && (#[trigger] before@[j]).0@ == x@;
            }
        }
        let drop = if removed_only { in_before && !in_after } else { in_after };
        assert(drop == gone.contains(x@));
        if !drop {
            add_path(&mut out, to_owned_string(x));
            assert(path_set(out@) =~= first_paths(v@, i + 1).difference(gone));
        } else {
            assert(path_set(out@) =~= first_paths(v@, i + 1).difference(gone));
        }
        i += 1;
    }
    proof {
        if v@.len() > 0 {
            lemma_first_paths(v@, 0);
        } else {
            assert(first_paths(v@, 0) =~= path_set(v@));
        }
    }
    out
}

/// Add to `out` the files written (`written`) or, when `!written`, removed
/// between `before` and `after`.
fn add_changed(
    out: &mut Vec<String>,
    before: &Vec<(String, String)>,
    after: &Vec<(String, String)>,
    Ghost(b): Ghost<Map<Seq<char>, Seq<char>>>,
    Ghost(a): Ghost<Map<Seq<char>, Seq<char>>>,
    written_files: bool,
)
    requires
        lists_files(before@, b),
        lists_files(after@, a),
    ensures
        path_set(final(out)@) == path_set(old(out)@).union(
            if written_files { written(b, a) } else { removed(b, a) },
        ),
{
    let ghost add = if written_files { written(b, a) } else { removed(b, a) };
    let src = if written_files { after } else { before };
    let other = if written_files { before } else { after };
    let ghost from = if written_files { a } else { b };
    let ghost o0 = path_set(out@);
    let mut i: usize = 0;
    assert(o0 =~= o0.union(first_names(src@, 0).intersect(add)));
    while i < src.len()
        invariant
            i <= src@.len(),
            lists_files(before@, b),
            lists_files(after@, a),
            src@ == (if written_files { after@ } else { before@ }),
            other@ == (if written_files { before@ } else { after@ }),
            from == (if written_files { a } else { b }),
            add == (if written_files { written(b, a) } else { removed(b, a) }),
            path_set(out@) == o0.union(first_names(src@, i as int).intersect(add)),
            o0 == path_set(old(out)@),
        decreases src.len() - i,
    {
        let p = src[i].0.as_str();
        let c = src[i].1.as_str();
        let (named, same) = names_file(other, p, c);
        proof {
            lemma_first_names(src@, i as int);
            if written_files {
                assert(a.dom().contains(after@[i as int].0@));
            } else {
                assert(b.dom().contains(before@[i as int].0@));
            }
            assert(from.dom().contains(p@) && from[p@] == c@);
            let om = if written_files { b } else { a };
            if named {
                let j = choose|j: int| 0 <= j < other@.len() && (#[trigger] other@[j]).0@ == p@;
                assert(om.dom().contains(other@[j].0@));
            }
            if om.dom().contains(p@) {
                let j = choose|j: int| 0 <= j < other@.len() && (#[trigger] other@[j]).0@ == p@;
                assert(om[other@[j].0@] == other@[j].1@);
            }
            if same {
                let j = choose|j: int| 0 <= j < other@.len() && (#[trigger] other@[j]).0@ == p@ && other@[j].1@ == c@;
                assert(om.dom().contains(other@[j].0@) && om[other@[j].0@] == other@[j].1@);
            }
        }
        let wanted = if written_files { !same } else { !named };
        assert(wanted == add.contains(p@));
        if wanted {
            add_path(out, to_owned_string(p));
        }
        assert(path_set(out@) =~= o0.union(first_names(src@, i + 1).intersect(add)));
        i += 1;
    }
    assert(first_names(src@, src@.len() as int).intersect(add) =~= add) by {
        assert forall|q: Seq<char>| add.contains(q) implies first_names(src@, src@.len() as int).contains(q) by {
            assert(from.dom().contains(q));
            let j = choose|j: int| 0 <= j < src@.len() && (#[trigger] src@[j]).0@ == q;
        }
    }
}

/// Changes since the last save.
pub struct ChangeLog {
    /// Files written or created.
    pub dirty: Vec<String>,
    /// Files deleted.
    pub deleted: Vec<String>,
    /// Whether the history changed.
    pub history: bool,
    /// Whether the environment changed.
    pub env_vars: bool,
}

impl View for ChangeLog {
    type V = ChangesView;

    open spec fn view(&self) -> ChangesView {
        (path_set(self.dirty@), path_set(self.deleted@), self.history, self.env_vars)
    }
}

impl ChangeLog {
    /// No changes.
    pub fn new() -> (r: ChangeLog)
        ensures
            r@ == (Set::<Seq<char>>::empty(), Set::<Seq<char>>::empty(), false, false),
    {
        let r = ChangeLog { dirty: Vec::new(), deleted: Vec::new(), history: false, env_vars: false };
        assert(path_set(r.dirty@) =~= Set::<Seq<char>>::empty());
        assert(path_set(r.deleted@) =~= Set::<Seq<char>>::empty());
        r
    }

    /// Forget every change (after a save).
    pub fn clear(&mut self)
        ensures
            final(self)@ == (Set::<Seq<char>>::empty(), Set::<Seq<char>>::empty(), false, false),
    {
        *self = ChangeLog::new();
    }

    /// Record a run that turned the files listed in `before` into those
    /// listed in `after`.
    pub(crate) fn note_files(
        &mut self,
        before: &Vec<(String, String)>,
        after: &Vec<(String, String)>,
        Ghost(b): Ghost<Map<Seq<char>, Seq<char>>>,
        Ghost(a): Ghost<Map<Seq<char>, Seq<char>>>,
    )
        requires
            lists_files(before@, b),
            lists_files(after@, a),
        ensures
            final(self)@ == noted(old(self)@, b, a, false, false),
    {
        let mut dirty = drop_paths(&self.dirty, before, after, Ghost(b), Ghost(a), true);
        add_changed(&mut dirty, before, after, Ghost(b), Ghost(a), true);
        let mut deleted = drop_paths(&self.deleted, before, after, Ghost(b), Ghost(a), false);
        add_changed(&mut deleted, before, after, Ghost(b), Ghost(a), false);
        self.dirty = dirty;
        self.deleted = deleted;
    }

    /// Count every file of `vfs` as written.
    pub fn mark_all(&mut self, vfs: &Vfs)
        ensures
            final(self)@ == (old(self)@.0.union(file_map(vfs@).dom()), old(self)@.1, old(self)@.2, old(self)@.3),
    {
        let fs = vfs.files();
        let ghost m = file_map(vfs@);
        let ghost d0 = path_set(self.dirty@);
        let mut i: usize = 0;
        while i < fs.len()
            invariant
                i <= fs@.len(),
                lists_files(fs@, m),
                path_set(self.dirty@) == d0.union(Set::new(|p: Seq<char>| exists|j: int| 0 <= j < i && (#[trigger] fs@[j]).0@ == p)),
                self.deleted == old(self).deleted,
                self.history == old(self).history,
                self.env_vars == old(self).env_vars,
                d0 == path_set(old(self).dirty@),
            decreases fs.len() - i,
        {
            let ghost before = Set::new(|p: Seq<char>| exists|j: int| 0 <= j < i && (#[trigger] fs@[j]).0@ == p);
            let ghost after = Set::new(|p: Seq<char>| exists|j: int| 0 <= j < i + 1 && (#[trigger] fs@[j]).0@ == p);
            assert(after =~= before.insert(fs@[i as int].0@)) by {
                assert forall|q: Seq<char>| after.contains(q) implies before.insert(fs@[i as int].0@).contains(q) by {
                    let j = choose|j: int| 0 <= j < i + 1 && (#[trigger] fs@[j]).0@ == q;
                    if j < i {
                        assert(before.contains(q));
                    }
                }
            }
            add_path(&mut self.dirty, crate::text::to_owned_string(fs[i].0.as_str()));
            i += 1;
        }
        assert(Set::new(|p: Seq<char>| exists|j: int| 0 <= j < fs@.len() && (#[trigger] fs@[j]).0@ == p) =~= m.dom()) by {
            assert forall|q: Seq<char>| m.dom().contains(q) implies exists|j: int| 0 <= j < fs@.len() && (#[trigger] fs@[j]).0@ == q by {}
        }
    }
}

} // verus!
