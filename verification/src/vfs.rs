//! The virtual file system: a set of absolute paths, each naming a
//! directory or a file with contents, every node carrying ownership and
//! permission metadata, plus the shell's working directory.
//!
//! Abstractly the file system is a map from normalized absolute paths to
//! `(is_dir, contents, metadata)`; every operation is specified as a change
//! of that map.
use vstd::prelude::*;
use crate::text::{chars_of, string_of, push_all, push_str, copy_chars, chars_eq, split_lines,
    lines, vv, join, join_chars, has_prefix, starts_with};
use crate::path::{resolve, resolve_chars, root, dir_prefix, child_of, parent_of, name_of, is_normal,
    split_parent, child_path_chars};
use crate::order::{sort_lex, sorted, lex_lt, lex_le, lemma_lex_irrefl};

verus! {

/// Ownership and permission metadata of a node.
#[derive(Clone, Copy, Debug, PartialEq, Eq, Structural)]
pub struct Meta {
    /// Permission bits (`0o644`, `0o755`, `0o1777`, ...).
    pub mode: u32,
    /// Owning user id.
    pub uid: u32,
    /// Owning group id.
    pub gid: u32,
    /// Modification time in seconds since the epoch (0 when unknown).
    pub mtime: u64,
}

/// Metadata given to a newly created file.
pub open spec fn new_file_meta() -> Meta {
    Meta { mode: 0o644, uid: 0, gid: 0, mtime: 0 }
}

/// Metadata given to a newly created directory owned by `uid:gid`.
pub open spec fn new_dir_meta(uid: u32, gid: u32) -> Meta {
    Meta { mode: 0o755, uid, gid, mtime: 0 }
}

/// What the file system holds at a path: whether it is a directory, the
/// file contents (empty for a directory), and the metadata.
pub type NodeView = (bool, Seq<char>, Meta);

/// The abstract file system: normalized absolute path to node.
pub type FsView = Map<Seq<char>, NodeView>;

pub(crate) struct Entry {
    path: Vec<char>,
    is_dir: bool,
    content: Vec<char>,
    meta: Meta,
}

spec fn ev(e: Entry) -> NodeView {
    (e.is_dir, e.content@, e.meta)
}

spec fn tmap(es: Seq<Entry>) -> FsView
    decreases es.len(),
{
    if es.len() == 0 {
        Map::empty()
    } else {
        tmap(es.drop_last()).insert(es.last().path@, ev(es.last()))
    }
}

spec fn distinct(es: Seq<Entry>) -> bool {
    forall|i: int, j: int| 0 <= i < j < es.len() ==> es[i].path@ != es[j].path@
}

spec fn normal_paths(es: Seq<Entry>) -> bool {
    forall|i: int| 0 <= i < es.len() ==> is_normal(#[trigger] es[i].path@)
}

/// The nodes of a file system, with distinct paths and a root directory.
pub struct Tree {
    entries: Vec<Entry>,
}

impl Tree {
    #[verifier::type_invariant]
    spec fn inv(self) -> bool {
        &&& distinct(self.entries@)
        &&& normal_paths(self.entries@)
        &&& tmap(self.entries@).dom().contains(root())
        &&& tmap(self.entries@)[root()].0
    }
}

impl Tree {
    fn set_meta_at(&mut self, i: usize, meta: Meta)
        requires
            i < old(self).entries@.len(),
        ensures
            tmap(final(self).entries@) == tmap(old(self).entries@).insert(
                old(self).entries@[i as int].path@,
                (old(self).entries@[i as int].is_dir, old(self).entries@[i as int].content@, meta),
            ),
    {
        proof {
            use_type_invariant(&*self);
        }
        let e = Entry {
            path: copy_chars(self.entries[i].path.as_slice()),
            is_dir: self.entries[i].is_dir,
            content: copy_chars(self.entries[i].content.as_slice()),
            meta,
        };
        let ghost old_es = self.entries@;
        let mut es = self.take_entries();
        assert(es@ == old_es);
        proof {
            lemma_tmap_update(es@, i as int, e);
            lemma_tmap_at(es@, i as int);
            assert(is_normal(es@[i as int].path@));
        }
        es.set(i, e);
        assert(normal_paths(es@)) by {
            assert forall|j: int| 0 <= j < es@.len() implies is_normal(#[trigger] es@[j].path@) by {
                if j != i {
                    assert(es@[j] == old_es[j]);
                }
            }
        }
        *self = Tree { entries: es };
    }

    fn push_entry(&mut self, e: Entry)
        requires
            !tmap(old(self).entries@).dom().contains(e.path@),
            is_normal(e.path@),
        ensures
            tmap(final(self).entries@) == tmap(old(self).entries@).insert(e.path@, ev(e)),
    {
        let mut es = self.take_entries();
        proof {
            lemma_push_distinct(es@, e);
        }
        let ghost old_es = es@;
        es.push(e);
        assert(es@.drop_last() == old_es);
        assert(normal_paths(es@)) by {
            assert forall|j: int| 0 <= j < es@.len() implies is_normal(#[trigger] es@[j].path@) by {
                if j < old_es.len() {
                    assert(es@[j] == old_es[j]);
                }
            }
        }
        *self = Tree { entries: es };
    }

    fn set_at(&mut self, i: usize, e: Entry)
        requires
            i < old(self).entries@.len(),
            e.path@ == old(self).entries@[i as int].path@,
            e.path@ == root() ==> e.is_dir,
        ensures
            tmap(final(self).entries@) == tmap(old(self).entries@).insert(e.path@, ev(e)),
    {
        let mut es = self.take_entries();
        let ghost old_es = es@;
        proof {
            lemma_tmap_update(es@, i as int, e);
        }
        es.set(i, e);
        assert(normal_paths(es@)) by {
            assert forall|j: int| 0 <= j < es@.len() implies is_normal(#[trigger] es@[j].path@) by {
                if j != i {
                    assert(es@[j] == old_es[j]);
                } else {
                    assert(is_normal(old_es[j].path@));
                }
            }
        }
        *self = Tree { entries: es };
    }

    /// Remove `key`, and with `below` also everything under it.
    fn remove_keys_under(&mut self, key: &[char], below: bool)
        requires
            key@ != root(),
            key@.len() > 0,
        ensures
            tmap(final(self).entries@) == tmap(old(self).entries@).remove_keys(
                removal_set(key@, below),
            ),
    {
        let es = self.take_entries();
        let ghost rs = removal_set(key@, below);
        let mut prefix = copy_chars(key);
        prefix.push('/');
        assert(prefix@ == dir_prefix(key@));
        let mut kept: Vec<Entry> = Vec::new();
        let mut i: usize = 0;
        assert(es@.take(0) =~= Seq::<Entry>::empty());
        assert(tmap(kept@) =~= tmap(es@.take(0)).remove_keys(rs));
        while i < es.len()
            invariant
                i <= es@.len(),
                distinct(es@),
                distinct(kept@),
                normal_paths(es@),
                normal_paths(kept@),
                tmap(kept@) == tmap(es@.take(i as int)).remove_keys(rs),
                rs == removal_set(key@, below),
                prefix@ == dir_prefix(key@),
            decreases es.len() - i,
        {
            let is_key = chars_eq(es[i].path.as_slice(), key);
            let under = below && has_prefix(es[i].path.as_slice(), prefix.as_slice());
            proof {
                lemma_remove_step(es@, i as int, rs);
            }
            if !is_key && !under {
                let e = copy_entry(&es[i]);
                proof {
                    lemma_tmap_dom(es@.take(i as int), e.path@);
                    if tmap(es@.take(i as int)).dom().contains(e.path@) {
                        let j = choose|j: int| 0 <= j < i && es@.take(i as int)[j].path@ == e.path@;
                        assert(es@[j].path@ == es@[i as int].path@);
                    }
                    lemma_push_distinct(kept@, e);
                }
                let ghost before = kept@;
                assert(is_normal(es@[i as int].path@));
                kept.push(e);
                assert(kept@.drop_last() == before);
                assert(normal_paths(kept@)) by {
                    assert forall|j: int| 0 <= j < kept@.len() implies is_normal(#[trigger] kept@[j].path@) by {
                        if j < before.len() {
                            assert(kept@[j] == before[j]);
                        }
                    }
                }
            }
            i += 1;
        }
        assert(es@.take(es@.len() as int) == es@);
        proof {
            assert(!rs.contains(root())) by {
                if starts_with(root(), dir_prefix(key@)) {
                    assert(dir_prefix(key@).len() >= 2);
                }
            }
        }
        *self = Tree { entries: kept };
    }

    /// A tree holding only the root directory.
    fn minimal() -> (r: Tree)
        ensures
            tmap(r.entries@) == Map::<Seq<char>, NodeView>::empty().insert(
                root(),
                (true, Seq::<char>::empty(), new_dir_meta(0, 0)),
            ),
    {
        let mut es: Vec<Entry> = Vec::new();
        let mut p: Vec<char> = Vec::new();
        p.push('/');
        es.push(Entry { path: p, is_dir: true, content: Vec::new(), meta: Meta { mode: 0o755, uid: 0, gid: 0, mtime: 0 } });
        assert(es@.drop_last() =~= Seq::<Entry>::empty());
        assert(es@[0].path@ =~= root());
        assert(es@[0].content@ =~= Seq::<char>::empty());
        assert(tmap(es@.drop_last()) == Map::<Seq<char>, NodeView>::empty());
        assert(tmap(es@) =~= Map::<Seq<char>, NodeView>::empty().insert(
            root(),
            (true, Seq::<char>::empty(), new_dir_meta(0, 0)),
        ));
        proof {
            crate::path::lemma_root_normal();
        }
        Tree { entries: es }
    }

    /// Move the entries out, leaving a minimal tree behind.
    fn take_entries(&mut self) -> (r: Vec<Entry>)
        ensures
            r@ == old(self).entries@,
            distinct(r@),
            normal_paths(r@),
            tmap(r@).dom().contains(root()),
            tmap(r@)[root()].0,
    {
        proof {
            use_type_invariant(&*self);
        }
        let mut t = Tree::minimal();
        std::mem::swap(self, &mut t);
        proof {
            use_type_invariant(&t);
        }
        let Tree { entries } = t;
        entries
    }
}

proof fn lemma_tmap_dom(es: Seq<Entry>, p: Seq<char>)
    ensures
        tmap(es).dom().contains(p) <==> exists|i: int| 0 <= i < es.len() && es[i].path@ == p,
    decreases es.len(),
{
    if es.len() > 0 {
        lemma_tmap_dom(es.drop_last(), p);
        if tmap(es.drop_last()).dom().contains(p) {
            let i = choose|i: int| 0 <= i < es.drop_last().len() && es.drop_last()[i].path@ == p;
            assert(es[i].path@ == p);
        }
        if exists|i: int| 0 <= i < es.len() && es[i].path@ == p {
            let i = choose|i: int| 0 <= i < es.len() && es[i].path@ == p;
            if i < es.len() - 1 {
                assert(es.drop_last()[i].path@ == p);
            }
        }
    }
}

proof fn lemma_tmap_finite(es: Seq<Entry>)
    ensures
        tmap(es).dom().finite(),
    decreases es.len(),
{
    if es.len() > 0 {
        lemma_tmap_finite(es.drop_last());
    }
}

proof fn lemma_tmap_at(es: Seq<Entry>, i: int)
    requires
        distinct(es),
        0 <= i < es.len(),
    ensures
        tmap(es).dom().contains(es[i].path@),
        tmap(es)[es[i].path@] == ev(es[i]),
    decreases es.len(),
{
    if i < es.len() - 1 {
        assert(distinct(es.drop_last()));
        assert(es.drop_last()[i] == es[i]);
        lemma_tmap_at(es.drop_last(), i);
        assert(es.last().path@ != es[i].path@);
    }
}

proof fn lemma_tmap_update(es: Seq<Entry>, i: int, e: Entry)
    requires
        distinct(es),
        0 <= i < es.len(),
        e.path@ == es[i].path@,
    ensures
        distinct(es.update(i, e)),
        tmap(es.update(i, e)) == tmap(es).insert(e.path@, ev(e)),
    decreases es.len(),
{
    let u = es.update(i, e);
    assert(distinct(u)) by {
        assert forall|a: int, b: int| 0 <= a < b < u.len() implies u[a].path@ != u[b].path@ by {
            assert(es[a].path@ != es[b].path@);
        }
    }
    if i == es.len() - 1 {
        assert(u.drop_last() =~= es.drop_last());
        assert(tmap(u) =~= tmap(es).insert(e.path@, ev(e)));
    } else {
        assert(distinct(es.drop_last()));
        lemma_tmap_update(es.drop_last(), i, e);
        assert(u.drop_last() =~= es.drop_last().update(i, e));
        assert(es.last().path@ != e.path@);
        assert(tmap(u) =~= tmap(es).insert(e.path@, ev(e)));
    }
}

proof fn lemma_remove_step(es: Seq<Entry>, i: int, rs: Set<Seq<char>>)
    requires
        0 <= i < es.len(),
    ensures
        tmap(es.take(i + 1)).remove_keys(rs) == (if rs.contains(es[i].path@) {
            tmap(es.take(i)).remove_keys(rs)
        } else {
            tmap(es.take(i)).remove_keys(rs).insert(es[i].path@, ev(es[i]))
        }),
{
    assert(es.take(i + 1).drop_last() == es.take(i));
    assert(es.take(i + 1).last() == es[i]);
    if rs.contains(es[i].path@) {
        assert(tmap(es.take(i + 1)).remove_keys(rs) =~= tmap(es.take(i)).remove_keys(rs));
    } else {
        assert(tmap(es.take(i + 1)).remove_keys(rs) =~= tmap(es.take(i)).remove_keys(rs).insert(
            es[i].path@,
            ev(es[i]),
        ));
    }
}

fn copy_entry(e: &Entry) -> (r: Entry)
    ensures
        r.path@ == e.path@,
        ev(r) == ev(*e),
{
    Entry {
        path: copy_chars(e.path.as_slice()),
        is_dir: e.is_dir,
        content: copy_chars(e.content.as_slice()),
        meta: e.meta,
    }
}

proof fn lemma_push_distinct(es: Seq<Entry>, e: Entry)
    requires
        distinct(es),
        !tmap(es).dom().contains(e.path@),
    ensures
        distinct(es.push(e)),
{
    lemma_tmap_dom(es, e.path@);
    let u = es.push(e);
    assert forall|a: int, b: int| 0 <= a < b < u.len() implies u[a].path@ != u[b].path@ by {
        if b == es.len() {
            assert(u[a] == es[a]);
        } else {
            assert(u[a] == es[a] && u[b] == es[b]);
        }
    }
}

/// An entry of a directory listing.
pub struct DirEntry {
    /// The entry's name (its last path component).
    pub name: String,
    /// Whether the entry is a directory.
    pub is_dir: bool,
    /// Size of the file contents in bytes (0 for a directory).
    pub size: usize,
    /// The entry's metadata.
    pub meta: Meta,
}

/// Number of bytes in the UTF-8 encoding of `s`.
pub open spec fn byte_len(s: Seq<char>) -> nat {
    vstd::utf8::encode_utf8(s).len()
}

/// `name` is a direct child of directory `dir` in `fs`.
pub open spec fn is_child(fs: FsView, dir: Seq<char>, name: Seq<char>) -> bool {
    &&& name.len() > 0
    &&& !crate::text::has_char(name, '/')
    &&& fs.dom().contains(child_of(dir, name))
}

/// The paths removed by a recursive removal of `p`: `p` and everything
/// below it.
pub open spec fn subtree(p: Seq<char>) -> Set<Seq<char>> {
    Set::new(|q: Seq<char>| q == p || starts_with(q, dir_prefix(p)))
}

/// The paths removed by removing `key`: `key` itself and, with `below`,
/// every path under it.
pub open spec fn removal_set(key: Seq<char>, below: bool) -> Set<Seq<char>> {
    Set::new(|q: Seq<char>| q == key || (below && starts_with(q, dir_prefix(key))))
}

/// No path of `fs` is longer than `b`.
pub open spec fn bounds(fs: FsView, b: nat) -> bool {
    forall|k: Seq<char>| #[trigger] fs.dom().contains(k) ==> k.len() <= b
}

/// A length that no path of `fs` exceeds.
pub open spec fn fs_bound(fs: FsView) -> nat {
    choose|b: nat| #[trigger] bounds(fs, b)
}

spec fn entries_bound(es: Seq<Entry>) -> nat
    decreases es.len(),
{
    if es.len() == 0 {
        0
    } else {
        let b = entries_bound(es.drop_last());
        if es.last().path@.len() > b {
            es.last().path@.len()
        } else {
            b
        }
    }
}

proof fn lemma_entries_bound(es: Seq<Entry>)
    ensures
        forall|k: Seq<char>| #[trigger] tmap(es).dom().contains(k) ==> k.len() <= entries_bound(es),
    decreases es.len(),
{
    if es.len() > 0 {
        lemma_entries_bound(es.drop_last());
        assert forall|k: Seq<char>| #[trigger] tmap(es).dom().contains(k) implies k.len() <= entries_bound(es) by {
            if k != es.last().path@ {
                assert(tmap(es.drop_last()).dom().contains(k));
            }
        }
    }
}

/// The names of the children of `dir`, in increasing order.
pub open spec fn children(fs: FsView, dir: Seq<char>) -> Seq<Seq<char>> {
    choose|s: Seq<Seq<char>>| crate::order::strictly_sorted(s) && forall|n: Seq<char>| s.contains(n) <==> is_child(fs, dir, n)
}

/// A strictly increasing sequence holding exactly the children's names is
/// `children`.
pub proof fn lemma_children(fs: FsView, dir: Seq<char>, s: Seq<Seq<char>>)
    requires
        crate::order::strictly_sorted(s),
        forall|n: Seq<char>| s.contains(n) <==> is_child(fs, dir, n),
    ensures
        children(fs, dir) == s,
{
    broadcast use vstd::seq_lib::group_to_multiset_ensures;
    let c = children(fs, dir);
    assert(crate::order::strictly_sorted(c) && forall|n: Seq<char>| c.contains(n) <==> is_child(fs, dir, n));
    assert(c.no_duplicates()) by {
        assert forall|i: int, j: int| 0 <= i < c.len() && 0 <= j < c.len() && i != j implies c[i] != c[j] by {
            if i < j {
                assert(crate::order::lex_lt(c[i], c[j]));
                crate::order::lemma_lex_irrefl(c[i]);
            } else {
                assert(crate::order::lex_lt(c[j], c[i]));
                crate::order::lemma_lex_irrefl(c[j]);
            }
        }
    }
    assert(s.no_duplicates()) by {
        assert forall|i: int, j: int| 0 <= i < s.len() && 0 <= j < s.len() && i != j implies s[i] != s[j] by {
            if i < j {
                assert(crate::order::lex_lt(s[i], s[j]));
                crate::order::lemma_lex_irrefl(s[i]);
            } else {
                assert(crate::order::lex_lt(s[j], s[i]));
                crate::order::lemma_lex_irrefl(s[j]);
            }
        }
    }
    c.lemma_multiset_has_no_duplicates();
    s.lemma_multiset_has_no_duplicates();
    assert(c.to_multiset() =~= s.to_multiset()) by {
        assert forall|n: Seq<char>| c.to_multiset().count(n) == s.to_multiset().count(n) by {
            vstd::seq_lib::to_multiset_contains(c, n);
            vstd::seq_lib::to_multiset_contains(s, n);
            if c.contains(n) {
                assert(c.to_multiset().contains(n));
                assert(s.to_multiset().contains(n));
            }
        }
    }
    assert(crate::order::sorted(c));
    assert(crate::order::sorted(s));
    crate::order::lemma_sorted_unique(c, s);
}

/// The virtual file system.
pub struct Vfs {
    /// The current working directory (a normalized absolute path).
    pub cwd: String,
    pub tree: Tree,
}

/// A new node stored at `p` holding `n`.
pub open spec fn updated(fs: FsView, p: Seq<char>, n: NodeView) -> FsView {
    fs.insert(p, n)
}

impl View for Vfs {
    type V = FsView;

    closed spec fn view(&self) -> FsView {
        tmap(self.tree.entries@)
    }
}

/// The files of a file system and their contents.
pub open spec fn file_map(fs: FsView) -> Map<Seq<char>, Seq<char>> {
    Map::new(|p: Seq<char>| fs.dom().contains(p) && !fs[p].0, |p: Seq<char>| fs[p].1)
}

/// The message for a path that does not exist.
pub open spec fn no_such(p: Seq<char>) -> Seq<char> {
    p + ": No such file or directory"@
}

/// The message for a file operation on a directory.
pub open spec fn is_a_dir(p: Seq<char>) -> Seq<char> {
    p + ": Is a directory"@
}

/// The message for a directory operation on a file.
pub open spec fn not_a_dir(p: Seq<char>) -> Seq<char> {
    p + ": Not a directory"@
}

/// The message for creating something that already exists.
pub open spec fn file_exists(p: Seq<char>) -> Seq<char> {
    p + ": File exists"@
}

/// The message for removing the root directory.
pub open spec fn root_busy() -> Seq<char> {
    "/: Device or resource busy"@
}

/// The view of a `Result<String, String>`.
pub open spec fn rv(r: Result<String, String>) -> Result<Seq<char>, Seq<char>> {
    match r {
        Ok(s) => Ok(s@),
        Err(e) => Err(e@),
    }
}

/// The view of a `Result<(), String>`.
pub open spec fn uv(r: Result<(), String>) -> Result<(), Seq<char>> {
    match r {
        Ok(()) => Ok(()),
        Err(e) => Err(e@),
    }
}

/// What writing `content` at `p` does to `fs`: replace a file's contents,
/// or create a file in an existing directory.
pub open spec fn write_spec(fs: FsView, p: Seq<char>, content: Seq<char>) -> Result<
    FsView,
    Seq<char>,
> {
    if fs.dom().contains(p) {
        if fs[p].0 {
            Err(is_a_dir(p))
        } else {
            Ok(fs.insert(p, (false, content, fs[p].2)))
        }
    } else if fs.dom().contains(parent_of(p)) && fs[parent_of(p)].0 && p != root() {
        Ok(fs.insert(p, (false, content, new_file_meta())))
    } else {
        Err(no_such(p))
    }
}

/// What creating the directory `p` owned by `uid:gid` does to `fs`.
pub open spec fn mkdir_spec(fs: FsView, p: Seq<char>, uid: u32, gid: u32) -> Result<
    FsView,
    Seq<char>,
> {
    if fs.dom().contains(p) {
        Err(file_exists(p))
    } else if fs.dom().contains(parent_of(p)) && fs[parent_of(p)].0 {
        Ok(fs.insert(p, (true, Seq::empty(), new_dir_meta(uid, gid))))
    } else {
        Err(no_such(p))
    }
}

/// The lines `start .. start + count` of a text, joined by newlines.
pub open spec fn lines_range(c: Seq<char>, start: nat, count: nat) -> Seq<char> {
    let ls = lines(c);
    let lo = if start <= ls.len() {
        start
    } else {
        ls.len()
    };
    let hi = if lo + count <= ls.len() {
        lo + count
    } else {
        ls.len()
    };
    join(ls.subrange(lo as int, hi as int), seq!['\n'])
}

/// The result of reading the file at `p`.
pub open spec fn read_spec(fs: FsView, p: Seq<char>) -> Result<Seq<char>, Seq<char>> {
    if !fs.dom().contains(p) {
        Err(no_such(p))
    } else if fs[p].0 {
        Err(is_a_dir(p))
    } else {
        Ok(fs[p].1)
    }
}

impl Vfs {
    /// The directories of a fresh file system: `/`, `/etc`, `/home`,
    /// `/home/user` (owned by uid 1000) and `/tmp` (sticky, world-writable).
    pub open spec fn initial_view() -> FsView {
        Map::empty().insert(root(), (true, Seq::empty(), new_dir_meta(0, 0))).insert(
            "/etc"@,
            (true, Seq::empty(), new_dir_meta(0, 0)),
        ).insert("/home"@, (true, Seq::empty(), new_dir_meta(0, 0))).insert(
            "/home/user"@,
            (true, Seq::empty(), new_dir_meta(1000, 1000)),
        ).insert("/tmp"@, (true, Seq::empty(), Meta { mode: 0o1777, uid: 0, gid: 0, mtime: 0 }))
    }

    /// The resolved form of `p`.
    pub open spec fn key(&self, p: Seq<char>) -> Seq<char> {
        resolve(self.cwd@, p)
    }

    /// A fresh file system with the standard directories, working directory
    /// `/home/user`.
    pub fn new() -> (r: Vfs)
        ensures
            r@ == Self::initial_view(),
            r.cwd@ == "/home/user"@,
    {
        let mut es: Vec<Entry> = Vec::new();
        let names = ["/", "/etc", "/home", "/home/user", "/tmp"];
        es.push(Entry { path: chars_of("/"), is_dir: true, content: Vec::new(), meta: Meta { mode: 0o755, uid: 0, gid: 0, mtime: 0 } });
        es.push(Entry { path: chars_of("/etc"), is_dir: true, content: Vec::new(), meta: Meta { mode: 0o755, uid: 0, gid: 0, mtime: 0 } });
        es.push(Entry { path: chars_of("/home"), is_dir: true, content: Vec::new(), meta: Meta { mode: 0o755, uid: 0, gid: 0, mtime: 0 } });
        es.push(Entry { path: chars_of("/home/user"), is_dir: true, content: Vec::new(), meta: Meta { mode: 0o755, uid: 1000, gid: 1000, mtime: 0 } });
        es.push(Entry { path: chars_of("/tmp"), is_dir: true, content: Vec::new(), meta: Meta { mode: 0o1777, uid: 0, gid: 0, mtime: 0 } });
        proof {
            reveal_strlit("/");
            reveal_strlit("/etc");
            reveal_strlit("/home");
            reveal_strlit("/home/user");
            reveal_strlit("/tmp");
            assert(es@[0].path@ =~= root());
            assert(es@[1].path@ =~= "/etc"@);
            assert(es@[2].path@ =~= "/home"@);
            assert(es@[3].path@ =~= "/home/user"@);
            assert(es@[4].path@ =~= "/tmp"@);
            assert(es@[0].content@ =~= Seq::<char>::empty());
            assert(es@[1].content@ =~= Seq::<char>::empty());
            assert(es@[2].content@ =~= Seq::<char>::empty());
            assert(es@[3].content@ =~= Seq::<char>::empty());
            assert(es@[4].content@ =~= Seq::<char>::empty());
            assert(distinct(es@)) by {
                assert forall|i: int, j: int| 0 <= i < j < es@.len() implies es@[i].path@
                    != es@[j].path@ by {
                    if es@[i].path@.len() == es@[j].path@.len() {
                        assert(es@[i].path@[1] != es@[j].path@[1] || es@[i].path@[2] != es@[j].path@[2]);
                    }
                }
            }
            assert(es@.drop_last().drop_last().drop_last().drop_last().drop_last() =~= Seq::<Entry>::empty());
            let e0 = es@.take(1);
            let e1 = es@.take(2);
            let e2 = es@.take(3);
            let e3 = es@.take(4);
            assert(e0.drop_last() =~= Seq::<Entry>::empty());
            assert(e1.drop_last() =~= e0);
            assert(e2.drop_last() =~= e1);
            assert(e3.drop_last() =~= e2);
            assert(es@.drop_last() =~= e3);
            assert(tmap(e0.drop_last()) == Map::<Seq<char>, NodeView>::empty());
            assert(e0.last() == es@[0] && e1.last() == es@[1] && e2.last() == es@[2] && e3.last() == es@[3]);
            let m0 = Map::<Seq<char>, NodeView>::empty().insert(root(), (true, Seq::empty(), new_dir_meta(0, 0)));
            assert(tmap(e0) == m0);
            let m1 = m0.insert("/etc"@, (true, Seq::empty(), new_dir_meta(0, 0)));
            assert(tmap(e1) == m1);
            let m2 = m1.insert("/home"@, (true, Seq::empty(), new_dir_meta(0, 0)));
            assert(tmap(e2) == m2);
            let m3 = m2.insert("/home/user"@, (true, Seq::empty(), new_dir_meta(1000, 1000)));
            assert(tmap(e3) == m3);
            assert(tmap(es@) =~= Self::initial_view());
            lemma_tmap_at(es@, 0);
            crate::path::lemma_root_normal();
            let etc = seq!['e', 't', 'c'];
            let home = seq!['h', 'o', 'm', 'e'];
            let user = seq!['u', 's', 'e', 'r'];
            let tmp = seq!['t', 'm', 'p'];
            assert(crate::path::clean_comp(etc)) by {
                assert(!crate::text::has_char(etc, '/'));
                assert(etc != seq!['.'] && etc != seq!['.', '.']);
            }
            assert(crate::path::clean_comp(home)) by {
                assert(!crate::text::has_char(home, '/'));
                assert(home != seq!['.'] && home != seq!['.', '.']);
            }
            assert(crate::path::clean_comp(user)) by {
                assert(!crate::text::has_char(user, '/'));
                assert(user != seq!['.'] && user != seq!['.', '.']);
            }
            assert(crate::path::clean_comp(tmp)) by {
                assert(!crate::text::has_char(tmp, '/'));
                assert(tmp != seq!['.'] && tmp != seq!['.', '.']);
            }
            crate::path::lemma_top_normal(etc);
            crate::path::lemma_top_normal(home);
            crate::path::lemma_top_normal(tmp);
            assert(seq!['/'] + etc =~= "/etc"@);
            assert(seq!['/'] + home =~= "/home"@);
            assert(seq!['/'] + tmp =~= "/tmp"@);
            let hu = seq![home, user];
            assert(crate::path::clean_stack(hu));
            assert(hu.drop_last() =~= seq![home]);
            assert(crate::text::join(seq![home], seq!['/']) == home);
            assert(crate::path::path_of(hu) =~= "/home/user"@);
            assert(normal_paths(es@));
        }
        let tree = Tree { entries: es };
        Vfs { cwd: to_string_lit("/home/user"), tree }
    }

    fn lookup(&self, key: &[char]) -> (r: Option<usize>)
        ensures
            match r {
                Some(i) => i < self.tree.entries@.len() && self.tree.entries@[i as int].path@
                    == key@ && self@.dom().contains(key@) && self@[key@] == ev(
                    self.tree.entries@[i as int],
                ),
                None => !self@.dom().contains(key@),
            },
    {
        proof {
            use_type_invariant(&self.tree);
        }
        let mut i: usize = 0;
        while i < self.tree.entries.len()
            invariant
                i <= self.tree.entries@.len(),
                distinct(self.tree.entries@),
                forall|j: int| 0 <= j < i ==> self.tree.entries@[j].path@ != key@,
            decreases self.tree.entries.len() - i,
        {
            if chars_eq(self.tree.entries[i].path.as_slice(), key) {
                proof {
                    lemma_tmap_at(self.tree.entries@, i as int);
                }
                return Some(i);
            }
            i += 1;
        }
        proof {
            lemma_tmap_dom(self.tree.entries@, key@);
        }
        None
    }

    /// Resolve `p` against the working directory: `~` and `~/...` start at
    /// `/home/user`, `/...` at the root, anything else at the working
    /// directory; `.` and empty components are dropped and `..` goes up.
    pub fn resolve_path(&self, p: &str) -> (r: Result<String, String>)
        ensures
            rv(r) == Ok::<Seq<char>, Seq<char>>(self.key(p@)),
    {
        let cwd = chars_of(self.cwd.as_str());
        let pc = chars_of(p);
        let k = resolve_chars(cwd.as_slice(), pc.as_slice());
        Ok(string_of(k.as_slice()))
    }

    fn key_of(&self, p: &str) -> (r: Vec<char>)
        ensures
            r@ == self.key(p@),
            is_normal(r@),
    {
        proof {
            crate::path::lemma_resolve_is_normal(self.cwd@, p@);
        }
        let cwd = chars_of(self.cwd.as_str());
        let pc = chars_of(p);
        resolve_chars(cwd.as_slice(), pc.as_slice())
    }

    /// The metadata of the directory containing `p`.
    pub fn parent_meta(&self, p: &str) -> (r: Option<Meta>)
        ensures
            r == (if self@.dom().contains(parent_of(self.key(p@))) {
                Some(self@[parent_of(self.key(p@))].2)
            } else {
                None
            }),
    {
        let k = self.key_of(p);
        let (parent, _) = split_parent(k.as_slice());
        match self.lookup(parent.as_slice()) {
            Some(i) => Some(self.tree.entries[i].meta),
            None => None,
        }
    }

    /// Whether the directory containing `p` exists.
    pub fn parent_is_dir(&self, p: &str) -> (r: bool)
        ensures
            r == (self@.dom().contains(parent_of(self.key(p@))) && self@[parent_of(self.key(p@))].0),
    {
        let k = self.key_of(p);
        let (parent, _) = split_parent(k.as_slice());
        match self.lookup(parent.as_slice()) {
            Some(i) => self.tree.entries[i].is_dir,
            None => false,
        }
    }

    /// A resolved path resolves to itself.
    pub proof fn lemma_key_idempotent(&self, p: Seq<char>)
        ensures
            self.key(self.key(p)) == self.key(p),
    {
        crate::path::lemma_resolve_idempotent(self.cwd@, self.cwd@, p);
    }

    /// A file system has finitely many nodes.
    pub proof fn lemma_finite(&self)
        ensures
            self@.dom().finite(),
    {
        lemma_tmap_finite(self.tree.entries@);
    }

    /// Replace the working directory; the nodes are unchanged.
    pub fn set_cwd(&mut self, cwd: String)
        ensures
            final(self)@ == old(self)@,
            final(self).cwd == cwd,
    {
        self.cwd = cwd;
    }

    /// The facts every file system satisfies: each path is normalized and
    /// no longer than `fs_bound`, and the root is a directory.
    pub fn invariants(&self)
        ensures
            forall|k: Seq<char>| #[trigger] self@.dom().contains(k) ==> is_normal(k) && k.len() <= fs_bound(self@),
            self@.dom().contains(root()),
            self@[root()].0,
    {
        proof {
            use_type_invariant(&self.tree);
            let es = self.tree.entries@;
            lemma_entries_bound(es);
            assert forall|k: Seq<char>| #[trigger] self@.dom().contains(k) implies is_normal(k) && k.len() <= fs_bound(self@) by {
                lemma_tmap_dom(es, k);
                let i = choose|i: int| 0 <= i < es.len() && es[i].path@ == k;
                assert(is_normal(es[i].path@));
                assert(bounds(self@, entries_bound(es)));
            }
        }
    }

    /// Whether anything exists at `p`.
    pub fn exists_path(&self, p: &str) -> (r: bool)
        ensures
            r == self@.dom().contains(self.key(p@)),
    {
        let k = self.key_of(p);
        self.lookup(k.as_slice()).is_some()
    }

    /// Whether `p` names a directory.
    pub fn is_dir(&self, p: &str) -> (r: bool)
        ensures
            r == (self@.dom().contains(self.key(p@)) && self@[self.key(p@)].0),
    {
        let k = self.key_of(p);
        match self.lookup(k.as_slice()) {
            Some(i) => self.tree.entries[i].is_dir,
            None => false,
        }
    }

    /// The metadata of the node at `p`.
    pub fn get_meta(&self, p: &str) -> (r: Option<Meta>)
        ensures
            r == (if self@.dom().contains(self.key(p@)) {
                Some(self@[self.key(p@)].2)
            } else {
                None
            }),
    {
        let k = self.key_of(p);
        match self.lookup(k.as_slice()) {
            Some(i) => Some(self.tree.entries[i].meta),
            None => None,
        }
    }

    /// Replace the metadata of the node at `p`; `false` when nothing is there.
    pub fn set_meta(&mut self, p: &str, meta: Meta) -> (r: bool)
        ensures
            r == old(self)@.dom().contains(old(self).key(p@)),
            final(self)@ == (if r {
                old(self)@.insert(
                    old(self).key(p@),
                    (old(self)@[old(self).key(p@)].0, old(self)@[old(self).key(p@)].1, meta),
                )
            } else {
                old(self)@
            }),
            final(self).cwd == old(self).cwd,
    {
        let k = self.key_of(p);
        match self.lookup(k.as_slice()) {
            Some(i) => {
                self.tree.set_meta_at(i, meta);
                true
            },
            None => false,
        }
    }

    fn err_msg(k: &[char], suffix: &str) -> (r: String)
        ensures
            r@ == k@ + suffix@,
    {
        let mut v = copy_chars(k);
        push_str(&mut v, suffix);
        string_of(v.as_slice())
    }

    /// The contents of the file at `p`.
    pub fn read_file(&self, p: &str) -> (r: Result<String, String>)
        ensures
            rv(r) == read_spec(self@, self.key(p@)),
    {
        let k = self.key_of(p);
        match self.lookup(k.as_slice()) {
            Some(i) => {
                if self.tree.entries[i].is_dir {
                    Err(Self::err_msg(k.as_slice(), ": Is a directory"))
                } else {
                    Ok(string_of(self.tree.entries[i].content.as_slice()))
                }
            },
            None => Err(Self::err_msg(k.as_slice(), ": No such file or directory")),
        }
    }

    fn add_node(&mut self, k: &[char], is_dir: bool, content: &[char], meta: Meta) -> (r: Result<(), String>)
        requires
            !old(self)@.dom().contains(k@),
            is_normal(k@),
        ensures
            (old(self)@.dom().contains(parent_of(k@)) && old(self)@[parent_of(k@)].0 && k@ != root()) ==> (
                r is Ok && final(self)@ == old(self)@.insert(k@, (is_dir, content@, meta))),
            !(old(self)@.dom().contains(parent_of(k@)) && old(self)@[parent_of(k@)].0 && k@ != root()) ==> (
                uv(r) == Err::<(), Seq<char>>(no_such(k@)) && final(self)@ == old(self)@),
            final(self).cwd == old(self).cwd,
    {
        proof {
            use_type_invariant(&self.tree);
        }
        let (parent, _name) = split_parent(k);
        let parent_ok = match self.lookup(parent.as_slice()) {
            Some(j) => self.tree.entries[j].is_dir,
            None => false,
        };
        if !parent_ok {
            return Err(Self::err_msg(k, ": No such file or directory"));
        }
        let e = Entry { path: copy_chars(k), is_dir, content: copy_chars(content), meta };
        self.tree.push_entry(e);
        Ok(())
    }

    /// Write `content` to the file at `p`, replacing its contents or
    /// creating it (mode 0644, owned by root) in an existing directory.
    pub fn write_file(&mut self, p: &str, content: &str) -> (r: Result<(), String>)
        ensures
            final(self).cwd == old(self).cwd,
            match write_spec(old(self)@, old(self).key(p@), content@) {
                Ok(m) => r is Ok && final(self)@ == m,
                Err(e) => uv(r) == Err::<(), Seq<char>>(e) && final(self)@ == old(self)@,
            },
    {
        proof {
            use_type_invariant(&self.tree);
            lemma_tmap_dom(self.tree.entries@, root());
        }
        let k = self.key_of(p);
        let c = chars_of(content);
        match self.lookup(k.as_slice()) {
            Some(i) => {
                if self.tree.entries[i].is_dir {
                    Err(Self::err_msg(k.as_slice(), ": Is a directory"))
                } else {
                    let meta = self.tree.entries[i].meta;
                    let e = Entry { path: copy_chars(k.as_slice()), is_dir: false, content: c, meta };
                    proof {
                        use_type_invariant(&self.tree);
                    }
                    self.tree.set_at(i, e);
                    Ok(())
                }
            },
            None => self.add_node(k.as_slice(), false, c.as_slice(), Meta { mode: 0o644, uid: 0, gid: 0, mtime: 0 }),
        }
    }

    /// Create an empty file at `p` unless something already exists there.
    pub fn touch(&mut self, p: &str) -> (r: Result<(), String>)
        ensures
            final(self).cwd == old(self).cwd,
            old(self)@.dom().contains(old(self).key(p@)) ==> r is Ok && final(self)@ == old(self)@,
            !old(self)@.dom().contains(old(self).key(p@)) ==> match write_spec(
                old(self)@,
                old(self).key(p@),
                Seq::empty(),
            ) {
                Ok(m) => r is Ok && final(self)@ == m,
                Err(e) => uv(r) == Err::<(), Seq<char>>(e) && final(self)@ == old(self)@,
            },
    {
        if self.exists_path(p) {
            Ok(())
        } else {
            proof {
                reveal_strlit("");
            }
            assert(""@ =~= Seq::<char>::empty());
            self.write_file(p, "")
        }
    }

    /// Create the directory `p` owned by `uid:gid` (mode 0755).
    pub fn mkdir_with_owner(&mut self, p: &str, uid: u32, gid: u32) -> (r: Result<(), String>)
        ensures
            final(self).cwd == old(self).cwd,
            match mkdir_spec(old(self)@, old(self).key(p@), uid, gid) {
                Ok(m) => r is Ok && final(self)@ == m,
                Err(e) => uv(r) == Err::<(), Seq<char>>(e) && final(self)@ == old(self)@,
            },
    {
        proof {
            use_type_invariant(&self.tree);
            lemma_tmap_dom(self.tree.entries@, root());
        }
        let k = self.key_of(p);
        if self.lookup(k.as_slice()).is_some() {
            return Err(Self::err_msg(k.as_slice(), ": File exists"));
        }
        let empty: Vec<char> = Vec::new();
        assert(empty@ =~= Seq::<char>::empty());
        self.add_node(k.as_slice(), true, empty.as_slice(), Meta { mode: 0o755, uid, gid, mtime: 0 })
    }

    /// Create the directory `p` owned by root.
    pub fn mkdir(&mut self, p: &str) -> (r: Result<(), String>)
        ensures
            final(self).cwd == old(self).cwd,
            match mkdir_spec(old(self)@, old(self).key(p@), 0, 0) {
                Ok(m) => r is Ok && final(self)@ == m,
                Err(e) => uv(r) == Err::<(), Seq<char>>(e) && final(self)@ == old(self)@,
            },
    {
        self.mkdir_with_owner(p, 0, 0)
    }

    /// Remove the file at `p` (directories are refused).
    pub fn rm(&mut self, p: &str) -> (r: Result<(), String>)
        ensures
            final(self).cwd == old(self).cwd,
            !old(self)@.dom().contains(old(self).key(p@)) ==> uv(r) == Err::<(), Seq<char>>(
                no_such(old(self).key(p@)),
            ) && final(self)@ == old(self)@,
            old(self)@.dom().contains(old(self).key(p@)) && old(self)@[old(self).key(p@)].0 ==> uv(
                r,
            ) == Err::<(), Seq<char>>(is_a_dir(old(self).key(p@))) && final(self)@ == old(self)@,
            old(self)@.dom().contains(old(self).key(p@)) && !old(self)@[old(self).key(p@)].0 ==> r is Ok
                && final(self)@ == old(self)@.remove(old(self).key(p@)),
    {
        proof {
            use_type_invariant(&self.tree);
        }
        let k = self.key_of(p);
        match self.lookup(k.as_slice()) {
            Some(i) => {
                if self.tree.entries[i].is_dir {
                    Err(Self::err_msg(k.as_slice(), ": Is a directory"))
                } else {
                    proof {
                        lemma_tmap_dom(self.tree.entries@, root());
                        assert(k@.len() > 0) by {
                            if k@.len() == 0 {
                                assert(k@ != root());
                            }
                        }
                    }
                    let ghost before = self@;
                    self.tree.remove_keys_under(k.as_slice(), false);
                    assert(self@ =~= before.remove(k@));
                    Ok(())
                }
            },
            None => Err(Self::err_msg(k.as_slice(), ": No such file or directory")),
        }
    }

    /// Remove `p` and everything below it.
    pub fn rm_recursive(&mut self, p: &str) -> (r: Result<(), String>)
        ensures
            final(self).cwd == old(self).cwd,
            !old(self)@.dom().contains(old(self).key(p@)) ==> uv(r) == Err::<(), Seq<char>>(
                no_such(old(self).key(p@)),
            ) && final(self)@ == old(self)@,
            old(self).key(p@) == root() ==> uv(r) == Err::<(), Seq<char>>(root_busy())
                && final(self)@ == old(self)@,
            old(self)@.dom().contains(old(self).key(p@)) && old(self).key(p@) != root() ==> r is Ok
                && final(self)@ == old(self)@.remove_keys(subtree(old(self).key(p@))),
    {
        proof {
            use_type_invariant(&self.tree);
            lemma_tmap_dom(self.tree.entries@, root());
        }
        let k = self.key_of(p);
        let is_root = k.len() == 1 && k[0] == '/';
        assert(is_root == (k@ == root())) by {
            if k@.len() == 1 && k@[0] == '/' {
                assert(k@ =~= root());
            }
        }
        if is_root {
            let mut v: Vec<char> = Vec::new();
            push_str(&mut v, "/: Device or resource busy");
            return Err(string_of(v.as_slice()));
        }
        match self.lookup(k.as_slice()) {
            Some(_) => {
                assert(k@.len() > 0) by {
                    if k@.len() == 0 {
                        assert(k@ != root());
                    }
                }
                self.tree.remove_keys_under(k.as_slice(), true);
                assert(removal_set(k@, true) =~= subtree(k@));
                Ok(())
            },
            None => Err(Self::err_msg(k.as_slice(), ": No such file or directory")),
        }
    }

    /// The path of `name` inside the directory `dir`.
    pub fn child_path(dir: &str, name: &str) -> (r: String)
        ensures
            r@ == child_of(dir@, name@),
    {
        let d = chars_of(dir);
        let n = chars_of(name);
        let c = child_path_chars(d.as_slice(), n.as_slice());
        string_of(c.as_slice())
    }

    /// Every file with its contents, each once.
    pub fn files(&self) -> (r: Vec<(String, String)>)
        ensures
            forall|j: int| 0 <= j < r@.len() ==> #[trigger] file_map(self@).dom().contains(r@[j].0@)
                && file_map(self@)[r@[j].0@] == r@[j].1@,
            forall|p: Seq<char>| #[trigger] file_map(self@).dom().contains(p) ==> exists|j: int|
                0 <= j < r@.len() && (#[trigger] r@[j]).0@ == p,
    {
        proof {
            use_type_invariant(&self.tree);
        }
        let es = &self.tree.entries;
        let mut r: Vec<(String, String)> = Vec::new();
        let ghost mut idx: Seq<int> = Seq::empty();
        let mut i: usize = 0;
        while i < es.len()
            invariant
                i <= es@.len(),
                es@ == self.tree.entries@,
                distinct(es@),
                idx.len() == r@.len(),
                forall|j: int| 0 <= j < r@.len() ==> 0 <= #[trigger] idx[j] < i && es@[idx[j]].path@ == r@[j].0@
                    && !es@[idx[j]].is_dir && es@[idx[j]].content@ == r@[j].1@,
                forall|k: int| 0 <= k < i && !(#[trigger] es@[k]).is_dir ==> exists|j: int|
                    0 <= j < r@.len() && (#[trigger] r@[j]).0@ == es@[k].path@,
            decreases es.len() - i,
        {
            if !es[i].is_dir {
                let ghost before = r@;
                r.push((string_of(es[i].path.as_slice()), string_of(es[i].content.as_slice())));
                proof {
                    idx = idx.push(i as int);
                }
                assert forall|k: int| 0 <= k < i + 1 && !(#[trigger] es@[k]).is_dir implies exists|j: int|
                    0 <= j < r@.len() && (#[trigger] r@[j]).0@ == es@[k].path@ by {
                    if k < i {
                        let j = choose|j: int| 0 <= j < before.len() && (#[trigger] before[j]).0@ == es@[k].path@;
                        assert(r@[j] == before[j]);
                    } else {
                        assert(r@[before.len() as int].0@ == es@[k].path@);
                    }
                }
            }
            i += 1;
        }
        assert forall|j: int| #![trigger r@[j]] 0 <= j < r@.len() implies exists|k: int|
            0 <= k < es@.len() && (#[trigger] es@[k]).path@ == r@[j].0@ && !es@[k].is_dir
                && es@[k].content@ == r@[j].1@ by {
            assert(0 <= idx[j] < es@.len());
        }
        proof {
            let es = self.tree.entries@;
            assert forall|j: int| 0 <= j < r@.len() implies #[trigger] file_map(self@).dom().contains(r@[j].0@)
                && file_map(self@)[r@[j].0@] == r@[j].1@ by {
                let k = choose|k: int|
                    0 <= k < es.len() && (#[trigger] es[k]).path@ == r@[j].0@ && !es[k].is_dir
                        && es[k].content@ == r@[j].1@;
                lemma_tmap_at(es, k);
            }
            assert forall|p: Seq<char>| #[trigger] file_map(self@).dom().contains(p) implies exists|j: int|
                0 <= j < r@.len() && (#[trigger] r@[j]).0@ == p by {
                lemma_tmap_dom(es, p);
                let k = choose|k: int| 0 <= k < es.len() && es[k].path@ == p;
                lemma_tmap_at(es, k);
                assert(!es[k].is_dir);
            }
        }
        r
    }

    /// The directory entries of `p`, ordered by name.
    pub fn list_dir(&self, p: &str) -> (r: Result<Vec<DirEntry>, String>)
        ensures
            !self@.dom().contains(self.key(p@)) ==> rv_list(r) == Err::<Seq<DirEntry>, Seq<char>>(
                no_such(self.key(p@)),
            ),
            self@.dom().contains(self.key(p@)) && !self@[self.key(p@)].0 ==> rv_list(r) == Err::<
                Seq<DirEntry>,
                Seq<char>,
            >(not_a_dir(self.key(p@))),
            self@.dom().contains(self.key(p@)) && self@[self.key(p@)].0 ==> r is Ok && listing(
                self@,
                self.key(p@),
                r.unwrap()@,
            ) && names_of(r.unwrap()@) == children(self@, self.key(p@)),
    {
        proof {
            use_type_invariant(&self.tree);
        }
        let k = self.key_of(p);
        match self.lookup(k.as_slice()) {
            None => return Err(Self::err_msg(k.as_slice(), ": No such file or directory")),
            Some(i) => {
                if !self.tree.entries[i].is_dir {
                    return Err(Self::err_msg(k.as_slice(), ": Not a directory"));
                }
            },
        }
        let q = child_path_chars(k.as_slice(), &[]);
        assert(q@ =~= dir_prefix(k@)) by {
            assert(child_of(k@, Seq::<char>::empty()) =~= dir_prefix(k@));
        }
        let ghost es = self.tree.entries@;
        // Collect the names of the direct children.
        let mut names: Vec<Vec<char>> = Vec::new();
        let mut i: usize = 0;
        while i < self.tree.entries.len()
            invariant
                i <= es.len(),
                es == self.tree.entries@,
                vv(names@) == child_names(es.take(i as int), q@),
            decreases self.tree.entries.len() - i,
        {
            assert(es.take(i + 1).drop_last() == es.take(i as int));
            assert(es.take(i + 1).last() == es[i as int]);
            let path = &self.tree.entries[i].path;
            let ghost before = names@;
            if path.len() > q.len() && has_prefix(path.as_slice(), q.as_slice()) {
                let rest = crate::text::slice_chars(path.as_slice(), q.len(), path.len());
                assert(rest@ == path@.skip(q@.len() as int));
                if crate::text::find_char(rest.as_slice(), '/').is_none() {
                    names.push(rest);
                    assert(vv(names@) =~= vv(before).push(rest@));
                }
            }
            i += 1;
        }
        assert(es.take(es.len() as int) == es);
        proof {
            lemma_child_names_distinct(es, q@);
        }
        let ghost collected = vv(names@);
        let sorted_names = sort_lex(names);
        proof {
            crate::order::lemma_sorted_perm_strict(collected, vv(sorted_names@));
            assert forall|n: Seq<char>| vv(sorted_names@).contains(n) <==> is_child(self@, k@, n) by {
                lemma_child_names_contains(es, q@, n);
                lemma_tmap_dom(es, q@ + n);
            }
        }
        let mut out: Vec<DirEntry> = Vec::new();
        let mut j: usize = 0;
        while j < sorted_names.len()
            invariant
                j <= sorted_names@.len(),
                out@.len() == j,
                q@ == dir_prefix(k@),
                forall|n: Seq<char>| vv(sorted_names@).contains(n) ==> is_child(self@, k@, n),
                forall|a: int| 0 <= a < j ==> (#[trigger] out@[a]).name@ == sorted_names@[a]@ && entry_matches(self@, k@, out@[a]),
            decreases sorted_names.len() - j,
        {
            let name = &sorted_names[j];
            assert(vv(sorted_names@)[j as int] == name@);
            assert(vv(sorted_names@).contains(name@));
            let child = child_path_chars(k.as_slice(), name.as_slice());
            match self.lookup(child.as_slice()) {
                Some(ci) => {
                    let e = &self.tree.entries[ci];
                    let size = if e.is_dir {
                        0
                    } else {
                        byte_size(e.content.as_slice())
                    };
                    out.push(DirEntry { name: string_of(name.as_slice()), is_dir: e.is_dir, size, meta: e.meta });
                },
                None => {
                    assert(false);
                },
            }
            j += 1;
        }
        proof {
            assert(names_of(out@) =~= vv(sorted_names@));
            lemma_children(self@, k@, names_of(out@));
        }
        Ok(out)
    }

    /// Size in bytes of the file at `p`.
    pub fn file_size(&self, p: &str) -> (r: Result<usize, String>)
        ensures
            match read_spec(self@, self.key(p@)) {
                Ok(c) => r is Ok && r->Ok_0 as nat == byte_len(c),
                Err(e) => r is Err && r->Err_0@ == e,
            },
    {
        let k = self.key_of(p);
        match self.lookup(k.as_slice()) {
            Some(i) => {
                if self.tree.entries[i].is_dir {
                    Err(Self::err_msg(k.as_slice(), ": Is a directory"))
                } else {
                    Ok(byte_size(self.tree.entries[i].content.as_slice()))
                }
            },
            None => Err(Self::err_msg(k.as_slice(), ": No such file or directory")),
        }
    }

    /// Number of lines of the file at `p`.
    pub fn file_line_count(&self, p: &str) -> (r: Result<usize, String>)
        ensures
            match read_spec(self@, self.key(p@)) {
                Ok(c) => r is Ok && r->Ok_0 as nat == lines(c).len(),
                Err(e) => r is Err && r->Err_0@ == e,
            },
    {
        let k = self.key_of(p);
        match self.lookup(k.as_slice()) {
            Some(i) => {
                if self.tree.entries[i].is_dir {
                    Err(Self::err_msg(k.as_slice(), ": Is a directory"))
                } else {
                    let ls = split_lines(self.tree.entries[i].content.as_slice());
                    Ok(ls.len())
                }
            },
            None => Err(Self::err_msg(k.as_slice(), ": No such file or directory")),
        }
    }

    /// Lines `start .. start + count` of the file at `p`, joined by newlines.
    pub fn read_file_lines(&self, p: &str, start: usize, count: usize) -> (r: Result<String, String>)
        ensures
            match read_spec(self@, self.key(p@)) {
                Ok(c) => rv(r) == Ok::<Seq<char>, Seq<char>>(lines_range(c, start as nat, count as nat)),
                Err(e) => rv(r) == Err::<Seq<char>, Seq<char>>(e),
            },
    {
        let k = self.key_of(p);
        match self.lookup(k.as_slice()) {
            Some(i) => {
                if self.tree.entries[i].is_dir {
                    Err(Self::err_msg(k.as_slice(), ": Is a directory"))
                } else {
                    let ls = split_lines(self.tree.entries[i].content.as_slice());
                    let lo = if start <= ls.len() { start } else { ls.len() };
                    let hi = if count <= ls.len() - lo { lo + count } else { ls.len() };
                    let mut part: Vec<Vec<char>> = Vec::new();
                    let mut j: usize = lo;
                    while j < hi
                        invariant
                            lo <= j <= hi <= ls@.len(),
                            vv(part@) == vv(ls@).subrange(lo as int, j as int),
                        decreases hi - j,
                    {
                        let ghost before = part@;
                        part.push(copy_chars(ls[j].as_slice()));
                        assert(vv(part@) =~= vv(before).push(ls@[j as int]@));
                        assert(vv(ls@)[j as int] == ls@[j as int]@);
                        assert(vv(part@) =~= vv(ls@).subrange(lo as int, j + 1));
                        j += 1;
                    }
                    let mut sep: Vec<char> = Vec::new();
                    sep.push('\n');
                    assert(sep@ =~= seq!['\n']);
                    let joined = join_chars(&part, sep.as_slice());
                    Ok(string_of(joined.as_slice()))
                }
            },
            None => Err(Self::err_msg(k.as_slice(), ": No such file or directory")),
        }
    }
}

/// Number of bytes in the UTF-8 encoding of `c`.
pub fn byte_size(c: &[char]) -> (r: usize)
    ensures
        r as nat == byte_len(c@),
{
    let s = string_of(c);
    let b = s.as_str().as_bytes();
    b.len()
}

/// The names of a listing, in order.
pub open spec fn names_of(r: Seq<DirEntry>) -> Seq<Seq<char>> {
    r.map_values(|e: DirEntry| e.name@)
}

/// The view of a listing result.
pub open spec fn rv_list(r: Result<Vec<DirEntry>, String>) -> Result<Seq<DirEntry>, Seq<char>> {
    match r {
        Ok(v) => Ok(v@),
        Err(e) => Err(e@),
    }
}

/// A listing entry describes the child of `dir` that it names.
pub open spec fn entry_matches(fs: FsView, dir: Seq<char>, e: DirEntry) -> bool {
    let n = fs[child_of(dir, e.name@)];
    &&& e.is_dir == n.0
    &&& e.meta == n.2
    &&& e.size as nat == (if n.0 {
        0
    } else {
        byte_len(n.1)
    })
}

/// `r` lists the children of `dir` exactly once each, in increasing name
/// order, each with its kind, size and metadata.
pub open spec fn listing(fs: FsView, dir: Seq<char>, r: Seq<DirEntry>) -> bool {
    &&& crate::order::strictly_sorted(names_of(r))
    &&& forall|n: Seq<char>| names_of(r).contains(n) <==> is_child(fs, dir, n)
    &&& forall|i: int| 0 <= i < r.len() ==> entry_matches(fs, dir, #[trigger] r[i])
}

spec fn child_rest(path: Seq<char>, q: Seq<char>) -> Option<Seq<char>> {
    if path.len() > q.len() && starts_with(path, q) && !crate::text::has_char(path.skip(q.len() as int), '/') {
        Some(path.skip(q.len() as int))
    } else {
        None
    }
}

spec fn child_names(es: Seq<Entry>, q: Seq<char>) -> Seq<Seq<char>>
    decreases es.len(),
{
    if es.len() == 0 {
        Seq::empty()
    } else {
        let r = child_names(es.drop_last(), q);
        match child_rest(es.last().path@, q) {
            Some(n) => r.push(n),
            None => r,
        }
    }
}

proof fn lemma_child_rest(path: Seq<char>, q: Seq<char>, n: Seq<char>)
    ensures
        child_rest(path, q) == Some(n) <==> (path == q + n && n.len() > 0 && !crate::text::has_char(n, '/')),
{
    if path == q + n {
        assert(path.take(q.len() as int) =~= q);
        assert(path.skip(q.len() as int) =~= n);
    }
    if child_rest(path, q) == Some(n) {
        assert(path =~= path.take(q.len() as int) + path.skip(q.len() as int));
    }
}

proof fn lemma_child_names_contains(es: Seq<Entry>, q: Seq<char>, n: Seq<char>)
    ensures
        child_names(es, q).contains(n) <==> (n.len() > 0 && !crate::text::has_char(n, '/') && exists|i: int|
            0 <= i < es.len() && es[i].path@ == q + n),
    decreases es.len(),
{
    if es.len() > 0 {
        let d = es.drop_last();
        lemma_child_names_contains(d, q, n);
        lemma_child_rest(es.last().path@, q, n);
        if exists|i: int| 0 <= i < d.len() && d[i].path@ == q + n {
            let i = choose|i: int| 0 <= i < d.len() && d[i].path@ == q + n;
            assert(es[i].path@ == q + n);
        }
        if exists|i: int| 0 <= i < es.len() && es[i].path@ == q + n {
            let i = choose|i: int| 0 <= i < es.len() && es[i].path@ == q + n;
            if i < es.len() - 1 {
                assert(d[i].path@ == q + n);
            }
        }
        match child_rest(es.last().path@, q) {
            Some(m) => {
                lemma_child_rest(es.last().path@, q, m);
                if m == n {
                    assert(child_names(es, q).last() == n);
                }
                if child_names(es, q).contains(n) && m != n {
                    let k = choose|k: int| 0 <= k < child_names(es, q).len() && child_names(es, q)[k] == n;
                    assert(child_names(d, q)[k] == n);
                }
                if child_names(d, q).contains(n) {
                    let k = choose|k: int| 0 <= k < child_names(d, q).len() && child_names(d, q)[k] == n;
                    assert(child_names(es, q)[k] == n);
                }
            },
            None => {},
        }
    }
}

proof fn lemma_child_names_distinct(es: Seq<Entry>, q: Seq<char>)
    requires
        distinct(es),
    ensures
        child_names(es, q).no_duplicates(),
    decreases es.len(),
{
    if es.len() > 0 {
        let d = es.drop_last();
        assert(distinct(d));
        lemma_child_names_distinct(d, q);
        match child_rest(es.last().path@, q) {
            Some(m) => {
                lemma_child_rest(es.last().path@, q, m);
                lemma_child_names_contains(d, q, m);
                if child_names(d, q).contains(m) {
                    let i = choose|i: int| 0 <= i < d.len() && d[i].path@ == q + m;
                    assert(es[i].path@ == es.last().path@);
                }
                let r = child_names(es, q);
                assert forall|a: int, b: int| 0 <= a < r.len() && 0 <= b < r.len() && a != b implies r[a] != r[b] by {
                    if a == r.len() - 1 {
                        assert(child_names(d, q)[b] == r[b]);
                    } else if b == r.len() - 1 {
                        assert(child_names(d, q)[a] == r[a]);
                    } else {
                        assert(child_names(d, q)[a] == r[a]);
                        assert(child_names(d, q)[b] == r[b]);
                    }
                }
            },
            None => {},
        }
    }
}

fn to_string_lit(s: &str) -> (r: String)
    ensures
        r@ == s@,
{
    crate::text::to_owned_string(s)
}


/// A file reads back exactly what was written to it.
pub proof fn law_write_then_read(fs: FsView, p: Seq<char>, c: Seq<char>)
    requires
        write_spec(fs, p, c) is Ok,
    ensures
        read_spec(write_spec(fs, p, c)->Ok_0, p) == Ok::<Seq<char>, Seq<char>>(c),
{
}

/// Writing a file leaves every other path as it was.
pub proof fn law_write_keeps_others(fs: FsView, p: Seq<char>, c: Seq<char>, q: Seq<char>)
    requires
        write_spec(fs, p, c) is Ok,
        q != p,
    ensures
        write_spec(fs, p, c)->Ok_0.dom().contains(q) == fs.dom().contains(q),
        fs.dom().contains(q) ==> write_spec(fs, p, c)->Ok_0[q] == fs[q],
{
}

/// A directory that was created is an empty directory owned as asked, and
/// nothing else changes.
pub proof fn law_mkdir_makes_dir(fs: FsView, p: Seq<char>, uid: u32, gid: u32)
    requires
        mkdir_spec(fs, p, uid, gid) is Ok,
    ensures
        mkdir_spec(fs, p, uid, gid)->Ok_0.dom().contains(p),
        mkdir_spec(fs, p, uid, gid)->Ok_0[p] == (true, Seq::<char>::empty(), new_dir_meta(uid, gid)),
        mkdir_spec(fs, p, uid, gid)->Ok_0 == fs.insert(p, (true, Seq::<char>::empty(), new_dir_meta(uid, gid))),
        !fs.dom().contains(p),
{
}

} // verus!
