//! `tree [dir]` -- draw a directory tree.
//!
//! Entries are listed in name order, drawn with `├── ` or (for the last
//! entry of a directory) `└── `, directories marked with a trailing `/`;
//! the lines below an entry are indented with `│   ` or, under a last
//! entry, four spaces. A summary line counts the directories and files.
use vstd::prelude::*;
use crate::text::{strs_view, chars_of, string_of, to_owned_string, push_str, push_all, str_eq, starts_with, has_char};
use crate::numeric::{nat_str, push_u64};
use crate::path::{child_of, is_normal, name_of, root, dir_prefix};
use crate::vfs::{Vfs, FsView, rv, children, fs_bound, names_of, is_child};
use crate::command::kinds::outcome;
use crate::command::{Command, CommandContext, CommandKind, state_of, meets, lemma_vfs_of};

verus! {

/// The drawing of the entries `children(fs, dir)[i..]` and below them,
/// each line preceded by `prefix`, with the numbers of directories and
/// files drawn.
pub open spec fn tree_from(fs: FsView, dir: Seq<char>, prefix: Seq<char>, fuel: nat, i: int) -> (Seq<char>, nat, nat)
    decreases fuel, children(fs, dir).len() - i,
{
    let ns = children(fs, dir);
    if fuel == 0 || i < 0 || i >= ns.len() || !fs.dom().contains(dir) || !fs[dir].0 {
        (Seq::empty(), 0, 0)
    } else {
        let n = ns[i];
        let c = child_of(dir, n);
        let last = i == ns.len() - 1;
        let connector = if last { "└── "@ } else { "├── "@ };
        let is_dir = fs.dom().contains(c) && fs[c].0;
        let line = prefix + connector + n + (if is_dir { seq!['/'] } else { Seq::empty() }) + seq!['\n'];
        let below = if is_dir {
            tree_from(fs, c, prefix + (if last { "    "@ } else { "│   "@ }), (fuel - 1) as nat, 0)
        } else {
            (Seq::empty(), 0, 0)
        };
        let rest = tree_from(fs, dir, prefix, fuel, i + 1);
        (
            line + below.0 + rest.0,
            below.1 + rest.1 + (if is_dir { 1nat } else { 0nat }),
            below.2 + rest.2 + (if is_dir { 0nat } else { 1nat }),
        )
    }
}

/// A count capped at the largest machine word.
pub open spec fn capped(n: nat) -> nat {
    if n > usize::MAX {
        usize::MAX as nat
    } else {
        n
    }
}

/// The result of `tree` on the given arguments.
pub open spec fn tree_spec(vfs: &Vfs, args: Seq<Seq<char>>) -> Result<Seq<char>, Seq<char>> {
    let path = if args.len() == 0 { "."@ } else { args[0] };
    let k = vfs.key(path);
    if !vfs@.dom().contains(k) {
        Err("tree: '"@ + path + "': No such file or directory"@)
    } else if !vfs@[k].0 {
        Ok(path + "\n0 directories, 0 files\n"@)
    } else {
        let top = if k == root() { root() } else { name_of(k) };
        let t = tree_from(vfs@, k, Seq::empty(), fs_bound(vfs@) + 1, 0);
        Ok(top + seq!['\n'] + t.0 + seq!['\n'] + nat_str(capped(t.1)) + " directories, "@ + nat_str(capped(t.2)) + " files\n"@)
    }
}

/// Append the drawing below the directory `dir` and count what it shows.
pub fn build_tree(
    vfs: &Vfs,
    dir: &str,
    prefix: &[char],
    out: &mut Vec<char>,
    dirs: &mut usize,
    files: &mut usize,
    Ghost(fuel): Ghost<nat>,
)
    requires
        is_normal(dir@),
        dir@.len() + fuel > fs_bound(vfs@),
    ensures
        final(out)@ == old(out)@ + tree_from(vfs@, dir@, prefix@, fuel, 0).0,
        *final(dirs) as nat == capped(*old(dirs) as nat + tree_from(vfs@, dir@, prefix@, fuel, 0).1),
        *final(files) as nat == capped(*old(files) as nat + tree_from(vfs@, dir@, prefix@, fuel, 0).2),
    decreases fuel,
{
    vfs.invariants();
    proof {
        crate::path::lemma_normal_fixed(vfs.cwd@, dir@);
    }
    let entries = match vfs.list_dir(dir) {
        Ok(e) => e,
        Err(_) => {
            assert(out@ =~= old(out)@ + Seq::<char>::empty());
            return;
        },
    };
    let ghost ns = children(vfs@, dir@);
    let mut i: usize = 0;
    assert(out@ + tree_from(vfs@, dir@, prefix@, fuel, 0).0 =~= old(out)@ + tree_from(vfs@, dir@, prefix@, fuel, 0).0);
    while i < entries.len()
        invariant
            i <= entries@.len(),
            names_of(entries@) == ns,
            ns == children(vfs@, dir@),
            vfs@.dom().contains(dir@) && vfs@[dir@].0,
            fuel > 0,
            dir@.len() + fuel > fs_bound(vfs@),
            forall|k: Seq<char>| #[trigger] vfs@.dom().contains(k) ==> is_normal(k) && k.len() <= fs_bound(vfs@),
            crate::vfs::listing(vfs@, dir@, entries@),
            out@ + tree_from(vfs@, dir@, prefix@, fuel, i as int).0 == old(out)@ + tree_from(vfs@, dir@, prefix@, fuel, 0).0,
            capped(*dirs as nat + tree_from(vfs@, dir@, prefix@, fuel, i as int).1) == capped(*old(dirs) as nat + tree_from(vfs@, dir@, prefix@, fuel, 0).1),
            capped(*files as nat + tree_from(vfs@, dir@, prefix@, fuel, i as int).2) == capped(*old(files) as nat + tree_from(vfs@, dir@, prefix@, fuel, 0).2),
        decreases entries.len() - i,
    {
        let e = &entries[i];
        assert(names_of(entries@)[i as int] == e.name@);
        assert(ns.contains(e.name@));
        assert(crate::vfs::is_child(vfs@, dir@, e.name@));
        assert(crate::vfs::entry_matches(vfs@, dir@, entries@[i as int]));
        let child = Vfs::child_path(dir, e.name.as_str());
        assert(vfs@.dom().contains(child@));
        assert(child@.len() > dir@.len()) by {
            assert(crate::path::dir_prefix(dir@).len() >= dir@.len());
        }
        let last = i == entries.len() - 1;
        let ghost before = out@;
        let ghost d0 = *dirs as nat;
        let ghost f0 = *files as nat;
        push_all(out, prefix);
        if last {
            push_str(out, "└── ");
        } else {
            push_str(out, "├── ");
        }
        push_str(out, e.name.as_str());
        if e.is_dir {
            out.push('/');
        }
        out.push('\n');
        let ghost after_line = out@;
        if e.is_dir {
            *dirs = dirs.saturating_add(1);
            let mut np: Vec<char> = crate::text::copy_chars(prefix);
            if last {
                push_str(&mut np, "    ");
            } else {
                push_str(&mut np, "│   ");
            }
            build_tree(vfs, child.as_str(), np.as_slice(), out, dirs, files, Ghost((fuel - 1) as nat));
        } else {
            *files = files.saturating_add(1);
        }
        proof {
            let t = tree_from(vfs@, dir@, prefix@, fuel, i as int);
            let rest = tree_from(vfs@, dir@, prefix@, fuel, i + 1);
            let is_dir = vfs@[child@].0;
            let below = if is_dir {
                tree_from(vfs@, child@, prefix@ + (if last { "    "@ } else { "│   "@ }), (fuel - 1) as nat, 0)
            } else {
                (Seq::<char>::empty(), 0nat, 0nat)
            };
            let line = prefix@ + (if last { "└── "@ } else { "├── "@ }) + e.name@ + (if is_dir { seq!['/'] } else { Seq::<char>::empty() }) + seq!['\n'];
            assert(after_line =~= before + line);
            assert(out@ =~= before + line + below.0);
            assert(t.0 == line + below.0 + rest.0);
            assert(out@ + rest.0 =~= before + t.0);
            assert(t.1 == below.1 + rest.1 + (if is_dir { 1nat } else { 0nat }));
            assert(t.2 == below.2 + rest.2 + (if is_dir { 0nat } else { 1nat }));
        }
        i += 1;
    }
    assert(tree_from(vfs@, dir@, prefix@, fuel, i as int).0 =~= Seq::<char>::empty());
    assert(out@ + Seq::<char>::empty() =~= out@);
}

/// Execute `tree`.
pub fn execute(vfs: &Vfs, args: &[&str]) -> (r: Result<String, String>)
    ensures
        rv(r) == tree_spec(vfs, strs_view(args@)),
        ({
            let k = vfs.key(if args@.len() == 0 { "."@ } else { args@[0]@ });
            well_formed_tree(vfs@) && vfs@.dom().contains(k) && vfs@[k].0 ==> rv(r) == Ok::<Seq<char>, Seq<char>>(
                (if k == root() { root() } else { name_of(k) }) + seq!['\n'] + tree_from(
                    vfs@,
                    k,
                    Seq::empty(),
                    fs_bound(vfs@) + 1,
                    0,
                ).0 + seq!['\n'] + nat_str(capped(below_set(vfs@, k, true).len())) + " directories, "@ + nat_str(
                    capped(below_set(vfs@, k, false).len()),
                ) + " files\n"@,
            )
        }),
{
    vfs.invariants();
    proof {
        vfs.lemma_finite();
        let k = vfs.key(if args@.len() == 0 { "."@ } else { args@[0]@ });
        if args@.len() > 0 {
            assert(strs_view(args@)[0] == args@[0]@);
        }
        if well_formed_tree(vfs@) && vfs@.dom().contains(k) && vfs@[k].0 {
            law_tree_counts(vfs@, k, Seq::empty());
        }
    }
    let path: &str = if args.len() == 0 { "." } else { args[0] };
    proof {
        if args@.len() > 0 {
            assert(strs_view(args@)[0] == args@[0]@);
        }
    }
    let k = vfs.resolve_path(path).unwrap();
    proof {
        crate::path::lemma_resolve_is_normal(vfs.cwd@, path@);
        crate::path::lemma_normal_fixed(vfs.cwd@, k@);
    }
    if !vfs.exists_path(k.as_str()) {
        let mut m: Vec<char> = Vec::new();
        push_str(&mut m, "tree: '");
        push_str(&mut m, path);
        push_str(&mut m, "': No such file or directory");
        return Err(string_of(m.as_slice()));
    }
    if !vfs.is_dir(k.as_str()) {
        let mut m = chars_of(path);
        push_str(&mut m, "\n0 directories, 0 files\n");
        return Ok(string_of(m.as_slice()));
    }
    let kc = chars_of(k.as_str());
    let mut out: Vec<char> = Vec::new();
    if kc.len() == 1 && kc[0] == '/' {
        out.push('/');
        assert(kc@ =~= root());
        assert(out@ =~= root());
    } else {
        let (_, name) = crate::path::split_parent(kc.as_slice());
        push_all(&mut out, name.as_slice());
        assert(kc@ != root()) by {
            if kc@ == root() {
                assert(kc@.len() == 1 && kc@[0] == '/');
            }
        }
    }
    out.push('\n');
    let mut dirs: usize = 0;
    let mut files: usize = 0;
    let empty: Vec<char> = Vec::new();
    assert(empty@ =~= Seq::<char>::empty());
    let ghost start = out@;
    build_tree(vfs, k.as_str(), empty.as_slice(), &mut out, &mut dirs, &mut files, Ghost(fs_bound(vfs@) + 1));
    out.push('\n');
    push_u64(&mut out, dirs as u64);
    push_str(&mut out, " directories, ");
    push_u64(&mut out, files as u64);
    push_str(&mut out, " files\n");
    assert(out@ =~= tree_spec(vfs, strs_view(args@))->Ok_0);
    Ok(string_of(out.as_slice()))
}

/// The `tree` command.
pub struct TreeCommand;

impl Command for TreeCommand {
    fn name(&self) -> (r: &'static str)
        ensures
            r@ == "tree"@,
    {
        "tree"
    }

    fn description(&self) -> (r: &'static str)
        ensures
            r@ == "Display directory tree structure"@,
    {
        "Display directory tree structure"
    }

    fn accepts_stdin(&self) -> (r: bool)
        ensures
            !r,
    {
        false
    }

    fn execute(&self, ctx: &mut CommandContext) -> (r: Result<String, String>)
        ensures
            meets(outcome(CommandKind::Tree, state_of(old(ctx))), r, final(ctx)),
    {
        proof {
            lemma_vfs_of(ctx);
        }
        execute(ctx.vfs, ctx.args)
    }

    fn synopsis(&self) -> (r: &'static str)
        ensures
            r@ == "tree [path]"@,
    {
        "tree [path]"
    }

    fn man_description(&self) -> (r: &'static str)
        ensures
            r@ == "Recursively display the contents of a directory in a tree-like format using box-drawing characters. \
When called without arguments, displays the tree rooted at the current working directory. \
Entries within each directory are sorted alphabetically. A summary line at the end reports the total number of directories and files."@,
    {
        "Recursively display the contents of a directory in a tree-like format using box-drawing characters. \
When called without arguments, displays the tree rooted at the current working directory. \
Entries within each directory are sorted alphabetically. A summary line at the end reports the total number of directories and files."
    }

    fn examples(&self) -> (r: &'static [&'static str])
        ensures
            strs_view(r@) == seq!["tree"@, "tree /home"@],
    {
        let r: &'static [&'static str] = &["tree", "tree /home"];
        assert(r@ == seq!["tree", "tree /home"]);
        r
    }
}

// ---------------------------------------------------------------------------
// The counts are the numbers of descendants
// ---------------------------------------------------------------------------

/// `k` lies strictly below the directory `d`.
pub open spec fn below(k: Seq<char>, d: Seq<char>) -> bool {
    starts_with(k, dir_prefix(d)) && k != d
}

/// `k` is `c` or lies below it.
pub open spec fn within(k: Seq<char>, c: Seq<char>) -> bool {
    k == c || below(k, c)
}

/// A name of an entry: not empty, without `/`.
pub open spec fn is_name(n: Seq<char>) -> bool {
    n.len() > 0 && !has_char(n, '/')
}

/// The shape every file system has: each path starts with `/`, and each
/// node but the root is an entry of a directory.
pub open spec fn well_formed_tree(fs: FsView) -> bool {
    &&& forall|k: Seq<char>| #[trigger] fs.dom().contains(k) ==> k.len() > 0 && k[0] == '/'
    &&& forall|k: Seq<char>| #[trigger] fs.dom().contains(k) && k != root() ==> exists|d: Seq<char>, n: Seq<char>|
        fs.dom().contains(d) && fs[d].0 && is_name(n) && k == #[trigger] child_of(d, n)
}

pub(crate) proof fn lemma_prefix_len(d: Seq<char>)
    ensures
        dir_prefix(d).len() >= d.len(),
        dir_prefix(d).len() >= 1,
        dir_prefix(d)[dir_prefix(d).len() - 1] == '/',
        d != root() ==> dir_prefix(d) == d.push('/'),
{
}

/// An entry lies below its directory.
pub(crate) proof fn lemma_child_below(d: Seq<char>, n: Seq<char>)
    requires
        is_name(n),
    ensures
        below(child_of(d, n), d),
        child_of(d, n).len() > d.len(),
        child_of(d, n) != root(),
        dir_prefix(child_of(d, n)) == child_of(d, n).push('/'),
{
    lemma_prefix_len(d);
    let c = child_of(d, n);
    assert(c.take(dir_prefix(d).len() as int) =~= dir_prefix(d));
}

/// What lies within an entry of `d` lies below `d`.
pub(crate) proof fn lemma_within_below(k: Seq<char>, d: Seq<char>, m: Seq<char>)
    requires
        is_name(m),
        within(k, child_of(d, m)),
    ensures
        below(k, d),
{
    let c = child_of(d, m);
    lemma_child_below(d, m);
    if k != c {
        let p = dir_prefix(d);
        assert(k.take(c.len() as int + 1) == c.push('/'));
        assert(k.take(p.len() as int) =~= c.push('/').take(p.len() as int));
        assert(c.push('/').take(p.len() as int) =~= p);
    }
}

/// Where `k` lies within the entry `m` of a directory with the prefix `p`:
/// `k` spells `m` after `p`, then ends or goes on with `/`.
pub(crate) proof fn lemma_within_spelling(k: Seq<char>, d: Seq<char>, m: Seq<char>)
    requires
        is_name(m),
        within(k, child_of(d, m)),
    ensures
        k.len() >= dir_prefix(d).len() + m.len(),
        forall|i: int| 0 <= i < m.len() ==> k[dir_prefix(d).len() + i] == #[trigger] m[i],
        k.len() == dir_prefix(d).len() + m.len() || k[dir_prefix(d).len() as int + m.len()] == '/',
{
    let c = child_of(d, m);
    let p = dir_prefix(d);
    lemma_child_below(d, m);
    if k == c {
        assert forall|i: int| 0 <= i < m.len() implies k[p.len() + i] == #[trigger] m[i] by {
            assert(c[p.len() + i] == m[i]);
        }
    } else {
        assert(k.take(c.len() as int + 1) == c.push('/'));
        assert forall|i: int| 0 <= i < m.len() implies k[p.len() + i] == #[trigger] m[i] by {
            assert(k.take(c.len() as int + 1)[p.len() + i] == k[p.len() + i]);
            assert(c.push('/')[p.len() + i] == m[i]);
        }
        assert(k.take(c.len() as int + 1)[c.len() as int] == '/');
    }
}

/// Two different entries of a directory share nothing.
pub(crate) proof fn lemma_within_disjoint(k: Seq<char>, d: Seq<char>, m1: Seq<char>, m2: Seq<char>)
    requires
        is_name(m1),
        is_name(m2),
        m1 != m2,
    ensures
        !(within(k, child_of(d, m1)) && within(k, child_of(d, m2))),
{
    if within(k, child_of(d, m1)) && within(k, child_of(d, m2)) {
        lemma_within_spelling(k, d, m1);
        lemma_within_spelling(k, d, m2);
        let p = dir_prefix(d).len() as int;
        if m1.len() == m2.len() {
            assert(m1 =~= m2) by {
                assert forall|i: int| 0 <= i < m1.len() implies m1[i] == m2[i] by {
                    assert(k[p + i] == m1[i]);
                    assert(k[p + i] == m2[i]);
                }
            }
        } else if m1.len() < m2.len() {
            assert(k[p + m1.len() as int] == m2[m1.len() as int]);
            assert(!has_char(m2, '/'));
        } else {
            assert(k[p + m2.len() as int] == m1[m2.len() as int]);
            assert(!has_char(m1, '/'));
        }
    }
}

/// Everything below a directory lies within one of its entries; the
/// directory exists and is a directory.
pub(crate) proof fn lemma_cover(fs: FsView, dir: Seq<char>, k: Seq<char>)
    requires
        well_formed_tree(fs),
        dir.len() > 0 && dir[0] == '/',
        fs.dom().contains(k),
        below(k, dir),
    ensures
        fs.dom().contains(dir),
        fs[dir].0,
        exists|m: Seq<char>| is_child(fs, dir, m) && #[trigger] within(k, child_of(dir, m)),
    decreases k.len(),
{
    let pd = dir_prefix(dir);
    lemma_prefix_len(dir);
    assert(k.take(pd.len() as int) == pd);
    if k == root() {
        if dir != root() {
            assert(pd.len() >= 2);
        }
        assert(false);
    }
    let (d, n) = choose|d: Seq<char>, n: Seq<char>|
        fs.dom().contains(d) && fs[d].0 && is_name(n) && k == #[trigger] child_of(d, n);
    let q = dir_prefix(d);
    lemma_prefix_len(d);
    assert(k.len() == q.len() + n.len());
    assert(d.len() > 0 && d[0] == '/');
    if pd.len() > q.len() {
        assert(k[pd.len() as int - 1] == pd[pd.len() as int - 1]);
        assert(k[pd.len() as int - 1] == n[pd.len() as int - 1 - q.len() as int]);
        assert(!has_char(n, '/'));
        assert(false);
    } else if pd.len() == q.len() {
        assert(pd =~= q) by {
            assert forall|i: int| 0 <= i < pd.len() implies pd[i] == q[i] by {
                assert(k.take(pd.len() as int)[i] == k[i]);
                assert(k[i] == q[i]);
            }
        }
        if d != dir {
            if d == root() {
                assert(dir.push('/').len() >= 2);
            } else if dir == root() {
                assert(d.push('/').len() >= 2);
            } else {
                assert(d =~= dir) by {
                    assert forall|i: int| 0 <= i < d.len() implies d[i] == dir[i] by {
                        assert(d.push('/')[i] == dir.push('/')[i]);
                    }
                }
            }
        }
        lemma_child_below(d, n);
        assert(is_child(fs, dir, n) && within(k, child_of(dir, n)));
    } else {
        if d == root() {
            assert(false);
        }
        assert(d.take(pd.len() as int) =~= pd) by {
            assert forall|i: int| 0 <= i < pd.len() implies d.take(pd.len() as int)[i] == pd[i] by {
                assert(k.take(pd.len() as int)[i] == k[i]);
                assert(k[i] == q[i]);
                assert(q[i] == d[i]);
            }
        }
        assert(d != dir);
        assert(fs.dom().contains(d));
        lemma_cover(fs, dir, d);
        let m = choose|m: Seq<char>| is_child(fs, dir, m) && #[trigger] within(d, child_of(dir, m));
        let c = child_of(dir, m);
        lemma_child_below(dir, m);
        if d == c {
            assert(k.take(c.len() as int + 1) =~= c.push('/'));
        } else {
            assert(d.take(c.len() as int + 1) == c.push('/'));
            assert(k.take(c.len() as int + 1) =~= d.take(c.len() as int + 1)) by {
                assert forall|i: int| 0 <= i < c.len() as int + 1 implies #[trigger] k[i] == d[i] by {
                    assert(k[i] == q[i]);
                }
            }
        }
        assert(within(k, c));
    }
}

proof fn lemma_to_seq_distinct(s: Set<Seq<char>>)
    requires
        s.finite(),
    ensures
        s.to_seq().no_duplicates(),
        forall|x: Seq<char>| s.to_seq().contains(x) <==> s.contains(x),
    decreases s.len(),
{
    broadcast use vstd::set_lib::lemma_set_empty_equivalency_len;
    if s.len() == 0 {
        assert(s =~= Set::<Seq<char>>::empty());
        assert(s.to_seq() =~= Seq::<Seq<char>>::empty());
    } else {
        let x = s.choose();
        let r = s.remove(x);
        lemma_to_seq_distinct(r);
        let t = s.to_seq();
        assert(t =~= Seq::<Seq<char>>::empty().push(x) + r.to_seq());
        assert forall|y: Seq<char>| t.contains(y) <==> s.contains(y) by {
            if t.contains(y) {
                let j = choose|j: int| 0 <= j < t.len() && t[j] == y;
                if j > 0 {
                    assert(r.to_seq()[j - 1] == y);
                }
            }
            if s.contains(y) && y != x {
                assert(r.to_seq().contains(y));
                let j = choose|j: int| 0 <= j < r.to_seq().len() && r.to_seq()[j] == y;
                assert(t[j + 1] == y);
            }
            if y == x {
                assert(t[0] == y);
            }
        }
        assert forall|i: int, j: int| 0 <= i < t.len() && 0 <= j < t.len() && i != j implies t[i] != t[j] by {
            if i > 0 && j > 0 {
                assert(t[i] == r.to_seq()[i - 1]);
                assert(t[j] == r.to_seq()[j - 1]);
            } else if i == 0 {
                assert(r.to_seq().contains(t[j]));
            } else {
                assert(r.to_seq().contains(t[i]));
            }
        }
    }
}

/// In a finite file system the entries of a directory have a listing in
/// name order.
pub proof fn lemma_children_exist(fs: FsView, d: Seq<char>)
    requires
        fs.dom().finite(),
    ensures
        crate::order::strictly_sorted(children(fs, d)),
        forall|n: Seq<char>| children(fs, d).contains(n) <==> is_child(fs, d, n),
{
    let p = dir_prefix(d);
    let names = Set::new(|n: Seq<char>| is_child(fs, d, n));
    let f = |k: Seq<char>| k.skip(p.len() as int);
    let img = fs.dom().map(f);
    fs.dom().lemma_map_finite(f);
    assert(names.subset_of(img)) by {
        assert forall|n: Seq<char>| names.contains(n) implies img.contains(n) by {
            let k = child_of(d, n);
            assert(k.skip(p.len() as int) =~= n);
            assert(fs.dom().contains(k) && f(k) == n);
        }
    }
    vstd::set_lib::lemma_set_subset_finite(img, names);
    let t = names.to_seq();
    lemma_to_seq_distinct(names);
    crate::order::law_sort_seq(t);
    let u = crate::order::sort_seq(t);
    crate::order::lemma_sorted_perm_strict(t, u);
    assert forall|n: Seq<char>| u.contains(n) <==> is_child(fs, d, n) by {
        assert(u.contains(n) <==> t.contains(n));
        assert(t.contains(n) <==> names.contains(n));
    }
    crate::vfs::lemma_children(fs, d, u);
}

/// The directories (the files, when `!dirs`) of `fs` below `d`, at any
/// depth.
pub open spec fn below_set(fs: FsView, d: Seq<char>, dirs: bool) -> Set<Seq<char>> {
    Set::new(|k: Seq<char>| fs.dom().contains(k) && fs[k].0 == dirs && below(k, d))
}

/// The directories (the files, when `!dirs`) of `fs` within the entries
/// `children(fs, d)[i..]`.
pub open spec fn within_from(fs: FsView, d: Seq<char>, i: int, dirs: bool) -> Set<Seq<char>> {
    Set::new(
        |k: Seq<char>|
            fs.dom().contains(k) && fs[k].0 == dirs && exists|j: int|
                i <= j < children(fs, d).len() && #[trigger] within(k, child_of(d, children(fs, d)[j])),
    )
}

/// The directories (the files, when `!dirs`) of `fs` within `c`.
pub open spec fn within_set(fs: FsView, c: Seq<char>, dirs: bool) -> Set<Seq<char>> {
    Set::new(|k: Seq<char>| fs.dom().contains(k) && fs[k].0 == dirs && within(k, c))
}

/// The count that `tree_from` gives of directories (files when `!dirs`).
pub open spec fn count_of(t: (Seq<char>, nat, nat), dirs: bool) -> nat {
    if dirs {
        t.1
    } else {
        t.2
    }
}

pub(crate) proof fn lemma_names_in_children(fs: FsView, d: Seq<char>, i: int)
    requires
        fs.dom().finite(),
        0 <= i < children(fs, d).len(),
    ensures
        is_child(fs, d, children(fs, d)[i]),
        is_name(children(fs, d)[i]),
        forall|j: int| i < j < children(fs, d).len() ==> children(fs, d)[j] != children(fs, d)[i],
{
    lemma_children_exist(fs, d);
    let ns = children(fs, d);
    assert(ns.contains(ns[i]));
    assert forall|j: int| i < j < ns.len() implies ns[j] != ns[i] by {
        assert(crate::order::lex_lt(ns[i], ns[j]));
        crate::order::lemma_lex_irrefl(ns[i]);
    }
}

/// Within the entries of a directory lies exactly what is below it.
pub(crate) proof fn lemma_within_all(fs: FsView, d: Seq<char>, dirs: bool)
    requires
        well_formed_tree(fs),
        fs.dom().finite(),
        fs.dom().contains(d),
    ensures
        within_from(fs, d, 0, dirs) == below_set(fs, d, dirs),
{
    lemma_children_exist(fs, d);
    let ns = children(fs, d);
    assert(within_from(fs, d, 0, dirs) =~= below_set(fs, d, dirs)) by {
        assert forall|k: Seq<char>| within_from(fs, d, 0, dirs).contains(k) implies below_set(fs, d, dirs).contains(k) by {
            let j = choose|j: int| 0 <= j < ns.len() && #[trigger] within(k, child_of(d, ns[j]));
            assert(ns.contains(ns[j]));
            lemma_within_below(k, d, ns[j]);
        }
        assert forall|k: Seq<char>| below_set(fs, d, dirs).contains(k) implies within_from(fs, d, 0, dirs).contains(k) by {
            lemma_cover(fs, d, k);
            let m = choose|m: Seq<char>| is_child(fs, d, m) && #[trigger] within(k, child_of(d, m));
            assert(ns.contains(m));
            let j = choose|j: int| 0 <= j < ns.len() && ns[j] == m;
            assert(within(k, child_of(d, ns[j])));
        }
    }
}

/// What lies within an entry: the entry itself, and what is below it
/// (nothing, when the entry is a file).
pub(crate) proof fn lemma_within_entry(fs: FsView, c: Seq<char>, dirs: bool)
    requires
        well_formed_tree(fs),
        fs.dom().contains(c),
    ensures
        within_set(fs, c, dirs) == (if fs[c].0 == dirs { set![c] } else { Set::empty() }).union(
            below_set(fs, c, dirs),
        ),
        !fs[c].0 ==> below_set(fs, c, dirs) == Set::<Seq<char>>::empty(),
{
    assert(c.len() > 0 && c[0] == '/');
    if !fs[c].0 {
        assert(below_set(fs, c, dirs) =~= Set::<Seq<char>>::empty()) by {
            assert forall|k: Seq<char>| !below_set(fs, c, dirs).contains(k) by {
                if below_set(fs, c, dirs).contains(k) {
                    lemma_cover(fs, c, k);
                }
            }
        }
    }
    assert(within_set(fs, c, dirs) =~= (if fs[c].0 == dirs { set![c] } else { Set::empty() }).union(
        below_set(fs, c, dirs),
    ));
}

/// `tree_from` counts the directories and the files within the entries
/// `children(fs, d)[i..]`.
proof fn lemma_counts_from(fs: FsView, d: Seq<char>, prefix: Seq<char>, fuel: nat, i: int, b: nat, dirs: bool)
    requires
        well_formed_tree(fs),
        fs.dom().finite(),
        forall|k: Seq<char>| #[trigger] fs.dom().contains(k) ==> k.len() <= b,
        fs.dom().contains(d),
        fs[d].0,
        d.len() + fuel > b,
        0 <= i <= children(fs, d).len(),
    ensures
        within_from(fs, d, i, dirs).finite(),
        count_of(tree_from(fs, d, prefix, fuel, i), dirs) == within_from(fs, d, i, dirs).len(),
    decreases fuel, children(fs, d).len() - i,
{
    let ns = children(fs, d);
    assert(within_from(fs, d, i, dirs).subset_of(fs.dom()));
    vstd::set_lib::lemma_set_subset_finite(fs.dom(), within_from(fs, d, i, dirs));
    if i == ns.len() {
        assert(within_from(fs, d, i, dirs) =~= Set::<Seq<char>>::empty());
    } else {
        assert(fuel > 0);
        lemma_names_in_children(fs, d, i);
        let n = ns[i];
        let c = child_of(d, n);
        lemma_child_below(d, n);
        let last = i == ns.len() - 1;
        lemma_counts_from(fs, d, prefix, fuel, i + 1, b, dirs);
        lemma_within_entry(fs, c, dirs);
        let below_part = below_set(fs, c, dirs);
        assert(below_part.subset_of(fs.dom()));
        vstd::set_lib::lemma_set_subset_finite(fs.dom(), below_part);
        let below = if fs[c].0 {
            tree_from(fs, c, prefix + (if last { "    "@ } else { "│   "@ }), (fuel - 1) as nat, 0)
        } else {
            (Seq::empty(), 0, 0)
        };
        if fs[c].0 {
            lemma_counts_from(fs, c, prefix + (if last { "    "@ } else { "│   "@ }), (fuel - 1) as nat, 0, b, dirs);
            lemma_within_all(fs, c, dirs);
        } else {
            assert(below_part.len() == 0);
        }
        assert(count_of(below, dirs) == below_part.len());
        let one: Set<Seq<char>> = if fs[c].0 == dirs { set![c] } else { Set::empty() };
        let sc = within_set(fs, c, dirs);
        let rest = within_from(fs, d, i + 1, dirs);
        assert(one.disjoint(below_part));
        vstd::set_lib::lemma_set_disjoint_lens(one, below_part);
        assert(sc.len() == one.len() + below_part.len());
        assert(one.len() == (if fs[c].0 == dirs { 1nat } else { 0nat }));
        assert(sc.disjoint(rest)) by {
            assert forall|k: Seq<char>| !(sc.contains(k) && rest.contains(k)) by {
                if sc.contains(k) && rest.contains(k) {
                    let j = choose|j: int| i + 1 <= j < ns.len() && #[trigger] within(k, child_of(d, ns[j]));
                    lemma_names_in_children(fs, d, j);
                    lemma_within_disjoint(k, d, n, ns[j]);
                }
            }
        }
        assert(sc.subset_of(fs.dom()));
        vstd::set_lib::lemma_set_subset_finite(fs.dom(), sc);
        vstd::set_lib::lemma_set_disjoint_lens(sc, rest);
        assert(within_from(fs, d, i, dirs) =~= sc + rest) by {
            assert forall|k: Seq<char>| within_from(fs, d, i, dirs).contains(k) implies (sc + rest).contains(k) by {
                let j = choose|j: int| i <= j < ns.len() && #[trigger] within(k, child_of(d, ns[j]));
                if j > i {
                    assert(rest.contains(k));
                }
            }
            assert forall|k: Seq<char>| (sc + rest).contains(k) implies within_from(fs, d, i, dirs).contains(k) by {
                if sc.contains(k) {
                    assert(within(k, child_of(d, ns[i])));
                } else {
                    let j = choose|j: int| i + 1 <= j < ns.len() && #[trigger] within(k, child_of(d, ns[j]));
                    assert(i <= j < ns.len() && within(k, child_of(d, ns[j])));
                }
            }
        }
    }
}

/// `tree` counts every directory and every file below the directory it
/// draws, at any depth: for a file system of the usual shape (each path
/// starting with `/`, each node but the root an entry of a directory), the
/// counts of `tree_from` are the numbers of directories and of files below
/// `d`.
pub proof fn law_tree_counts(fs: FsView, d: Seq<char>, prefix: Seq<char>)
    requires
        well_formed_tree(fs),
        fs.dom().finite(),
        crate::vfs::bounds(fs, fs_bound(fs)),
        fs.dom().contains(d),
        fs[d].0,
    ensures
        tree_from(fs, d, prefix, fs_bound(fs) + 1, 0).1 == below_set(fs, d, true).len(),
        tree_from(fs, d, prefix, fs_bound(fs) + 1, 0).2 == below_set(fs, d, false).len(),
{
    assert(d.len() <= fs_bound(fs));
    lemma_counts_from(fs, d, prefix, fs_bound(fs) + 1, 0, fs_bound(fs), true);
    lemma_counts_from(fs, d, prefix, fs_bound(fs) + 1, 0, fs_bound(fs), false);
    lemma_within_all(fs, d, true);
    lemma_within_all(fs, d, false);
}

} // verus!
