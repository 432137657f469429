//! `find [path] -name PATTERN` -- list the paths below a directory whose
//! names contain PATTERN.
//!
//! The walk visits the entries of each directory in name order, each entry
//! before the entries below it; the starting directory itself is not
//! listed, and a start that is not a directory gives nothing.
use vstd::prelude::*;
use crate::text::{strs_view, chars_of, string_of, to_owned_string, str_eq, contains, contains_sub,
    join, join_chars, starts_with, vv};
use crate::path::{child_of, is_normal, dir_prefix};
use crate::vfs::is_child;
use crate::command::tree::{below, within, is_name, well_formed_tree, lemma_prefix_len, lemma_child_below,
    lemma_within_below, lemma_within_disjoint, lemma_cover, lemma_names_in_children, lemma_children_exist};
use crate::command::cp::lemma_same_last_name;
use crate::vfs::{Vfs, FsView, rv, children, fs_bound, names_of};
use crate::command::kinds::outcome;
use crate::command::{Command, CommandContext, CommandKind, state_of, meets, lemma_vfs_of};

verus! {

/// The paths found among the children `children(fs, dir)[i..]` of `dir`
/// and below them, in walk order; `fuel` bounds the depth.
pub open spec fn find_from(fs: FsView, dir: Seq<char>, pat: Seq<char>, fuel: nat, i: int) -> Seq<Seq<char>>
    decreases fuel, children(fs, dir).len() - i,
{
    let ns = children(fs, dir);
    if fuel == 0 || i < 0 || i >= ns.len() || !fs.dom().contains(dir) || !fs[dir].0 {
        Seq::empty()
    } else {
        let n = ns[i];
        let c = child_of(dir, n);
        let here = if contains(n, pat) {
            seq![c]
        } else {
            Seq::empty()
        };
        let below = if fs.dom().contains(c) && fs[c].0 {
            find_from(fs, c, pat, (fuel - 1) as nat, 0)
        } else {
            Seq::empty()
        };
        here + below + find_from(fs, dir, pat, fuel, i + 1)
    }
}

/// The search path and the pattern given by `args[i..]`.
pub open spec fn find_args(args: Seq<Seq<char>>, i: int, path: Seq<char>, pat: Option<Seq<char>>) -> (Seq<char>, Option<Seq<char>>)
    decreases args.len() - i,
{
    if i < 0 || i >= args.len() {
        (path, pat)
    } else if args[i] == "-name"@ && i + 1 < args.len() {
        find_args(args, i + 2, path, Some(args[i + 1]))
    } else if path == "."@ && !starts_with(args[i], seq!['-']) {
        find_args(args, i + 1, args[i], pat)
    } else {
        find_args(args, i + 1, path, pat)
    }
}

/// The result of `find` on the given arguments.
pub open spec fn find_spec(vfs: &Vfs, args: Seq<Seq<char>>) -> Result<Seq<char>, Seq<char>> {
    let (path, pat) = find_args(args, 0, "."@, None);
    match pat {
        None => Err("find: missing -name argument"@),
        Some(p) => {
            let found = find_from(vfs@, vfs.key(path), p, fs_bound(vfs@) + 1, 0);
            if found.len() == 0 {
                Ok(Seq::empty())
            } else {
                Ok(join(found, seq!['\n']) + seq!['\n'])
            }
        },
    }
}

/// Append the paths found below the directory `dir`.
pub fn collect_matches(vfs: &Vfs, dir: &str, pat: &[char], results: &mut Vec<Vec<char>>, Ghost(fuel): Ghost<nat>)
    requires
        is_normal(dir@),
        dir@.len() + fuel > fs_bound(vfs@),
    ensures
        vv(final(results)@) == vv(old(results)@) + find_from(vfs@, dir@, pat@, fuel, 0),
    decreases fuel,
{
    vfs.invariants();
    proof {
        crate::path::lemma_normal_fixed(vfs.cwd@, dir@);
    }
    let entries = match vfs.list_dir(dir) {
        Ok(e) => e,
        Err(_) => {
            assert(vv(results@) =~= vv(old(results)@) + Seq::<Seq<char>>::empty());
            return;
        },
    };
    let ghost ns = children(vfs@, dir@);
    assert(names_of(entries@) == ns);
    assert(fuel > 0);
    let mut i: usize = 0;
    assert(vv(results@) + find_from(vfs@, dir@, pat@, fuel, 0) =~= vv(old(results)@) + find_from(vfs@, dir@, pat@, fuel, 0));
    while i < entries.len()
        invariant
            i <= entries@.len(),
            names_of(entries@) == ns,
            ns == children(vfs@, dir@),
            vfs@.dom().contains(dir@) && vfs@[dir@].0,
            fuel > 0,
            dir@.len() + fuel > fs_bound(vfs@),
            forall|k: Seq<char>| #[trigger] vfs@.dom().contains(k) ==> is_normal(k) && k.len() <= fs_bound(vfs@),
            crate::vfs::listing(vfs@, dir@, entries@),
            vv(results@) + find_from(vfs@, dir@, pat@, fuel, i as int) == vv(old(results)@) + find_from(vfs@, dir@, pat@, fuel, 0),
        decreases entries.len() - i,
    {
        let e = &entries[i];
        assert(names_of(entries@)[i as int] == e.name@);
        assert(ns.contains(e.name@));
        assert(crate::vfs::is_child(vfs@, dir@, e.name@));
        assert(crate::vfs::entry_matches(vfs@, dir@, entries@[i as int]));
        let child = Vfs::child_path(dir, e.name.as_str());
        let ghost c = child@;
        assert(vfs@.dom().contains(c));
        assert(c.len() > dir@.len()) by {
            assert(crate::path::dir_prefix(dir@).len() >= dir@.len());
        }
        let ghost before = vv(results@);
        let nc = chars_of(e.name.as_str());
        if contains_sub(nc.as_slice(), pat) {
            let cc = chars_of(child.as_str());
            results.push(cc);
            assert(vv(results@) =~= before.push(c));
        }
        let ghost mid = vv(results@);
        if e.is_dir {
            collect_matches(vfs, child.as_str(), pat, results, Ghost((fuel - 1) as nat));
        }
        proof {
            let here = if contains(e.name@, pat@) { seq![c] } else { Seq::<Seq<char>>::empty() };
            let below = if vfs@.dom().contains(c) && vfs@[c].0 {
                find_from(vfs@, c, pat@, (fuel - 1) as nat, 0)
            } else {
                Seq::<Seq<char>>::empty()
            };
            assert(mid == before + here);
            assert(vv(results@) == mid + below);
            assert(find_from(vfs@, dir@, pat@, fuel, i as int) == here + below + find_from(vfs@, dir@, pat@, fuel, i + 1));
            assert(vv(results@) + find_from(vfs@, dir@, pat@, fuel, i + 1) =~= before + find_from(vfs@, dir@, pat@, fuel, i as int));
        }
        i += 1;
    }
    assert(find_from(vfs@, dir@, pat@, fuel, i as int) =~= Seq::<Seq<char>>::empty());
    assert(vv(results@) + Seq::<Seq<char>>::empty() =~= vv(results@));
}

/// Execute `find`.
pub fn execute(vfs: &Vfs, args: &[&str]) -> (r: Result<String, String>)
    ensures
        rv(r) == find_spec(vfs, strs_view(args@)),
{
    let ghost av = strs_view(args@);
    let mut path: &str = ".";
    let mut pat: Option<&str> = None;
    let mut i: usize = 0;
    while i < args.len()
        invariant
            i <= args@.len(),
            av == strs_view(args@),
            find_args(av, 0, "."@, None) == find_args(
                av,
                i as int,
                path@,
                match pat {
                    Some(p) => Some(p@),
                    None => None,
                },
            ),
        decreases args.len() - i,
    {
        assert(av[i as int] == args@[i as int]@);
        if str_eq(args[i], "-name") && i + 1 < args.len() {
            assert(av[i + 1] == args@[i + 1]@);
            pat = Some(args[i + 1]);
            i += 2;
        } else if str_eq(path, ".") && !crate::text::str_starts_with_char(args[i], '-') {
            path = args[i];
            i += 1;
        } else {
            i += 1;
        }
    }
    let p = match pat {
        Some(p) => p,
        None => return Err(to_owned_string("find: missing -name argument")),
    };
    let k = vfs.resolve_path(path).unwrap();
    let pc = chars_of(p);
    let mut results: Vec<Vec<char>> = Vec::new();
    proof {
        crate::path::lemma_resolve_is_normal(vfs.cwd@, path@);
    }
    collect_matches(vfs, k.as_str(), pc.as_slice(), &mut results, Ghost(fs_bound(vfs@) + 1));
    assert(vv(results@) =~= find_from(vfs@, vfs.key(path@), p@, fs_bound(vfs@) + 1, 0));
    if results.len() == 0 {
        return Ok(String::new());
    }
    let mut sep: Vec<char> = Vec::new();
    sep.push('\n');
    assert(sep@ =~= seq!['\n']);
    let mut out = join_chars(&results, sep.as_slice());
    out.push('\n');
    assert(out@ =~= join(vv(results@), seq!['\n']) + seq!['\n']);
    Ok(string_of(out.as_slice()))
}

/// The `find` command.
pub struct FindCommand;

impl Command for FindCommand {
    fn name(&self) -> (r: &'static str)
        ensures
            r@ == "find"@,
    {
        "find"
    }

    fn description(&self) -> (r: &'static str)
        ensures
            r@ == "Find files by name (find [path] -name PATTERN)"@,
    {
        "Find files by name (find [path] -name PATTERN)"
    }

    fn accepts_stdin(&self) -> (r: bool)
        ensures
            !r,
    {
        false
    }

    fn execute(&self, ctx: &mut CommandContext) -> (r: Result<String, String>)
        ensures
            meets(outcome(CommandKind::Find, state_of(old(ctx))), r, final(ctx)),
    {
        proof {
            lemma_vfs_of(ctx);
        }
        execute(ctx.vfs, ctx.args)
    }

    fn synopsis(&self) -> (r: &'static str)
        ensures
            r@ == "find [path] -name pattern"@,
    {
        "find [path] -name pattern"
    }

    fn man_description(&self) -> (r: &'static str)
        ensures
            r@ == "Recursively search for files and directories whose names contain the given substring pattern. If no path is specified, searches from the current working directory. The -name flag is required and must be followed by the pattern string."@,
    {
        "Recursively search for files and directories whose names contain the given substring pattern. If no path is specified, searches from the current working directory. The -name flag is required and must be followed by the pattern string."
    }

    fn examples(&self) -> (r: &'static [&'static str])
        ensures
            strs_view(r@) == seq!["find -name README"@, "find /home -name .txt"@, "find . -name config"@],
    {
        let r: &'static [&'static str] = &["find -name README", "find /home -name .txt", "find . -name config"];
        assert(r@ == seq!["find -name README", "find /home -name .txt", "find . -name config"]);
        r
    }
}

/// `k` is an entry called `n` of some directory.
pub open spec fn named(k: Seq<char>, n: Seq<char>) -> bool {
    is_name(n) && exists|e: Seq<char>| k == #[trigger] child_of(e, n)
}

proof fn lemma_find_from(fs: FsView, d: Seq<char>, pat: Seq<char>, fuel: nat, i: int, b: nat)
    requires
        well_formed_tree(fs),
        fs.dom().finite(),
        forall|k: Seq<char>| #[trigger] fs.dom().contains(k) ==> k.len() <= b,
        fs.dom().contains(d),
        fs[d].0,
        d.len() + fuel > b,
        0 <= i <= children(fs, d).len(),
    ensures
        forall|x: Seq<char>| #[trigger] find_from(fs, d, pat, fuel, i).contains(x) ==> fs.dom().contains(x) && below(x, d)
            && exists|n: Seq<char>| named(x, n) && contains(n, pat),
        find_from(fs, d, pat, fuel, i).no_duplicates(),
        forall|x: Seq<char>| #[trigger] find_from(fs, d, pat, fuel, i).contains(x) ==> exists|j: int|
            i <= j < children(fs, d).len() && #[trigger] within(x, child_of(d, children(fs, d)[j])),
        forall|k: Seq<char>, n: Seq<char>, j: int|
            fs.dom().contains(k) && #[trigger] named(k, n) && contains(n, pat) && i <= j < children(fs, d).len() && #[trigger] within(
                k,
                child_of(d, children(fs, d)[j]),
            ) ==> #[trigger] find_from(fs, d, pat, fuel, i).contains(k),
    decreases fuel, children(fs, d).len() - i,
{
    let ns = children(fs, d);
    let found = find_from(fs, d, pat, fuel, i);
    if i == ns.len() {
        assert(found.len() == 0);
        assert(found =~= Seq::<Seq<char>>::empty());
    } else {
        assert(fuel > 0);
        lemma_names_in_children(fs, d, i);
        let n = ns[i];
        let c = child_of(d, n);
        lemma_child_below(d, n);
        let here: Seq<Seq<char>> = if contains(n, pat) { seq![c] } else { Seq::empty() };
        let bl = if fs[c].0 { find_from(fs, c, pat, (fuel - 1) as nat, 0) } else { Seq::empty() };
        let rest = find_from(fs, d, pat, fuel, i + 1);
        assert(found == here + bl + rest);
        lemma_find_from(fs, d, pat, fuel, i + 1, b);
        if fs[c].0 {
            lemma_children_exist(fs, c);
            lemma_find_from(fs, c, pat, (fuel - 1) as nat, 0, b);
        }
        assert forall|x: Seq<char>| #[trigger] found.contains(x) implies fs.dom().contains(x) && below(x, d)
            && exists|m: Seq<char>| named(x, m) && contains(m, pat) by {
            let q = choose|q: int| 0 <= q < found.len() && found[q] == x;
            if q < here.len() {
                assert(x == c);
                assert(named(x, n));
            } else if q < here.len() + bl.len() {
                assert(bl.contains(bl[q - here.len()]));
                assert(bl[q - here.len()] == x);
                lemma_within_below(x, d, n);
            } else {
                assert(rest[q - here.len() - bl.len()] == x);
                assert(rest.contains(x));
            }
        }
        assert forall|x: Seq<char>| #[trigger] found.contains(x) implies exists|j: int|
            i <= j < ns.len() && #[trigger] within(x, child_of(d, ns[j])) by {
            let q = choose|q: int| 0 <= q < found.len() && found[q] == x;
            if q < here.len() {
                assert(within(x, child_of(d, ns[i])));
            } else if q < here.len() + bl.len() {
                assert(bl[q - here.len()] == x);
                assert(bl.contains(x));
                let cs = children(fs, c);
                let j2 = choose|j2: int| 0 <= j2 < cs.len() && #[trigger] within(x, child_of(c, cs[j2]));
                lemma_names_in_children(fs, c, j2);
                lemma_within_below(x, c, cs[j2]);
                assert(within(x, child_of(d, ns[i])));
            } else {
                assert(rest[q - here.len() - bl.len()] == x);
                assert(rest.contains(x));
            }
        }
        // What `bl` lists lies strictly below `c`; what `rest` lists lies
        // outside `c`.
        assert forall|x: Seq<char>| #[trigger] bl.contains(x) implies below(x, c) by {
            let cs = children(fs, c);
            let j2 = choose|j2: int| 0 <= j2 < cs.len() && #[trigger] within(x, child_of(c, cs[j2]));
            lemma_names_in_children(fs, c, j2);
            lemma_within_below(x, c, cs[j2]);
        }
        assert forall|x: Seq<char>| #[trigger] rest.contains(x) implies !within(x, c) by {
            let j = choose|j: int| i + 1 <= j < ns.len() && #[trigger] within(x, child_of(d, ns[j]));
            lemma_names_in_children(fs, d, j);
            lemma_within_disjoint(x, d, n, ns[j]);
        }
        assert(found.no_duplicates()) by {
            assert forall|q1: int, q2: int| 0 <= q1 < found.len() && 0 <= q2 < found.len() && q1 != q2 implies found[q1]
                != found[q2] by {
                let h = here.len() as int;
                let bb = bl.len() as int;
                if q1 < h && q2 < h {
                } else if q1 < h || q2 < h {
                    let o = if q1 < h { q2 } else { q1 };
                    if o < h + bb {
                        assert(bl.contains(found[o])) by {
                            assert(found[o] == bl[o - h]);
                        }
                    } else {
                        assert(rest.contains(found[o])) by {
                            assert(found[o] == rest[o - h - bb]);
                        }
                    }
                } else if q1 < h + bb && q2 < h + bb {
                    assert(found[q1] == bl[q1 - h]);
                    assert(found[q2] == bl[q2 - h]);
                } else if q1 >= h + bb && q2 >= h + bb {
                    assert(found[q1] == rest[q1 - h - bb]);
                    assert(found[q2] == rest[q2 - h - bb]);
                } else {
                    let (u, v) = if q1 < h + bb { (q1, q2) } else { (q2, q1) };
                    assert(found[u] == bl[u - h]);
                    assert(bl.contains(found[u]));
                    assert(found[v] == rest[v - h - bb]);
                    assert(rest.contains(found[v]));
                }
            }
        }
        assert forall|k: Seq<char>, m: Seq<char>, j: int|
            fs.dom().contains(k) && #[trigger] named(k, m) && contains(m, pat) && i <= j < ns.len() && #[trigger] within(
                k,
                child_of(d, ns[j]),
            ) implies #[trigger] found.contains(k) by {
            if j == i {
                if k == c {
                    let e = choose|e: Seq<char>| k == #[trigger] child_of(e, m);
                    lemma_prefix_len(e);
                    lemma_prefix_len(d);
                    lemma_same_last_name(dir_prefix(e), m, dir_prefix(d), n);
                    assert(found[0] == k);
                } else {
                    lemma_cover(fs, c, k);
                    let m2 = choose|m2: Seq<char>| is_child(fs, c, m2) && #[trigger] within(k, child_of(c, m2));
                    let cs = children(fs, c);
                    assert(cs.contains(m2));
                    let j2 = choose|j2: int| 0 <= j2 < cs.len() && cs[j2] == m2;
                    assert(within(k, child_of(c, cs[j2])));
                    assert(bl.contains(k));
                    let q = choose|q: int| 0 <= q < bl.len() && bl[q] == k;
                    assert(found[here.len() + q] == k);
                }
            } else {
                assert(rest.contains(k));
                let q = choose|q: int| 0 <= q < rest.len() && rest[q] == k;
                assert(found[here.len() + bl.len() + q] == k);
            }
        }
    }
}

/// `find` lists exactly the entries below the starting directory, at any
/// depth, whose own name contains the pattern, files and directories alike,
/// each once (for a file system of the usual shape).
pub proof fn law_find_matches(fs: FsView, d: Seq<char>, pat: Seq<char>)
    requires
        well_formed_tree(fs),
        fs.dom().finite(),
        crate::vfs::bounds(fs, fs_bound(fs)),
        fs.dom().contains(d),
        fs[d].0,
    ensures
        forall|x: Seq<char>| #[trigger] find_from(fs, d, pat, fs_bound(fs) + 1, 0).contains(x) ==> fs.dom().contains(x)
            && below(x, d) && exists|n: Seq<char>| named(x, n) && contains(n, pat),
        find_from(fs, d, pat, fs_bound(fs) + 1, 0).no_duplicates(),
        forall|k: Seq<char>, n: Seq<char>|
            fs.dom().contains(k) && below(k, d) && #[trigger] named(k, n) && contains(n, pat) ==> #[trigger] find_from(
                fs,
                d,
                pat,
                fs_bound(fs) + 1,
                0,
            ).contains(k),
{
    assert(d.len() <= fs_bound(fs));
    lemma_children_exist(fs, d);
    lemma_find_from(fs, d, pat, fs_bound(fs) + 1, 0, fs_bound(fs));
    let ns = children(fs, d);
    assert forall|k: Seq<char>, n: Seq<char>|
        fs.dom().contains(k) && below(k, d) && #[trigger] named(k, n) && contains(n, pat) implies #[trigger] find_from(
            fs,
            d,
            pat,
            fs_bound(fs) + 1,
            0,
        ).contains(k) by {
        lemma_cover(fs, d, k);
        let m = choose|m: Seq<char>| is_child(fs, d, m) && #[trigger] within(k, child_of(d, m));
        assert(ns.contains(m));
        let j = choose|j: int| 0 <= j < ns.len() && ns[j] == m;
        assert(within(k, child_of(d, ns[j])));
    }
}

} // verus!
