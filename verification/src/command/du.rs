//! `du [-h] [-s] [path]` -- disk usage of a directory tree.
//!
//! Sizes are the byte lengths of file contents. Without `-s` every
//! directory below the path gets a line (in walk order: name order, a
//! directory before what is below it), then the path itself; with `-s` only
//! the path. Sizes are shown in whole kibibytes rounded up (`12K`), or with
//! `-h` as `B`, `K` or `M` with one decimal (rounded to nearest, ties to
//! even).
use vstd::prelude::*;
use crate::text::{strs_view, chars_of, string_of, to_owned_string, push_str, push_all, str_eq,
    starts_with, vv};
use crate::numeric::{nat_str, push_u64};
use crate::path::{child_of, is_normal, dir_prefix, root};
use crate::command::tree::{below, within, below_set, within_from, within_set, well_formed_tree, lemma_prefix_len,
    lemma_child_below, lemma_within_disjoint, lemma_names_in_children, lemma_children_exist, lemma_within_all,
    lemma_within_entry};
use crate::vfs::{Vfs, FsView, rv, children, fs_bound, names_of, byte_len};
use crate::command::kinds::outcome;
use crate::command::{Command, CommandContext, CommandKind, state_of, meets, lemma_vfs_of};

verus! {

/// Total size of the entries `children(fs, dir)[i..]` and everything
/// below them.
pub open spec fn du_total(fs: FsView, dir: Seq<char>, fuel: nat, i: int) -> nat
    decreases fuel, children(fs, dir).len() - i,
{
    let ns = children(fs, dir);
    if fuel == 0 || i < 0 || i >= ns.len() || !fs.dom().contains(dir) || !fs[dir].0 {
        0
    } else {
        let c = child_of(dir, ns[i]);
        let s = if fs.dom().contains(c) && fs[c].0 {
            du_total(fs, c, (fuel - 1) as nat, 0)
        } else if fs.dom().contains(c) {
            byte_len(fs[c].1)
        } else {
            0
        };
        s + du_total(fs, dir, fuel, i + 1)
    }
}

/// The size of the node at `p`: a directory's total, a file's length.
pub open spec fn dir_size_spec(fs: FsView, p: Seq<char>, fuel: nat) -> nat {
    if fs.dom().contains(p) && fs[p].0 {
        du_total(fs, p, fuel, 0)
    } else if fs.dom().contains(p) {
        byte_len(fs[p].1)
    } else {
        0
    }
}

/// A size capped at the largest machine word.
pub open spec fn capped(n: nat) -> nat {
    if n > usize::MAX {
        usize::MAX as nat
    } else {
        n
    }
}

/// `n / d` rounded to the nearest integer, ties to even.
pub open spec fn round_half_even(n: nat, d: nat) -> nat {
    let q = n / d;
    let r = n % d;
    if 2 * r > d {
        q + 1
    } else if 2 * r < d {
        q
    } else if q % 2 == 0 {
        q
    } else {
        q + 1
    }
}

/// Tenths as `whole.tenth`.
pub open spec fn tenths_text(t: nat) -> Seq<char> {
    nat_str(t / 10) + seq!['.'] + nat_str(t % 10)
}

/// How a size is shown.
pub open spec fn format_size_spec(bytes: nat, human: bool) -> Seq<char> {
    if human {
        if bytes >= 1048576 {
            tenths_text(round_half_even(bytes * 10, 1048576)) + seq!['M']
        } else if bytes >= 1024 {
            tenths_text(round_half_even(bytes * 10, 1024)) + seq!['K']
        } else {
            nat_str(bytes) + seq!['B']
        }
    } else {
        nat_str((bytes + 1023) / 1024) + seq!['K']
    }
}

/// The lines for the directories among `children(fs, abs)[i..]` and below
/// them; `shown` is how `abs` is written.
pub open spec fn du_lines(fs: FsView, abs: Seq<char>, shown: Seq<char>, human: bool, fuel: nat, i: int) -> Seq<char>
    decreases fuel, children(fs, abs).len() - i,
{
    let ns = children(fs, abs);
    if fuel == 0 || i < 0 || i >= ns.len() || !fs.dom().contains(abs) || !fs[abs].0 {
        Seq::empty()
    } else {
        let n = ns[i];
        let c = child_of(abs, n);
        let cs = if shown == "."@ {
            n
        } else {
            shown + seq!['/'] + n
        };
        let here = if fs.dom().contains(c) && fs[c].0 {
            format_size_spec(capped(dir_size_spec(fs, c, (fuel - 1) as nat)), human) + seq!['\t'] + cs + seq!['\n']
                + du_lines(fs, c, cs, human, (fuel - 1) as nat, 0)
        } else {
            Seq::empty()
        };
        here + du_lines(fs, abs, shown, human, fuel, i + 1)
    }
}

/// `-h`, `-s` and the path given by `args[i..]`.
pub open spec fn du_args(args: Seq<Seq<char>>, i: int, human: bool, summary: bool, path: Seq<char>) -> Result<(bool, bool, Seq<char>), Seq<char>>
    decreases args.len() - i,
{
    if i < 0 || i >= args.len() {
        Ok((human, summary, path))
    } else if args[i] == "-h"@ {
        du_args(args, i + 1, true, summary, path)
    } else if args[i] == "-s"@ {
        du_args(args, i + 1, human, true, path)
    } else if !starts_with(args[i], seq!['-']) {
        du_args(args, i + 1, human, summary, args[i])
    } else {
        Err("du: unknown option: "@ + args[i])
    }
}

/// The result of `du` on the given arguments.
pub open spec fn du_spec(vfs: &Vfs, args: Seq<Seq<char>>) -> Result<Seq<char>, Seq<char>> {
    match du_args(args, 0, false, false, "."@) {
        Err(e) => Err(e),
        Ok((human, summary, path)) => {
            let k = vfs.key(path);
            let fuel = fs_bound(vfs@) + 1;
            let total = format_size_spec(capped(dir_size_spec(vfs@, k, fuel)), human) + seq!['\t'] + path + seq!['\n'];
            if summary {
                Ok(total)
            } else {
                Ok(du_lines(vfs@, k, path, human, fuel, 0) + total)
            }
        },
    }
}

/// `n / d` rounded to nearest, ties to even.
fn round_even(n: u128, d: u128) -> (r: u128)
    requires
        d > 0,
        n / d < u128::MAX,
    ensures
        r as nat == round_half_even(n as nat, d as nat),
        r <= n / d + 1,
{
    let q = n / d;
    let r = n % d;
    assert(r < d);
    if r > d - r {
        q + 1
    } else if r < d - r {
        q
    } else if q % 2 == 0 {
        q
    } else {
        q + 1
    }
}

fn push_tenths(out: &mut Vec<char>, t: u64)
    ensures
        final(out)@ == old(out)@ + tenths_text(t as nat),
{
    push_u64(out, t / 10);
    out.push('.');
    push_u64(out, t % 10);
    assert(out@ =~= old(out)@ + tenths_text(t as nat));
}

/// How a size is shown.
pub fn format_size(bytes: usize, human: bool) -> (r: Vec<char>)
    ensures
        r@ == format_size_spec(bytes as nat, human),
{
    let b = bytes as u128;
    assert(b < 0x1_0000_0000_0000_0000);
    let mut out: Vec<char> = Vec::new();
    if human {
        if b >= 1048576 {
            let t = round_even(b * 10, 1048576);
            assert(t < 0x1_0000_0000_0000_0000) by (nonlinear_arith)
                requires
                    t <= (b * 10) / 1048576 + 1,
                    b < 0x1_0000_0000_0000_0000,
            ;
            push_tenths(&mut out, t as u64);
            out.push('M');
        } else if b >= 1024 {
            let t = round_even(b * 10, 1024);
            assert(t < 0x1_0000_0000_0000_0000) by (nonlinear_arith)
                requires
                    t <= (b * 10) / 1024 + 1,
                    b < 1048576,
            ;
            push_tenths(&mut out, t as u64);
            out.push('K');
        } else {
            push_u64(&mut out, b as u64);
            out.push('B');
        }
    } else {
        let kb: u128 = (b + 1023) / 1024;
        assert(kb < 0x1_0000_0000_0000_0000) by (nonlinear_arith)
            requires
                kb == (b + 1023) / 1024,
                b < 0x1_0000_0000_0000_0000,
        ;
        push_u64(&mut out, kb as u64);
        out.push('K');
    }
    assert(out@ =~= format_size_spec(bytes as nat, human));
    out
}

/// Total size of `dir`'s entries and everything below them.
fn dir_total(vfs: &Vfs, dir: &str, Ghost(fuel): Ghost<nat>) -> (r: usize)
    requires
        is_normal(dir@),
        dir@.len() + fuel > fs_bound(vfs@),
    ensures
        r as nat == capped(du_total(vfs@, dir@, fuel, 0)),
    decreases fuel,
{
    vfs.invariants();
    proof {
        crate::path::lemma_normal_fixed(vfs.cwd@, dir@);
    }
    let entries = match vfs.list_dir(dir) {
        Ok(e) => e,
        Err(_) => {
            return 0;
        },
    };
    let ghost ns = children(vfs@, dir@);
    let mut total: usize = 0;
    let mut i: usize = 0;
    while i < entries.len()
        invariant
            i <= entries@.len(),
            names_of(entries@) == ns,
            ns == children(vfs@, dir@),
            vfs@.dom().contains(dir@) && vfs@[dir@].0,
            fuel > 0,
            dir@.len() + fuel > fs_bound(vfs@),
            forall|k: Seq<char>| #[trigger] vfs@.dom().contains(k) ==> is_normal(k) && k.len() <= fs_bound(vfs@),
            crate::vfs::listing(vfs@, dir@, entries@),
            capped(total as nat + du_total(vfs@, dir@, fuel, i as int)) == capped(du_total(vfs@, dir@, fuel, 0)),
            total as nat <= usize::MAX,
        decreases entries.len() - i,
    {
        let e = &entries[i];
        assert(names_of(entries@)[i as int] == e.name@);
        assert(ns.contains(e.name@));
        assert(crate::vfs::is_child(vfs@, dir@, e.name@));
        assert(crate::vfs::entry_matches(vfs@, dir@, entries@[i as int]));
        let child = Vfs::child_path(dir, e.name.as_str());
        assert(vfs@.dom().contains(child@));
        assert(child@.len() > dir@.len()) by {
            assert(crate::path::dir_prefix(dir@).len() >= dir@.len());
        }
        let s: usize = if e.is_dir {
            dir_total(vfs, child.as_str(), Ghost((fuel - 1) as nat))
        } else {
            e.size
        };
        let ghost sv = if vfs@[child@].0 {
            du_total(vfs@, child@, (fuel - 1) as nat, 0)
        } else {
            byte_len(vfs@[child@].1)
        };
        assert(s as nat == capped(sv));
        assert(du_total(vfs@, dir@, fuel, i as int) == sv + du_total(vfs@, dir@, fuel, i + 1));
        total = total.saturating_add(s);
        assert(capped(total as nat + du_total(vfs@, dir@, fuel, i + 1)) == capped(du_total(vfs@, dir@, fuel, 0)));
        i += 1;
    }
    assert(du_total(vfs@, dir@, fuel, i as int) == 0);
    total
}

/// The size of the node at `p`.
pub fn dir_size(vfs: &Vfs, p: &str, Ghost(fuel): Ghost<nat>) -> (r: usize)
    requires
        is_normal(p@),
        p@.len() + fuel > fs_bound(vfs@),
    ensures
        r as nat == capped(dir_size_spec(vfs@, p@, fuel)),
{
    proof {
        crate::path::lemma_normal_fixed(vfs.cwd@, p@);
    }
    if vfs.is_dir(p) {
        dir_total(vfs, p, Ghost(fuel))
    } else {
        match vfs.file_size(p) {
            Ok(n) => n,
            Err(_) => 0,
        }
    }
}

/// How a child named `name` of a directory shown as `shown` is shown.
fn shown_child(shown: &str, dot: bool, name: &str) -> (r: Vec<char>)
    requires
        dot == (shown@ == "."@),
    ensures
        r@ == (if shown@ == "."@ { name@ } else { shown@ + seq!['/'] + name@ }),
{
    let mut cs: Vec<char> = Vec::new();
    if dot {
        push_str(&mut cs, name);
    } else {
        push_str(&mut cs, shown);
        cs.push('/');
        push_str(&mut cs, name);
    }
    assert(cs@ =~= (if shown@ == "."@ { name@ } else { shown@ + seq!['/'] + name@ }));
    cs
}

/// Append `size<TAB>shown<NL>`.
fn push_size_line(out: &mut Vec<char>, size: usize, human: bool, shown: &[char])
    ensures
        final(out)@ == old(out)@ + format_size_spec(size as nat, human) + seq!['\t'] + shown@ + seq!['\n'],
{
    let f = format_size(size, human);
    push_all(out, f.as_slice());
    out.push('\t');
    push_all(out, shown);
    out.push('\n');
    assert(out@ =~= old(out)@ + format_size_spec(size as nat, human) + seq!['\t'] + shown@ + seq!['\n']);
}

/// Append the lines for the directories below `abs`, shown as `shown`.
#[verifier::rlimit(40)]
fn collect_sizes(vfs: &Vfs, abs: &str, shown: &str, human: bool, out: &mut Vec<char>, Ghost(fuel): Ghost<nat>)
    requires
        is_normal(abs@),
        abs@.len() + fuel > fs_bound(vfs@),
    ensures
        final(out)@ == old(out)@ + du_lines(vfs@, abs@, shown@, human, fuel, 0),
    decreases fuel,
{
    vfs.invariants();
    proof {
        crate::path::lemma_normal_fixed(vfs.cwd@, abs@);
    }
    let entries = match vfs.list_dir(abs) {
        Ok(e) => e,
        Err(_) => {
            assert(out@ =~= old(out)@ + Seq::<char>::empty());
            return;
        },
    };
    let ghost ns = children(vfs@, abs@);
    let dot = str_eq(shown, ".");
    let mut i: usize = 0;
    assert(out@ + du_lines(vfs@, abs@, shown@, human, fuel, 0) =~= old(out)@ + du_lines(vfs@, abs@, shown@, human, fuel, 0));
    while i < entries.len()
        invariant
            i <= entries@.len(),
            names_of(entries@) == ns,
            ns == children(vfs@, abs@),
            vfs@.dom().contains(abs@) && vfs@[abs@].0,
            fuel > 0,
            abs@.len() + fuel > fs_bound(vfs@),
            dot == (shown@ == "."@),
            forall|k: Seq<char>| #[trigger] vfs@.dom().contains(k) ==> is_normal(k) && k.len() <= fs_bound(vfs@),
            crate::vfs::listing(vfs@, abs@, entries@),
            out@ + du_lines(vfs@, abs@, shown@, human, fuel, i as int) == old(out)@ + du_lines(vfs@, abs@, shown@, human, fuel, 0),
        decreases entries.len() - i,
    {
        let e = &entries[i];
        assert(names_of(entries@)[i as int] == e.name@);
        assert(ns.contains(e.name@));
        assert(crate::vfs::is_child(vfs@, abs@, e.name@));
        assert(crate::vfs::entry_matches(vfs@, abs@, entries@[i as int]));
        let child = Vfs::child_path(abs, e.name.as_str());
        assert(vfs@.dom().contains(child@));
        assert(child@.len() > abs@.len()) by {
            assert(crate::path::dir_prefix(abs@).len() >= abs@.len());
        }
        let ghost before = out@;
        let ghost n = e.name@;
        let ghost c = child@;
        let ghost cs_spec = if shown@ == "."@ { n } else { shown@ + seq!['/'] + n };
        if e.is_dir {
            let cs = shown_child(shown, dot, e.name.as_str());
            let cshown = string_of(cs.as_slice());
            let size = dir_size(vfs, child.as_str(), Ghost((fuel - 1) as nat));
            push_size_line(out, size, human, cs.as_slice());
            collect_sizes(vfs, child.as_str(), cshown.as_str(), human, out, Ghost((fuel - 1) as nat));
            proof {
                let here = format_size_spec(capped(dir_size_spec(vfs@, c, (fuel - 1) as nat)), human) + seq!['\t'] + cs_spec + seq!['\n']
                    + du_lines(vfs@, c, cs_spec, human, (fuel - 1) as nat, 0);
                assert(out@ =~= before + here);
                assert(du_lines(vfs@, abs@, shown@, human, fuel, i as int) == here + du_lines(vfs@, abs@, shown@, human, fuel, i + 1));
            }
        } else {
            assert(du_lines(vfs@, abs@, shown@, human, fuel, i as int) == Seq::<char>::empty() + du_lines(vfs@, abs@, shown@, human, fuel, i + 1));
        }
        assert(out@ + du_lines(vfs@, abs@, shown@, human, fuel, i + 1) =~= old(out)@ + du_lines(vfs@, abs@, shown@, human, fuel, 0));
        i += 1;
    }
    assert(du_lines(vfs@, abs@, shown@, human, fuel, i as int) =~= Seq::<char>::empty());
    assert(out@ + Seq::<char>::empty() =~= out@);
}

/// Execute `du`.
pub fn execute(vfs: &Vfs, args: &[&str]) -> (r: Result<String, String>)
    ensures
        rv(r) == du_spec(vfs, strs_view(args@)),
{
    let ghost av = strs_view(args@);
    let mut human = false;
    let mut summary = false;
    let mut path: &str = ".";
    let mut i: usize = 0;
    while i < args.len()
        invariant
            i <= args@.len(),
            av == strs_view(args@),
            du_args(av, 0, false, false, "."@) == du_args(av, i as int, human, summary, path@),
        decreases args.len() - i,
    {
        assert(av[i as int] == args@[i as int]@);
        if str_eq(args[i], "-h") {
            human = true;
        } else if str_eq(args[i], "-s") {
            summary = true;
        } else if !crate::text::str_starts_with_char(args[i], '-') {
            path = args[i];
        } else {
            let mut m: Vec<char> = Vec::new();
            push_str(&mut m, "du: unknown option: ");
            push_str(&mut m, args[i]);
            return Err(string_of(m.as_slice()));
        }
        i += 1;
    }
    assert(du_args(av, 0, false, false, "."@) == Ok::<(bool, bool, Seq<char>), Seq<char>>((human, summary, path@)));
    let k = vfs.resolve_path(path).unwrap();
    proof {
        crate::path::lemma_resolve_is_normal(vfs.cwd@, path@);
    }
    assert(k@ == vfs.key(path@));
    let ghost fuel = fs_bound(vfs@) + 1;
    let mut out: Vec<char> = Vec::new();
    if !summary {
        collect_sizes(vfs, k.as_str(), path, human, &mut out, Ghost(fuel));
    }
    assert(out@ == (if summary { Seq::<char>::empty() } else { du_lines(vfs@, k@, path@, human, fuel, 0) }));
    let total = dir_size(vfs, k.as_str(), Ghost(fuel));
    let pc = chars_of(path);
    push_size_line(&mut out, total, human, pc.as_slice());
    assert(out@ =~= du_spec(vfs, av)->Ok_0);
    Ok(string_of(out.as_slice()))
}

/// The `du` command.
pub struct DuCommand;

impl Command for DuCommand {
    fn name(&self) -> (r: &'static str)
        ensures
            r@ == "du"@,
    {
        "du"
    }

    fn description(&self) -> (r: &'static str)
        ensures
            r@ == "Estimate disk usage (-h human-readable, -s summary)"@,
    {
        "Estimate disk usage (-h human-readable, -s summary)"
    }

    fn accepts_stdin(&self) -> (r: bool)
        ensures
            !r,
    {
        false
    }

    fn execute(&self, ctx: &mut CommandContext) -> (r: Result<String, String>)
        ensures
            meets(outcome(CommandKind::Du, state_of(old(ctx))), r, final(ctx)),
    {
        proof {
            lemma_vfs_of(ctx);
        }
        execute(ctx.vfs, ctx.args)
    }

    fn synopsis(&self) -> (r: &'static str)
        ensures
            r@ == "du [-h] [-s] [path]"@,
    {
        "du [-h] [-s] [path]"
    }

    fn man_description(&self) -> (r: &'static str)
        ensures
            r@ == "Estimate disk usage of files and directories by recursively walking the VFS tree. The -h flag displays sizes in human-readable format (K for kilobytes, M for megabytes). The -s flag shows only a summary total for the specified path rather than per-subdirectory breakdown."@,
    {
        "Estimate disk usage of files and directories by recursively walking the VFS tree. The -h flag displays sizes in human-readable format (K for kilobytes, M for megabytes). The -s flag shows only a summary total for the specified path rather than per-subdirectory breakdown."
    }

    fn examples(&self) -> (r: &'static [&'static str])
        ensures
            strs_view(r@) == seq!["du"@, "du -h /home"@, "du -s ."@],
    {
        let r: &'static [&'static str] = &["du", "du -h /home", "du -s ."];
        assert(r@ == seq!["du", "du -h /home", "du -s ."]);
        r
    }
}

/// The total byte length of the contents of the nodes `s` of `fs`.
pub open spec fn bytes_in(fs: FsView, s: Set<Seq<char>>) -> nat
    decreases s.len(),
{
    if s.finite() && s.len() > 0 {
        let x = s.choose();
        proof {
            vstd::set_lib::lemma_set_empty_equivalency_len(s);
        }
        byte_len(fs[x].1) + bytes_in(fs, s.remove(x))
    } else {
        0
    }
}

proof fn lemma_bytes_remove(fs: FsView, s: Set<Seq<char>>, x: Seq<char>)
    requires
        s.finite(),
        s.contains(x),
    ensures
        bytes_in(fs, s) == byte_len(fs[x].1) + bytes_in(fs, s.remove(x)),
    decreases s.len(),
{
    vstd::set_lib::lemma_set_empty_equivalency_len(s);
    let y = s.choose();
    if y != x {
        lemma_bytes_remove(fs, s.remove(y), x);
        lemma_bytes_remove(fs, s.remove(x), y);
        assert(s.remove(y).remove(x) =~= s.remove(x).remove(y));
    }
}

proof fn lemma_bytes_union(fs: FsView, a: Set<Seq<char>>, b: Set<Seq<char>>)
    requires
        a.finite(),
        b.finite(),
        a.disjoint(b),
    ensures
        bytes_in(fs, a + b) == bytes_in(fs, a) + bytes_in(fs, b),
    decreases a.len(),
{
    vstd::set_lib::lemma_set_empty_equivalency_len(a);
    if a.len() == 0 {
        assert(a + b =~= b);
    } else {
        let x = a.choose();
        lemma_bytes_remove(fs, a, x);
        lemma_bytes_remove(fs, a + b, x);
        assert((a + b).remove(x) =~= a.remove(x) + b);
        lemma_bytes_union(fs, a.remove(x), b);
    }
}

proof fn lemma_bytes_one(fs: FsView, x: Seq<char>)
    ensures
        bytes_in(fs, set![x]) == byte_len(fs[x].1),
        bytes_in(fs, Set::<Seq<char>>::empty()) == 0,
{
    lemma_bytes_remove(fs, set![x], x);
    assert(set![x].remove(x) =~= Set::<Seq<char>>::empty());
}

proof fn lemma_total_from(fs: FsView, d: Seq<char>, fuel: nat, i: int, b: nat)
    requires
        well_formed_tree(fs),
        fs.dom().finite(),
        forall|k: Seq<char>| #[trigger] fs.dom().contains(k) ==> k.len() <= b,
        fs.dom().contains(d),
        fs[d].0,
        d.len() + fuel > b,
        0 <= i <= children(fs, d).len(),
    ensures
        du_total(fs, d, fuel, i) == bytes_in(fs, within_from(fs, d, i, false)),
    decreases fuel, children(fs, d).len() - i,
{
    let ns = children(fs, d);
    assert(within_from(fs, d, i, false).subset_of(fs.dom()));
    vstd::set_lib::lemma_set_subset_finite(fs.dom(), within_from(fs, d, i, false));
    lemma_bytes_one(fs, d);
    if i == ns.len() {
        assert(within_from(fs, d, i, false) =~= Set::<Seq<char>>::empty());
    } else {
        assert(fuel > 0);
        lemma_names_in_children(fs, d, i);
        let n = ns[i];
        let c = child_of(d, n);
        lemma_child_below(d, n);
        lemma_total_from(fs, d, fuel, i + 1, b);
        lemma_within_entry(fs, c, false);
        let below_part = below_set(fs, c, false);
        assert(below_part.subset_of(fs.dom()));
        vstd::set_lib::lemma_set_subset_finite(fs.dom(), below_part);
        let one: Set<Seq<char>> = if !fs[c].0 { set![c] } else { Set::empty() };
        lemma_bytes_one(fs, c);
        if fs[c].0 {
            lemma_total_from(fs, c, (fuel - 1) as nat, 0, b);
            lemma_within_all(fs, c, false);
            assert(one + below_part =~= below_part);
        } else {
            assert(below_part =~= Set::<Seq<char>>::empty());
            assert(one + below_part =~= one);
        }
        let sc = within_set(fs, c, false);
        let rest = within_from(fs, d, i + 1, false);
        assert(sc.disjoint(rest)) by {
            assert forall|k: Seq<char>| !(sc.contains(k) && rest.contains(k)) by {
                if sc.contains(k) && rest.contains(k) {
                    let j = choose|j: int| i + 1 <= j < ns.len() && #[trigger] within(k, child_of(d, ns[j]));
                    lemma_names_in_children(fs, d, j);
                    lemma_within_disjoint(k, d, n, ns[j]);
                }
            }
        }
        assert(sc.subset_of(fs.dom()));
        vstd::set_lib::lemma_set_subset_finite(fs.dom(), sc);
        vstd::set_lib::lemma_set_subset_finite(fs.dom(), rest);
        lemma_bytes_union(fs, sc, rest);
        assert(within_from(fs, d, i, false) =~= sc + rest) by {
            assert forall|k: Seq<char>| within_from(fs, d, i, false).contains(k) implies (sc + rest).contains(k) by {
                let j = choose|j: int| i <= j < ns.len() && #[trigger] within(k, child_of(d, ns[j]));
                if j > i {
                    assert(rest.contains(k));
                }
            }
            assert forall|k: Seq<char>| (sc + rest).contains(k) implies within_from(fs, d, i, false).contains(k) by {
                if sc.contains(k) {
                    assert(within(k, child_of(d, ns[i])));
                } else {
                    let j = choose|j: int| i + 1 <= j < ns.len() && #[trigger] within(k, child_of(d, ns[j]));
                    assert(i <= j < ns.len() && within(k, child_of(d, ns[j])));
                }
            }
        }
        assert(sc == one + below_part);
    }
}

/// The size `du` gives a directory is the sum of the byte lengths of the
/// contents of all files anywhere below it (for a file system of the usual
/// shape); a file's size is its byte length.
pub proof fn law_du_size(fs: FsView, d: Seq<char>)
    requires
        well_formed_tree(fs),
        fs.dom().finite(),
        crate::vfs::bounds(fs, fs_bound(fs)),
        fs.dom().contains(d),
    ensures
        dir_size_spec(fs, d, fs_bound(fs) + 1) == (if fs[d].0 {
            bytes_in(fs, below_set(fs, d, false))
        } else {
            byte_len(fs[d].1)
        }),
{
    if fs[d].0 {
        assert(d.len() <= fs_bound(fs));
        lemma_children_exist(fs, d);
        lemma_total_from(fs, d, fs_bound(fs) + 1, 0, fs_bound(fs));
        lemma_within_all(fs, d, false);
    }
}

/// A directory is at least as large as each directory below it.
pub proof fn law_du_monotone(fs: FsView, d: Seq<char>, e: Seq<char>)
    requires
        well_formed_tree(fs),
        fs.dom().finite(),
        crate::vfs::bounds(fs, fs_bound(fs)),
        fs.dom().contains(d),
        fs[d].0,
        fs.dom().contains(e),
        fs[e].0,
        below(e, d),
    ensures
        dir_size_spec(fs, e, fs_bound(fs) + 1) <= dir_size_spec(fs, d, fs_bound(fs) + 1),
{
    law_du_size(fs, d);
    law_du_size(fs, e);
    let a = below_set(fs, e, false);
    let t = below_set(fs, d, false);
    assert(a.subset_of(t)) by {
        assert forall|k: Seq<char>| a.contains(k) implies t.contains(k) by {
            lemma_below_trans(k, e, d);
        }
    }
    vstd::set_lib::lemma_set_subset_finite(fs.dom(), t);
    vstd::set_lib::lemma_set_subset_finite(fs.dom(), a);
    lemma_bytes_union(fs, a, t.difference(a));
    assert(a + t.difference(a) =~= t);
}

/// What lies below something below `d` lies below `d`.
proof fn lemma_below_trans(k: Seq<char>, e: Seq<char>, d: Seq<char>)
    requires
        below(k, e),
        below(e, d),
        e[0] == '/',
        e.len() > 0,
    ensures
        below(k, d),
{
    lemma_prefix_len(e);
    lemma_prefix_len(d);
    let pd = dir_prefix(d);
    let pe = dir_prefix(e);
    assert(pe.len() >= e.len());
    assert(e.len() >= pd.len());
    assert(k.take(pd.len() as int) =~= pd) by {
        assert forall|i: int| 0 <= i < pd.len() implies k.take(pd.len() as int)[i] == pd[i] by {
            assert(k.take(pe.len() as int)[i] == pe[i]);
            if e == root() {
            } else {
                assert(pe[i] == e[i]);
            }
            assert(e.take(pd.len() as int)[i] == e[i]);
        }
    }
    assert(k.len() > e.len() || k.len() >= pe.len());
}

} // verus!
