//! `cp src dst` -- copy a file or a directory tree.
//!
//! When `dst` is a directory the copy is made inside it under the source's
//! name. Reading the source and writing in the destination's directory
//! must be allowed; everything created belongs to the calling user. A
//! directory is copied entry by entry, in walk order (name order, a
//! directory before what is below it).
use vstd::prelude::*;
use crate::text::{strs_view, chars_of, string_of, to_owned_string, push_str, push_all, copy_chars, vv};
use crate::path::{resolve, child_of, parent_of, name_of, is_normal, dir_prefix, root, path_of, clean_comp,
    clean_stack, lemma_child_path_of, lemma_normal_fixed};
use crate::text::has_char;
use crate::command::tree::{below, within, is_name, well_formed_tree, lemma_prefix_len, lemma_child_below,
    lemma_within_below, lemma_within_disjoint, lemma_cover, lemma_names_in_children, lemma_children_exist};
use crate::permissions::{AccessMode, access_allowed, check_access};
use crate::vfs::{Vfs, FsView, Meta, rv, children, fs_bound, names_of, write_spec, mkdir_spec, listing, bounds,
    entry_matches, is_child};
use crate::command::kinds::outcome;
use crate::command::{Command, CommandContext, CommandKind, state_of, meets, lemma_vfs_of};

verus! {

/// One step of a tree copy: the path to create, whether it is a
/// directory, and the contents of a file.
pub type PlanItem = (Seq<char>, bool, Seq<char>);

/// The steps for copying the entries `children(fs, dir)[i..]` of `dir` and
/// everything below them into `dst`.
pub open spec fn plan_from(fs: FsView, dir: Seq<char>, dst: Seq<char>, fuel: nat, i: int) -> Seq<PlanItem>
    decreases fuel, children(fs, dir).len() - i,
{
    let ns = children(fs, dir);
    if fuel == 0 || i < 0 || i >= ns.len() || !fs.dom().contains(dir) || !fs[dir].0 {
        Seq::empty()
    } else {
        let n = ns[i];
        let c = child_of(dir, n);
        let t = child_of(dst, n);
        let is_dir = fs.dom().contains(c) && fs[c].0;
        let item = (t, is_dir, if is_dir || !fs.dom().contains(c) { Seq::empty() } else { fs[c].1 });
        let below = if is_dir {
            plan_from(fs, c, t, (fuel - 1) as nat, 0)
        } else {
            Seq::empty()
        };
        seq![item] + below + plan_from(fs, dir, dst, fuel, i + 1)
    }
}

/// The steps for copying the directory `src` to `dst`: `dst` itself, then
/// everything below `src`.
pub open spec fn tree_plan(fs: FsView, src: Seq<char>, dst: Seq<char>) -> Seq<PlanItem> {
    seq![(dst, true, Seq::<char>::empty())] + plan_from(fs, src, dst, fs_bound(fs) + 1, 0)
}

/// `fs` with the node at `k` owned by `uid:gid`.
pub open spec fn with_owner(fs: FsView, k: Seq<char>, uid: u32, gid: u32) -> FsView {
    if fs.dom().contains(k) {
        fs.insert(k, (fs[k].0, fs[k].1, Meta { uid, gid, ..fs[k].2 }))
    } else {
        fs
    }
}

/// What one step does; `owner` gives the new node to `uid:gid`, and a
/// failed write is reported after `tag`.
pub open spec fn apply_item(fs: FsView, cwd: Seq<char>, item: PlanItem, owner: Option<(u32, u32)>, tag: Seq<char>) -> Result<FsView, Seq<char>> {
    let k = resolve(cwd, item.0);
    let made = if item.1 {
        mkdir_spec(fs, k, 0, 0)
    } else {
        match write_spec(fs, k, item.2) {
            Ok(m) => Ok(m),
            Err(e) => Err(tag + e),
        }
    };
    match made {
        Err(e) => Err(e),
        Ok(m) => match owner {
            Some((u, g)) => Ok(with_owner(m, k, u, g)),
            None => Ok(m),
        },
    }
}

/// The file system after the steps `plan` in order, and the error that
/// stopped them, if any.
pub open spec fn apply_plan(fs: FsView, cwd: Seq<char>, plan: Seq<PlanItem>, owner: Option<(u32, u32)>, tag: Seq<char>) -> (FsView, Option<Seq<char>>)
    decreases plan.len(),
{
    if plan.len() == 0 {
        (fs, None)
    } else {
        let prev = apply_plan(fs, cwd, plan.drop_last(), owner, tag);
        if prev.1 is Some {
            prev
        } else {
            match apply_item(prev.0, cwd, plan.last(), owner, tag) {
                Ok(m) => (m, None),
                Err(e) => (prev.0, Some(e)),
            }
        }
    }
}

/// Where a copy or move of `src` to `dst` lands: inside `dst` when that is
/// a directory.
pub open spec fn landing(fs: FsView, cwd: Seq<char>, src: Seq<char>, dst: Seq<char>) -> Seq<char> {
    let d = resolve(cwd, dst);
    if fs.dom().contains(d) && fs[d].0 {
        child_of(d, name_of(resolve(cwd, src)))
    } else {
        d
    }
}

/// The file system after `cp` by `uid:gid` and its result.
pub open spec fn cp_spec(fs: FsView, cwd: Seq<char>, args: Seq<Seq<char>>, uid: u32, gid: u32) -> (FsView, Result<Seq<char>, Seq<char>>) {
    if args.len() < 2 {
        (fs, Err("cp: missing destination operand"@))
    } else {
        let s = resolve(cwd, args[0]);
        let act = landing(fs, cwd, args[0], args[1]);
        let pk = resolve(cwd, parent_of(act));
        if !fs.dom().contains(s) {
            (fs, Err("cp: cannot stat '"@ + args[0] + "': No such file or directory"@))
        } else if !access_allowed(fs[s].2, AccessMode::Read, uid, gid) {
            (fs, Err("Permission denied"@))
        } else if fs.dom().contains(pk) && !access_allowed(fs[pk].2, AccessMode::Write, uid, gid) {
            (fs, Err("Permission denied"@))
        } else {
            let plan = if fs[s].0 {
                tree_plan(fs, s, act)
            } else {
                seq![(act, false, fs[s].1)]
            };
            let run = apply_plan(fs, cwd, plan, Some((uid, gid)), "cp: "@);
            match run.1 {
                Some(e) => (run.0, Err(e)),
                None => (run.0, Ok(Seq::empty())),
            }
        }
    }
}

/// The view of an executable plan.
pub open spec fn planv(p: Seq<(Vec<char>, bool, Vec<char>)>) -> Seq<PlanItem> {
    p.map_values(|x: (Vec<char>, bool, Vec<char>)| (x.0@, x.1, x.2@))
}

/// Append the steps for copying what is below the directory `dir` into
/// `dst`.
pub fn collect_plan(vfs: &Vfs, dir: &str, dst: &[char], plan: &mut Vec<(Vec<char>, bool, Vec<char>)>, Ghost(fuel): Ghost<nat>)
    requires
        is_normal(dir@),
        dir@.len() + fuel > fs_bound(vfs@),
    ensures
        planv(final(plan)@) == planv(old(plan)@) + plan_from(vfs@, dir@, dst@, fuel, 0),
    decreases fuel,
{
    vfs.invariants();
    proof {
        crate::path::lemma_normal_fixed(vfs.cwd@, dir@);
    }
    let entries = match vfs.list_dir(dir) {
        Ok(e) => e,
        Err(_) => {
            assert(planv(plan@) =~= planv(old(plan)@) + Seq::<PlanItem>::empty());
            return;
        },
    };
    let ghost ns = children(vfs@, dir@);
    let mut i: usize = 0;
    assert(planv(plan@) + plan_from(vfs@, dir@, dst@, fuel, 0) =~= planv(old(plan)@) + plan_from(vfs@, dir@, dst@, fuel, 0));
    while i < entries.len()
        invariant
            i <= entries@.len(),
            names_of(entries@) == ns,
            ns == children(vfs@, dir@),
            vfs@.dom().contains(dir@) && vfs@[dir@].0,
            fuel > 0,
            dir@.len() + fuel > fs_bound(vfs@),
            forall|k: Seq<char>| #[trigger] vfs@.dom().contains(k) ==> is_normal(k) && k.len() <= fs_bound(vfs@),
            listing(vfs@, dir@, entries@),
            planv(plan@) + plan_from(vfs@, dir@, dst@, fuel, i as int) == planv(old(plan)@) + plan_from(vfs@, dir@, dst@, fuel, 0),
        decreases entries.len() - i,
    {
        let e = &entries[i];
        assert(names_of(entries@)[i as int] == e.name@);
        assert(ns.contains(e.name@));
        assert(is_child(vfs@, dir@, e.name@));
        assert(entry_matches(vfs@, dir@, entries@[i as int]));
        let child = Vfs::child_path(dir, e.name.as_str());
        assert(vfs@.dom().contains(child@));
        assert(child@.len() > dir@.len()) by {
            assert(crate::path::dir_prefix(dir@).len() >= dir@.len());
        }
        proof {
            crate::path::lemma_normal_fixed(vfs.cwd@, child@);
        }
        let nc = chars_of(e.name.as_str());
        let t = crate::path::child_path_chars(dst, nc.as_slice());
        let ghost before = planv(plan@);
        let content: Vec<char> = if e.is_dir {
            Vec::new()
        } else {
            let c = vfs.read_file(child.as_str()).unwrap();
            chars_of(c.as_str())
        };
        plan.push((copy_chars(t.as_slice()), e.is_dir, content));
        let ghost mid = planv(plan@);
        assert(mid =~= before.push((t@, e.is_dir, content@)));
        if e.is_dir {
            collect_plan(vfs, child.as_str(), t.as_slice(), plan, Ghost((fuel - 1) as nat));
        }
        proof {
            let item = (t@, vfs@[child@].0, if vfs@[child@].0 { Seq::<char>::empty() } else { vfs@[child@].1 });
            assert(content@ == item.2);
            let below = if vfs@[child@].0 {
                plan_from(vfs@, child@, t@, (fuel - 1) as nat, 0)
            } else {
                Seq::<PlanItem>::empty()
            };
            assert(planv(plan@) == mid + below);
            assert(plan_from(vfs@, dir@, dst@, fuel, i as int) == seq![item] + below + plan_from(vfs@, dir@, dst@, fuel, i + 1));
            assert(planv(plan@) + plan_from(vfs@, dir@, dst@, fuel, i + 1) =~= before + plan_from(vfs@, dir@, dst@, fuel, i as int));
        }
        i += 1;
    }
    assert(plan_from(vfs@, dir@, dst@, fuel, i as int) =~= Seq::<PlanItem>::empty());
    assert(planv(plan@) + Seq::<PlanItem>::empty() =~= planv(plan@));
}

/// Carrying out a plan never removes a node.
pub proof fn lemma_apply_keeps(fs: FsView, cwd: Seq<char>, plan: Seq<PlanItem>, owner: Option<(u32, u32)>, tag: Seq<char>, k: Seq<char>)
    requires
        fs.dom().contains(k),
    ensures
        apply_plan(fs, cwd, plan, owner, tag).0.dom().contains(k),
    decreases plan.len(),
{
    if plan.len() > 0 {
        lemma_apply_keeps(fs, cwd, plan.drop_last(), owner, tag, k);
    }
}

proof fn lemma_apply_stop(fs: FsView, cwd: Seq<char>, plan: Seq<PlanItem>, k: int, owner: Option<(u32, u32)>, tag: Seq<char>)
    requires
        0 <= k <= plan.len(),
        apply_plan(fs, cwd, plan.take(k), owner, tag).1 is Some,
    ensures
        apply_plan(fs, cwd, plan, owner, tag) == apply_plan(fs, cwd, plan.take(k), owner, tag),
    decreases plan.len(),
{
    if k == plan.len() {
        assert(plan.take(k) == plan);
    } else {
        assert(plan.drop_last().take(k) == plan.take(k));
        lemma_apply_stop(fs, cwd, plan.drop_last(), k, owner, tag);
    }
}

/// Carry out one step.
fn do_item(vfs: &mut Vfs, item: &(Vec<char>, bool, Vec<char>), owner: Option<(u32, u32)>, tag: &str) -> (r: Result<(), String>)
    ensures
        final(vfs).cwd == old(vfs).cwd,
        match apply_item(old(vfs)@, old(vfs).cwd@, (item.0@, item.1, item.2@), owner, tag@) {
            Ok(m) => r is Ok && final(vfs)@ == m,
            Err(e) => r is Err && r->Err_0@ == e && final(vfs)@ == old(vfs)@,
        },
{
    let p = string_of(item.0.as_slice());
    if item.1 {
        vfs.mkdir(p.as_str())?;
    } else {
        let c = string_of(item.2.as_slice());
        match vfs.write_file(p.as_str(), c.as_str()) {
            Ok(()) => {},
            Err(e) => {
                let mut m = chars_of(tag);
                push_str(&mut m, e.as_str());
                return Err(string_of(m.as_slice()));
            },
        }
    }
    match owner {
        Some((u, g)) => {
            match vfs.get_meta(p.as_str()) {
                Some(meta) => {
                    let ok = vfs.set_meta(p.as_str(), Meta { uid: u, gid: g, ..meta });
                },
                None => {},
            }
        },
        None => {},
    }
    Ok(())
}

/// Carry out the steps of a plan in order, stopping at the first failure.
pub fn run_plan(vfs: &mut Vfs, plan: &Vec<(Vec<char>, bool, Vec<char>)>, owner: Option<(u32, u32)>, tag: &str) -> (r: Result<(), String>)
    ensures
        final(vfs).cwd == old(vfs).cwd,
        final(vfs)@ == apply_plan(old(vfs)@, old(vfs).cwd@, planv(plan@), owner, tag@).0,
        match apply_plan(old(vfs)@, old(vfs).cwd@, planv(plan@), owner, tag@).1 {
            Some(e) => r is Err && r->Err_0@ == e,
            None => r is Ok,
        },
{
    let ghost pv = planv(plan@);
    let ghost fs0 = vfs@;
    let ghost cwd = vfs.cwd@;
    let mut k: usize = 0;
    while k < plan.len()
        invariant
            k <= plan@.len(),
            pv == planv(plan@),
            vfs.cwd == old(vfs).cwd,
            fs0 == old(vfs)@,
            cwd == old(vfs).cwd@,
            vfs.cwd@ == cwd,
            apply_plan(fs0, cwd, pv.take(k as int), owner, tag@) == (vfs@, None::<Seq<char>>),
        decreases plan.len() - k,
    {
        assert(pv.take(k + 1).drop_last() == pv.take(k as int));
        assert(pv.take(k + 1).last() == (plan@[k as int].0@, plan@[k as int].1, plan@[k as int].2@));
        match do_item(vfs, &plan[k], owner, tag) {
            Ok(()) => {},
            Err(e) => {
                proof {
                    lemma_apply_stop(fs0, cwd, pv, k + 1, owner, tag@);
                }
                return Err(e);
            },
        }
        k += 1;
    }
    assert(pv.take(plan@.len() as int) == pv);
    Ok(())
}

/// The landing place of a copy or move, unresolved.
pub fn landing_path(vfs: &Vfs, src: &str, dst: &str) -> (r: String)
    ensures
        r@ == landing(vfs@, vfs.cwd@, src@, dst@),
{
    let d = vfs.resolve_path(dst).unwrap();
    if vfs.is_dir(dst) {
        let s = vfs.resolve_path(src).unwrap();
        let sc = chars_of(s.as_str());
        let (_, name) = crate::path::split_parent(sc.as_slice());
        let dc = chars_of(d.as_str());
        let t = crate::path::child_path_chars(dc.as_slice(), name.as_slice());
        string_of(t.as_slice())
    } else {
        d
    }
}

/// The metadata of the directory containing the unresolved path `p`.
pub fn parent_meta_of(vfs: &Vfs, p: &str) -> (r: Option<Meta>)
    ensures
        r == (if vfs@.dom().contains(resolve(vfs.cwd@, parent_of(p@))) {
            Some(vfs@[resolve(vfs.cwd@, parent_of(p@))].2)
        } else {
            None
        }),
{
    let pc = chars_of(p);
    let (parent, _) = crate::path::split_parent(pc.as_slice());
    let ps = string_of(parent.as_slice());
    vfs.get_meta(ps.as_str())
}

/// Execute `cp` as `uid:gid`.
pub fn execute(vfs: &mut Vfs, args: &[&str], uid: u32, gid: u32) -> (r: Result<String, String>)
    ensures
        final(vfs).cwd == old(vfs).cwd,
        final(vfs)@ == cp_spec(old(vfs)@, old(vfs).cwd@, strs_view(args@), uid, gid).0,
        rv(r) == cp_spec(old(vfs)@, old(vfs).cwd@, strs_view(args@), uid, gid).1,
{
    if args.len() < 2 {
        return Err(to_owned_string("cp: missing destination operand"));
    }
    let ghost av = strs_view(args@);
    assert(av[0] == args@[0]@ && av[1] == args@[1]@);
    let src = args[0];
    let dst = args[1];
    if !vfs.exists_path(src) {
        let mut m: Vec<char> = Vec::new();
        push_str(&mut m, "cp: cannot stat '");
        push_str(&mut m, src);
        push_str(&mut m, "': No such file or directory");
        return Err(string_of(m.as_slice()));
    }
    let smeta = vfs.get_meta(src).unwrap();
    check_access(&smeta, AccessMode::Read, uid, gid)?;
    let act = landing_path(vfs, src, dst);
    match parent_meta_of(vfs, act.as_str()) {
        Some(pm) => {
            check_access(&pm, AccessMode::Write, uid, gid)?;
        },
        None => {},
    }
    let ac = chars_of(act.as_str());
    let mut plan: Vec<(Vec<char>, bool, Vec<char>)> = Vec::new();
    if vfs.is_dir(src) {
        vfs.invariants();
        let s = vfs.resolve_path(src).unwrap();
        proof {
            crate::path::lemma_resolve_is_normal(vfs.cwd@, src@);
        }
        plan.push((copy_chars(ac.as_slice()), true, Vec::new()));
        assert(planv(plan@) =~= seq![(act@, true, Seq::<char>::empty())]);
        collect_plan(vfs, s.as_str(), ac.as_slice(), &mut plan, Ghost(fs_bound(vfs@) + 1));
        assert(planv(plan@) == tree_plan(vfs@, s@, act@));
    } else {
        let c = vfs.read_file(src).unwrap();
        plan.push((copy_chars(ac.as_slice()), false, chars_of(c.as_str())));
        assert(planv(plan@) =~= seq![(act@, false, c@)]);
    }
    run_plan(vfs, &plan, Some((uid, gid)), "cp: ")?;
    Ok(String::new())
}

/// The `cp` command.
pub struct CpCommand;

impl Command for CpCommand {
    fn name(&self) -> (r: &'static str)
        ensures
            r@ == "cp"@,
    {
        "cp"
    }

    fn description(&self) -> (r: &'static str)
        ensures
            r@ == "Copy files or directories"@,
    {
        "Copy files or directories"
    }

    fn accepts_stdin(&self) -> (r: bool)
        ensures
            !r,
    {
        false
    }

    fn execute(&self, ctx: &mut CommandContext) -> (r: Result<String, String>)
        ensures
            meets(outcome(CommandKind::Cp, state_of(old(ctx))), r, final(ctx)),
    {
        proof {
            lemma_vfs_of(ctx);
        }
        execute(ctx.vfs, ctx.args, ctx.uid, ctx.gid)
    }

    fn synopsis(&self) -> (r: &'static str)
        ensures
            r@ == "cp source destination"@,
    {
        "cp source destination"
    }

    fn man_description(&self) -> (r: &'static str)
        ensures
            r@ == "Copy a file or directory from source to destination. If the destination is an existing directory, \
the source is copied into that directory preserving its original name. The source file remains intact \
after the copy operation."@,
    {
        "Copy a file or directory from source to destination. If the destination is an existing directory, \
the source is copied into that directory preserving its original name. The source file remains intact \
after the copy operation."
    }

    fn examples(&self) -> (r: &'static [&'static str])
        ensures
            strs_view(r@) == seq!["cp file.txt backup.txt"@, "cp file.txt /tmp/"@],
    {
        let r: &'static [&'static str] = &["cp file.txt backup.txt", "cp file.txt /tmp/"];
        assert(r@ == seq!["cp file.txt backup.txt", "cp file.txt /tmp/"]);
        r
    }
}

// ---------------------------------------------------------------------------
// A directory copy mirrors its source
// ---------------------------------------------------------------------------

/// Where `k`, below the directory `s`, lands in a copy of `s` made at `t`.
pub open spec fn relocated(k: Seq<char>, s: Seq<char>, t: Seq<char>) -> Seq<char> {
    dir_prefix(t) + k.skip(dir_prefix(s).len() as int)
}

/// Equal paths ending in names after a `/` end in the same name.
pub(crate) proof fn lemma_same_last_name(a: Seq<char>, n: Seq<char>, b: Seq<char>, l: Seq<char>)
    requires
        a.len() > 0 && a[a.len() - 1] == '/',
        b.len() > 0 && b[b.len() - 1] == '/',
        !has_char(n, '/'),
        !has_char(l, '/'),
        a + n == b + l,
    ensures
        n == l,
{
    let w = a + n;
    let v = b + l;
    assert(w == v);
    assert(w.len() == a.len() + n.len() && v.len() == b.len() + l.len());
    if n.len() < l.len() {
        let i = a.len() - 1;
        assert(w[i] == a[i]);
        assert(v[i] == l[i - b.len()]);
        assert(l.contains(l[i - b.len()]));
    } else if n.len() > l.len() {
        let i = b.len() - 1;
        assert(v[i] == b[i]);
        assert(w[i] == n[i - a.len()]);
    } else {
        assert(n =~= l) by {
            assert forall|i: int| 0 <= i < n.len() implies n[i] == l[i] by {
                assert(w[a.len() + i] == n[i]);
                assert(v[b.len() + i] == l[i]);
            }
        }
    }
}

/// The name of an entry whose path is normalized is a clean component, and
/// the same entry of another normalized directory is normalized.
proof fn lemma_clean_entry(d: Seq<char>, n: Seq<char>, e: Seq<char>)
    requires
        is_name(n),
        is_normal(child_of(d, n)),
        is_normal(e),
    ensures
        clean_comp(n),
        is_normal(child_of(e, n)),
{
    let t = choose|t: Seq<Seq<char>>| clean_stack(t) && path_of(t) == child_of(d, n);
    lemma_prefix_len(d);
    if t.len() == 0 {
        assert(path_of(t) =~= seq!['/']);
        assert(false);
    }
    let t0 = t.drop_last();
    assert(clean_stack(t0));
    assert(t0.push(t.last()) =~= t);
    lemma_child_path_of(t0, t.last());
    lemma_prefix_len(path_of(t0));
    assert(clean_comp(t.last()));
    lemma_same_last_name(dir_prefix(d), n, dir_prefix(path_of(t0)), t.last());
    let u = choose|u: Seq<Seq<char>>| clean_stack(u) && path_of(u) == e;
    lemma_child_path_of(u, n);
    assert(clean_stack(u.push(n)));
}

/// Moving from a directory to one of its entries leaves where things land
/// unchanged.
proof fn lemma_relocated_step(k: Seq<char>, d: Seq<char>, t: Seq<char>, n: Seq<char>)
    requires
        is_name(n),
        within(k, child_of(d, n)),
    ensures
        relocated(k, d, t) == (if k == child_of(d, n) { child_of(t, n) } else { relocated(k, child_of(d, n), child_of(t, n)) }),
{
    let c = child_of(d, n);
    let pd = dir_prefix(d);
    lemma_child_below(d, n);
    lemma_child_below(t, n);
    if k == c {
        assert(k.skip(pd.len() as int) =~= n);
    } else {
        assert(k.take(c.len() as int + 1) == c.push('/'));
        assert(relocated(k, d, t) =~= relocated(k, c, child_of(t, n))) by {
            let l = relocated(k, d, t);
            let r = relocated(k, c, child_of(t, n));
            let pt = dir_prefix(t);
            assert(l.len() == r.len());
            assert forall|i: int| 0 <= i < l.len() implies l[i] == r[i] by {
                if i < pt.len() {
                } else if i < pt.len() + n.len() + 1 {
                    assert(k.take(c.len() as int + 1)[pd.len() + (i - pt.len())] == k[pd.len() + (i - pt.len())]);
                } else {
                }
            }
        }
    }
}

/// Two paths with a common path within both of them are nested.
proof fn lemma_within_nested(k: Seq<char>, a: Seq<char>, b: Seq<char>)
    requires
        a.len() > 0 && a[0] == '/',
        b.len() > 0 && b[0] == '/',
        within(k, a),
        within(k, b),
    ensures
        within(a, b) || within(b, a),
{
    lemma_prefix_len(a);
    lemma_prefix_len(b);
    if a.len() <= b.len() {
        lemma_nested_prefix(k, a, b);
    } else {
        lemma_nested_prefix(k, b, a);
    }
}

proof fn lemma_nested_prefix(k: Seq<char>, a: Seq<char>, b: Seq<char>)
    requires
        a.len() > 0 && a[0] == '/',
        b.len() > 0 && b[0] == '/',
        a.len() <= b.len(),
        within(k, a),
        within(k, b),
    ensures
        within(b, a),
{
    lemma_prefix_len(a);
    lemma_prefix_len(b);
    // `a` and `b` are both prefixes of `k`.
    assert(forall|i: int| 0 <= i < a.len() ==> #[trigger] k[i] == a[i]) by {
        if k != a {
            assert forall|i: int| 0 <= i < a.len() implies #[trigger] k[i] == a[i] by {
                if a == root() {
                    assert(k.take(1)[0] == k[0]);
                } else {
                    assert(k.take(a.len() as int + 1)[i] == k[i]);
                    assert(a.push('/')[i] == a[i]);
                }
            }
        }
    }
    assert(forall|i: int| 0 <= i < b.len() ==> #[trigger] k[i] == b[i]) by {
        if k != b {
            assert forall|i: int| 0 <= i < b.len() implies #[trigger] k[i] == b[i] by {
                if b == root() {
                    assert(k.take(1)[0] == k[0]);
                } else {
                    assert(k.take(b.len() as int + 1)[i] == k[i]);
                    assert(b.push('/')[i] == b[i]);
                }
            }
        }
    }
    if a.len() == b.len() {
        assert(a =~= b) by {
            assert forall|i: int| 0 <= i < a.len() implies a[i] == b[i] by {
                assert(k[i] == a[i]);
                assert(k[i] == b[i]);
            }
        }
    } else if a == root() {
        assert(b.take(1) =~= root()) by {
            assert(b.take(1)[0] == b[0]);
        }
    } else {
        assert(k != a);
        assert(k.take(a.len() as int + 1) == a.push('/'));
        assert(k[a.len() as int] == '/') by {
            assert(k.take(a.len() as int + 1)[a.len() as int] == k[a.len() as int]);
        }
        assert(b.take(a.len() as int + 1) =~= a.push('/')) by {
            assert forall|i: int| 0 <= i < a.len() + 1 implies b.take(a.len() as int + 1)[i] == a.push('/')[i] by {
                assert(k[i] == b[i]);
                if i < a.len() {
                    assert(k[i] == a[i]);
                }
            }
        }
    }
}

/// The step that copies the node `k`, below `d`, into the copy of `d` at
/// `t`.
pub open spec fn copy_item(fs: FsView, k: Seq<char>, d: Seq<char>, t: Seq<char>) -> PlanItem {
    (relocated(k, d, t), fs[k].0, if fs[k].0 { Seq::empty() } else { fs[k].1 })
}

/// Every step of `pl` creates a normalized path within one of the entries
/// `ns[i..]` of `dst`.
pub open spec fn steps_within(pl: Seq<PlanItem>, dst: Seq<char>, ns: Seq<Seq<char>>, i: int) -> bool {
    forall|q: int| 0 <= q < pl.len() ==> is_normal(#[trigger] pl[q].0) && exists|j: int|
        i <= j < ns.len() && #[trigger] within(pl[q].0, child_of(dst, ns[j]))
}

/// No two steps of `pl` create the same path.
pub open spec fn distinct_steps(pl: Seq<PlanItem>) -> bool {
    forall|q1: int, q2: int| 0 <= q1 < q2 < pl.len() ==> #[trigger] pl[q1].0 != #[trigger] pl[q2].0
}

/// `pl` has a step copying each node within the entries `children(fs, d)[i..]`.
pub open spec fn covers(fs: FsView, d: Seq<char>, dst: Seq<char>, pl: Seq<PlanItem>, i: int) -> bool {
    forall|k: Seq<char>, j: int|
        fs.dom().contains(k) && i <= j < children(fs, d).len() && #[trigger] within(k, child_of(d, children(fs, d)[j]))
            ==> exists|q: int| 0 <= q < pl.len() && #[trigger] pl[q] == copy_item(fs, k, d, dst)
}

proof fn lemma_plan_from(fs: FsView, d: Seq<char>, dst: Seq<char>, fuel: nat, i: int, b: nat)
    requires
        well_formed_tree(fs),
        fs.dom().finite(),
        forall|k: Seq<char>| #[trigger] fs.dom().contains(k) ==> k.len() <= b && is_normal(k),
        fs.dom().contains(d),
        fs[d].0,
        d.len() + fuel > b,
        is_normal(dst),
        0 <= i <= children(fs, d).len(),
    ensures
        steps_within(plan_from(fs, d, dst, fuel, i), dst, children(fs, d), i),
        distinct_steps(plan_from(fs, d, dst, fuel, i)),
        covers(fs, d, dst, plan_from(fs, d, dst, fuel, i), i),
    decreases fuel, children(fs, d).len() - i,
{
    let ns = children(fs, d);
    let pl = plan_from(fs, d, dst, fuel, i);
    if i == ns.len() {
        assert(pl.len() == 0);
    } else {
        assert(fuel > 0);
        lemma_names_in_children(fs, d, i);
        let n = ns[i];
        let c = child_of(d, n);
        let tc = child_of(dst, n);
        lemma_child_below(d, n);
        lemma_child_below(dst, n);
        assert(is_normal(c));
        lemma_clean_entry(d, n, dst);
        let is_dir = fs[c].0;
        let item = (tc, is_dir, if is_dir { Seq::empty() } else { fs[c].1 });
        let bl = if is_dir { plan_from(fs, c, tc, (fuel - 1) as nat, 0) } else { Seq::empty() };
        let rest = plan_from(fs, d, dst, fuel, i + 1);
        assert(pl == seq![item] + bl + rest);
        lemma_plan_from(fs, d, dst, fuel, i + 1, b);
        if is_dir {
            lemma_children_exist(fs, c);
            lemma_plan_from(fs, c, tc, (fuel - 1) as nat, 0, b);
        }
        // What the steps below `c` create lies below `tc`.
        assert forall|q: int| 0 <= q < bl.len() implies is_normal(#[trigger] bl[q].0) && below(bl[q].0, tc) by {
            let cs = children(fs, c);
            let j = choose|j: int| 0 <= j < cs.len() && #[trigger] within(bl[q].0, child_of(tc, cs[j]));
            lemma_names_in_children(fs, c, j);
            lemma_within_below(bl[q].0, tc, cs[j]);
        }
        // What the later steps create lies outside `tc`.
        assert forall|q: int| 0 <= q < rest.len() implies !within(#[trigger] rest[q].0, tc) by {
            let j = choose|j: int| i + 1 <= j < ns.len() && #[trigger] within(rest[q].0, child_of(dst, ns[j]));
            lemma_names_in_children(fs, d, j);
            lemma_within_disjoint(rest[q].0, dst, n, ns[j]);
        }
        assert forall|q: int| 0 <= q < pl.len() implies is_normal(#[trigger] pl[q].0) && exists|j: int|
            i <= j < ns.len() && #[trigger] within(pl[q].0, child_of(dst, ns[j])) by {
            if q == 0 {
                assert(within(pl[q].0, child_of(dst, ns[i])));
            } else if q < 1 + bl.len() {
                assert(pl[q] == bl[q - 1]);
                assert(within(pl[q].0, child_of(dst, ns[i])));
            } else {
                assert(pl[q] == rest[q - 1 - bl.len()]);
                let j = choose|j: int|
                    i + 1 <= j < ns.len() && #[trigger] within(rest[q - 1 - bl.len()].0, child_of(dst, ns[j]));
                assert(within(pl[q].0, child_of(dst, ns[j])));
            }
        }
        assert forall|q1: int, q2: int| 0 <= q1 < q2 < pl.len() implies #[trigger] pl[q1].0 != #[trigger] pl[q2].0 by {
            if q1 == 0 {
                if q2 < 1 + bl.len() {
                    assert(pl[q2] == bl[q2 - 1]);
                } else {
                    assert(pl[q2] == rest[q2 - 1 - bl.len()]);
                }
            } else if q1 < 1 + bl.len() {
                assert(pl[q1] == bl[q1 - 1]);
                if q2 < 1 + bl.len() {
                    assert(pl[q2] == bl[q2 - 1]);
                } else {
                    assert(pl[q2] == rest[q2 - 1 - bl.len()]);
                }
            } else {
                assert(pl[q1] == rest[q1 - 1 - bl.len()]);
                assert(pl[q2] == rest[q2 - 1 - bl.len()]);
            }
        }
        assert forall|k: Seq<char>, j: int|
            fs.dom().contains(k) && i <= j < ns.len() && #[trigger] within(k, child_of(d, ns[j])) implies exists|q: int|
            0 <= q < pl.len() && #[trigger] pl[q] == copy_item(fs, k, d, dst) by {
            if j == i {
                lemma_relocated_step(k, d, dst, n);
                if k == c {
                    assert(pl[0] == copy_item(fs, k, d, dst));
                } else {
                    lemma_cover(fs, c, k);
                    let m = choose|m: Seq<char>| is_child(fs, c, m) && #[trigger] within(k, child_of(c, m));
                    let cs = children(fs, c);
                    assert(cs.contains(m));
                    let j2 = choose|j2: int| 0 <= j2 < cs.len() && cs[j2] == m;
                    assert(within(k, child_of(c, cs[j2])));
                    let q2 = choose|q2: int| 0 <= q2 < bl.len() && #[trigger] bl[q2] == copy_item(fs, k, c, tc);
                    assert(pl[1 + q2] == bl[q2]);
                }
            } else {
                let q2 = choose|q2: int| 0 <= q2 < rest.len() && #[trigger] rest[q2] == copy_item(fs, k, d, dst);
                assert(pl[1 + bl.len() + q2] == rest[q2]);
            }
        }
    }
}

/// The step `it` is done in `r` (from `fs`): its node is there as the step
/// makes it, owned by `uid:gid`, and a directory step's path was new.
pub open spec fn step_done(r: FsView, fs: FsView, it: PlanItem, uid: u32, gid: u32) -> bool {
    &&& r.dom().contains(it.0)
    &&& r[it.0].0 == it.1
    &&& (!it.1 ==> r[it.0].1 == it.2)
    &&& r[it.0].2.uid == uid
    &&& r[it.0].2.gid == gid
    &&& (it.1 ==> !fs.dom().contains(it.0))
}

/// The path `k` is in `r` as it is in `fs`.
pub open spec fn kept(r: FsView, fs: FsView, k: Seq<char>) -> bool {
    &&& r.dom().contains(k) == fs.dom().contains(k)
    &&& (fs.dom().contains(k) ==> r[k] == fs[k])
}

/// When every step of a plan of distinct normalized paths succeeds, each
/// step's node is in the result as the step made it, owned by `uid:gid`, a
/// directory step's path did not exist before, and every other path is as
/// it was.
proof fn lemma_apply_plan(fs: FsView, cwd: Seq<char>, plan: Seq<PlanItem>, uid: u32, gid: u32, tag: Seq<char>)
    requires
        forall|q: int| 0 <= q < plan.len() ==> is_normal(#[trigger] plan[q].0),
        distinct_steps(plan),
        apply_plan(fs, cwd, plan, Some((uid, gid)), tag).1 is None,
    ensures
        forall|q: int| 0 <= q < plan.len() ==> step_done(apply_plan(fs, cwd, plan, Some((uid, gid)), tag).0, fs, #[trigger] plan[q], uid, gid),
        forall|k: Seq<char>| (forall|q: int| 0 <= q < plan.len() ==> #[trigger] plan[q].0 != k) ==> #[trigger] kept(
            apply_plan(fs, cwd, plan, Some((uid, gid)), tag).0,
            fs,
            k,
        ),
    decreases plan.len(),
{
    if plan.len() > 0 {
        let p0 = plan.drop_last();
        assert forall|q: int| 0 <= q < p0.len() implies is_normal(#[trigger] p0[q].0) by {
            assert(p0[q] == plan[q]);
        }
        assert forall|q1: int, q2: int| 0 <= q1 < q2 < p0.len() implies #[trigger] p0[q1].0 != #[trigger] p0[q2].0 by {
            assert(p0[q1] == plan[q1]);
            assert(p0[q2] == plan[q2]);
        }
        let prev = apply_plan(fs, cwd, p0, Some((uid, gid)), tag);
        assert(prev.1 is None);
        lemma_apply_plan(fs, cwd, p0, uid, gid, tag);
        let it = plan.last();
        assert(it == plan[plan.len() - 1]);
        lemma_normal_fixed(cwd, it.0);
        let r = apply_plan(fs, cwd, plan, Some((uid, gid)), tag).0;
        assert forall|q: int| 0 <= q < p0.len() implies #[trigger] p0[q].0 != it.0 by {
            assert(p0[q] == plan[q]);
        }
        assert forall|q: int| 0 <= q < plan.len() implies step_done(r, fs, #[trigger] plan[q], uid, gid) by {
            if q < p0.len() {
                assert(p0[q] == plan[q]);
                assert(plan[q].0 != it.0);
                assert(step_done(prev.0, fs, p0[q], uid, gid));
            } else {
                assert(q == plan.len() - 1);
                if it.1 {
                    assert(!prev.0.dom().contains(it.0));
                    assert(kept(prev.0, fs, it.0));
                }
            }
        }
        assert forall|k: Seq<char>| (forall|q: int| 0 <= q < plan.len() ==> #[trigger] plan[q].0 != k) implies #[trigger] kept(r, fs, k) by {
            assert(plan[plan.len() - 1].0 != k);
            assert forall|q: int| 0 <= q < p0.len() implies #[trigger] p0[q].0 != k by {
                assert(p0[q] == plan[q]);
                assert(plan[q].0 != k);
            }
            assert(kept(prev.0, fs, k));
        }
    }
}

/// A directory copy mirrors its source. For a file system of the usual
/// shape, when every step of copying the directory `s` to the normalized
/// path `t` (not below `s`) succeeds: `t` is a new directory owned by
/// `uid:gid`; each node below `s`, at any depth, has a counterpart at the
/// same place below `t`, of the same kind, with the same contents for a
/// file, owned by `uid:gid`; and nothing within `s` changes.
pub proof fn law_cp_mirror(fs: FsView, cwd: Seq<char>, s: Seq<char>, t: Seq<char>, uid: u32, gid: u32, tag: Seq<char>)
    requires
        well_formed_tree(fs),
        fs.dom().finite(),
        bounds(fs, fs_bound(fs)),
        forall|k: Seq<char>| #[trigger] fs.dom().contains(k) ==> is_normal(k),
        fs.dom().contains(s),
        fs[s].0,
        is_normal(t),
        !below(t, s),
        apply_plan(fs, cwd, tree_plan(fs, s, t), Some((uid, gid)), tag).1 is None,
    ensures
        ({
            let r = apply_plan(fs, cwd, tree_plan(fs, s, t), Some((uid, gid)), tag).0;
            &&& !fs.dom().contains(t)
            &&& r.dom().contains(t) && r[t].0 && r[t].2.uid == uid && r[t].2.gid == gid
            &&& forall|k: Seq<char>| #[trigger] fs.dom().contains(k) && below(k, s) ==> {
                let x = relocated(k, s, t);
                &&& r.dom().contains(x)
                &&& r[x].0 == fs[k].0
                &&& (!fs[k].0 ==> r[x].1 == fs[k].1)
                &&& r[x].2.uid == uid
                &&& r[x].2.gid == gid
            }
            &&& forall|k: Seq<char>| #[trigger] fs.dom().contains(k) && within(k, s) ==> r.dom().contains(k) && r[k] == fs[k]
        }),
{
    let b = fs_bound(fs);
    let fuel = b + 1;
    assert(s.len() <= b);
    let pf = plan_from(fs, s, t, fuel, 0);
    let plan = tree_plan(fs, s, t);
    let ns = children(fs, s);
    lemma_children_exist(fs, s);
    lemma_plan_from(fs, s, t, fuel, 0, b);
    assert(plan == seq![(t, true, Seq::<char>::empty())] + pf);
    // Every step of the copy creates `t` or a path below it.
    assert forall|q: int| 0 <= q < pf.len() implies #[trigger] below(pf[q].0, t) by {
        let j = choose|j: int| 0 <= j < ns.len() && #[trigger] within(pf[q].0, child_of(t, ns[j]));
        lemma_names_in_children(fs, s, j);
        lemma_within_below(pf[q].0, t, ns[j]);
    }
    assert forall|q: int| 0 <= q < plan.len() implies is_normal(#[trigger] plan[q].0) && within(plan[q].0, t) by {
        if q > 0 {
            assert(plan[q] == pf[q - 1]);
            assert(below(pf[q - 1].0, t));
        }
    }
    assert forall|q1: int, q2: int| 0 <= q1 < q2 < plan.len() implies #[trigger] plan[q1].0 != #[trigger] plan[q2].0 by {
        assert(plan[q2] == pf[q2 - 1]);
        assert(below(pf[q2 - 1].0, t));
        if q1 > 0 {
            assert(plan[q1] == pf[q1 - 1]);
        }
    }
    lemma_apply_plan(fs, cwd, plan, uid, gid, tag);
    let r = apply_plan(fs, cwd, plan, Some((uid, gid)), tag).0;
    assert(plan[0].0 == t);
    assert(step_done(r, fs, plan[0], uid, gid));
    assert forall|k: Seq<char>| #[trigger] fs.dom().contains(k) && below(k, s) implies {
        let x = relocated(k, s, t);
        &&& r.dom().contains(x)
        &&& r[x].0 == fs[k].0
        &&& (!fs[k].0 ==> r[x].1 == fs[k].1)
        &&& r[x].2.uid == uid
        &&& r[x].2.gid == gid
    } by {
        lemma_cover(fs, s, k);
        let m = choose|m: Seq<char>| is_child(fs, s, m) && #[trigger] within(k, child_of(s, m));
        assert(ns.contains(m));
        let j = choose|j: int| 0 <= j < ns.len() && ns[j] == m;
        assert(within(k, child_of(s, ns[j])));
        let q = choose|q: int| 0 <= q < pf.len() && #[trigger] pf[q] == copy_item(fs, k, s, t);
        assert(plan[q + 1] == pf[q]);
        assert(step_done(r, fs, plan[q + 1], uid, gid));
    }
    assert forall|k: Seq<char>| #[trigger] fs.dom().contains(k) && within(k, s) implies r.dom().contains(k) && r[k] == fs[k] by {
        assert forall|q: int| 0 <= q < plan.len() implies #[trigger] plan[q].0 != k by {
            if plan[q].0 == k {
                assert(within(k, t));
                assert(s.len() > 0 && s[0] == '/');
                assert(t != s);
                let tp = choose|tp: Seq<Seq<char>>| clean_stack(tp) && path_of(tp) == t;
                assert(t.len() > 0 && t[0] == '/');
                lemma_within_nested(k, s, t);
                if within(s, t) {
                    lemma_cover(fs, t, s);
                }
                assert(step_done(r, fs, plan[0], uid, gid));
            }
        }
        assert(kept(r, fs, k));
    }
}

} // verus!
