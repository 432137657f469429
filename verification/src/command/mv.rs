//! `mv src dst` -- move a file or a directory tree.
//!
//! When `dst` is a directory the node moves inside it under its own name.
//! Writing in the source's and in the destination's directory must be
//! allowed. A file keeps its owner, group and mode; a directory tree is
//! copied entry by entry (in walk order) and the source then removed.
use vstd::prelude::*;
use crate::text::{strs_view, chars_of, string_of, to_owned_string, push_str, copy_chars};
use crate::path::{resolve, parent_of, root, is_normal};
use crate::permissions::{AccessMode, access_allowed, check_access};
use crate::command::cp::{PlanItem, lemma_apply_keeps, tree_plan, apply_plan, landing, planv, collect_plan, run_plan,
    landing_path, parent_meta_of};
use crate::vfs::{Vfs, FsView, Meta, rv, fs_bound, write_spec, subtree, root_busy};
use crate::command::kinds::outcome;
use crate::command::{Command, CommandContext, CommandKind, state_of, meets, lemma_vfs_of};

verus! {

/// The file system after `mv` by `uid:gid` and its result.
pub open spec fn mv_spec(fs: FsView, cwd: Seq<char>, args: Seq<Seq<char>>, uid: u32, gid: u32) -> (FsView, Result<Seq<char>, Seq<char>>) {
    if args.len() < 2 {
        (fs, Err("mv: missing destination operand"@))
    } else {
        let s = resolve(cwd, args[0]);
        let sp = resolve(cwd, parent_of(s));
        let act = landing(fs, cwd, args[0], args[1]);
        let ak = resolve(cwd, act);
        let pk = resolve(cwd, parent_of(act));
        if !fs.dom().contains(s) {
            (fs, Err("mv: cannot stat '"@ + args[0] + "': No such file or directory"@))
        } else if fs.dom().contains(sp) && !access_allowed(fs[sp].2, AccessMode::Write, uid, gid) {
            (fs, Err("Permission denied"@))
        } else if fs.dom().contains(pk) && !access_allowed(fs[pk].2, AccessMode::Write, uid, gid) {
            (fs, Err("Permission denied"@))
        } else if fs[s].0 {
            let run = apply_plan(fs, cwd, tree_plan(fs, s, act), None, "mv: "@);
            match run.1 {
                Some(e) => (run.0, Err(e)),
                None => if s == root() {
                    (run.0, Err(root_busy()))
                } else {
                    (run.0.remove_keys(subtree(s)), Ok(Seq::empty()))
                },
            }
        } else {
            match write_spec(fs, ak, fs[s].1) {
                Err(e) => (fs, Err("mv: "@ + e)),
                Ok(m) => {
                    let m2 = if m.dom().contains(s) && m.dom().contains(ak) {
                        m.insert(ak, (m[ak].0, m[ak].1, Meta { uid: m[s].2.uid, gid: m[s].2.gid, mode: m[s].2.mode, ..m[ak].2 }))
                    } else {
                        m
                    };
                    if !m2.dom().contains(s) {
                        (m2, Err(crate::vfs::no_such(s)))
                    } else if m2[s].0 {
                        (m2, Err(crate::vfs::is_a_dir(s)))
                    } else {
                        (m2.remove(s), Ok(Seq::empty()))
                    }
                },
            }
        }
    }
}

/// Execute `mv` as `uid:gid`.
pub fn execute(vfs: &mut Vfs, args: &[&str], uid: u32, gid: u32) -> (r: Result<String, String>)
    ensures
        final(vfs).cwd == old(vfs).cwd,
        final(vfs)@ == mv_spec(old(vfs)@, old(vfs).cwd@, strs_view(args@), uid, gid).0,
        rv(r) == mv_spec(old(vfs)@, old(vfs).cwd@, strs_view(args@), uid, gid).1,
{
    if args.len() < 2 {
        return Err(to_owned_string("mv: missing destination operand"));
    }
    let ghost av = strs_view(args@);
    assert(av[0] == args@[0]@ && av[1] == args@[1]@);
    let src = args[0];
    let dst = args[1];
    if !vfs.exists_path(src) {
        let mut m: Vec<char> = Vec::new();
        push_str(&mut m, "mv: cannot stat '");
        push_str(&mut m, src);
        push_str(&mut m, "': No such file or directory");
        return Err(string_of(m.as_slice()));
    }
    let s = vfs.resolve_path(src).unwrap();
    match parent_meta_of(vfs, s.as_str()) {
        Some(pm) => {
            check_access(&pm, AccessMode::Write, uid, gid)?;
        },
        None => {},
    }
    let act = landing_path(vfs, src, dst);
    match parent_meta_of(vfs, act.as_str()) {
        Some(pm) => {
            check_access(&pm, AccessMode::Write, uid, gid)?;
        },
        None => {},
    }
    if vfs.is_dir(src) {
        vfs.invariants();
        proof {
            crate::path::lemma_resolve_is_normal(vfs.cwd@, src@);
        }
        let ac = chars_of(act.as_str());
        let mut plan: Vec<(Vec<char>, bool, Vec<char>)> = Vec::new();
        plan.push((copy_chars(ac.as_slice()), true, Vec::new()));
        assert(planv(plan@) =~= seq![(act@, true, Seq::<char>::empty())]);
        collect_plan(vfs, s.as_str(), ac.as_slice(), &mut plan, Ghost(fs_bound(vfs@) + 1));
        assert(planv(plan@) == tree_plan(vfs@, s@, act@));
        let ghost before = vfs@;
        proof {
            crate::command::cp::lemma_apply_keeps(before, vfs.cwd@, planv(plan@), None, "mv: "@, s@);
        }
        run_plan(vfs, &plan, None, "mv: ")?;
        proof {
            crate::path::lemma_normal_fixed(vfs.cwd@, s@);
        }
        vfs.rm_recursive(s.as_str())?;
        Ok(String::new())
    } else {
        let content = vfs.read_file(src).unwrap();
        match vfs.write_file(act.as_str(), content.as_str()) {
            Ok(()) => {},
            Err(e) => {
                let mut m: Vec<char> = Vec::new();
                push_str(&mut m, "mv: ");
                push_str(&mut m, e.as_str());
                return Err(string_of(m.as_slice()));
            },
        }
        match (vfs.get_meta(src), vfs.get_meta(act.as_str())) {
            (Some(sm), Some(dm)) => {
                let ok = vfs.set_meta(act.as_str(), Meta { uid: sm.uid, gid: sm.gid, mode: sm.mode, ..dm });
            },
            _ => {},
        }
        vfs.rm(src)?;
        Ok(String::new())
    }
}

/// The `mv` command.
pub struct MvCommand;

impl Command for MvCommand {
    fn name(&self) -> (r: &'static str)
        ensures
            r@ == "mv"@,
    {
        "mv"
    }

    fn description(&self) -> (r: &'static str)
        ensures
            r@ == "Move or rename files and directories"@,
    {
        "Move or rename files and directories"
    }

    fn accepts_stdin(&self) -> (r: bool)
        ensures
            !r,
    {
        false
    }

    fn execute(&self, ctx: &mut CommandContext) -> (r: Result<String, String>)
        ensures
            meets(outcome(CommandKind::Mv, state_of(old(ctx))), r, final(ctx)),
    {
        proof {
            lemma_vfs_of(ctx);
        }
        execute(ctx.vfs, ctx.args, ctx.uid, ctx.gid)
    }

    fn synopsis(&self) -> (r: &'static str)
        ensures
            r@ == "mv source destination"@,
    {
        "mv source destination"
    }

    fn man_description(&self) -> (r: &'static str)
        ensures
            r@ == "Move or rename a file or directory from source to destination. The source is removed after the move. \
If the destination is an existing directory, the source is moved into that directory preserving its basename."@,
    {
        "Move or rename a file or directory from source to destination. The source is removed after the move. \
If the destination is an existing directory, the source is moved into that directory preserving its basename."
    }

    fn examples(&self) -> (r: &'static [&'static str])
        ensures
            strs_view(r@) == seq!["mv old.txt new.txt"@, "mv file.txt /tmp/"@],
    {
        let r: &'static [&'static str] = &["mv old.txt new.txt", "mv file.txt /tmp/"];
        assert(r@ == seq!["mv old.txt new.txt", "mv file.txt /tmp/"]);
        r
    }
}

} // verus!
