//! `rm [-r] path...` -- remove files (and, with `-r`, directories with
//! everything below them).
//!
//! Removing needs write permission on the containing directory; in a
//! sticky directory only root, the entry's owner or the directory's owner
//! may remove an entry. The first failure stops the command.
use vstd::prelude::*;
use crate::text::{strs_view, chars_of, string_of, to_owned_string, push_str, str_eq};
use crate::path::{resolve, parent_of, root};
use crate::permissions::{AccessMode, access_allowed, sticky_delete_allowed, check_access,
    check_delete_in_sticky};
use crate::vfs::{Vfs, FsView, rv, subtree, root_busy};
use crate::command::kinds::outcome;
use crate::command::{Command, CommandContext, CommandKind, state_of, meets, lemma_vfs_of};

verus! {

/// An argument asking for recursive removal.
pub open spec fn rm_flag(a: Seq<char>) -> bool {
    a == "-r"@ || a == "-rf"@ || a == "-fr"@
}

/// The path operands.
pub open spec fn rm_paths(args: Seq<Seq<char>>) -> Seq<Seq<char>>
    decreases args.len(),
{
    if args.len() == 0 {
        Seq::empty()
    } else if rm_flag(args.last()) {
        rm_paths(args.drop_last())
    } else {
        rm_paths(args.drop_last()).push(args.last())
    }
}

/// Whether recursive removal was asked for.
pub open spec fn rm_recursive(args: Seq<Seq<char>>) -> bool {
    args.contains("-r"@) || args.contains("-rf"@) || args.contains("-fr"@)
}

/// What removing the path `p` does.
pub open spec fn rm_one(fs: FsView, cwd: Seq<char>, p: Seq<char>, recursive: bool, uid: u32, gid: u32) -> Result<FsView, Seq<char>> {
    let k = resolve(cwd, p);
    let par = parent_of(k);
    if !fs.dom().contains(k) {
        Err("rm: cannot remove '"@ + p + "': No such file or directory"@)
    } else if fs[k].0 && !recursive {
        Err("rm: cannot remove '"@ + p + "': Is a directory"@)
    } else if fs.dom().contains(par) && !access_allowed(fs[par].2, AccessMode::Write, uid, gid) {
        Err("Permission denied"@)
    } else if fs.dom().contains(par) && !sticky_delete_allowed(fs[par].2, fs[k].2, uid) {
        Err("Operation not permitted"@)
    } else if recursive {
        if k == root() {
            Err(root_busy())
        } else {
            Ok(fs.remove_keys(subtree(k)))
        }
    } else {
        Ok(fs.remove(k))
    }
}

/// The file system after removing `paths` in order, and the error that
/// stopped it, if any.
pub open spec fn rm_run(fs: FsView, cwd: Seq<char>, paths: Seq<Seq<char>>, recursive: bool, uid: u32, gid: u32) -> (FsView, Option<Seq<char>>)
    decreases paths.len(),
{
    if paths.len() == 0 {
        (fs, None)
    } else {
        let prev = rm_run(fs, cwd, paths.drop_last(), recursive, uid, gid);
        if prev.1 is Some {
            prev
        } else {
            match rm_one(prev.0, cwd, paths.last(), recursive, uid, gid) {
                Ok(m) => (m, None),
                Err(e) => (prev.0, Some(e)),
            }
        }
    }
}

proof fn lemma_rm_stop(fs: FsView, cwd: Seq<char>, paths: Seq<Seq<char>>, k: int, recursive: bool, uid: u32, gid: u32)
    requires
        0 <= k <= paths.len(),
        rm_run(fs, cwd, paths.take(k), recursive, uid, gid).1 is Some,
    ensures
        rm_run(fs, cwd, paths, recursive, uid, gid) == rm_run(fs, cwd, paths.take(k), recursive, uid, gid),
    decreases paths.len(),
{
    if k == paths.len() {
        assert(paths.take(k) == paths);
    } else {
        assert(paths.drop_last().take(k) == paths.take(k));
        lemma_rm_stop(fs, cwd, paths.drop_last(), k, recursive, uid, gid);
    }
}

fn cannot_remove(p: &str, why: &str) -> (r: String)
    ensures
        r@ == "rm: cannot remove '"@ + p@ + why@,
{
    let mut m: Vec<char> = Vec::new();
    push_str(&mut m, "rm: cannot remove '");
    push_str(&mut m, p);
    push_str(&mut m, why);
    string_of(m.as_slice())
}

/// Remove one path.
fn remove_one(vfs: &mut Vfs, p: &str, recursive: bool, uid: u32, gid: u32) -> (r: Result<(), String>)
    ensures
        final(vfs).cwd == old(vfs).cwd,
        match rm_one(old(vfs)@, old(vfs).cwd@, p@, recursive, uid, gid) {
            Ok(m) => r is Ok && final(vfs)@ == m,
            Err(e) => r is Err && r->Err_0@ == e && final(vfs)@ == old(vfs)@,
        },
{
    if !vfs.exists_path(p) {
        return Err(cannot_remove(p, "': No such file or directory"));
    }
    if vfs.is_dir(p) && !recursive {
        return Err(cannot_remove(p, "': Is a directory"));
    }
    match vfs.parent_meta(p) {
        Some(pm) => {
            check_access(&pm, AccessMode::Write, uid, gid)?;
            let fm = vfs.get_meta(p).unwrap();
            check_delete_in_sticky(&pm, &fm, uid)?;
        },
        None => {},
    }
    if recursive {
        vfs.rm_recursive(p)
    } else {
        vfs.rm(p)
    }
}

/// Execute `rm` as `uid:gid`.
pub fn execute(vfs: &mut Vfs, args: &[&str], uid: u32, gid: u32) -> (r: Result<String, String>)
    ensures
        final(vfs).cwd == old(vfs).cwd,
        rm_paths(strs_view(args@)).len() == 0 ==> rv(r) == Err::<Seq<char>, Seq<char>>("rm: missing operand"@)
            && final(vfs)@ == old(vfs)@,
        rm_paths(strs_view(args@)).len() > 0 ==> {
            let run = rm_run(old(vfs)@, old(vfs).cwd@, rm_paths(strs_view(args@)), rm_recursive(strs_view(args@)), uid, gid);
            &&& final(vfs)@ == run.0
            &&& match run.1 {
                Some(e) => rv(r) == Err::<Seq<char>, Seq<char>>(e),
                None => rv(r) == Ok::<Seq<char>, Seq<char>>(Seq::empty()),
            }
        },
{
    let ghost av = strs_view(args@);
    let mut paths: Vec<&str> = Vec::new();
    let mut i: usize = 0;
    while i < args.len()
        invariant
            i <= args@.len(),
            av == strs_view(args@),
            strs_view(paths@) == rm_paths(av.take(i as int)),
        decreases args.len() - i,
    {
        assert(av.take(i + 1).drop_last() == av.take(i as int));
        assert(av.take(i + 1).last() == args@[i as int]@);
        let a = args[i];
        if !(str_eq(a, "-r") || str_eq(a, "-rf") || str_eq(a, "-fr")) {
            let ghost before = paths@;
            paths.push(a);
            assert(strs_view(paths@) =~= strs_view(before).push(a@));
        }
        i += 1;
    }
    assert(av.take(args@.len() as int) == av);
    let recursive = crate::text::strs_contains(args, "-r") || crate::text::strs_contains(args, "-rf")
        || crate::text::strs_contains(args, "-fr");
    if paths.len() == 0 {
        return Err(to_owned_string("rm: missing operand"));
    }
    let ghost pv = strs_view(paths@);
    let ghost fs0 = vfs@;
    let ghost cwd = vfs.cwd@;
    let mut k: usize = 0;
    while k < paths.len()
        invariant
            k <= paths@.len(),
            pv == strs_view(paths@),
            pv == rm_paths(av),
            av == strs_view(args@),
            recursive == rm_recursive(av),
            vfs.cwd == old(vfs).cwd,
            fs0 == old(vfs)@,
            cwd == old(vfs).cwd@,
            vfs.cwd@ == cwd,
            rm_run(fs0, cwd, pv.take(k as int), recursive, uid, gid) == (vfs@, None::<Seq<char>>),
        decreases paths.len() - k,
    {
        assert(pv.take(k + 1).drop_last() == pv.take(k as int));
        assert(pv.take(k + 1).last() == paths@[k as int]@);
        match remove_one(vfs, paths[k], recursive, uid, gid) {
            Ok(()) => {},
            Err(e) => {
                proof {
                    lemma_rm_stop(fs0, cwd, pv, k + 1, recursive, uid, gid);
                }
                return Err(e);
            },
        }
        k += 1;
    }
    assert(pv.take(paths@.len() as int) == pv);
    Ok(String::new())
}

/// The `rm` command.
pub struct RmCommand;

impl Command for RmCommand {
    fn name(&self) -> (r: &'static str)
        ensures
            r@ == "rm"@,
    {
        "rm"
    }

    fn description(&self) -> (r: &'static str)
        ensures
            r@ == "Remove files or directories (-r for recursive)"@,
    {
        "Remove files or directories (-r for recursive)"
    }

    fn accepts_stdin(&self) -> (r: bool)
        ensures
            !r,
    {
        false
    }

    fn execute(&self, ctx: &mut CommandContext) -> (r: Result<String, String>)
        ensures
            meets(outcome(CommandKind::Rm, state_of(old(ctx))), r, final(ctx)),
    {
        proof {
            lemma_vfs_of(ctx);
        }
        execute(ctx.vfs, ctx.args, ctx.uid, ctx.gid)
    }

    fn synopsis(&self) -> (r: &'static str)
        ensures
            r@ == "rm [-r] target [target2 ...]"@,
    {
        "rm [-r] target [target2 ...]"
    }

    fn man_description(&self) -> (r: &'static str)
        ensures
            r@ == "Remove one or more files or directories. Without -r, only regular files can be removed; \
attempting to remove a directory without -r produces an 'Is a directory' error. The -r flag enables \
recursive removal of directories and all their contents. The variants -rf and -fr are also accepted \
for convenience."@,
    {
        "Remove one or more files or directories. Without -r, only regular files can be removed; \
attempting to remove a directory without -r produces an 'Is a directory' error. The -r flag enables \
recursive removal of directories and all their contents. The variants -rf and -fr are also accepted \
for convenience."
    }

    fn examples(&self) -> (r: &'static [&'static str])
        ensures
            strs_view(r@) == seq!["rm file.txt"@, "rm -r directory"@],
    {
        let r: &'static [&'static str] = &["rm file.txt", "rm -r directory"];
        assert(r@ == seq!["rm file.txt", "rm -r directory"]);
        r
    }
}


/// A path that `rm` removed is gone, and with `-r` so is everything below
/// it; every other path stays as it was.
pub proof fn law_rm_removes(fs: FsView, cwd: Seq<char>, p: Seq<char>, recursive: bool, uid: u32, gid: u32, q: Seq<char>)
    requires
        rm_one(fs, cwd, p, recursive, uid, gid) is Ok,
    ensures
        !rm_one(fs, cwd, p, recursive, uid, gid)->Ok_0.dom().contains(resolve(cwd, p)),
        recursive && crate::text::starts_with(q, crate::path::dir_prefix(resolve(cwd, p))) ==> !rm_one(
            fs,
            cwd,
            p,
            recursive,
            uid,
            gid,
        )->Ok_0.dom().contains(q),
        q != resolve(cwd, p) && !(recursive && crate::text::starts_with(q, crate::path::dir_prefix(resolve(cwd, p))))
            ==> rm_one(fs, cwd, p, recursive, uid, gid)->Ok_0.dom().contains(q) == fs.dom().contains(q),
{
}


/// In a sticky directory an entry can be removed only by root, its owner or
/// the directory's owner: anyone else is refused and nothing changes.
pub proof fn law_rm_sticky(fs: FsView, cwd: Seq<char>, p: Seq<char>, recursive: bool, uid: u32, gid: u32)
    requires
        fs.dom().contains(resolve(cwd, p)),
        fs.dom().contains(parent_of(resolve(cwd, p))),
        fs[parent_of(resolve(cwd, p))].2.mode & 0o1000 != 0,
        uid != 0,
        uid != fs[resolve(cwd, p)].2.uid,
        uid != fs[parent_of(resolve(cwd, p))].2.uid,
    ensures
        rm_one(fs, cwd, p, recursive, uid, gid) is Err,
        rm_run(fs, cwd, seq![p], recursive, uid, gid) == (fs, Some(rm_one(fs, cwd, p, recursive, uid, gid)->Err_0)),
{
    assert(seq![p].drop_last() =~= Seq::<Seq<char>>::empty());
    assert(seq![p].last() == p);
    assert(rm_run(fs, cwd, Seq::<Seq<char>>::empty(), recursive, uid, gid) == (fs, None::<Seq<char>>));
}

} // verus!
