//! `mkdir [-p] dir...` -- create directories owned by the calling user.
//!
//! Without `-p` the directory must not exist and its parent must; with
//! `-p` every missing directory on the way is created and existing ones
//! are accepted. The first failure stops the command.
use vstd::prelude::*;
use crate::text::{strs_view, chars_of, string_of, to_owned_string, push_str, push_all, str_eq,
    split_on, vv};
use crate::path::{resolve, parent_of, path_of, resolved_stack, clean_stack, child_of, root};
use crate::vfs::{Vfs, FsView, rv, mkdir_spec, new_dir_meta};
use crate::command::kinds::outcome;
use crate::command::{Command, CommandContext, CommandKind, state_of, meets, lemma_vfs_of};

verus! {

/// `mkdir -p` on the components `t[i..]`: each prefix path that is missing
/// is created; the file system reached and the error that stopped it.
pub open spec fn mkdirp_from(fs: FsView, t: Seq<Seq<char>>, i: int, uid: u32, gid: u32) -> (FsView, Option<Seq<char>>)
    decreases t.len() - i,
{
    if i < 0 || i >= t.len() {
        (fs, None)
    } else {
        let cur = path_of(t.take(i + 1));
        if fs.dom().contains(cur) {
            mkdirp_from(fs, t, i + 1, uid, gid)
        } else {
            match mkdir_spec(fs, cur, uid, gid) {
                Ok(m) => mkdirp_from(m, t, i + 1, uid, gid),
                Err(e) => (fs, Some(e)),
            }
        }
    }
}

/// What creating the directory `p` does.
pub open spec fn mkdir_one(fs: FsView, cwd: Seq<char>, p: Seq<char>, parents: bool, uid: u32, gid: u32) -> (FsView, Option<Seq<char>>) {
    let k = resolve(cwd, p);
    if parents {
        mkdirp_from(fs, resolved_stack(cwd, p), 0, uid, gid)
    } else if fs.dom().contains(k) {
        (fs, Some("mkdir: cannot create directory '"@ + p + "': File exists"@))
    } else if !(fs.dom().contains(parent_of(k)) && fs[parent_of(k)].0) {
        (fs, Some("mkdir: cannot create directory '"@ + p + "': No such file or directory"@))
    } else {
        (fs.insert(k, (true, Seq::empty(), new_dir_meta(uid, gid))), None)
    }
}

/// The file system after creating `paths` in order, and the error that
/// stopped it, if any.
pub open spec fn mkdir_run(fs: FsView, cwd: Seq<char>, paths: Seq<Seq<char>>, parents: bool, uid: u32, gid: u32) -> (FsView, Option<Seq<char>>)
    decreases paths.len(),
{
    if paths.len() == 0 {
        (fs, None)
    } else {
        let prev = mkdir_run(fs, cwd, paths.drop_last(), parents, uid, gid);
        if prev.1 is Some {
            prev
        } else {
            mkdir_one(prev.0, cwd, paths.last(), parents, uid, gid)
        }
    }
}

/// The directory operands: every argument but `-p`.
pub open spec fn mkdir_paths(args: Seq<Seq<char>>) -> Seq<Seq<char>>
    decreases args.len(),
{
    if args.len() == 0 {
        Seq::empty()
    } else if args.last() == "-p"@ {
        mkdir_paths(args.drop_last())
    } else {
        mkdir_paths(args.drop_last()).push(args.last())
    }
}

proof fn lemma_mkdir_stop(fs: FsView, cwd: Seq<char>, paths: Seq<Seq<char>>, k: int, parents: bool, uid: u32, gid: u32)
    requires
        0 <= k <= paths.len(),
        mkdir_run(fs, cwd, paths.take(k), parents, uid, gid).1 is Some,
    ensures
        mkdir_run(fs, cwd, paths, parents, uid, gid) == mkdir_run(fs, cwd, paths.take(k), parents, uid, gid),
    decreases paths.len(),
{
    if k == paths.len() {
        assert(paths.take(k) == paths);
    } else {
        assert(paths.drop_last().take(k) == paths.take(k));
        lemma_mkdir_stop(fs, cwd, paths.drop_last(), k, parents, uid, gid);
    }
}

fn cannot_create(p: &str, why: &str) -> (r: String)
    ensures
        r@ == "mkdir: cannot create directory '"@ + p@ + why@,
{
    let mut m: Vec<char> = Vec::new();
    push_str(&mut m, "mkdir: cannot create directory '");
    push_str(&mut m, p);
    push_str(&mut m, why);
    string_of(m.as_slice())
}

/// Create every missing directory on the way to `p`.
pub(crate) fn make_parents(vfs: &mut Vfs, p: &str, uid: u32, gid: u32) -> (r: Result<(), String>)
    ensures
        final(vfs).cwd == old(vfs).cwd,
        final(vfs)@ == mkdirp_from(old(vfs)@, resolved_stack(old(vfs).cwd@, p@), 0, uid, gid).0,
        match mkdirp_from(old(vfs)@, resolved_stack(old(vfs).cwd@, p@), 0, uid, gid).1 {
            Some(e) => r is Err && r->Err_0@ == e,
            None => r is Ok,
        },
{
    let ghost t = resolved_stack(vfs.cwd@, p@);
    let ghost cwd = vfs.cwd@;
    proof {
        crate::path::lemma_resolved_clean(vfs.cwd@, p@);
        crate::path::lemma_split_path_of(t);
    }
    let k = vfs.resolve_path(p).unwrap();
    let kc = chars_of(k.as_str());
    let parts = split_on(kc.as_slice(), '/');
    assert(k@ == vfs.key(p@));
    assert(kc@ == path_of(t));
    assert(vv(parts@) == crate::text::split_char(path_of(t), '/'));
    assert(parts@.len() == vv(parts@).len());
    assert(parts@.len() >= 2);
    proof {
        if t.len() > 0 {
            assert(vv(parts@)[1] == t[0]);
            assert(crate::path::clean_comp(t[0]));
        }
        if t.len() == 0 {
            assert(vv(parts@)[1] == Seq::<char>::empty());
        }
        assert(vv(parts@)[1] == parts@[1]@);
    }
    if parts.len() == 2 && parts[1].len() == 0 {
        return Ok(());
    }
    assert(t.len() > 0);
    assert(vv(parts@) == seq![Seq::<char>::empty()] + t);
    let mut cur: Vec<char> = Vec::new();
    let mut j: usize = 1;
    while j < parts.len()
        invariant
            1 <= j <= parts@.len(),
            parts@.len() == t.len() + 1,
            vv(parts@) == seq![Seq::<char>::empty()] + t,
            clean_stack(t),
            t.len() > 0,
            vfs.cwd == old(vfs).cwd,
            cwd == old(vfs).cwd@,
            t == resolved_stack(old(vfs).cwd@, p@),
            j == 1 ==> cur@.len() == 0,
            j > 1 ==> cur@ == path_of(t.take(j - 1)),
            mkdirp_from(old(vfs)@, t, 0, uid, gid) == mkdirp_from(vfs@, t, j - 1, uid, gid),
        decreases parts.len() - j,
    {
        let ghost i = j - 1;
        assert(vv(parts@)[j as int] == parts@[j as int]@);
        assert(parts@[j as int]@ == t[i]);
        assert(t.take(i).push(t[i]) =~= t.take(i + 1));
        assert(crate::path::clean_stack(t.take(i))) by {
            assert forall|q: int| 0 <= q < t.take(i).len() implies crate::path::clean_comp(#[trigger] t.take(i)[q]) by {
                assert(t.take(i)[q] == t[q]);
            }
        }
        assert(crate::path::clean_stack(t.take(i + 1))) by {
            assert forall|q: int| 0 <= q < t.take(i + 1).len() implies crate::path::clean_comp(#[trigger] t.take(i + 1)[q]) by {
                assert(t.take(i + 1)[q] == t[q]);
            }
        }
        proof {
            crate::path::lemma_child_path_of(t.take(i), t[i]);
            if i == 0 {
                assert(path_of(t.take(0)) =~= root());
            }
        }
        cur.push('/');
        push_all(&mut cur, parts[j].as_slice());
        assert(cur@ =~= child_of(path_of(t.take(i)), t[i])) by {
            if i > 0 {
                assert(path_of(t.take(i)) != root()) by {
                    assert(path_of(t.take(i)).len() > 1) by {
                        assert(crate::text::join(t.take(i), seq!['/']).len() > 0) by {
                            if i == 1 {
                                assert(crate::text::join(t.take(i), seq!['/']) == t.take(i)[0]);
                                assert(crate::path::clean_comp(t[0]));
                            } else {
                                assert(crate::text::join(t.take(i), seq!['/']) == crate::text::join(t.take(i).drop_last(), seq!['/']) + seq!['/'] + t.take(i).last());
                            }
                        }
                    }
                }
            }
        }
        let cs = string_of(cur.as_slice());
        proof {
            crate::path::lemma_resolve_normal(cwd, t.take(i + 1));
        }
        if !vfs.exists_path(cs.as_str()) {
            match vfs.mkdir_with_owner(cs.as_str(), uid, gid) {
                Ok(()) => {},
                Err(e) => {
                    return Err(e);
                },
            }
        }
        j += 1;
    }
    Ok(())
}

/// Create one directory.
fn make_one(vfs: &mut Vfs, p: &str, parents: bool, uid: u32, gid: u32) -> (r: Result<(), String>)
    ensures
        final(vfs).cwd == old(vfs).cwd,
        final(vfs)@ == mkdir_one(old(vfs)@, old(vfs).cwd@, p@, parents, uid, gid).0,
        match mkdir_one(old(vfs)@, old(vfs).cwd@, p@, parents, uid, gid).1 {
            Some(e) => r is Err && r->Err_0@ == e,
            None => r is Ok,
        },
{
    if parents {
        return make_parents(vfs, p, uid, gid);
    }
    if vfs.exists_path(p) {
        return Err(cannot_create(p, "': File exists"));
    }
    if !vfs.parent_is_dir(p) {
        return Err(cannot_create(p, "': No such file or directory"));
    }
    vfs.mkdir_with_owner(p, uid, gid)
}

/// Execute `mkdir` as `uid:gid`.
pub fn execute(vfs: &mut Vfs, args: &[&str], uid: u32, gid: u32) -> (r: Result<String, String>)
    ensures
        final(vfs).cwd == old(vfs).cwd,
        mkdir_paths(strs_view(args@)).len() == 0 ==> rv(r) == Err::<Seq<char>, Seq<char>>("mkdir: missing operand"@)
            && final(vfs)@ == old(vfs)@,
        mkdir_paths(strs_view(args@)).len() > 0 ==> {
            let run = mkdir_run(old(vfs)@, old(vfs).cwd@, mkdir_paths(strs_view(args@)), strs_view(args@).contains("-p"@), uid, gid);
            &&& final(vfs)@ == run.0
            &&& match run.1 {
                Some(e) => rv(r) == Err::<Seq<char>, Seq<char>>(e),
                None => rv(r) == Ok::<Seq<char>, Seq<char>>(Seq::empty()),
            }
        },
{
    let ghost av = strs_view(args@);
    let mut paths: Vec<&str> = Vec::new();
    let mut i: usize = 0;
    while i < args.len()
        invariant
            i <= args@.len(),
            av == strs_view(args@),
            strs_view(paths@) == mkdir_paths(av.take(i as int)),
        decreases args.len() - i,
    {
        assert(av.take(i + 1).drop_last() == av.take(i as int));
        assert(av.take(i + 1).last() == args@[i as int]@);
        if !str_eq(args[i], "-p") {
            let ghost before = paths@;
            paths.push(args[i]);
            assert(strs_view(paths@) =~= strs_view(before).push(args@[i as int]@));
        }
        i += 1;
    }
    assert(av.take(args@.len() as int) == av);
    let parents = crate::text::strs_contains(args, "-p");
    if paths.len() == 0 {
        return Err(to_owned_string("mkdir: missing operand"));
    }
    let ghost pv = strs_view(paths@);
    let ghost fs0 = vfs@;
    let ghost cwd = vfs.cwd@;
    let mut k: usize = 0;
    while k < paths.len()
        invariant
            k <= paths@.len(),
            pv == strs_view(paths@),
            pv == mkdir_paths(av),
            av == strs_view(args@),
            parents == av.contains("-p"@),
            vfs.cwd == old(vfs).cwd,
            fs0 == old(vfs)@,
            cwd == old(vfs).cwd@,
            vfs.cwd@ == cwd,
            mkdir_run(fs0, cwd, pv.take(k as int), parents, uid, gid) == (vfs@, None::<Seq<char>>),
        decreases paths.len() - k,
    {
        assert(pv.take(k + 1).drop_last() == pv.take(k as int));
        assert(pv.take(k + 1).last() == paths@[k as int]@);
        match make_one(vfs, paths[k], parents, uid, gid) {
            Ok(()) => {},
            Err(e) => {
                proof {
                    lemma_mkdir_stop(fs0, cwd, pv, k + 1, parents, uid, gid);
                }
                return Err(e);
            },
        }
        k += 1;
    }
    assert(pv.take(paths@.len() as int) == pv);
    Ok(String::new())
}

/// The `mkdir` command.
pub struct MkdirCommand;

impl Command for MkdirCommand {
    fn name(&self) -> (r: &'static str)
        ensures
            r@ == "mkdir"@,
    {
        "mkdir"
    }

    fn description(&self) -> (r: &'static str)
        ensures
            r@ == "Create directories (-p for recursive)"@,
    {
        "Create directories (-p for recursive)"
    }

    fn accepts_stdin(&self) -> (r: bool)
        ensures
            !r,
    {
        false
    }

    fn execute(&self, ctx: &mut CommandContext) -> (r: Result<String, String>)
        ensures
            meets(outcome(CommandKind::Mkdir, state_of(old(ctx))), r, final(ctx)),
    {
        proof {
            lemma_vfs_of(ctx);
        }
        execute(ctx.vfs, ctx.args, ctx.uid, ctx.gid)
    }

    fn synopsis(&self) -> (r: &'static str)
        ensures
            r@ == "mkdir [-p] directory [directory2 ...]"@,
    {
        "mkdir [-p] directory [directory2 ...]"
    }

    fn man_description(&self) -> (r: &'static str)
        ensures
            r@ == "Create one or more new directories at the specified paths. Without -p, the parent directory must already exist \
and the target must not already exist. With -p, parent directories are created as needed and already-existing \
directories are silently skipped, making it safe for creating deep directory trees in a single call."@,
    {
        "Create one or more new directories at the specified paths. Without -p, the parent directory must already exist \
and the target must not already exist. With -p, parent directories are created as needed and already-existing \
directories are silently skipped, making it safe for creating deep directory trees in a single call."
    }

    fn examples(&self) -> (r: &'static [&'static str])
        ensures
            strs_view(r@) == seq!["mkdir test"@, "mkdir -p path/to/dir"@],
    {
        let r: &'static [&'static str] = &["mkdir test", "mkdir -p path/to/dir"];
        assert(r@ == seq!["mkdir test", "mkdir -p path/to/dir"]);
        r
    }
}

} // verus!
