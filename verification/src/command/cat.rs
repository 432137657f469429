//! `cat file...` -- concatenate files.
//!
//! Each file must exist, must not be a directory, and must be readable by
//! the calling user; a newline is added after a file whose contents do not
//! leave the output ending in one.
use vstd::prelude::*;
use crate::text::{strs_view, chars_of, string_of, to_owned_string, push_str, push_all};
use crate::permissions::{AccessMode, access_allowed, check_access};
use crate::vfs::{Vfs, rv};
use crate::command::kinds::outcome;
use crate::command::vfs_of;
use crate::command::{Command, CommandContext, CommandKind, state_of, meets, lemma_vfs_of};

verus! {

/// `o` ending in a newline.
pub open spec fn ensure_newline(o: Seq<char>) -> Seq<char> {
    if o.len() > 0 && o.last() == '\n' {
        o
    } else {
        o.push('\n')
    }
}

/// The output for `files`, or the first error.
pub open spec fn cat_acc(vfs: &Vfs, files: Seq<Seq<char>>, uid: u32, gid: u32) -> Result<Seq<char>, Seq<char>>
    decreases files.len(),
{
    if files.len() == 0 {
        Ok(Seq::empty())
    } else {
        match cat_acc(vfs, files.drop_last(), uid, gid) {
            Err(e) => Err(e),
            Ok(o) => {
                let p = files.last();
                let k = vfs.key(p);
                if !vfs@.dom().contains(k) {
                    Err("cat: "@ + p + ": No such file or directory"@)
                } else if vfs@[k].0 {
                    Err("cat: "@ + p + ": Is a directory"@)
                } else if !access_allowed(vfs@[k].2, AccessMode::Read, uid, gid) {
                    Err("Permission denied"@)
                } else {
                    Ok(ensure_newline(o + vfs@[k].1))
                }
            },
        }
    }
}

/// The result of `cat` run by `uid:gid`.
pub open spec fn cat_spec(vfs: &Vfs, args: Seq<Seq<char>>, uid: u32, gid: u32) -> Result<Seq<char>, Seq<char>> {
    if args.len() == 0 {
        Err("cat: missing file operand"@)
    } else {
        cat_acc(vfs, args, uid, gid)
    }
}

proof fn lemma_cat_acc_err(vfs: &Vfs, files: Seq<Seq<char>>, k: int, uid: u32, gid: u32)
    requires
        0 <= k <= files.len(),
        cat_acc(vfs, files.take(k), uid, gid) is Err,
    ensures
        cat_acc(vfs, files, uid, gid) == cat_acc(vfs, files.take(k), uid, gid),
    decreases files.len(),
{
    if k == files.len() {
        assert(files.take(k) == files);
    } else {
        assert(files.drop_last().take(k) == files.take(k));
        lemma_cat_acc_err(vfs, files.drop_last(), k, uid, gid);
    }
}

fn prefixed(path: &str, suffix: &str) -> (r: String)
    ensures
        r@ == "cat: "@ + path@ + suffix@,
{
    let mut m: Vec<char> = Vec::new();
    push_str(&mut m, "cat: ");
    push_str(&mut m, path);
    push_str(&mut m, suffix);
    string_of(m.as_slice())
}


/// `cat` depends on a file system only through its nodes and directory.
pub proof fn lemma_cat_view(v1: &Vfs, v2: &Vfs, files: Seq<Seq<char>>, uid: u32, gid: u32)
    requires
        v1@ == v2@,
        v1.cwd@ == v2.cwd@,
    ensures
        cat_acc(v1, files, uid, gid) == cat_acc(v2, files, uid, gid),
        cat_spec(v1, files, uid, gid) == cat_spec(v2, files, uid, gid),
    decreases files.len(),
{
    if files.len() > 0 {
        lemma_cat_view(v1, v2, files.drop_last(), uid, gid);
    }
}

/// Execute `cat` as `uid:gid`.
pub fn execute(vfs: &Vfs, args: &[&str], uid: u32, gid: u32) -> (r: Result<String, String>)
    ensures
        rv(r) == cat_spec(vfs, strs_view(args@), uid, gid),
{
    if args.len() == 0 {
        return Err(to_owned_string("cat: missing file operand"));
    }
    let ghost av = strs_view(args@);
    let mut out: Vec<char> = Vec::new();
    let mut k: usize = 0;
    while k < args.len()
        invariant
            k <= args@.len(),
            av == strs_view(args@),
            cat_acc(vfs, av.take(k as int), uid, gid) == Ok::<Seq<char>, Seq<char>>(out@),
        decreases args.len() - k,
    {
        assert(av.take(k + 1).drop_last() == av.take(k as int));
        assert(av.take(k + 1).last() == args@[k as int]@);
        let path = args[k];
        let err: Option<String> = if !vfs.exists_path(path) {
            Some(prefixed(path, ": No such file or directory"))
        } else if vfs.is_dir(path) {
            Some(prefixed(path, ": Is a directory"))
        } else {
            let meta = vfs.get_meta(path).unwrap();
            match check_access(&meta, AccessMode::Read, uid, gid) {
                Ok(()) => None,
                Err(e) => Some(e),
            }
        };
        match err {
            Some(e) => {
                proof {
                    lemma_cat_acc_err(vfs, av, k + 1, uid, gid);
                }
                return Err(e);
            },
            None => {},
        }
        let content = vfs.read_file(path)?;
        push_str(&mut out, content.as_str());
        if !(out.len() > 0 && out[out.len() - 1] == '\n') {
            out.push('\n');
        }
        k += 1;
    }
    assert(av.take(args@.len() as int) == av);
    Ok(string_of(out.as_slice()))
}

/// The `cat` command.
pub struct CatCommand;

impl Command for CatCommand {
    fn name(&self) -> (r: &'static str)
        ensures
            r@ == "cat"@,
    {
        "cat"
    }

    fn description(&self) -> (r: &'static str)
        ensures
            r@ == "Display file contents"@,
    {
        "Display file contents"
    }

    fn accepts_stdin(&self) -> (r: bool)
        ensures
            r,
    {
        true
    }

    fn execute(&self, ctx: &mut CommandContext) -> (r: Result<String, String>)
        ensures
            meets(outcome(CommandKind::Cat, state_of(old(ctx))), r, final(ctx)),
    {
        proof {
            lemma_vfs_of(ctx);
            lemma_cat_view(ctx.vfs, &vfs_of(state_of(ctx)), state_of(ctx).args, ctx.uid, ctx.gid);
        }
        execute(ctx.vfs, ctx.args, ctx.uid, ctx.gid)
    }

    fn synopsis(&self) -> (r: &'static str)
        ensures
            r@ == "cat file [file2 ...]"@,
    {
        "cat file [file2 ...]"
    }

    fn man_description(&self) -> (r: &'static str)
        ensures
            r@ == "Concatenate and display the contents of one or more files to standard output. \
Multiple files are read in order and their contents are concatenated without any separator. \
A trailing newline is appended if the last file does not end with one."@,
    {
        "Concatenate and display the contents of one or more files to standard output. \
Multiple files are read in order and their contents are concatenated without any separator. \
A trailing newline is appended if the last file does not end with one."
    }

    fn examples(&self) -> (r: &'static [&'static str])
        ensures
            strs_view(r@) == seq!["cat file.txt"@, "cat a.txt b.txt"@],
    {
        let r: &'static [&'static str] = &["cat file.txt", "cat a.txt b.txt"];
        assert(r@ == seq!["cat file.txt", "cat a.txt b.txt"]);
        r
    }
}

} // verus!
