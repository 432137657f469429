//! `touch file...` -- create empty files; existing ones are left alone.
use vstd::prelude::*;
use crate::text::{strs_view, to_owned_string};
use crate::path::resolve;
use crate::vfs::{Vfs, FsView, rv, write_spec};
use crate::command::kinds::outcome;
use crate::command::{Command, CommandContext, CommandKind, state_of, meets, lemma_vfs_of};

verus! {

/// The file system after touching `paths` in order, and the error that
/// stopped it, if any.
pub open spec fn touch_run(fs: FsView, cwd: Seq<char>, paths: Seq<Seq<char>>) -> (FsView, Option<Seq<char>>)
    decreases paths.len(),
{
    if paths.len() == 0 {
        (fs, None)
    } else {
        let prev = touch_run(fs, cwd, paths.drop_last());
        if prev.1 is Some {
            prev
        } else {
            let k = resolve(cwd, paths.last());
            if prev.0.dom().contains(k) {
                prev
            } else {
                match write_spec(prev.0, k, Seq::empty()) {
                    Ok(m) => (m, None),
                    Err(e) => (prev.0, Some(e)),
                }
            }
        }
    }
}

proof fn lemma_touch_stop(fs: FsView, cwd: Seq<char>, paths: Seq<Seq<char>>, k: int)
    requires
        0 <= k <= paths.len(),
        touch_run(fs, cwd, paths.take(k)).1 is Some,
    ensures
        touch_run(fs, cwd, paths) == touch_run(fs, cwd, paths.take(k)),
    decreases paths.len(),
{
    if k == paths.len() {
        assert(paths.take(k) == paths);
    } else {
        assert(paths.drop_last().take(k) == paths.take(k));
        lemma_touch_stop(fs, cwd, paths.drop_last(), k);
    }
}

/// Execute `touch`.
pub fn execute(vfs: &mut Vfs, args: &[&str]) -> (r: Result<String, String>)
    ensures
        final(vfs).cwd == old(vfs).cwd,
        args@.len() == 0 ==> rv(r) == Err::<Seq<char>, Seq<char>>("touch: missing file operand"@)
            && final(vfs)@ == old(vfs)@,
        args@.len() > 0 ==> {
            let run = touch_run(old(vfs)@, old(vfs).cwd@, strs_view(args@));
            &&& final(vfs)@ == run.0
            &&& match run.1 {
                Some(e) => rv(r) == Err::<Seq<char>, Seq<char>>(e),
                None => rv(r) == Ok::<Seq<char>, Seq<char>>(Seq::empty()),
            }
        },
{
    if args.len() == 0 {
        return Err(to_owned_string("touch: missing file operand"));
    }
    let ghost av = strs_view(args@);
    let ghost fs0 = vfs@;
    let ghost cwd = vfs.cwd@;
    let mut k: usize = 0;
    while k < args.len()
        invariant
            k <= args@.len(),
            av == strs_view(args@),
            vfs.cwd == old(vfs).cwd,
            fs0 == old(vfs)@,
            cwd == old(vfs).cwd@,
            vfs.cwd@ == cwd,
            touch_run(fs0, cwd, av.take(k as int)) == (vfs@, None::<Seq<char>>),
        decreases args.len() - k,
    {
        assert(av.take(k + 1).drop_last() == av.take(k as int));
        assert(av.take(k + 1).last() == args@[k as int]@);
        match vfs.touch(args[k]) {
            Ok(()) => {},
            Err(e) => {
                proof {
                    lemma_touch_stop(fs0, cwd, av, k + 1);
                }
                return Err(e);
            },
        }
        k += 1;
    }
    assert(av.take(args@.len() as int) == av);
    Ok(String::new())
}

/// The `touch` command.
pub struct TouchCommand;

impl Command for TouchCommand {
    fn name(&self) -> (r: &'static str)
        ensures
            r@ == "touch"@,
    {
        "touch"
    }

    fn description(&self) -> (r: &'static str)
        ensures
            r@ == "Create empty files"@,
    {
        "Create empty files"
    }

    fn accepts_stdin(&self) -> (r: bool)
        ensures
            !r,
    {
        false
    }

    fn execute(&self, ctx: &mut CommandContext) -> (r: Result<String, String>)
        ensures
            meets(outcome(CommandKind::Touch, state_of(old(ctx))), r, final(ctx)),
    {
        proof {
            lemma_vfs_of(ctx);
        }
        execute(ctx.vfs, ctx.args)
    }

    fn synopsis(&self) -> (r: &'static str)
        ensures
            r@ == "touch file [file2 ...]"@,
    {
        "touch file [file2 ...]"
    }

    fn man_description(&self) -> (r: &'static str)
        ensures
            r@ == "Create one or more empty files in the virtual filesystem. If a file already exists, its contents are left \
unchanged (the simulated timestamp update is a no-op for existing files). Multiple files can be created in a \
single invocation by listing them as separate arguments."@,
    {
        "Create one or more empty files in the virtual filesystem. If a file already exists, its contents are left \
unchanged (the simulated timestamp update is a no-op for existing files). Multiple files can be created in a \
single invocation by listing them as separate arguments."
    }

    fn examples(&self) -> (r: &'static [&'static str])
        ensures
            strs_view(r@) == seq!["touch newfile.txt"@, "touch a.txt b.txt c.txt"@],
    {
        let r: &'static [&'static str] = &["touch newfile.txt", "touch a.txt b.txt c.txt"];
        assert(r@ == seq!["touch newfile.txt", "touch a.txt b.txt c.txt"]);
        r
    }
}

} // verus!
