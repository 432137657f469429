//! `basename` -- strip directory and an optional suffix from a path.
//!
//! Prints the last component of `path` after removing trailing slashes and
//! every leading directory component; a matching `suffix` is stripped too.
//! Pure string manipulation: the file system is not consulted.
use vstd::prelude::*;
use crate::text::{strs_view, strs_to_chars, trim_end_char, trim_end_matches, ends_with, push_all,
    push_str, string_of, to_owned_string, vv};
use crate::path::{name_of, split_parent};
use crate::vfs::rv;
use crate::command::kinds::outcome;
use crate::command::{Command, CommandContext, CommandKind, state_of, meets, lemma_vfs_of};

verus! {

/// The output of `basename` for the given arguments.
pub open spec fn basename_spec(args: Seq<Seq<char>>) -> Result<Seq<char>, Seq<char>> {
    if args.len() == 0 {
        Err("basename: missing operand"@)
    } else {
        let name = name_of(trim_end_char(args[0], '/'));
        let result = if args.len() > 1 && ends_with(name, args[1]) {
            name.take(name.len() - args[1].len())
        } else {
            name
        };
        Ok(result + seq!['\n'])
    }
}

/// Execute `basename path [suffix]`.
pub fn execute(args: &[&str]) -> (r: Result<String, String>)
    ensures
        rv(r) == basename_spec(strs_view(args@)),
{
    if args.len() == 0 {
        return Err(to_owned_string("basename: missing operand"));
    }
    let a = strs_to_chars(args);
    assert(vv(a@)[0] == a@[0]@);
    let trimmed = trim_end_matches(a[0].as_slice(), '/');
    let (_, name) = split_parent(trimmed.as_slice());
    let mut out: Vec<char> = Vec::new();
    if a.len() > 1 {
        assert(vv(a@)[1] == a@[1]@);
        let suf = &a[1];
        let n = name.len();
        let ends = suf.len() <= n && crate::text::chars_eq(
            crate::text::slice_chars(name.as_slice(), n - suf.len(), n).as_slice(),
            suf.as_slice(),
        );
        assert(ends == ends_with(name@, suf@)) by {
            if suf@.len() <= name@.len() {
                assert(name@.subrange(n - suf@.len(), n as int) =~= name@.skip(n - suf@.len()));
            }
        }
        if ends {
            let kept = crate::text::slice_chars(name.as_slice(), 0, n - suf.len());
            push_all(&mut out, kept.as_slice());
            assert(kept@ =~= name@.take(name@.len() - suf@.len()));
        } else {
            push_all(&mut out, name.as_slice());
        }
    } else {
        push_all(&mut out, name.as_slice());
    }
    out.push('\n');
    assert(out@ =~= basename_spec(strs_view(args@))->Ok_0);
    Ok(string_of(out.as_slice()))
}

/// The `basename` command.
pub struct BasenameCommand;

impl Command for BasenameCommand {
    fn name(&self) -> (r: &'static str)
        ensures
            r@ == "basename"@,
    {
        "basename"
    }

    fn description(&self) -> (r: &'static str)
        ensures
            r@ == "Strip directory from filename"@,
    {
        "Strip directory from filename"
    }

    fn accepts_stdin(&self) -> (r: bool)
        ensures
            !r,
    {
        false
    }

    fn execute(&self, ctx: &mut CommandContext) -> (r: Result<String, String>)
        ensures
            meets(outcome(CommandKind::Basename, state_of(old(ctx))), r, final(ctx)),
    {
        proof {
            lemma_vfs_of(ctx);
        }
        execute(ctx.args)
    }

    fn synopsis(&self) -> (r: &'static str)
        ensures
            r@ == "basename path [suffix]"@,
    {
        "basename path [suffix]"
    }

    fn man_description(&self) -> (r: &'static str)
        ensures
            r@ == "Strip directory components and optional trailing suffix from a file path. Prints the last component of the path after removing everything up to and including the final slash. If a suffix argument is provided and matches the end of the component, it is also stripped."@,
    {
        "Strip directory components and optional trailing suffix from a file path. Prints the last component of the path after removing everything up to and including the final slash. If a suffix argument is provided and matches the end of the component, it is also stripped."
    }

    fn examples(&self) -> (r: &'static [&'static str])
        ensures
            strs_view(r@) == seq!["basename /home/user/file.txt"@, "basename /home/user/file.txt .txt"@],
    {
        let r: &'static [&'static str] = &["basename /home/user/file.txt", "basename /home/user/file.txt .txt"];
        assert(r@ == seq!["basename /home/user/file.txt", "basename /home/user/file.txt .txt"]);
        r
    }
}

} // verus!
