//! `tail [-n COUNT] file` -- the last lines of a file (10 by default).
//!
//! The count may be given as `-n 5` or `-n5`; a file shorter than the count
//! is shown whole.
use vstd::prelude::*;
use crate::text::{strs_view, chars_of, string_of, lines};
use crate::command::head::{count_opts, parse_count_args};
use crate::vfs::{Vfs, rv, read_spec, lines_range};
use crate::command::kinds::outcome;
use crate::command::{Command, CommandContext, CommandKind, state_of, meets, lemma_vfs_of};

verus! {

/// The first line shown when the last `count` of `total` lines are wanted.
pub open spec fn tail_start(total: nat, count: nat) -> nat {
    if total > count {
        (total - count) as nat
    } else {
        0
    }
}

/// The result of `tail` on the given arguments.
pub open spec fn tail_spec(vfs: &Vfs, args: Seq<Seq<char>>) -> Result<Seq<char>, Seq<char>> {
    match count_opts("tail"@, args) {
        Err(e) => Err(e),
        Ok((n, p)) => match read_spec(vfs@, vfs.key(p)) {
            Err(e) => Err(e),
            Ok(c) => Ok(lines_range(c, tail_start(lines(c).len(), n), n) + seq!['\n']),
        },
    }
}

/// Execute `tail`.
pub fn execute(vfs: &Vfs, args: &[&str]) -> (r: Result<String, String>)
    ensures
        rv(r) == tail_spec(vfs, strs_view(args@)),
{
    let (count, path) = parse_count_args("tail", args)?;
    let total = vfs.file_line_count(path)?;
    let start = if total > count { total - count } else { 0 };
    let part = vfs.read_file_lines(path, start, count)?;
    let mut out = chars_of(part.as_str());
    out.push('\n');
    assert(out@ =~= part@ + seq!['\n']);
    Ok(string_of(out.as_slice()))
}

/// The `tail` command.
pub struct TailCommand;

impl Command for TailCommand {
    fn name(&self) -> (r: &'static str)
        ensures
            r@ == "tail"@,
    {
        "tail"
    }

    fn description(&self) -> (r: &'static str)
        ensures
            r@ == "Display last N lines of a file (-n COUNT)"@,
    {
        "Display last N lines of a file (-n COUNT)"
    }

    fn accepts_stdin(&self) -> (r: bool)
        ensures
            r,
    {
        true
    }

    fn execute(&self, ctx: &mut CommandContext) -> (r: Result<String, String>)
        ensures
            meets(outcome(CommandKind::Tail, state_of(old(ctx))), r, final(ctx)),
    {
        proof {
            lemma_vfs_of(ctx);
        }
        execute(ctx.vfs, ctx.args)
    }

    fn synopsis(&self) -> (r: &'static str)
        ensures
            r@ == "tail [-n COUNT] file"@,
    {
        "tail [-n COUNT] file"
    }

    fn man_description(&self) -> (r: &'static str)
        ensures
            r@ == "Display the last N lines of a file to standard output. By default, the last 10 lines \
are shown. Use the -n flag to specify a different line count; both spaced (-n 5) and compact \
(-n5) forms are accepted. If the file has fewer lines than requested, all lines are shown."@,
    {
        "Display the last N lines of a file to standard output. By default, the last 10 lines \
are shown. Use the -n flag to specify a different line count; both spaced (-n 5) and compact \
(-n5) forms are accepted. If the file has fewer lines than requested, all lines are shown."
    }

    fn examples(&self) -> (r: &'static [&'static str])
        ensures
            strs_view(r@) == seq!["tail file.txt"@, "tail -n 5 file.txt"@],
    {
        let r: &'static [&'static str] = &["tail file.txt", "tail -n 5 file.txt"];
        assert(r@ == seq!["tail file.txt", "tail -n 5 file.txt"]);
        r
    }
}

} // verus!
