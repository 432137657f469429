//! `head [-n COUNT] file` -- the first lines of a file (10 by default).
//!
//! The count may be given as `-n 5` or `-n5`; a file shorter than the count
//! is shown whole.
use vstd::prelude::*;
use crate::text::{strs_view, chars_of, string_of, to_owned_string, push_str, push_all, str_eq,
    starts_with, has_prefix_str, slice_chars};
use crate::numeric::{parse_bounded, parse_usize};
use crate::vfs::{Vfs, rv, read_spec, lines_range};
use crate::command::kinds::outcome;
use crate::command::{Command, CommandContext, CommandKind, state_of, meets, lemma_vfs_of};

verus! {

/// The message for a count that is not a number.
pub open spec fn bad_count(cmd: Seq<char>, s: Seq<char>) -> Seq<char> {
    cmd + ": invalid line count: '"@ + s + "'"@
}

/// The line count and file operand given by `args[i..]` to the command
/// `cmd`, starting from `count` and `file`.
pub open spec fn count_args(
    cmd: Seq<char>,
    args: Seq<Seq<char>>,
    i: int,
    count: nat,
    file: Option<Seq<char>>,
) -> Result<(nat, Option<Seq<char>>), Seq<char>>
    decreases args.len() - i,
{
    if i < 0 || i >= args.len() {
        Ok((count, file))
    } else if args[i] == "-n"@ && i + 1 < args.len() {
        match parse_bounded(args[i + 1], usize::MAX as nat) {
            Some(n) => count_args(cmd, args, i + 2, n, file),
            None => Err(bad_count(cmd, args[i + 1])),
        }
    } else if starts_with(args[i], "-n"@) && args[i].len() > 2 {
        match parse_bounded(args[i].skip(2), usize::MAX as nat) {
            Some(n) => count_args(cmd, args, i + 1, n, file),
            None => Err(bad_count(cmd, args[i].skip(2))),
        }
    } else if file is None {
        count_args(cmd, args, i + 1, count, Some(args[i]))
    } else {
        Err(cmd + ": too many arguments"@)
    }
}

/// The options of `head`/`tail`: the count (default 10) and the file.
pub open spec fn count_opts(cmd: Seq<char>, args: Seq<Seq<char>>) -> Result<(nat, Seq<char>), Seq<char>> {
    match count_args(cmd, args, 0, 10, None) {
        Err(e) => Err(e),
        Ok((n, f)) => match f {
            None => Err(cmd + ": missing file operand"@),
            Some(p) => Ok((n, p)),
        },
    }
}

/// Parse the arguments of `head` or `tail` (named `cmd`).
pub fn parse_count_args<'a>(cmd: &str, args: &[&'a str]) -> (r: Result<(usize, &'a str), String>)
    ensures
        match count_opts(cmd@, strs_view(args@)) {
            Ok((n, p)) => r is Ok && r->Ok_0.0 as nat == n && r->Ok_0.1@ == p,
            Err(e) => r is Err && r->Err_0@ == e,
        },
{
    let ghost av = strs_view(args@);
    let mut count: usize = 10;
    let mut file: Option<&str> = None;
    let mut i: usize = 0;
    while i < args.len()
        invariant
            i <= args@.len(),
            av == strs_view(args@),
            count_args(cmd@, av, 0, 10, None) == count_args(
                cmd@,
                av,
                i as int,
                count as nat,
                match file {
                    Some(p) => Some(p@),
                    None => None,
                },
            ),
        decreases args.len() - i,
    {
        assert(av[i as int] == args@[i as int]@);
        let ac = chars_of(args[i]);
        if str_eq(args[i], "-n") && i + 1 < args.len() {
            assert(av[i + 1] == args@[i + 1]@);
            let nc = chars_of(args[i + 1]);
            match parse_usize(nc.as_slice()) {
                Some(n) => {
                    count = n;
                    i += 2;
                },
                None => {
                    let mut m = chars_of(cmd);
                    push_str(&mut m, ": invalid line count: '");
                    push_all(&mut m, nc.as_slice());
                    push_str(&mut m, "'");
                    return Err(string_of(m.as_slice()));
                },
            }
        } else if has_prefix_str(ac.as_slice(), "-n") && ac.len() > 2 {
            proof {
                reveal_strlit("-n");
            }
            let rest = slice_chars(ac.as_slice(), 2, ac.len());
            assert(rest@ =~= av[i as int].skip(2));
            match parse_usize(rest.as_slice()) {
                Some(n) => {
                    count = n;
                    i += 1;
                },
                None => {
                    let mut m = chars_of(cmd);
                    push_str(&mut m, ": invalid line count: '");
                    push_all(&mut m, rest.as_slice());
                    push_str(&mut m, "'");
                    return Err(string_of(m.as_slice()));
                },
            }
        } else if file.is_none() {
            file = Some(args[i]);
            i += 1;
        } else {
            let mut m = chars_of(cmd);
            push_str(&mut m, ": too many arguments");
            return Err(string_of(m.as_slice()));
        }
    }
    match file {
        Some(p) => Ok((count, p)),
        None => {
            let mut m = chars_of(cmd);
            push_str(&mut m, ": missing file operand");
            Err(string_of(m.as_slice()))
        },
    }
}

/// The result of `head` on the given arguments.
pub open spec fn head_spec(vfs: &Vfs, args: Seq<Seq<char>>) -> Result<Seq<char>, Seq<char>> {
    match count_opts("head"@, args) {
        Err(e) => Err(e),
        Ok((n, p)) => match read_spec(vfs@, vfs.key(p)) {
            Err(e) => Err(e),
            Ok(c) => Ok(lines_range(c, 0, n) + seq!['\n']),
        },
    }
}

/// Execute `head`.
pub fn execute(vfs: &Vfs, args: &[&str]) -> (r: Result<String, String>)
    ensures
        rv(r) == head_spec(vfs, strs_view(args@)),
{
    let (count, path) = parse_count_args("head", args)?;
    let part = vfs.read_file_lines(path, 0, count)?;
    let mut out = chars_of(part.as_str());
    out.push('\n');
    assert(out@ =~= part@ + seq!['\n']);
    Ok(string_of(out.as_slice()))
}

/// The `head` command.
pub struct HeadCommand;

impl Command for HeadCommand {
    fn name(&self) -> (r: &'static str)
        ensures
            r@ == "head"@,
    {
        "head"
    }

    fn description(&self) -> (r: &'static str)
        ensures
            r@ == "Display first N lines of a file (-n COUNT)"@,
    {
        "Display first N lines of a file (-n COUNT)"
    }

    fn accepts_stdin(&self) -> (r: bool)
        ensures
            r,
    {
        true
    }

    fn execute(&self, ctx: &mut CommandContext) -> (r: Result<String, String>)
        ensures
            meets(outcome(CommandKind::Head, state_of(old(ctx))), r, final(ctx)),
    {
        proof {
            lemma_vfs_of(ctx);
        }
        execute(ctx.vfs, ctx.args)
    }

    fn synopsis(&self) -> (r: &'static str)
        ensures
            r@ == "head [-n COUNT] file"@,
    {
        "head [-n COUNT] file"
    }

    fn man_description(&self) -> (r: &'static str)
        ensures
            r@ == "Display the first N lines of a file to standard output. By default, the first 10 lines \
are shown. Use the -n flag to specify a different line count; both spaced (-n 5) and compact \
(-n5) forms are accepted. If the file has fewer lines than requested, all lines are shown."@,
    {
        "Display the first N lines of a file to standard output. By default, the first 10 lines \
are shown. Use the -n flag to specify a different line count; both spaced (-n 5) and compact \
(-n5) forms are accepted. If the file has fewer lines than requested, all lines are shown."
    }

    fn examples(&self) -> (r: &'static [&'static str])
        ensures
            strs_view(r@) == seq!["head file.txt"@, "head -n 5 file.txt"@, "head -n20 log.txt"@],
    {
        let r: &'static [&'static str] = &["head file.txt", "head -n 5 file.txt", "head -n20 log.txt"];
        assert(r@ == seq!["head file.txt", "head -n 5 file.txt", "head -n20 log.txt"]);
        r
    }
}

} // verus!
