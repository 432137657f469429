//! `yes [-n COUNT] [text...]` -- print a line over and over.
//!
//! The line is the arguments joined by spaces (`y` without any); it is
//! printed COUNT times, or `DEFAULT_MAX_LINES` times when no count is given.
use vstd::prelude::*;
use crate::text::{strs_view, chars_of, string_of, to_owned_string, push_str, push_all, str_eq,
    join, join_chars, vv};
use crate::numeric::{parse_bounded, parse_usize};
use crate::vfs::rv;
use crate::command::kinds::outcome;
use crate::command::{Command, CommandContext, CommandKind, state_of, meets, lemma_vfs_of};

verus! {

/// How many lines are printed when no count is given.
pub const DEFAULT_MAX_LINES: usize = 10000;

/// `s` repeated `n` times.
pub open spec fn repeat(s: Seq<char>, n: nat) -> Seq<char>
    decreases n,
{
    if n == 0 {
        Seq::empty()
    } else {
        repeat(s, (n - 1) as nat) + s
    }
}

/// The count and the words, from `args[i..]`.
pub open spec fn yes_args(args: Seq<Seq<char>>, i: int, count: Option<nat>, words: Seq<Seq<char>>) -> Result<(Option<nat>, Seq<Seq<char>>), Seq<char>>
    decreases args.len() - i,
{
    if i < 0 || i >= args.len() {
        Ok((count, words))
    } else if args[i] == "-n"@ {
        if i + 1 >= args.len() {
            Err("yes: option requires an argument -- 'n'"@)
        } else {
            match parse_bounded(args[i + 1], usize::MAX as nat) {
                Some(n) => yes_args(args, i + 2, Some(n), words),
                None => Err("yes: invalid count: '"@ + args[i + 1] + "'"@),
            }
        }
    } else {
        yes_args(args, i + 1, count, words.push(args[i]))
    }
}

/// The result of `yes` on the given arguments.
pub open spec fn yes_spec(args: Seq<Seq<char>>) -> Result<Seq<char>, Seq<char>> {
    match yes_args(args, 0, None, Seq::empty()) {
        Err(e) => Err(e),
        Ok((count, words)) => {
            let text = if words.len() == 0 {
                seq!['y']
            } else {
                join(words, seq![' '])
            };
            let n = match count {
                Some(n) => n,
                None => DEFAULT_MAX_LINES as nat,
            };
            Ok(repeat(text.push('\n'), n))
        },
    }
}

/// Execute `yes`.
pub fn execute(args: &[&str]) -> (r: Result<String, String>)
    ensures
        rv(r) == yes_spec(strs_view(args@)),
{
    let ghost av = strs_view(args@);
    let mut count: Option<usize> = None;
    let mut words: Vec<Vec<char>> = Vec::new();
    let mut i: usize = 0;
    assert(vv(words@) =~= Seq::<Seq<char>>::empty());
    while i < args.len()
        invariant
            i <= args@.len(),
            av == strs_view(args@),
            yes_args(av, 0, None, Seq::empty()) == yes_args(
                av,
                i as int,
                match count {
                    Some(n) => Some(n as nat),
                    None => None,
                },
                vv(words@),
            ),
        decreases args.len() - i,
    {
        assert(av[i as int] == args@[i as int]@);
        if str_eq(args[i], "-n") {
            if i + 1 >= args.len() {
                return Err(to_owned_string("yes: option requires an argument -- 'n'"));
            }
            assert(av[i + 1] == args@[i + 1]@);
            let nc = chars_of(args[i + 1]);
            match parse_usize(nc.as_slice()) {
                Some(n) => {
                    count = Some(n);
                    i += 2;
                },
                None => {
                    let mut m: Vec<char> = Vec::new();
                    push_str(&mut m, "yes: invalid count: '");
                    push_all(&mut m, nc.as_slice());
                    push_str(&mut m, "'");
                    return Err(string_of(m.as_slice()));
                },
            }
        } else {
            let ghost before = vv(words@);
            words.push(chars_of(args[i]));
            assert(vv(words@) =~= before.push(av[i as int]));
            i += 1;
        }
    }
    let mut line: Vec<char> = if words.len() == 0 {
        let mut y: Vec<char> = Vec::new();
        y.push('y');
        assert(y@ =~= seq!['y']);
        y
    } else {
        let mut sep: Vec<char> = Vec::new();
        sep.push(' ');
        assert(sep@ =~= seq![' ']);
        join_chars(&words, sep.as_slice())
    };
    line.push('\n');
    let limit: usize = match count {
        Some(n) => n,
        None => DEFAULT_MAX_LINES,
    };
    let mut out: Vec<char> = Vec::new();
    let mut k: usize = 0;
    while k < limit
        invariant
            k <= limit,
            out@ == repeat(line@, k as nat),
        decreases limit - k,
    {
        push_all(&mut out, line.as_slice());
        k += 1;
    }
    Ok(string_of(out.as_slice()))
}

/// The `yes` command.
pub struct YesCommand;

impl Command for YesCommand {
    fn name(&self) -> (r: &'static str)
        ensures
            r@ == "yes"@,
    {
        "yes"
    }

    fn description(&self) -> (r: &'static str)
        ensures
            r@ == "Output a string repeatedly"@,
    {
        "Output a string repeatedly"
    }

    fn accepts_stdin(&self) -> (r: bool)
        ensures
            !r,
    {
        false
    }

    fn execute(&self, ctx: &mut CommandContext) -> (r: Result<String, String>)
        ensures
            meets(outcome(CommandKind::Yes, state_of(old(ctx))), r, final(ctx)),
    {
        proof {
            lemma_vfs_of(ctx);
        }
        execute(ctx.args)
    }

    fn synopsis(&self) -> (r: &'static str)
        ensures
            r@ == "yes [-n COUNT] [STRING ...]"@,
    {
        "yes [-n COUNT] [STRING ...]"
    }

    fn man_description(&self) -> (r: &'static str)
        ensures
            r@ == "Repeatedly output a line with the specified STRING, or 'y' by default. \
Without -n, output is capped at 10000 lines (browser-safe limit). With -n COUNT, \
outputs exactly COUNT lines. Useful for piping into commands that need affirmative input."@,
    {
        "Repeatedly output a line with the specified STRING, or 'y' by default. \
Without -n, output is capped at 10000 lines (browser-safe limit). With -n COUNT, \
outputs exactly COUNT lines. Useful for piping into commands that need affirmative input."
    }

    fn examples(&self) -> (r: &'static [&'static str])
        ensures
            strs_view(r@) == seq!["yes"@, "yes hello"@, "yes -n 5 ok"@],
    {
        let r: &'static [&'static str] = &["yes", "yes hello", "yes -n 5 ok"];
        assert(r@ == seq!["yes", "yes hello", "yes -n 5 ok"]);
        r
    }
}

} // verus!
