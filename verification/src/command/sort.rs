//! `sort [-r] file` -- the lines of a file in lexicographic order
//! (descending with `-r`).
use vstd::prelude::*;
use crate::text::{strs_view, chars_of, string_of, to_owned_string, str_eq, str_lines, join,
    join_chars, lines, vv};
use crate::order::{sort_lex, sort_seq, lemma_sort_seq, reverse_vecs};
use crate::vfs::{Vfs, rv, read_spec};
use crate::command::kinds::outcome;
use crate::command::{Command, CommandContext, CommandKind, state_of, meets, lemma_vfs_of};

verus! {

/// Whether `-r` was seen and the file operand, from `args[i..]`.
pub open spec fn sort_args(args: Seq<Seq<char>>, i: int, rev: bool, file: Option<Seq<char>>) -> Result<(bool, Option<Seq<char>>), Seq<char>>
    decreases args.len() - i,
{
    if i < 0 || i >= args.len() {
        Ok((rev, file))
    } else if args[i] == "-r"@ {
        sort_args(args, i + 1, true, file)
    } else if file is None {
        sort_args(args, i + 1, rev, Some(args[i]))
    } else {
        Err("sort: too many arguments"@)
    }
}

/// The result of `sort` on the given arguments.
pub open spec fn sort_spec(vfs: &Vfs, args: Seq<Seq<char>>) -> Result<Seq<char>, Seq<char>> {
    match sort_args(args, 0, false, None) {
        Err(e) => Err(e),
        Ok((rev, f)) => match f {
            None => Err("sort: missing file operand"@),
            Some(p) => match read_spec(vfs@, vfs.key(p)) {
                Err(e) => Err(e),
                Ok(c) => {
                    let s = sort_seq(lines(c));
                    let out = if rev {
                        s.reverse()
                    } else {
                        s
                    };
                    Ok(join(out, seq!['\n']) + seq!['\n'])
                },
            },
        },
    }
}

/// Execute `sort`.
pub fn execute(vfs: &Vfs, args: &[&str]) -> (r: Result<String, String>)
    ensures
        rv(r) == sort_spec(vfs, strs_view(args@)),
{
    let ghost av = strs_view(args@);
    let mut rev = false;
    let mut file: Option<&str> = None;
    let mut i: usize = 0;
    while i < args.len()
        invariant
            i <= args@.len(),
            av == strs_view(args@),
            sort_args(av, 0, false, None) == sort_args(
                av,
                i as int,
                rev,
                match file {
                    Some(p) => Some(p@),
                    None => None,
                },
            ),
        decreases args.len() - i,
    {
        assert(av[i as int] == args@[i as int]@);
        if str_eq(args[i], "-r") {
            rev = true;
        } else if file.is_none() {
            file = Some(args[i]);
        } else {
            return Err(to_owned_string("sort: too many arguments"));
        }
        i += 1;
    }
    let path = match file {
        Some(p) => p,
        None => return Err(to_owned_string("sort: missing file operand")),
    };
    let content = vfs.read_file(path)?;
    let ls = str_lines(content.as_str());
    let ghost lv = vv(ls@);
    let sorted_ls = sort_lex(ls);
    proof {
        assert(vv(sorted_ls@) == sorted_ls@.map_values(|e: Vec<char>| e@));
        lemma_sort_seq(lv, vv(sorted_ls@));
    }
    let out_ls = if rev {
        reverse_vecs(sorted_ls)
    } else {
        sorted_ls
    };
    let mut sep: Vec<char> = Vec::new();
    sep.push('\n');
    assert(sep@ =~= seq!['\n']);
    let mut out = join_chars(&out_ls, sep.as_slice());
    out.push('\n');
    assert(out@ =~= join(vv(out_ls@), seq!['\n']) + seq!['\n']);
    Ok(string_of(out.as_slice()))
}

/// The `sort` command.
pub struct SortCommand;

impl Command for SortCommand {
    fn name(&self) -> (r: &'static str)
        ensures
            r@ == "sort"@,
    {
        "sort"
    }

    fn description(&self) -> (r: &'static str)
        ensures
            r@ == "Sort lines of a file (-r for reverse)"@,
    {
        "Sort lines of a file (-r for reverse)"
    }

    fn accepts_stdin(&self) -> (r: bool)
        ensures
            r,
    {
        true
    }

    fn execute(&self, ctx: &mut CommandContext) -> (r: Result<String, String>)
        ensures
            meets(outcome(CommandKind::Sort, state_of(old(ctx))), r, final(ctx)),
    {
        proof {
            lemma_vfs_of(ctx);
        }
        execute(ctx.vfs, ctx.args)
    }

    fn synopsis(&self) -> (r: &'static str)
        ensures
            r@ == "sort [-r] file"@,
    {
        "sort [-r] file"
    }

    fn man_description(&self) -> (r: &'static str)
        ensures
            r@ == "Sort lines of a file in lexicographic (Unicode codepoint) order and print the result. \
With -r, the sort order is reversed so that lines are printed from Z to A. Sorting is \
case-sensitive by default (uppercase letters sort before lowercase)."@,
    {
        "Sort lines of a file in lexicographic (Unicode codepoint) order and print the result. \
With -r, the sort order is reversed so that lines are printed from Z to A. Sorting is \
case-sensitive by default (uppercase letters sort before lowercase)."
    }

    fn examples(&self) -> (r: &'static [&'static str])
        ensures
            strs_view(r@) == seq!["sort file.txt"@, "sort -r file.txt"@],
    {
        let r: &'static [&'static str] = &["sort file.txt", "sort -r file.txt"];
        assert(r@ == seq!["sort file.txt", "sort -r file.txt"]);
        r
    }
}

} // verus!
