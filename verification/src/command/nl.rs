//! `nl file` -- number the lines of a file.
//!
//! Each line is preceded by its 1-based number right-aligned in six columns
//! and a tab; an empty file gives no output.
use vstd::prelude::*;
use crate::text::{strs_view, chars_of, string_of, to_owned_string, str_lines, push_all, lines, vv};
use crate::numeric::{nat_str, pad_left, push_u64_padded};
use crate::vfs::{Vfs, rv, read_spec};
use crate::command::kinds::outcome;
use crate::command::{Command, CommandContext, CommandKind, state_of, meets, lemma_vfs_of};

verus! {

/// The contents of the single file operand of `cmd`, or the error.
pub open spec fn single_file(vfs: &Vfs, cmd: Seq<char>, args: Seq<Seq<char>>) -> Result<Seq<char>, Seq<char>> {
    if args.len() == 0 {
        Err(cmd + ": missing file operand"@)
    } else if args.len() > 1 {
        Err(cmd + ": too many arguments"@)
    } else {
        read_spec(vfs@, vfs.key(args[0]))
    }
}

/// Read the single file operand of `cmd`.
pub fn read_single_file(vfs: &Vfs, cmd: &str, args: &[&str]) -> (r: Result<String, String>)
    ensures
        rv(r) == single_file(vfs, cmd@, strs_view(args@)),
{
    if args.len() == 0 {
        let mut m = chars_of(cmd);
        crate::text::push_str(&mut m, ": missing file operand");
        return Err(string_of(m.as_slice()));
    }
    if args.len() > 1 {
        let mut m = chars_of(cmd);
        crate::text::push_str(&mut m, ": too many arguments");
        return Err(string_of(m.as_slice()));
    }
    assert(strs_view(args@)[0] == args@[0]@);
    vfs.read_file(args[0])
}

/// The numbered form of the lines `ls[..n]`.
pub open spec fn numbered(ls: Seq<Seq<char>>, n: nat) -> Seq<char>
    decreases n,
{
    if n == 0 {
        Seq::empty()
    } else {
        numbered(ls, (n - 1) as nat) + pad_left(nat_str(n), 6, ' ') + seq!['\t'] + ls[n - 1] + seq!['\n']
    }
}

/// The result of `nl` on the given arguments.
pub open spec fn nl_spec(vfs: &Vfs, args: Seq<Seq<char>>) -> Result<Seq<char>, Seq<char>> {
    match single_file(vfs, "nl"@, args) {
        Err(e) => Err(e),
        Ok(c) => if c.len() == 0 {
            Ok(Seq::empty())
        } else {
            Ok(numbered(lines(c), lines(c).len()))
        },
    }
}

/// Execute `nl`.
pub fn execute(vfs: &Vfs, args: &[&str]) -> (r: Result<String, String>)
    ensures
        rv(r) == nl_spec(vfs, strs_view(args@)),
{
    let content = read_single_file(vfs, "nl", args)?;
    let ls = str_lines(content.as_str());
    let ghost lv = vv(ls@);
    let mut out: Vec<char> = Vec::new();
    let mut k: usize = 0;
    while k < ls.len()
        invariant
            k <= ls@.len(),
            lv == vv(ls@),
            out@ == numbered(lv, k as nat),
        decreases ls.len() - k,
    {
        push_u64_padded(&mut out, (k + 1) as u64, 6, ' ');
        out.push('\t');
        push_all(&mut out, ls[k].as_slice());
        out.push('\n');
        assert(lv[k as int] == ls@[k as int]@);
        k += 1;
        assert(out@ =~= numbered(lv, k as nat));
    }
    if content.as_str().is_empty() {
        return Ok(String::new());
    }
    Ok(string_of(out.as_slice()))
}

/// The `nl` command.
pub struct NlCommand;

impl Command for NlCommand {
    fn name(&self) -> (r: &'static str)
        ensures
            r@ == "nl"@,
    {
        "nl"
    }

    fn description(&self) -> (r: &'static str)
        ensures
            r@ == "Number lines of a file"@,
    {
        "Number lines of a file"
    }

    fn accepts_stdin(&self) -> (r: bool)
        ensures
            r,
    {
        true
    }

    fn execute(&self, ctx: &mut CommandContext) -> (r: Result<String, String>)
        ensures
            meets(outcome(CommandKind::Nl, state_of(old(ctx))), r, final(ctx)),
    {
        proof {
            lemma_vfs_of(ctx);
        }
        execute(ctx.vfs, ctx.args)
    }

    fn synopsis(&self) -> (r: &'static str)
        ensures
            r@ == "nl [file]"@,
    {
        "nl [file]"
    }

    fn man_description(&self) -> (r: &'static str)
        ensures
            r@ == "Number each line of the input file and write the result to standard output. \
Each line is prefixed with its 1-indexed line number, right-aligned in a 6-character \
field, followed by a tab character. If no file is given, reads from stdin."@,
    {
        "Number each line of the input file and write the result to standard output. \
Each line is prefixed with its 1-indexed line number, right-aligned in a 6-character \
field, followed by a tab character. If no file is given, reads from stdin."
    }

    fn examples(&self) -> (r: &'static [&'static str])
        ensures
            strs_view(r@) == seq!["nl file.txt"@, "cat file.txt | nl"@],
    {
        let r: &'static [&'static str] = &["nl file.txt", "cat file.txt | nl"];
        assert(r@ == seq!["nl file.txt", "cat file.txt | nl"]);
        r
    }
}

} // verus!
