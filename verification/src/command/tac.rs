//! `tac file` -- the lines of a file in reverse order.
use vstd::prelude::*;
use crate::text::{strs_view, string_of, str_lines, push_line, unlines, lemma_unlines_push, lines, vv};
use crate::command::nl::{single_file, read_single_file};
use crate::vfs::{Vfs, rv};
use crate::command::kinds::outcome;
use crate::command::{Command, CommandContext, CommandKind, state_of, meets, lemma_vfs_of};

verus! {

/// The result of `tac` on the given arguments.
pub open spec fn tac_spec(vfs: &Vfs, args: Seq<Seq<char>>) -> Result<Seq<char>, Seq<char>> {
    match single_file(vfs, "tac"@, args) {
        Err(e) => Err(e),
        Ok(c) => if c.len() == 0 {
            Ok(Seq::empty())
        } else {
            Ok(unlines(lines(c).reverse()))
        },
    }
}

/// Execute `tac`.
pub fn execute(vfs: &Vfs, args: &[&str]) -> (r: Result<String, String>)
    ensures
        rv(r) == tac_spec(vfs, strs_view(args@)),
{
    let content = read_single_file(vfs, "tac", args)?;
    if content.as_str().is_empty() {
        return Ok(String::new());
    }
    let ls = str_lines(content.as_str());
    let ghost lv = vv(ls@);
    let ghost outs = lv.reverse();
    let mut out: Vec<char> = Vec::new();
    let mut k: usize = 0;
    while k < ls.len()
        invariant
            k <= ls@.len(),
            lv == vv(ls@),
            outs == lv.reverse(),
            out@ == unlines(outs.take(k as int)),
        decreases ls.len() - k,
    {
        let idx = ls.len() - 1 - k;
        proof {
            assert(outs[k as int] == lv[idx as int]);
            assert(lv[idx as int] == ls@[idx as int]@);
            lemma_unlines_push(outs.take(k as int), ls@[idx as int]@);
            assert(outs.take(k + 1) =~= outs.take(k as int).push(ls@[idx as int]@));
        }
        push_line(&mut out, ls[idx].as_slice());
        k += 1;
    }
    assert(outs.take(ls@.len() as int) == outs);
    Ok(string_of(out.as_slice()))
}

/// The `tac` command.
pub struct TacCommand;

impl Command for TacCommand {
    fn name(&self) -> (r: &'static str)
        ensures
            r@ == "tac"@,
    {
        "tac"
    }

    fn description(&self) -> (r: &'static str)
        ensures
            r@ == "Concatenate files in reverse line order"@,
    {
        "Concatenate files in reverse line order"
    }

    fn accepts_stdin(&self) -> (r: bool)
        ensures
            r,
    {
        true
    }

    fn execute(&self, ctx: &mut CommandContext) -> (r: Result<String, String>)
        ensures
            meets(outcome(CommandKind::Tac, state_of(old(ctx))), r, final(ctx)),
    {
        proof {
            lemma_vfs_of(ctx);
        }
        execute(ctx.vfs, ctx.args)
    }

    fn synopsis(&self) -> (r: &'static str)
        ensures
            r@ == "tac [file]"@,
    {
        "tac [file]"
    }

    fn man_description(&self) -> (r: &'static str)
        ensures
            r@ == "Concatenate and print files in reverse line order. Each file is read and its \
lines are printed from last to first. If no file is given, reads from stdin. \
This is the reverse of cat for line ordering."@,
    {
        "Concatenate and print files in reverse line order. Each file is read and its \
lines are printed from last to first. If no file is given, reads from stdin. \
This is the reverse of cat for line ordering."
    }

    fn examples(&self) -> (r: &'static [&'static str])
        ensures
            strs_view(r@) == seq!["tac file.txt"@, "cat file.txt | tac"@],
    {
        let r: &'static [&'static str] = &["tac file.txt", "cat file.txt | tac"];
        assert(r@ == seq!["tac file.txt", "cat file.txt | tac"]);
        r
    }
}

} // verus!
