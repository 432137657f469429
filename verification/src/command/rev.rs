//! `rev file` -- reverse the characters of every line.
use vstd::prelude::*;
use crate::text::{strs_view, string_of, str_lines, push_line, unlines, lemma_unlines_push, lines, vv};
use crate::command::nl::{single_file, read_single_file};
use crate::vfs::{Vfs, rv};
use crate::command::kinds::outcome;
use crate::command::{Command, CommandContext, CommandKind, state_of, meets, lemma_vfs_of};

verus! {

/// The result of `rev` on the given arguments.
pub open spec fn rev_spec(vfs: &Vfs, args: Seq<Seq<char>>) -> Result<Seq<char>, Seq<char>> {
    match single_file(vfs, "rev"@, args) {
        Err(e) => Err(e),
        Ok(c) => {
            let ls = lines(c);
            Ok(unlines(Seq::new(ls.len(), |k: int| ls[k].reverse())))
        },
    }
}

/// Execute `rev`.
pub fn execute(vfs: &Vfs, args: &[&str]) -> (r: Result<String, String>)
    ensures
        rv(r) == rev_spec(vfs, strs_view(args@)),
{
    let content = read_single_file(vfs, "rev", args)?;
    let ls = str_lines(content.as_str());
    let ghost lv = vv(ls@);
    let ghost outs = Seq::new(lv.len(), |k: int| lv[k].reverse());
    let mut out: Vec<char> = Vec::new();
    let mut k: usize = 0;
    while k < ls.len()
        invariant
            k <= ls@.len(),
            lv == vv(ls@),
            outs == Seq::new(lv.len(), |t: int| lv[t].reverse()),
            out@ == unlines(outs.take(k as int)),
        decreases ls.len() - k,
    {
        let line = &ls[k];
        let mut r: Vec<char> = Vec::new();
        let mut t: usize = line.len();
        while t > 0
            invariant
                t <= line@.len(),
                r@ == line@.skip(t as int).reverse(),
            decreases t,
        {
            t -= 1;
            r.push(line[t]);
            assert(line@.skip(t as int) =~= seq![line@[t as int]] + line@.skip(t + 1));
            assert(r@ =~= line@.skip(t as int).reverse());
        }
        assert(line@.skip(0) == line@);
        proof {
            assert(lv[k as int] == ls@[k as int]@);
            lemma_unlines_push(outs.take(k as int), r@);
            assert(outs.take(k + 1) =~= outs.take(k as int).push(r@));
        }
        push_line(&mut out, r.as_slice());
        k += 1;
    }
    assert(outs.take(ls@.len() as int) == outs);
    Ok(string_of(out.as_slice()))
}

/// The `rev` command.
pub struct RevCommand;

impl Command for RevCommand {
    fn name(&self) -> (r: &'static str)
        ensures
            r@ == "rev"@,
    {
        "rev"
    }

    fn description(&self) -> (r: &'static str)
        ensures
            r@ == "Reverse lines of text character by character"@,
    {
        "Reverse lines of text character by character"
    }

    fn accepts_stdin(&self) -> (r: bool)
        ensures
            r,
    {
        true
    }

    fn execute(&self, ctx: &mut CommandContext) -> (r: Result<String, String>)
        ensures
            meets(outcome(CommandKind::Rev, state_of(old(ctx))), r, final(ctx)),
    {
        proof {
            lemma_vfs_of(ctx);
        }
        execute(ctx.vfs, ctx.args)
    }

    fn synopsis(&self) -> (r: &'static str)
        ensures
            r@ == "rev [file]"@,
    {
        "rev [file]"
    }

    fn man_description(&self) -> (r: &'static str)
        ensures
            r@ == "Reverse each line of the input character by character and write the result to standard \
output. The order of lines is preserved; only the characters within each line are reversed. \
If no file is given, reads from stdin."@,
    {
        "Reverse each line of the input character by character and write the result to standard \
output. The order of lines is preserved; only the characters within each line are reversed. \
If no file is given, reads from stdin."
    }

    fn examples(&self) -> (r: &'static [&'static str])
        ensures
            strs_view(r@) == seq!["rev file.txt"@, "echo hello | rev"@],
    {
        let r: &'static [&'static str] = &["rev file.txt", "echo hello | rev"];
        assert(r@ == seq!["rev file.txt", "echo hello | rev"]);
        r
    }
}

} // verus!
