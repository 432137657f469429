//! `echo` -- print the arguments separated by spaces, then a newline.
use vstd::prelude::*;
use crate::text::{strs_view, strs_to_chars, join, join_chars, string_of};
use crate::vfs::rv;
use crate::command::kinds::outcome;
use crate::command::{Command, CommandContext, CommandKind, state_of, meets, lemma_vfs_of};

verus! {

/// The output of `echo`.
pub open spec fn echo_spec(args: Seq<Seq<char>>) -> Seq<char> {
    join(args, seq![' ']) + seq!['\n']
}

/// Execute `echo text...`.
pub fn execute(args: &[&str]) -> (r: Result<String, String>)
    ensures
        rv(r) == Ok::<Seq<char>, Seq<char>>(echo_spec(strs_view(args@))),
{
    let a = strs_to_chars(args);
    let mut sep: Vec<char> = Vec::new();
    sep.push(' ');
    assert(sep@ =~= seq![' ']);
    let mut out = join_chars(&a, sep.as_slice());
    out.push('\n');
    assert(out@ =~= echo_spec(strs_view(args@)));
    Ok(string_of(out.as_slice()))
}

/// The `echo` command.
pub struct EchoCommand;

impl Command for EchoCommand {
    fn name(&self) -> (r: &'static str)
        ensures
            r@ == "echo"@,
    {
        "echo"
    }

    fn description(&self) -> (r: &'static str)
        ensures
            r@ == "Display a line of text"@,
    {
        "Display a line of text"
    }

    fn accepts_stdin(&self) -> (r: bool)
        ensures
            !r,
    {
        false
    }

    fn execute(&self, ctx: &mut CommandContext) -> (r: Result<String, String>)
        ensures
            meets(outcome(CommandKind::Echo, state_of(old(ctx))), r, final(ctx)),
    {
        proof {
            lemma_vfs_of(ctx);
        }
        execute(ctx.args)
    }

    fn synopsis(&self) -> (r: &'static str)
        ensures
            r@ == "echo text"@,
    {
        "echo text"
    }

    fn man_description(&self) -> (r: &'static str)
        ensures
            r@ == "Display a line of text to standard output. Arguments are joined with spaces and a \
trailing newline is appended. With no arguments, prints an empty line. Shell redirection \
operators (> and >>) are handled by the pipeline layer, so echo output can be written to files."@,
    {
        "Display a line of text to standard output. Arguments are joined with spaces and a \
trailing newline is appended. With no arguments, prints an empty line. Shell redirection \
operators (> and >>) are handled by the pipeline layer, so echo output can be written to files."
    }

    fn examples(&self) -> (r: &'static [&'static str])
        ensures
            strs_view(r@) == seq!["echo Hello World"@, "echo data > output.txt"@],
    {
        let r: &'static [&'static str] = &["echo Hello World", "echo data > output.txt"];
        assert(r@ == seq!["echo Hello World", "echo data > output.txt"]);
        r
    }
}

} // verus!
