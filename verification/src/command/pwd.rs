//! `pwd` -- print the working directory.
use vstd::prelude::*;
use crate::text::{chars_of, string_of};
use crate::vfs::{Vfs, rv};
use crate::command::kinds::outcome;
use crate::command::{Command, CommandContext, CommandKind, state_of, meets, lemma_vfs_of};
use crate::text::strs_view;

verus! {

/// Execute `pwd`: the working directory and a newline.
pub fn execute(vfs: &Vfs) -> (r: Result<String, String>)
    ensures
        rv(r) == Ok::<Seq<char>, Seq<char>>(vfs.cwd@ + seq!['\n']),
{
    let mut v = chars_of(vfs.cwd.as_str());
    v.push('\n');
    assert(v@ =~= vfs.cwd@ + seq!['\n']);
    Ok(string_of(v.as_slice()))
}

/// The `pwd` command.
pub struct PwdCommand;

impl Command for PwdCommand {
    fn name(&self) -> (r: &'static str)
        ensures
            r@ == "pwd"@,
    {
        "pwd"
    }

    fn description(&self) -> (r: &'static str)
        ensures
            r@ == "Print the current working directory"@,
    {
        "Print the current working directory"
    }

    fn accepts_stdin(&self) -> (r: bool)
        ensures
            !r,
    {
        false
    }

    fn execute(&self, ctx: &mut CommandContext) -> (r: Result<String, String>)
        ensures
            meets(outcome(CommandKind::Pwd, state_of(old(ctx))), r, final(ctx)),
    {
        proof {
            lemma_vfs_of(ctx);
        }
        execute(ctx.vfs)
    }

    fn synopsis(&self) -> (r: &'static str)
        ensures
            r@ == "pwd"@,
    {
        "pwd"
    }

    fn man_description(&self) -> (r: &'static str)
        ensures
            r@ == "Print the absolute path of the shell's current working directory, followed by a newline. \
The working directory is stored in the VFS and is updated by the cd command. Takes no arguments or flags."@,
    {
        "Print the absolute path of the shell's current working directory, followed by a newline. \
The working directory is stored in the VFS and is updated by the cd command. Takes no arguments or flags."
    }

    fn examples(&self) -> (r: &'static [&'static str])
        ensures
            strs_view(r@) == Seq::<Seq<char>>::empty(),
    {
        &[]
    }
}

} // verus!
