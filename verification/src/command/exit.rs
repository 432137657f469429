//! `exit` -- end the session; the terminal front end acts on it.
use vstd::prelude::*;
use crate::command::kinds::outcome;
use crate::command::{Command, CommandContext, CommandKind, state_of, meets, lemma_vfs_of};
use crate::text::strs_view;

verus! {

/// The `exit` command.
pub struct ExitCommand;

impl Command for ExitCommand {
    fn name(&self) -> (r: &'static str)
        ensures
            r@ == "exit"@,
    {
        "exit"
    }

    fn description(&self) -> (r: &'static str)
        ensures
            r@ == "Exit the terminal"@,
    {
        "Exit the terminal"
    }

    fn accepts_stdin(&self) -> (r: bool)
        ensures
            !r,
    {
        false
    }

    fn execute(&self, ctx: &mut CommandContext) -> (r: Result<String, String>)
        ensures
            meets(outcome(CommandKind::Exit, state_of(old(ctx))), r, final(ctx)),
    {
        proof {
            lemma_vfs_of(ctx);
        }
        Ok(String::new())
    }

    fn synopsis(&self) -> (r: &'static str)
        ensures
            r@ == "exit"@,
    {
        "exit"
    }

    fn man_description(&self) -> (r: &'static str)
        ensures
            r@ == "Exit the terminal session. In this browser-based environment, exit signals the frontend to display a shutdown message and disable further input rather than killing a process."@,
    {
        "Exit the terminal session. In this browser-based environment, exit signals the frontend to display a shutdown message and disable further input rather than killing a process."
    }

    fn examples(&self) -> (r: &'static [&'static str])
        ensures
            strs_view(r@) == Seq::<Seq<char>>::empty(),
    {
        &[]
    }
}

} // verus!
