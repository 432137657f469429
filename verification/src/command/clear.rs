//! `clear` -- the ANSI sequence that erases the screen and homes the cursor.
use vstd::prelude::*;
use crate::command::kinds::outcome;
use crate::command::{Command, CommandContext, CommandKind, state_of, meets, lemma_vfs_of};
use crate::text::strs_view;
use crate::text::to_owned_string;

verus! {

/// The `clear` command.
pub struct ClearCommand;

impl Command for ClearCommand {
    fn name(&self) -> (r: &'static str)
        ensures
            r@ == "clear"@,
    {
        "clear"
    }

    fn description(&self) -> (r: &'static str)
        ensures
            r@ == "Clear the terminal screen"@,
    {
        "Clear the terminal screen"
    }

    fn accepts_stdin(&self) -> (r: bool)
        ensures
            !r,
    {
        false
    }

    fn execute(&self, ctx: &mut CommandContext) -> (r: Result<String, String>)
        ensures
            meets(outcome(CommandKind::Clear, state_of(old(ctx))), r, final(ctx)),
    {
        proof {
            lemma_vfs_of(ctx);
        }
        Ok(to_owned_string("\x1b[2J\x1b[H"))
    }

    fn synopsis(&self) -> (r: &'static str)
        ensures
            r@ == "clear"@,
    {
        "clear"
    }

    fn man_description(&self) -> (r: &'static str)
        ensures
            r@ == "Clear the terminal screen by returning ANSI escape sequences that erase the entire visible display and move the cursor to the top-left position. The actual clearing is performed by the terminal emulator (xterm.js)."@,
    {
        "Clear the terminal screen by returning ANSI escape sequences that erase the entire visible display and move the cursor to the top-left position. The actual clearing is performed by the terminal emulator (xterm.js)."
    }

    fn examples(&self) -> (r: &'static [&'static str])
        ensures
            strs_view(r@) == Seq::<Seq<char>>::empty(),
    {
        &[]
    }
}

} // verus!
