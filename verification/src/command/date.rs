//! `date` -- the current date and time. The host supplies the clock text
//! (the browser's ISO-8601 time); the command prints it on a line.
use vstd::prelude::*;
use crate::text::{chars_of, string_of};
use crate::vfs::rv;
use crate::command::kinds::outcome;
use crate::command::{Command, CommandContext, CommandKind, state_of, meets, lemma_vfs_of};
use crate::text::strs_view;

verus! {

/// Execute `date` with `clock`, the current time as text.
pub fn execute(clock: &str) -> (r: Result<String, String>)
    ensures
        rv(r) == Ok::<Seq<char>, Seq<char>>(clock@ + seq!['\n']),
{
    let mut v = chars_of(clock);
    v.push('\n');
    assert(v@ =~= clock@ + seq!['\n']);
    Ok(string_of(v.as_slice()))
}

/// The `date` command.
pub struct DateCommand;

impl Command for DateCommand {
    fn name(&self) -> (r: &'static str)
        ensures
            r@ == "date"@,
    {
        "date"
    }

    fn description(&self) -> (r: &'static str)
        ensures
            r@ == "Display the current date and time"@,
    {
        "Display the current date and time"
    }

    fn accepts_stdin(&self) -> (r: bool)
        ensures
            !r,
    {
        false
    }

    fn execute(&self, ctx: &mut CommandContext) -> (r: Result<String, String>)
        ensures
            meets(outcome(CommandKind::Date, state_of(old(ctx))), r, final(ctx)),
    {
        proof {
            lemma_vfs_of(ctx);
        }
        execute(ctx.clock)
    }

    fn synopsis(&self) -> (r: &'static str)
        ensures
            r@ == "date"@,
    {
        "date"
    }

    fn man_description(&self) -> (r: &'static str)
        ensures
            r@ == "Display the current date and time in ISO-8601 format. On WASM targets, the output comes from the browser's Date object. On native targets, it falls back to seconds since the Unix epoch."@,
    {
        "Display the current date and time in ISO-8601 format. On WASM targets, the output comes from the browser's Date object. On native targets, it falls back to seconds since the Unix epoch."
    }

    fn examples(&self) -> (r: &'static [&'static str])
        ensures
            strs_view(r@) == Seq::<Seq<char>>::empty(),
    {
        &[]
    }
}

} // verus!
