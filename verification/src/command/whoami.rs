//! `whoami` -- print the current user name.
use vstd::prelude::*;
use crate::text::{chars_of, string_of};
use crate::vfs::rv;
use crate::command::kinds::outcome;
use crate::command::{Command, CommandContext, CommandKind, state_of, meets, lemma_vfs_of};
use crate::text::strs_view;

verus! {

/// Execute `whoami`: the user name and a newline.
pub fn execute(username: &str) -> (r: Result<String, String>)
    ensures
        rv(r) == Ok::<Seq<char>, Seq<char>>(username@ + seq!['\n']),
{
    let mut v = chars_of(username);
    v.push('\n');
    assert(v@ =~= username@ + seq!['\n']);
    Ok(string_of(v.as_slice()))
}

/// The `whoami` command.
pub struct WhoamiCommand;

impl Command for WhoamiCommand {
    fn name(&self) -> (r: &'static str)
        ensures
            r@ == "whoami"@,
    {
        "whoami"
    }

    fn description(&self) -> (r: &'static str)
        ensures
            r@ == "Display the current username"@,
    {
        "Display the current username"
    }

    fn accepts_stdin(&self) -> (r: bool)
        ensures
            !r,
    {
        false
    }

    fn execute(&self, ctx: &mut CommandContext) -> (r: Result<String, String>)
        ensures
            meets(outcome(CommandKind::Whoami, state_of(old(ctx))), r, final(ctx)),
    {
        proof {
            lemma_vfs_of(ctx);
        }
        execute(ctx.username)
    }

    fn synopsis(&self) -> (r: &'static str)
        ensures
            r@ == "whoami"@,
    {
        "whoami"
    }

    fn man_description(&self) -> (r: &'static str)
        ensures
            r@ == "Display the username of the currently logged-in user. The username is set during the initial authentication flow and stored in the shell state."@,
    {
        "Display the username of the currently logged-in user. The username is set during the initial authentication flow and stored in the shell state."
    }

    fn examples(&self) -> (r: &'static [&'static str])
        ensures
            strs_view(r@) == Seq::<Seq<char>>::empty(),
    {
        &[]
    }
}

} // verus!
