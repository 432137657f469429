//! `passwd` -- acknowledge a password change (password storage is handled
//! outside the shell).
use vstd::prelude::*;
use crate::text::{push_str, string_of, strs_view};
use crate::vfs::rv;
use crate::command::kinds::outcome;
use crate::command::{Command, CommandContext, CommandKind, state_of, meets, lemma_vfs_of};

verus! {

/// The user whose password is changed: the first argument, or the current
/// user.
pub open spec fn passwd_target(username: Seq<char>, args: Seq<Seq<char>>) -> Seq<char> {
    if args.len() == 0 {
        username
    } else {
        args[0]
    }
}

/// Execute `passwd [username]`.
pub fn execute(username: &str, args: &[&str]) -> (r: Result<String, String>)
    ensures
        rv(r) == Ok::<Seq<char>, Seq<char>>(
            "passwd: password for '"@ + passwd_target(username@, strs_view(args@)) + "' updated successfully\n"@,
        ),
{
    let target: &str = if args.len() == 0 {
        username
    } else {
        assert(strs_view(args@)[0] == args@[0]@);
        args[0]
    };
    let mut v: Vec<char> = Vec::new();
    push_str(&mut v, "passwd: password for '");
    push_str(&mut v, target);
    push_str(&mut v, "' updated successfully\n");
    Ok(string_of(v.as_slice()))
}

/// The `passwd` command.
pub struct PasswdCommand;

impl Command for PasswdCommand {
    fn name(&self) -> (r: &'static str)
        ensures
            r@ == "passwd"@,
    {
        "passwd"
    }

    fn description(&self) -> (r: &'static str)
        ensures
            r@ == "Change user password"@,
    {
        "Change user password"
    }

    fn accepts_stdin(&self) -> (r: bool)
        ensures
            !r,
    {
        false
    }

    fn execute(&self, ctx: &mut CommandContext) -> (r: Result<String, String>)
        ensures
            meets(outcome(CommandKind::Passwd, state_of(old(ctx))), r, final(ctx)),
    {
        proof {
            lemma_vfs_of(ctx);
        }
        execute(ctx.username, ctx.args)
    }

    fn synopsis(&self) -> (r: &'static str)
        ensures
            r@ == "passwd [username]"@,
    {
        "passwd [username]"
    }

    fn man_description(&self) -> (r: &'static str)
        ensures
            r@ == "Change the password for the current or specified user. In this simulated environment, \
         the command acknowledges the request but actual password management is handled by the \
         browser frontend."@,
    {
        "Change the password for the current or specified user. In this simulated environment, \
         the command acknowledges the request but actual password management is handled by the \
         browser frontend."
    }

    fn examples(&self) -> (r: &'static [&'static str])
        ensures
            strs_view(r@) == seq!["passwd"@, "passwd alice"@],
    {
        let r: &'static [&'static str] = &["passwd", "passwd alice"];
        assert(r@ == seq!["passwd", "passwd alice"]);
        r
    }
}

} // verus!
