//! `env` -- list the environment variables as `NAME=VALUE` lines, ordered
//! by name.
use vstd::prelude::*;
use crate::env::{EnvVars, pair_lines};
use crate::order::sorted_set;
use crate::vfs::rv;
use crate::command::kinds::outcome;
use crate::command::{Command, CommandContext, CommandKind, state_of, meets, lemma_vfs_of};
use crate::text::strs_view;

verus! {

/// Execute `env`.
pub fn execute(env_vars: &EnvVars) -> (r: Result<String, String>)
    ensures
        rv(r) == Ok::<Seq<char>, Seq<char>>(
            pair_lines(env_vars@, sorted_set(env_vars@.dom()), Seq::empty(), seq!['='], seq!['\n']),
        ),
{
    let out = env_vars.render("", "=", "\n");
    proof {
        reveal_strlit("");
        reveal_strlit("=");
        reveal_strlit("\n");
        assert(""@ =~= Seq::<char>::empty());
        assert("="@ =~= seq!['=']);
        assert("\n"@ =~= seq!['\n']);
    }
    Ok(out)
}

/// The `env` command.
pub struct EnvCommand;

impl Command for EnvCommand {
    fn name(&self) -> (r: &'static str)
        ensures
            r@ == "env"@,
    {
        "env"
    }

    fn description(&self) -> (r: &'static str)
        ensures
            r@ == "Display environment variables"@,
    {
        "Display environment variables"
    }

    fn accepts_stdin(&self) -> (r: bool)
        ensures
            !r,
    {
        false
    }

    fn execute(&self, ctx: &mut CommandContext) -> (r: Result<String, String>)
        ensures
            meets(outcome(CommandKind::Env, state_of(old(ctx))), r, final(ctx)),
    {
        proof {
            lemma_vfs_of(ctx);
        }
        execute(ctx.env_vars)
    }

    fn synopsis(&self) -> (r: &'static str)
        ensures
            r@ == "env"@,
    {
        "env"
    }

    fn man_description(&self) -> (r: &'static str)
        ensures
            r@ == "Display all environment variables currently defined in the shell session as KEY=VALUE pairs, one per line. Variables are sorted alphabetically for deterministic output. This is a read-only command; use export to set variables."@,
    {
        "Display all environment variables currently defined in the shell session as KEY=VALUE pairs, one per line. Variables are sorted alphabetically for deterministic output. This is a read-only command; use export to set variables."
    }

    fn examples(&self) -> (r: &'static [&'static str])
        ensures
            strs_view(r@) == Seq::<Seq<char>>::empty(),
    {
        &[]
    }
}

} // verus!
