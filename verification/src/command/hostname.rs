//! `hostname` -- print the system host name.
use vstd::prelude::*;
use crate::text::{chars_of, string_of};
use crate::vfs::rv;
use crate::command::kinds::outcome;
use crate::command::{Command, CommandContext, CommandKind, state_of, meets, lemma_vfs_of};
use crate::text::strs_view;

verus! {

/// Execute `hostname`: the host name and a newline.
pub fn execute(hostname: &str) -> (r: Result<String, String>)
    ensures
        rv(r) == Ok::<Seq<char>, Seq<char>>(hostname@ + seq!['\n']),
{
    let mut v = chars_of(hostname);
    v.push('\n');
    assert(v@ =~= hostname@ + seq!['\n']);
    Ok(string_of(v.as_slice()))
}

/// The `hostname` command.
pub struct HostnameCommand;

impl Command for HostnameCommand {
    fn name(&self) -> (r: &'static str)
        ensures
            r@ == "hostname"@,
    {
        "hostname"
    }

    fn description(&self) -> (r: &'static str)
        ensures
            r@ == "Display the system hostname"@,
    {
        "Display the system hostname"
    }

    fn accepts_stdin(&self) -> (r: bool)
        ensures
            !r,
    {
        false
    }

    fn execute(&self, ctx: &mut CommandContext) -> (r: Result<String, String>)
        ensures
            meets(outcome(CommandKind::Hostname, state_of(old(ctx))), r, final(ctx)),
    {
        proof {
            lemma_vfs_of(ctx);
        }
        execute(ctx.hostname)
    }

    fn synopsis(&self) -> (r: &'static str)
        ensures
            r@ == "hostname"@,
    {
        "hostname"
    }

    fn man_description(&self) -> (r: &'static str)
        ensures
            r@ == "Display the hostname of the virtual NexOS system. The hostname is configured during shell initialization and stored in the shell state."@,
    {
        "Display the hostname of the virtual NexOS system. The hostname is configured during shell initialization and stored in the shell state."
    }

    fn examples(&self) -> (r: &'static [&'static str])
        ensures
            strs_view(r@) == Seq::<Seq<char>>::empty(),
    {
        &[]
    }
}

} // verus!
