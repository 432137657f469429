//! `history` -- the numbered list of commands entered so far.
use vstd::prelude::*;
use crate::text::{chars_of, push_str, push_all, string_of, strings_view};
use crate::numeric::{nat_str, pad_left, push_u64_padded};
use crate::vfs::rv;
use crate::command::kinds::outcome;
use crate::command::{Command, CommandContext, CommandKind, state_of, meets, lemma_vfs_of};
use crate::text::strs_view;

verus! {

/// One history line: the 1-based number right-aligned in five columns,
/// two spaces, the command.
pub open spec fn history_line(n: nat, cmd: Seq<char>) -> Seq<char> {
    pad_left(nat_str(n), 5, ' ') + seq![' ', ' '] + cmd + seq!['\n']
}

/// The whole listing for the commands `h`.
pub open spec fn history_text(h: Seq<Seq<char>>) -> Seq<char>
    decreases h.len(),
{
    if h.len() == 0 {
        Seq::empty()
    } else {
        history_text(h.drop_last()) + history_line(h.len(), h.last())
    }
}

/// Execute `history`.
pub fn execute(history: &[String]) -> (r: Result<String, String>)
    ensures
        rv(r) == Ok::<Seq<char>, Seq<char>>(
            history_text(strings_view(history@)),
        ),
{
    let mut out: Vec<char> = Vec::new();
    let mut i: usize = 0;
    let ghost h = strings_view(history@);
    while i < history.len()
        invariant
            i <= history@.len(),
            h == strings_view(history@),
            out@ == history_text(h.take(i as int)),
        decreases history.len() - i,
    {
        assert(h.take(i + 1).drop_last() == h.take(i as int));
        assert(h.take(i + 1).last() == history@[i as int]@);
        let n: u64 = (i as u64) + 1;
        push_u64_padded(&mut out, n, 5, ' ');
        out.push(' ');
        out.push(' ');
        push_str(&mut out, history[i].as_str());
        out.push('\n');
        i += 1;
        assert(out@ =~= history_text(h.take(i as int)));
    }
    assert(h.take(history@.len() as int) == h);
    Ok(string_of(out.as_slice()))
}

/// The `history` command.
pub struct HistoryCommand;

impl Command for HistoryCommand {
    fn name(&self) -> (r: &'static str)
        ensures
            r@ == "history"@,
    {
        "history"
    }

    fn description(&self) -> (r: &'static str)
        ensures
            r@ == "Display command history"@,
    {
        "Display command history"
    }

    fn accepts_stdin(&self) -> (r: bool)
        ensures
            !r,
    {
        false
    }

    fn execute(&self, ctx: &mut CommandContext) -> (r: Result<String, String>)
        ensures
            meets(outcome(CommandKind::History, state_of(old(ctx))), r, final(ctx)),
    {
        proof {
            lemma_vfs_of(ctx);
        }
        execute(ctx.history)
    }

    fn synopsis(&self) -> (r: &'static str)
        ensures
            r@ == "history"@,
    {
        "history"
    }

    fn man_description(&self) -> (r: &'static str)
        ensures
            r@ == "Display a numbered list of all commands entered during the current session. Each entry is prefixed with a sequential number starting at 1. Unlike real bash, this implementation does not support history deletion or re-execution."@,
    {
        "Display a numbered list of all commands entered during the current session. Each entry is prefixed with a sequential number starting at 1. Unlike real bash, this implementation does not support history deletion or re-execution."
    }

    fn examples(&self) -> (r: &'static [&'static str])
        ensures
            strs_view(r@) == Seq::<Seq<char>>::empty(),
    {
        &[]
    }
}

} // verus!
