//! `dirname` -- strip the last component from a path.
//!
//! `/home/user/file.txt` gives `/home/user`, `/file.txt` gives `/`, a path
//! without a slash gives `.`; trailing slashes are ignored.
use vstd::prelude::*;
use crate::text::{strs_view, strs_to_chars, trim_end_char, trim_end_matches, has_char, push_all,
    string_of, to_owned_string, vv, rfind_char};
use crate::path::parent_of;
use crate::vfs::rv;
use crate::command::kinds::outcome;
use crate::command::{Command, CommandContext, CommandKind, state_of, meets, lemma_vfs_of};

verus! {

/// The output of `dirname` for the given arguments.
pub open spec fn dirname_spec(args: Seq<Seq<char>>) -> Result<Seq<char>, Seq<char>> {
    if args.len() == 0 {
        Err("dirname: missing operand"@)
    } else {
        let t = trim_end_char(args[0], '/');
        if has_char(t, '/') {
            Ok(parent_of(t) + seq!['\n'])
        } else {
            Ok(seq!['.', '\n'])
        }
    }
}

/// Execute `dirname path`.
pub fn execute(args: &[&str]) -> (r: Result<String, String>)
    ensures
        rv(r) == dirname_spec(strs_view(args@)),
{
    if args.len() == 0 {
        return Err(to_owned_string("dirname: missing operand"));
    }
    let a = strs_to_chars(args);
    assert(vv(a@)[0] == a@[0]@);
    let t = trim_end_matches(a[0].as_slice(), '/');
    let mut out: Vec<char> = Vec::new();
    match rfind_char(t.as_slice(), '/') {
        Some(i) => {
            assert(t@[i as int] == '/');
            assert(has_char(t@, '/'));
            let (parent, _) = crate::path::split_parent(t.as_slice());
            push_all(&mut out, parent.as_slice());
            out.push('\n');
            assert(out@ =~= parent_of(t@) + seq!['\n']);
        },
        None => {
            out.push('.');
            out.push('\n');
            assert(out@ =~= seq!['.', '\n']);
        },
    }
    Ok(string_of(out.as_slice()))
}

/// The `dirname` command.
pub struct DirnameCommand;

impl Command for DirnameCommand {
    fn name(&self) -> (r: &'static str)
        ensures
            r@ == "dirname"@,
    {
        "dirname"
    }

    fn description(&self) -> (r: &'static str)
        ensures
            r@ == "Strip filename from path"@,
    {
        "Strip filename from path"
    }

    fn accepts_stdin(&self) -> (r: bool)
        ensures
            !r,
    {
        false
    }

    fn execute(&self, ctx: &mut CommandContext) -> (r: Result<String, String>)
        ensures
            meets(outcome(CommandKind::Dirname, state_of(old(ctx))), r, final(ctx)),
    {
        proof {
            lemma_vfs_of(ctx);
        }
        execute(ctx.args)
    }

    fn synopsis(&self) -> (r: &'static str)
        ensures
            r@ == "dirname path"@,
    {
        "dirname path"
    }

    fn man_description(&self) -> (r: &'static str)
        ensures
            r@ == "Strip the filename component from a path, returning only the directory portion. Trailing slashes are stripped before processing. Operates purely on string manipulation without filesystem lookups."@,
    {
        "Strip the filename component from a path, returning only the directory portion. Trailing slashes are stripped before processing. Operates purely on string manipulation without filesystem lookups."
    }

    fn examples(&self) -> (r: &'static [&'static str])
        ensures
            strs_view(r@) == seq!["dirname /home/user/file.txt"@, "dirname file.txt"@],
    {
        let r: &'static [&'static str] = &["dirname /home/user/file.txt", "dirname file.txt"];
        assert(r@ == seq!["dirname /home/user/file.txt", "dirname file.txt"]);
        r
    }
}

} // verus!
