//! `ln [-s] target link` -- make a link.
//!
//! With `-s` the link is a file holding `-> target`; otherwise the link is
//! a copy of the target's contents (a directory cannot be linked that way).
use vstd::prelude::*;
use crate::text::{strs_view, chars_of, string_of, to_owned_string, push_str, str_eq, strs_contains};
use crate::path::resolve;
use crate::vfs::{Vfs, FsView, rv, write_spec};
use crate::command::kinds::outcome;
use crate::command::{Command, CommandContext, CommandKind, state_of, meets, lemma_vfs_of};

verus! {

/// The operands: every argument but `-s`.
pub open spec fn ln_operands(args: Seq<Seq<char>>) -> Seq<Seq<char>>
    decreases args.len(),
{
    if args.len() == 0 {
        Seq::empty()
    } else if args.last() == "-s"@ {
        ln_operands(args.drop_last())
    } else {
        ln_operands(args.drop_last()).push(args.last())
    }
}

/// The file system after `ln` and its result.
pub open spec fn ln_spec(fs: FsView, cwd: Seq<char>, args: Seq<Seq<char>>) -> (FsView, Result<Seq<char>, Seq<char>>) {
    let pos = ln_operands(args);
    if pos.len() < 2 {
        (fs, Err("ln: missing file operand"@))
    } else {
        let t = resolve(cwd, pos[0]);
        let l = resolve(cwd, pos[1]);
        if !fs.dom().contains(t) {
            (fs, Err("ln: '"@ + pos[0] + "': No such file or directory"@))
        } else {
            let content = if args.contains("-s"@) {
                Ok("-> "@ + pos[0] + seq!['\n'])
            } else if fs[t].0 {
                Err("ln: '"@ + pos[0] + "': Cannot link directory"@)
            } else {
                Ok(fs[t].1)
            };
            match content {
                Err(e) => (fs, Err(e)),
                Ok(c) => match write_spec(fs, l, c) {
                    Ok(m) => (m, Ok(Seq::empty())),
                    Err(e) => (fs, Err("ln: "@ + e)),
                },
            }
        }
    }
}

/// Execute `ln`.
pub fn execute(vfs: &mut Vfs, args: &[&str]) -> (r: Result<String, String>)
    ensures
        final(vfs).cwd == old(vfs).cwd,
        final(vfs)@ == ln_spec(old(vfs)@, old(vfs).cwd@, strs_view(args@)).0,
        rv(r) == ln_spec(old(vfs)@, old(vfs).cwd@, strs_view(args@)).1,
{
    let ghost av = strs_view(args@);
    let mut pos: Vec<&str> = Vec::new();
    let mut i: usize = 0;
    while i < args.len()
        invariant
            i <= args@.len(),
            av == strs_view(args@),
            strs_view(pos@) == ln_operands(av.take(i as int)),
        decreases args.len() - i,
    {
        assert(av.take(i + 1).drop_last() == av.take(i as int));
        assert(av.take(i + 1).last() == args@[i as int]@);
        if !str_eq(args[i], "-s") {
            let ghost before = pos@;
            pos.push(args[i]);
            assert(strs_view(pos@) =~= strs_view(before).push(args@[i as int]@));
        }
        i += 1;
    }
    assert(av.take(args@.len() as int) == av);
    let symbolic = strs_contains(args, "-s");
    if pos.len() < 2 {
        return Err(to_owned_string("ln: missing file operand"));
    }
    let target = pos[0];
    let link = pos[1];
    assert(strs_view(pos@)[0] == target@ && strs_view(pos@)[1] == link@);
    if !vfs.exists_path(target) {
        let mut m: Vec<char> = Vec::new();
        push_str(&mut m, "ln: '");
        push_str(&mut m, target);
        push_str(&mut m, "': No such file or directory");
        return Err(string_of(m.as_slice()));
    }
    let content: String = if symbolic {
        let mut c: Vec<char> = Vec::new();
        push_str(&mut c, "-> ");
        push_str(&mut c, target);
        c.push('\n');
        assert(c@ =~= "-> "@ + target@ + seq!['\n']);
        string_of(c.as_slice())
    } else {
        match vfs.read_file(target) {
            Ok(c) => c,
            Err(_) => {
                let mut m: Vec<char> = Vec::new();
                push_str(&mut m, "ln: '");
                push_str(&mut m, target);
                push_str(&mut m, "': Cannot link directory");
                return Err(string_of(m.as_slice()));
            },
        }
    };
    match vfs.write_file(link, content.as_str()) {
        Ok(()) => Ok(String::new()),
        Err(e) => {
            let mut m: Vec<char> = Vec::new();
            push_str(&mut m, "ln: ");
            push_str(&mut m, e.as_str());
            Err(string_of(m.as_slice()))
        },
    }
}

/// The `ln` command.
pub struct LnCommand;

impl Command for LnCommand {
    fn name(&self) -> (r: &'static str)
        ensures
            r@ == "ln"@,
    {
        "ln"
    }

    fn description(&self) -> (r: &'static str)
        ensures
            r@ == "Create links (-s for symbolic)"@,
    {
        "Create links (-s for symbolic)"
    }

    fn accepts_stdin(&self) -> (r: bool)
        ensures
            !r,
    {
        false
    }

    fn execute(&self, ctx: &mut CommandContext) -> (r: Result<String, String>)
        ensures
            meets(outcome(CommandKind::Ln, state_of(old(ctx))), r, final(ctx)),
    {
        proof {
            lemma_vfs_of(ctx);
        }
        execute(ctx.vfs, ctx.args)
    }

    fn synopsis(&self) -> (r: &'static str)
        ensures
            r@ == "ln [-s] target link_name"@,
    {
        "ln [-s] target link_name"
    }

    fn man_description(&self) -> (r: &'static str)
        ensures
            r@ == "Create links to files in the virtual filesystem. By default, a hard link is created by copying the target file's \
content to the link name (the two files are independent). With -s, a symbolic link is created as a small file \
containing '-> target' notation. Symbolic links are not automatically dereferenced when reading."@,
    {
        "Create links to files in the virtual filesystem. By default, a hard link is created by copying the target file's \
content to the link name (the two files are independent). With -s, a symbolic link is created as a small file \
containing '-> target' notation. Symbolic links are not automatically dereferenced when reading."
    }

    fn examples(&self) -> (r: &'static [&'static str])
        ensures
            strs_view(r@) == seq!["ln file.txt link.txt"@, "ln -s /path/to/file symlink"@],
    {
        let r: &'static [&'static str] = &["ln file.txt link.txt", "ln -s /path/to/file symlink"];
        assert(r@ == seq!["ln file.txt link.txt", "ln -s /path/to/file symlink"]);
        r
    }
}

} // verus!
