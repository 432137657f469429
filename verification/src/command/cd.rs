//! `cd [dir]` -- change the working directory (to `/home/user` without an
//! argument or with `~`).
use vstd::prelude::*;
use crate::text::{strs_view, chars_of, string_of, to_owned_string, push_str, str_eq};
use crate::path::{home_dir, resolve};
use crate::vfs::{Vfs, rv};
use crate::command::kinds::outcome;
use crate::command::{Command, CommandContext, CommandKind, state_of, meets, lemma_vfs_of};

verus! {

/// The directory `cd` moves to.
pub open spec fn cd_target(vfs: &Vfs, args: Seq<Seq<char>>) -> Seq<char> {
    if args.len() == 0 || args[0] == "~"@ {
        home_dir()
    } else if args[0] == "/"@ {
        seq!['/']
    } else {
        vfs.key(args[0])
    }
}

/// The result of `cd`: the new working directory, or the error.
pub open spec fn cd_spec(vfs: &Vfs, args: Seq<Seq<char>>) -> Result<Seq<char>, Seq<char>> {
    let t = cd_target(vfs, args);
    if !vfs@.dom().contains(t) {
        let shown = if args.len() == 0 {
            "~"@
        } else {
            args[0]
        };
        Err("cd: "@ + shown + ": No such file or directory"@)
    } else if !vfs@[t].0 {
        Err("cd: "@ + args[0] + ": Not a directory"@)
    } else {
        Ok(t)
    }
}

/// `/home/user` is the home directory from any working directory.
pub proof fn lemma_home_key(cwd: Seq<char>)
    ensures
        resolve(cwd, "/home/user"@) == home_dir(),
{
    reveal_strlit("/home/user");
    assert("/home/user"@ =~= home_dir());
    let hs = seq![seq!['h', 'o', 'm', 'e'], seq!['u', 's', 'e', 'r']];
    assert(crate::path::clean_stack(hs)) by {
        assert(!crate::text::has_char(seq!['h', 'o', 'm', 'e'], '/'));
        assert(!crate::text::has_char(seq!['u', 's', 'e', 'r'], '/'));
        assert(seq!['h', 'o', 'm', 'e'] != seq!['.']);
        assert(seq!['u', 's', 'e', 'r'] != seq!['.']);
        assert(seq!['h', 'o', 'm', 'e'] != seq!['.', '.']);
        assert(seq!['u', 's', 'e', 'r'] != seq!['.', '.']);
    }
    crate::path::lemma_resolve_normal(cwd, hs);
    assert(crate::path::path_of(hs) =~= home_dir()) by {
        assert(hs.drop_last() =~= seq![seq!['h', 'o', 'm', 'e']]);
        assert(crate::text::join(hs.drop_last(), seq!['/']) == seq!['h', 'o', 'm', 'e']);
    }
}

/// Whether `/home/user` is a file, where `cd` without an operand cannot go.
pub fn home_is_file(vfs: &Vfs) -> (r: bool)
    ensures
        r == (vfs@.dom().contains(home_dir()) && !vfs@[home_dir()].0),
{
    proof {
        lemma_home_key(vfs.cwd@);
    }
    vfs.exists_path("/home/user") && !vfs.is_dir("/home/user")
}

/// Execute `cd`.
pub fn execute(vfs: &mut Vfs, args: &[&str]) -> (r: Result<String, String>)
    requires
        !(args@.len() == 0 && old(vfs)@.dom().contains(home_dir()) && !old(vfs)@[home_dir()].0),
    ensures
        final(vfs)@ == old(vfs)@,
        match cd_spec(old(vfs), strs_view(args@)) {
            Ok(t) => rv(r) == Ok::<Seq<char>, Seq<char>>(Seq::empty()) && final(vfs).cwd@ == t,
            Err(e) => rv(r) == Err::<Seq<char>, Seq<char>>(e) && final(vfs).cwd == old(vfs).cwd,
        },
{
    let ghost av = strs_view(args@);
    let home = args.len() == 0 || str_eq(args[0], "~");
    let target: String = if home {
        to_owned_string("/home/user")
    } else if str_eq(args[0], "/") {
        let mut v: Vec<char> = Vec::new();
        v.push('/');
        assert(v@ =~= seq!['/']);
        string_of(v.as_slice())
    } else {
        vfs.resolve_path(args[0]).unwrap()
    };
    proof {
        reveal_strlit("/home/user");
        assert("/home/user"@ =~= home_dir());
        if args@.len() > 0 {
            assert(av[0] == args@[0]@);
        }
        crate::path::lemma_resolve_normal(vfs.cwd@, Seq::<Seq<char>>::empty());
        assert(crate::path::path_of(Seq::<Seq<char>>::empty()) =~= seq!['/']);
        let hs = seq![seq!['h', 'o', 'm', 'e'], seq!['u', 's', 'e', 'r']];
        assert(crate::path::clean_stack(hs)) by {
            assert(!crate::text::has_char(seq!['h', 'o', 'm', 'e'], '/'));
            assert(!crate::text::has_char(seq!['u', 's', 'e', 'r'], '/'));
            assert(seq!['h', 'o', 'm', 'e'] != seq!['.']);
            assert(seq!['u', 's', 'e', 'r'] != seq!['.']);
            assert(seq!['h', 'o', 'm', 'e'] != seq!['.', '.']);
            assert(seq!['u', 's', 'e', 'r'] != seq!['.', '.']);
        }
        crate::path::lemma_resolve_normal(vfs.cwd@, hs);
        assert(crate::path::path_of(hs) =~= home_dir()) by {
            assert(hs.drop_last() =~= seq![seq!['h', 'o', 'm', 'e']]);
            assert(crate::text::join(hs.drop_last(), seq!['/']) == seq!['h', 'o', 'm', 'e']);
        }
        if args@.len() > 0 {
            vfs.lemma_key_idempotent(av[0]);
        }
    }
    if !vfs.exists_path(target.as_str()) {
        let mut m: Vec<char> = Vec::new();
        push_str(&mut m, "cd: ");
        if args.len() == 0 {
            push_str(&mut m, "~");
        } else {
            push_str(&mut m, args[0]);
        }
        push_str(&mut m, ": No such file or directory");
        return Err(string_of(m.as_slice()));
    }
    if !vfs.is_dir(target.as_str()) {
        let mut m: Vec<char> = Vec::new();
        push_str(&mut m, "cd: ");
        push_str(&mut m, args[0]);
        push_str(&mut m, ": Not a directory");
        return Err(string_of(m.as_slice()));
    }
    vfs.set_cwd(target);
    Ok(String::new())
}

/// The `cd` command.
pub struct CdCommand;

impl Command for CdCommand {
    fn name(&self) -> (r: &'static str)
        ensures
            r@ == "cd"@,
    {
        "cd"
    }

    fn description(&self) -> (r: &'static str)
        ensures
            r@ == "Change the current directory"@,
    {
        "Change the current directory"
    }

    fn accepts_stdin(&self) -> (r: bool)
        ensures
            !r,
    {
        false
    }

    fn execute(&self, ctx: &mut CommandContext) -> (r: Result<String, String>)
        ensures
            meets(outcome(CommandKind::Cd, state_of(old(ctx))), r, final(ctx)),
    {
        proof {
            lemma_vfs_of(ctx);
        }
        if ctx.args.len() == 0 && home_is_file(ctx.vfs) {
            return Err(to_owned_string("cd: ~: Not a directory"));
        }
        execute(ctx.vfs, ctx.args)
    }

    fn synopsis(&self) -> (r: &'static str)
        ensures
            r@ == "cd [path]"@,
    {
        "cd [path]"
    }

    fn man_description(&self) -> (r: &'static str)
        ensures
            r@ == "Change the shell's current working directory to the given path. The special path ~ navigates to the home directory (/home/user), \
.. moves to the parent directory, and / navigates to the filesystem root. \
With no arguments, cd returns to the home directory. Produces no output on success, matching POSIX behaviour."@,
    {
        "Change the shell's current working directory to the given path. The special path ~ navigates to the home directory (/home/user), \
.. moves to the parent directory, and / navigates to the filesystem root. \
With no arguments, cd returns to the home directory. Produces no output on success, matching POSIX behaviour."
    }

    fn examples(&self) -> (r: &'static [&'static str])
        ensures
            strs_view(r@) == seq!["cd /tmp"@, "cd .."@, "cd ~"@],
    {
        let r: &'static [&'static str] = &["cd /tmp", "cd ..", "cd ~"];
        assert(r@ == seq!["cd /tmp", "cd ..", "cd ~"]);
        r
    }
}

} // verus!
