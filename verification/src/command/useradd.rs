//! `useradd [-m] [-s shell] [-g group] name` -- add a user to
//! `/etc/passwd`.
//!
//! Without `-g` a group of the same name, with the new user's id, is added
//! to `/etc/group`; with `-g` the user joins the members of that existing
//! group. With `-m` the home directory `/home/NAME` is created when it is
//! missing. The first write that fails stops the command; what was written
//! before it stays.
use vstd::prelude::*;
use crate::text::{strs_view, chars_of, string_of, push_str, push_all, to_owned_string, str_eq, vv,
    split_on, split_char, str_lines, lines, join, join_chars};
use crate::numeric::{parse_bounded, parse_u32, push_u64, nat_str};
use crate::path::resolve;
use crate::users::{UserDatabase, DbView, user_ids, group_ids, user_named, group_named, next_id, contents_or_empty};
use crate::vfs::{Vfs, FsView, rv, uv, read_spec, write_spec, mkdir_spec};
use crate::command::groupadd::{valid_account_name, is_valid_account_name};
use crate::command::kinds::outcome;
use crate::command::{Command, CommandContext, CommandKind, state_of, meets, lemma_vfs_of};

verus! {

/// The options and the user name given by `args[i..]`: whether to create
/// the home directory, the login shell, the group and the name.
pub open spec fn useradd_args(
    args: Seq<Seq<char>>,
    i: int,
    home: bool,
    shell: Seq<char>,
    group: Option<Seq<char>>,
    user: Option<Seq<char>>,
) -> (bool, Seq<char>, Option<Seq<char>>, Option<Seq<char>>)
    decreases args.len() - i,
{
    if i < 0 || i >= args.len() {
        (home, shell, group, user)
    } else if args[i] == "-m"@ {
        useradd_args(args, i + 1, true, shell, group, user)
    } else if args[i] == "-s"@ {
        if i + 1 < args.len() {
            useradd_args(args, i + 2, home, args[i + 1], group, user)
        } else {
            (home, shell, group, user)
        }
    } else if args[i] == "-g"@ {
        if i + 1 < args.len() {
            useradd_args(args, i + 2, home, shell, Some(args[i + 1]), user)
        } else {
            (home, shell, group, user)
        }
    } else {
        useradd_args(args, i + 1, home, shell, group, if user is None { Some(args[i]) } else { user })
    }
}

/// A line of `/etc/group` with `user` added to its members when its id is
/// `gid` (only the first four fields are kept then); other lines unchanged.
pub open spec fn with_member(line: Seq<char>, gid: u32, user: Seq<char>) -> Seq<char> {
    let parts = split_char(line, ':');
    if parts.len() >= 4 && parse_bounded(parts[2], u32::MAX as nat) == Some(gid as nat) {
        let members = if parts[3].len() == 0 {
            Seq::empty()
        } else {
            split_char(parts[3], ',')
        };
        parts[0] + seq![':'] + parts[1] + seq![':'] + parts[2] + seq![':'] + join(members.push(user), seq![','])
    } else {
        line
    }
}

/// The lines `ls`, each passed through `with_member` and ended by a newline.
pub open spec fn with_member_text(ls: Seq<Seq<char>>, gid: u32, user: Seq<char>) -> Seq<char>
    decreases ls.len(),
{
    if ls.len() == 0 {
        Seq::empty()
    } else {
        with_member_text(ls.drop_last(), gid, user) + with_member(ls.last(), gid, user) + seq!['\n']
    }
}

/// The `/etc/passwd` line of a new user.
pub open spec fn passwd_line(u: Seq<char>, uid: u32, gid: u32, shell: Seq<char>) -> Seq<char> {
    u + ":x:"@ + nat_str(uid as nat) + seq![':'] + nat_str(gid as nat) + seq![':'] + u + ":/home/"@ + u
        + seq![':'] + shell + seq!['\n']
}

/// The writes of `useradd` once the user's ids are known.
pub open spec fn useradd_write(
    fs: FsView,
    cwd: Seq<char>,
    u: Seq<char>,
    uid: u32,
    gid: u32,
    shell: Seq<char>,
    joins_group: bool,
    make_home: bool,
) -> (Result<Seq<char>, Seq<char>>, FsView) {
    let pk = resolve(cwd, "/etc/passwd"@);
    let gk = resolve(cwd, "/etc/group"@);
    match write_spec(fs, pk, contents_or_empty(read_spec(fs, pk)) + passwd_line(u, uid, gid, shell)) {
        Err(e) => (Err(e), fs),
        Ok(fs1) => {
            let gc = contents_or_empty(read_spec(fs1, gk));
            let gtext = if joins_group {
                with_member_text(lines(gc), gid, u)
            } else {
                gc + u + ":x:"@ + nat_str(gid as nat) + seq![':'] + u + seq!['\n']
            };
            match write_spec(fs1, gk, gtext) {
                Err(e) => (Err(e), fs1),
                Ok(fs2) => {
                    let hk = resolve(cwd, "/home/"@ + u);
                    if !make_home || fs2.dom().contains(hk) {
                        (Ok(Seq::empty()), fs2)
                    } else {
                        match mkdir_spec(fs2, hk, uid, gid) {
                            Ok(fs3) => (Ok(Seq::empty()), fs3),
                            Err(e) => (Err(e), fs2),
                        }
                    }
                },
            }
        },
    }
}

/// The result of `useradd` and the file system after it.
pub open spec fn useradd_spec(fs: FsView, cwd: Seq<char>, db: DbView, args: Seq<Seq<char>>) -> (
    Result<Seq<char>, Seq<char>>,
    FsView,
) {
    let (home, shell, group, user) = useradd_args(args, 0, false, "/bin/nexsh"@, None, None);
    match user {
        None => (Err("useradd: missing username"@), fs),
        Some(u) => if !valid_account_name(u) {
            (Err("useradd: invalid username"@), fs)
        } else if user_named(db.0, u) is Some {
            (Err("useradd: user '"@ + u + "' already exists"@), fs)
        } else {
            let uid = next_id(user_ids(db.0));
            match group {
                Some(g) => match group_named(db.1, g) {
                    None => (Err("useradd: group '"@ + g + "' does not exist"@), fs),
                    Some(gv) => useradd_write(fs, cwd, u, uid, gv.1, shell, true, home),
                },
                None => useradd_write(fs, cwd, u, uid, uid, shell, false, home),
            }
        },
    }
}

fn member_line(line: &[char], gid: u32, user: &str) -> (r: Vec<char>)
    ensures
        r@ == with_member(line@, gid, user@),
{
    let parts = split_on(line, ':');
    let ghost pv = vv(parts@);
    if parts.len() >= 4 {
        assert(pv[2] == parts@[2]@);
        assert(pv[3] == parts@[3]@);
        match parse_u32(parts[2].as_slice()) {
            Some(g) => {
                if g == gid {
                    let mut members: Vec<Vec<char>> = if parts[3].len() == 0 {
                        Vec::new()
                    } else {
                        split_on(parts[3].as_slice(), ',')
                    };
                    let ghost mv = vv(members@);
                    members.push(chars_of(user));
                    assert(vv(members@) =~= mv.push(user@));
                    let mut out: Vec<char> = Vec::new();
                    push_all(&mut out, parts[0].as_slice());
                    out.push(':');
                    push_all(&mut out, parts[1].as_slice());
                    out.push(':');
                    push_all(&mut out, parts[2].as_slice());
                    out.push(':');
                    let mut sep: Vec<char> = Vec::new();
                    sep.push(',');
                    assert(sep@ =~= seq![',']);
                    let j = join_chars(&members, sep.as_slice());
                    push_all(&mut out, j.as_slice());
                    assert(pv[0] == parts@[0]@ && pv[1] == parts@[1]@);
                    assert(out@ =~= with_member(line@, gid, user@));
                    return out;
                }
            },
            None => {},
        }
    }
    crate::text::copy_chars(line)
}

fn member_text(content: &str, gid: u32, user: &str) -> (r: String)
    ensures
        r@ == with_member_text(lines(content@), gid, user@),
{
    let ls = str_lines(content);
    let ghost lv = vv(ls@);
    let mut out: Vec<char> = Vec::new();
    let mut i: usize = 0;
    while i < ls.len()
        invariant
            i <= ls@.len(),
            lv == vv(ls@),
            lv == lines(content@),
            out@ == with_member_text(lv.take(i as int), gid, user@),
        decreases ls.len() - i,
    {
        assert(lv.take(i + 1).drop_last() =~= lv.take(i as int));
        assert(lv.take(i + 1).last() == ls@[i as int]@);
        let l = member_line(ls[i].as_slice(), gid, user);
        push_all(&mut out, l.as_slice());
        out.push('\n');
        assert(out@ =~= with_member_text(lv.take(i + 1), gid, user@));
        i += 1;
    }
    assert(lv.take(ls@.len() as int) =~= lv);
    string_of(out.as_slice())
}

fn append_to_file(vfs: &mut Vfs, path: &str, extra: &[char]) -> (r: Result<(), String>)
    ensures
        final(vfs).cwd == old(vfs).cwd,
        match write_spec(old(vfs)@, old(vfs).key(path@), contents_or_empty(read_spec(old(vfs)@, old(vfs).key(path@))) + extra@) {
            Ok(m) => r is Ok && final(vfs)@ == m,
            Err(e) => uv(r) == Err::<(), Seq<char>>(e) && final(vfs)@ == old(vfs)@,
        },
{
    let existing = match vfs.read_file(path) {
        Ok(c) => c,
        Err(_) => String::new(),
    };
    let mut c = chars_of(existing.as_str());
    push_all(&mut c, extra);
    let text = string_of(c.as_slice());
    vfs.write_file(path, text.as_str())
}

fn write_user(
    vfs: &mut Vfs,
    u: &str,
    uid: u32,
    gid: u32,
    shell: &str,
    joins_group: bool,
    make_home: bool,
) -> (r: Result<String, String>)
    ensures
        final(vfs).cwd == old(vfs).cwd,
        (rv(r), final(vfs)@) == useradd_write(old(vfs)@, old(vfs).cwd@, u@, uid, gid, shell@, joins_group, make_home),
{
    let mut line: Vec<char> = Vec::new();
    push_str(&mut line, u);
    push_str(&mut line, ":x:");
    push_u64(&mut line, uid as u64);
    line.push(':');
    push_u64(&mut line, gid as u64);
    line.push(':');
    push_str(&mut line, u);
    push_str(&mut line, ":/home/");
    push_str(&mut line, u);
    line.push(':');
    push_str(&mut line, shell);
    line.push('\n');
    assert(line@ =~= passwd_line(u@, uid, gid, shell@));
    match append_to_file(vfs, "/etc/passwd", line.as_slice()) {
        Ok(()) => {},
        Err(e) => {
            return Err(e);
        },
    }
    let gr = if joins_group {
        let existing = match vfs.read_file("/etc/group") {
            Ok(c) => c,
            Err(_) => String::new(),
        };
        let text = member_text(existing.as_str(), gid, u);
        vfs.write_file("/etc/group", text.as_str())
    } else {
        let mut gl: Vec<char> = Vec::new();
        push_str(&mut gl, u);
        push_str(&mut gl, ":x:");
        push_u64(&mut gl, gid as u64);
        gl.push(':');
        push_str(&mut gl, u);
        gl.push('\n');
        proof {
            let gk = resolve(vfs.cwd@, "/etc/group"@);
            assert(contents_or_empty(read_spec(vfs@, gk)) + gl@ =~= contents_or_empty(read_spec(vfs@, gk)) + u@
                + ":x:"@ + nat_str(gid as nat) + seq![':'] + u@ + seq!['\n']);
        }
        append_to_file(vfs, "/etc/group", gl.as_slice())
    };
    match gr {
        Ok(()) => {},
        Err(e) => {
            return Err(e);
        },
    }
    if make_home {
        let mut h: Vec<char> = Vec::new();
        push_str(&mut h, "/home/");
        push_str(&mut h, u);
        let home = string_of(h.as_slice());
        assert(home@ =~= "/home/"@ + u@);
        if !vfs.exists_path(home.as_str()) {
            match vfs.mkdir_with_owner(home.as_str(), uid, gid) {
                Ok(()) => {},
                Err(e) => {
                    return Err(e);
                },
            }
        }
    }
    Ok(String::new())
}

/// Execute `useradd`.
pub fn execute(vfs: &mut Vfs, args: &[&str], uid: u32, gid: u32, user_db: &UserDatabase) -> (r: Result<
    String,
    String,
>)
    ensures
        final(vfs).cwd == old(vfs).cwd,
        (rv(r), final(vfs)@) == useradd_spec(old(vfs)@, old(vfs).cwd@, user_db@, strs_view(args@)),
{
    let ghost av = strs_view(args@);
    let mut home = false;
    let mut shell: &str = "/bin/nexsh";
    let mut group: Option<&str> = None;
    let mut user: Option<&str> = None;
    let mut i: usize = 0;

    while i < args.len()
        invariant
            i <= args@.len(),
            av == strs_view(args@),
            useradd_args(av, 0, false, "/bin/nexsh"@, None, None) == useradd_args(
                av,
                i as int,
                home,
                shell@,
                match group { Some(s) => Some(s@), None => None },
                match user { Some(s) => Some(s@), None => None },
            ),
        decreases args.len() - i,
    {
        assert(av[i as int] == args@[i as int]@);
        if str_eq(args[i], "-m") {
            home = true;
            i += 1;
        } else if str_eq(args[i], "-s") {
            if i + 1 < args.len() {
                assert(av[i + 1] == args@[i + 1]@);
                shell = args[i + 1];
                i += 2;
            } else {
                i += 1;
            }
        } else if str_eq(args[i], "-g") {
            if i + 1 < args.len() {
                assert(av[i + 1] == args@[i + 1]@);
                group = Some(args[i + 1]);
                i += 2;
            } else {
                i += 1;
            }
        } else {
            if user.is_none() {
                user = Some(args[i]);
            }
            i += 1;
        }
    }
    let u = match user {
        Some(u) => u,
        None => {
            return Err(to_owned_string("useradd: missing username"));
        },
    };
    if !is_valid_account_name(u) {
        return Err(to_owned_string("useradd: invalid username"));
    }
    if user_db.uid_of_name(u).is_some() {
        let mut m: Vec<char> = Vec::new();
        push_str(&mut m, "useradd: user '");
        push_str(&mut m, u);
        push_str(&mut m, "' already exists");
        assert(m@ =~= "useradd: user '"@ + u@ + "' already exists"@);
        return Err(string_of(m.as_slice()));
    }
    let new_uid = user_db.next_uid();
    match group {
        Some(g) => match user_db.gid_of_name(g) {
            Some(new_gid) => write_user(vfs, u, new_uid, new_gid, shell, true, home),
            None => {
                let mut m: Vec<char> = Vec::new();
                push_str(&mut m, "useradd: group '");
                push_str(&mut m, g);
                push_str(&mut m, "' does not exist");
                assert(m@ =~= "useradd: group '"@ + g@ + "' does not exist"@);
                Err(string_of(m.as_slice()))
            },
        },
        None => write_user(vfs, u, new_uid, new_uid, shell, false, home),
    }
}

/// The `useradd` command.
pub struct UseraddCommand;

/// The `adduser` command: `useradd -m`.
pub struct AdduserCommand;

impl Command for UseraddCommand {
    fn name(&self) -> (r: &'static str)
        ensures
            r@ == "useradd"@,
    {
        "useradd"
    }

    fn description(&self) -> (r: &'static str)
        ensures
            r@ == "Create a new user"@,
    {
        "Create a new user"
    }

    fn accepts_stdin(&self) -> (r: bool)
        ensures
            !r,
    {
        false
    }

    fn execute(&self, ctx: &mut CommandContext) -> (r: Result<String, String>)
        ensures
            meets(outcome(CommandKind::Useradd, state_of(old(ctx))), r, final(ctx)),
    {
        proof {
            lemma_vfs_of(ctx);
        }
        let db = UserDatabase::from_vfs(ctx.vfs);
        execute(ctx.vfs, ctx.args, ctx.uid, ctx.gid, &db)
    }

    fn synopsis(&self) -> (r: &'static str)
        ensures
            r@ == "useradd [-m] [-s shell] [-g group] username"@,
    {
        "useradd [-m] [-s shell] [-g group] username"
    }

    fn man_description(&self) -> (r: &'static str)
        ensures
            r@ == "Create a new user. With -m, creates a home directory. With -s, sets the login shell. \
         With -g, assigns the user to an existing group."@,
    {
        "Create a new user. With -m, creates a home directory. With -s, sets the login shell. \
         With -g, assigns the user to an existing group."
    }

    fn examples(&self) -> (r: &'static [&'static str])
        ensures
            strs_view(r@) == seq!["useradd -m alice"@, "adduser bob"@],
    {
        let r: &'static [&'static str] = &["useradd -m alice", "adduser bob"];
        assert(r@ == seq!["useradd -m alice", "adduser bob"]);
        r
    }
}

impl Command for AdduserCommand {
    fn name(&self) -> (r: &'static str)
        ensures
            r@ == "adduser"@,
    {
        "adduser"
    }

    fn description(&self) -> (r: &'static str)
        ensures
            r@ == "Create a new user (with home directory)"@,
    {
        "Create a new user (with home directory)"
    }

    fn accepts_stdin(&self) -> (r: bool)
        ensures
            !r,
    {
        false
    }

    fn execute(&self, ctx: &mut CommandContext) -> (r: Result<String, String>)
        ensures
            meets(outcome(CommandKind::Adduser, state_of(old(ctx))), r, final(ctx)),
    {
        proof {
            lemma_vfs_of(ctx);
        }
        let db = UserDatabase::from_vfs(ctx.vfs);
        let mut a: Vec<&str> = Vec::new();
        a.push("-m");
        let mut i: usize = 0;
        while i < ctx.args.len()
            invariant
                i <= ctx.args@.len(),
                strs_view(a@) == seq!["-m"@] + strs_view(ctx.args@).take(i as int),
            decreases ctx.args.len() - i,
        {
            let ghost before = a@;
            a.push(ctx.args[i]);
            assert(strs_view(a@) =~= strs_view(before).push(ctx.args@[i as int]@));
            assert(strs_view(ctx.args@).take(i + 1) =~= strs_view(ctx.args@).take(i as int).push(ctx.args@[i as int]@));
            i += 1;
        }
        assert(strs_view(ctx.args@).take(ctx.args@.len() as int) =~= strs_view(ctx.args@));
        execute(ctx.vfs, a.as_slice(), ctx.uid, ctx.gid, &db)
    }

    fn synopsis(&self) -> (r: &'static str)
        ensures
            r@ == "adduser username"@,
    {
        "adduser username"
    }

    fn man_description(&self) -> (r: &'static str)
        ensures
            r@ == "Create a new user with a home directory. This is a convenience wrapper around useradd -m."@,
    {
        "Create a new user with a home directory. This is a convenience wrapper around useradd -m."
    }

    fn examples(&self) -> (r: &'static [&'static str])
        ensures
            strs_view(r@) == seq!["adduser alice"@],
    {
        let r: &'static [&'static str] = &["adduser alice"];
        assert(r@ == seq!["adduser alice"]);
        r
    }
}

} // verus!
