//! `groupadd [-g gid] name` -- add a group to `/etc/group`.
use vstd::prelude::*;
use crate::text::{strs_view, chars_of, string_of, push_str, to_owned_string, str_eq, has_char, find_char};
use crate::numeric::{parse_bounded, parse_u32, push_u64, nat_str};
use crate::users::{UserDatabase, DbView, user_ids, group_ids, group_named, group_with_gid, next_id, contents_or_empty};
use crate::vfs::{Vfs, FsView, rv, uv, read_spec, write_spec, byte_len, byte_size};
use crate::command::kinds::outcome;
use crate::command::{Command, CommandContext, CommandKind, state_of, meets, lemma_vfs_of};

verus! {

/// The `-g` id and the group name given by `args[i..]`, starting from
/// `gid` and `name`.
pub open spec fn groupadd_args(args: Seq<Seq<char>>, i: int, gid: Option<u32>, name: Option<Seq<char>>) -> Result<
    (Option<u32>, Option<Seq<char>>),
    Seq<char>,
>
    decreases args.len() - i,
{
    if i < 0 || i >= args.len() {
        Ok((gid, name))
    } else if args[i] == "-g"@ {
        if i + 1 < args.len() {
            match parse_bounded(args[i + 1], u32::MAX as nat) {
                Some(v) => groupadd_args(args, i + 2, Some(v as u32), name),
                None => Err("groupadd: invalid GID: '"@ + args[i + 1] + "'"@),
            }
        } else {
            Ok((gid, name))
        }
    } else {
        groupadd_args(args, i + 1, gid, if name is None { Some(args[i]) } else { name })
    }
}

/// A name that may stand in `/etc/passwd` or `/etc/group`: 1 to 32 bytes,
/// no colon, no newline.
pub open spec fn valid_account_name(n: Seq<char>) -> bool {
    n.len() > 0 && byte_len(n) <= 32 && !has_char(n, ':') && !has_char(n, '\n')
}

/// The result of `groupadd` and the file system after it.
pub open spec fn groupadd_spec(fs: FsView, group_key: Seq<char>, db: DbView, args: Seq<Seq<char>>) -> (
    Result<Seq<char>, Seq<char>>,
    FsView,
) {
    match groupadd_args(args, 0, None, None) {
        Err(e) => (Err(e), fs),
        Ok((g, n)) => match n {
            None => (Err("groupadd: missing group name"@), fs),
            Some(name) => if !valid_account_name(name) {
                (Err("groupadd: invalid group name"@), fs)
            } else if group_named(db.1, name) is Some {
                (Err("groupadd: group '"@ + name + "' already exists"@), fs)
            } else {
                let gid = match g {
                    Some(v) => v,
                    None => next_id(group_ids(db.1)),
                };
                if group_with_gid(db.1, gid) is Some {
                    (Err("groupadd: GID '"@ + nat_str(gid as nat) + "' already in use"@), fs)
                } else {
                    let content = contents_or_empty(read_spec(fs, group_key)) + name + ":x:"@ + nat_str(
                        gid as nat,
                    ) + ":\n"@;
                    match write_spec(fs, group_key, content) {
                        Ok(m) => (Ok(Seq::empty()), m),
                        Err(e) => (Err(e), fs),
                    }
                }
            },
        },
    }
}

/// Whether `n` may name an account.
pub fn is_valid_account_name(n: &str) -> (r: bool)
    ensures
        r == valid_account_name(n@),
{
    let cs = chars_of(n);
    if cs.len() == 0 {
        return false;
    }
    if byte_size(cs.as_slice()) > 32 {
        return false;
    }
    find_char(cs.as_slice(), ':').is_none() && find_char(cs.as_slice(), '\n').is_none()
}

/// Execute `groupadd`.
pub fn execute(vfs: &mut Vfs, args: &[&str], user_db: &UserDatabase) -> (r: Result<String, String>)
    ensures
        final(vfs).cwd == old(vfs).cwd,
        (rv(r), final(vfs)@) == groupadd_spec(old(vfs)@, old(vfs).key("/etc/group"@), user_db@, strs_view(args@)),
{
    let ghost av = strs_view(args@);
    let mut gid: Option<u32> = None;
    let mut name: Option<&str> = None;
    let mut i: usize = 0;
    while i < args.len()
        invariant
            i <= args@.len(),
            av == strs_view(args@),
            groupadd_args(av, 0, None, None) == groupadd_args(
                av,
                i as int,
                gid,
                match name { Some(s) => Some(s@), None => None },
            ),
        decreases args.len() - i,
    {
        assert(av[i as int] == args@[i as int]@);
        if str_eq(args[i], "-g") {
            if i + 1 < args.len() {
                assert(av[i + 1] == args@[i + 1]@);
                let v = chars_of(args[i + 1]);
                match parse_u32(v.as_slice()) {
                    Some(n) => {
                        gid = Some(n);
                    },
                    None => {
                        let mut m: Vec<char> = Vec::new();
                        push_str(&mut m, "groupadd: invalid GID: '");
                        push_str(&mut m, args[i + 1]);
                        push_str(&mut m, "'");
                        assert(m@ =~= "groupadd: invalid GID: '"@ + av[i + 1] + "'"@);
                        return Err(string_of(m.as_slice()));
                    },
                }
                i += 2;
            } else {
                i += 1;
            }
        } else {
            if name.is_none() {
                name = Some(args[i]);
            }
            i += 1;
        }
    }
    let name = match name {
        Some(n) => n,
        None => {
            return Err(to_owned_string("groupadd: missing group name"));
        },
    };
    if !is_valid_account_name(name) {
        return Err(to_owned_string("groupadd: invalid group name"));
    }
    if user_db.gid_of_name(name).is_some() {
        let mut m: Vec<char> = Vec::new();
        push_str(&mut m, "groupadd: group '");
        push_str(&mut m, name);
        push_str(&mut m, "' already exists");
        assert(m@ =~= "groupadd: group '"@ + name@ + "' already exists"@);
        return Err(string_of(m.as_slice()));
    }
    let new_gid = match gid {
        Some(g) => g,
        None => user_db.next_gid(),
    };
    if user_db.name_of_gid(new_gid).is_some() {
        let mut m: Vec<char> = Vec::new();
        push_str(&mut m, "groupadd: GID '");
        push_u64(&mut m, new_gid as u64);
        push_str(&mut m, "' already in use");
        assert(m@ =~= "groupadd: GID '"@ + nat_str(new_gid as nat) + "' already in use"@);
        return Err(string_of(m.as_slice()));
    }
    let existing = match vfs.read_file("/etc/group") {
        Ok(c) => c,
        Err(_) => String::new(),
    };
    let mut content = chars_of(existing.as_str());
    push_str(&mut content, name);
    push_str(&mut content, ":x:");
    push_u64(&mut content, new_gid as u64);
    push_str(&mut content, ":\n");
    let text = string_of(content.as_slice());
    match vfs.write_file("/etc/group", text.as_str()) {
        Ok(()) => Ok(String::new()),
        Err(e) => Err(e),
    }
}

/// The `groupadd` command.
pub struct GroupaddCommand;

impl Command for GroupaddCommand {
    fn name(&self) -> (r: &'static str)
        ensures
            r@ == "groupadd"@,
    {
        "groupadd"
    }

    fn description(&self) -> (r: &'static str)
        ensures
            r@ == "Create a new group"@,
    {
        "Create a new group"
    }

    fn accepts_stdin(&self) -> (r: bool)
        ensures
            !r,
    {
        false
    }

    fn execute(&self, ctx: &mut CommandContext) -> (r: Result<String, String>)
        ensures
            meets(outcome(CommandKind::Groupadd, state_of(old(ctx))), r, final(ctx)),
    {
        proof {
            lemma_vfs_of(ctx);
        }
        let db = UserDatabase::from_vfs(ctx.vfs);
        execute(ctx.vfs, ctx.args, &db)
    }

    fn synopsis(&self) -> (r: &'static str)
        ensures
            r@ == "groupadd [-g gid] groupname"@,
    {
        "groupadd [-g gid] groupname"
    }

    fn man_description(&self) -> (r: &'static str)
        ensures
            r@ == "Create a new group by adding an entry to /etc/group. With -g, specifies the GID."@,
    {
        "Create a new group by adding an entry to /etc/group. With -g, specifies the GID."
    }

    fn examples(&self) -> (r: &'static [&'static str])
        ensures
            strs_view(r@) == seq!["groupadd developers"@, "groupadd -g 500 admins"@],
    {
        let r: &'static [&'static str] = &["groupadd developers", "groupadd -g 500 admins"];
        assert(r@ == seq!["groupadd developers", "groupadd -g 500 admins"]);
        r
    }
}

} // verus!
