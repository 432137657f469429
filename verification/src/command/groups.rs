//! `groups [user]` -- the names of the groups a user belongs to.
use vstd::prelude::*;
use crate::text::{strs_view, chars_of, string_of, push_str, push_all};
use crate::users::{UserDatabase, DbView, user_ids, group_ids, user_named, groups_text};
use crate::vfs::rv;
use crate::command::kinds::outcome;
use crate::command::{Command, CommandContext, CommandKind, state_of, meets, lemma_vfs_of};

verus! {

/// The user a `groups` or `id` command asks about: the first operand, or
/// the current user when there is none.
pub open spec fn target_user(username: Seq<char>, args: Seq<Seq<char>>) -> Seq<char> {
    if args.len() == 0 {
        username
    } else {
        args[0]
    }
}

/// What `groups` prints for the user `t`.
pub open spec fn groups_spec(db: DbView, t: Seq<char>) -> Result<Seq<char>, Seq<char>> {
    if user_named(db.0, t) is None {
        Err("groups: '"@ + t + "': no such user"@)
    } else {
        let g = groups_text(db.0, db.1, t);
        if g.len() == 0 {
            Ok(t + seq!['\n'])
        } else {
            Ok(g + seq!['\n'])
        }
    }
}

/// Execute `groups`.
pub fn execute(username: &str, user_db: &UserDatabase, args: &[&str]) -> (r: Result<String, String>)
    ensures
        rv(r) == groups_spec(user_db@, target_user(username@, strs_view(args@))),
{
    let target = if args.len() == 0 {
        username
    } else {
        assert(strs_view(args@)[0] == args@[0]@);
        args[0]
    };
    assert(target@ == target_user(username@, strs_view(args@)));
    if user_db.uid_of_name(target).is_none() {
        let mut m: Vec<char> = Vec::new();
        push_str(&mut m, "groups: '");
        push_str(&mut m, target);
        push_str(&mut m, "': no such user");
        assert(m@ =~= "groups: '"@ + target@ + "': no such user"@);
        return Err(string_of(m.as_slice()));
    }
    let g = user_db.format_groups(target);
    let mut out = chars_of(g.as_str());
    if out.len() == 0 {
        push_str(&mut out, target);
    }
    out.push('\n');
    proof {
        let g = groups_text(user_db.users_view(), user_db.groups_view(), target@);
        if g.len() == 0 {
            assert(out@ =~= target@ + seq!['\n']);
        } else {
            assert(out@ =~= g + seq!['\n']);
        }
    }
    Ok(string_of(out.as_slice()))
}

/// The `groups` command.
pub struct GroupsCommand;

impl Command for GroupsCommand {
    fn name(&self) -> (r: &'static str)
        ensures
            r@ == "groups"@,
    {
        "groups"
    }

    fn description(&self) -> (r: &'static str)
        ensures
            r@ == "Display group memberships"@,
    {
        "Display group memberships"
    }

    fn accepts_stdin(&self) -> (r: bool)
        ensures
            !r,
    {
        false
    }

    fn execute(&self, ctx: &mut CommandContext) -> (r: Result<String, String>)
        ensures
            meets(outcome(CommandKind::Groups, state_of(old(ctx))), r, final(ctx)),
    {
        proof {
            lemma_vfs_of(ctx);
        }
        let db = UserDatabase::from_vfs(ctx.vfs);
        execute(ctx.username, &db, ctx.args)
    }

    fn synopsis(&self) -> (r: &'static str)
        ensures
            r@ == "groups [username]"@,
    {
        "groups [username]"
    }

    fn man_description(&self) -> (r: &'static str)
        ensures
            r@ == "Display the groups the current user or a specified user belongs to."@,
    {
        "Display the groups the current user or a specified user belongs to."
    }

    fn examples(&self) -> (r: &'static [&'static str])
        ensures
            strs_view(r@) == seq!["groups"@, "groups root"@],
    {
        let r: &'static [&'static str] = &["groups", "groups root"];
        assert(r@ == seq!["groups", "groups root"]);
        r
    }
}

} // verus!
