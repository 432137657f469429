//! `id [user]` -- a user's id, primary group and groups.
use vstd::prelude::*;
use crate::text::{strs_view, chars_of, string_of, push_str};
use crate::users::{UserDatabase, DbView, user_ids, group_ids, id_text};
use crate::command::groups::target_user;
use crate::vfs::rv;
use crate::command::kinds::outcome;
use crate::command::{Command, CommandContext, CommandKind, state_of, meets, lemma_vfs_of};

verus! {

/// What `id` prints for the user `t`.
pub open spec fn id_spec(db: DbView, t: Seq<char>) -> Result<Seq<char>, Seq<char>> {
    match id_text(db.0, db.1, t) {
        Some(s) => Ok(s + seq!['\n']),
        None => Err("id: '"@ + t + "': no such user"@),
    }
}

/// Execute `id`.
pub fn execute(username: &str, user_db: &UserDatabase, args: &[&str]) -> (r: Result<String, String>)
    ensures
        rv(r) == id_spec(user_db@, target_user(username@, strs_view(args@))),
{
    let target = if args.len() == 0 {
        username
    } else {
        assert(strs_view(args@)[0] == args@[0]@);
        args[0]
    };
    assert(target@ == target_user(username@, strs_view(args@)));
    match user_db.format_id(target) {
        Some(s) => {
            let mut out = chars_of(s.as_str());
            out.push('\n');
            assert(out@ =~= s@ + seq!['\n']);
            Ok(string_of(out.as_slice()))
        },
        None => {
            let mut m: Vec<char> = Vec::new();
            push_str(&mut m, "id: '");
            push_str(&mut m, target);
            push_str(&mut m, "': no such user");
            assert(m@ =~= "id: '"@ + target@ + "': no such user"@);
            Err(string_of(m.as_slice()))
        },
    }
}

/// The `id` command.
pub struct IdCommand;

impl Command for IdCommand {
    fn name(&self) -> (r: &'static str)
        ensures
            r@ == "id"@,
    {
        "id"
    }

    fn description(&self) -> (r: &'static str)
        ensures
            r@ == "Display user identity (uid, gid, groups)"@,
    {
        "Display user identity (uid, gid, groups)"
    }

    fn accepts_stdin(&self) -> (r: bool)
        ensures
            !r,
    {
        false
    }

    fn execute(&self, ctx: &mut CommandContext) -> (r: Result<String, String>)
        ensures
            meets(outcome(CommandKind::Id, state_of(old(ctx))), r, final(ctx)),
    {
        proof {
            lemma_vfs_of(ctx);
        }
        let db = UserDatabase::from_vfs(ctx.vfs);
        execute(ctx.username, &db, ctx.args)
    }

    fn synopsis(&self) -> (r: &'static str)
        ensures
            r@ == "id [username]"@,
    {
        "id [username]"
    }

    fn man_description(&self) -> (r: &'static str)
        ensures
            r@ == "Display the UID, GID, and group memberships for the current user or a specified user."@,
    {
        "Display the UID, GID, and group memberships for the current user or a specified user."
    }

    fn examples(&self) -> (r: &'static [&'static str])
        ensures
            strs_view(r@) == seq!["id"@, "id root"@],
    {
        let r: &'static [&'static str] = &["id", "id root"];
        assert(r@ == seq!["id", "id root"]);
        r
    }
}

} // verus!
