//! `sudo [-u user] command [args...]` -- run one registered command as
//! `root` (uid 0), or as the user named by `-u`, when `/etc/sudoers` lets the
//! invoking user do so without a password.
//!
//! A rule of `/etc/sudoers` is a line whose first word is the invoking user
//! and whose last word, less a leading `NOPASSWD:`, is `ALL` or the name of
//! the command, as in `alice ALL=(ALL) NOPASSWD: ALL`. A rule with a word
//! that starts with `NOPASSWD:` needs no password. Only such rules are
//! honoured: where every matching rule asks for a password, `sudo` refuses.
//!
//! The command runs with the target user's id and name; the context's own
//! user, id and arguments are given back afterwards.
use vstd::prelude::*;
use crate::text::{strs_view, string_of, push_str, to_owned_string, str_eq, eq_str,
    has_prefix_str, slice_chars, str_lines, split_words, vv, lines, words, starts_with};
use crate::path::resolve;
use crate::vfs::read_spec;
use crate::users::{UserDatabase, UserView, db_of, user_named, contents_or_empty};
use crate::command::kinds::{outcome, builtin_outcome, run_builtin};
use crate::command::{Command, CommandContext, CommandKind, CtxState, Outcome, state_of, vfs_of, unchanged,
    meets, lemma_vfs_of, find_kind};

verus! {

/// The user given by the last `-u` and the index of the command name, read
/// from `args[i..]`; `None` when a `-u` has no argument. When no command
/// follows the options the index is 0.
pub open spec fn sudo_options(args: Seq<Seq<char>>, i: int) -> Option<(Option<Seq<char>>, int)>
    decreases args.len() - i,
{
    if i < 0 || i >= args.len() {
        Some((None, 0))
    } else if args[i] == "-u"@ {
        if i + 1 < args.len() {
            match sudo_options(args, i + 2) {
                Some((t, st)) => Some((if t is Some { t } else { Some(args[i + 1]) }, st)),
                None => None,
            }
        } else {
            None
        }
    } else {
        Some((None, i))
    }
}

/// The id and the name the command runs as: `root` with uid 0 when no user
/// is given, else the first user called `t`.
pub open spec fn sudo_identity(us: Seq<UserView>, t: Option<Seq<char>>) -> Option<(u32, Seq<char>)> {
    match t {
        None => Some((0u32, "root"@)),
        Some(u) => match user_named(us, u) {
            Some(e) => Some((e.1, u)),
            None => None,
        },
    }
}

/// The command a rule's last word names, less a leading `NOPASSWD:`.
pub open spec fn rule_command(w: Seq<char>) -> Seq<char> {
    if starts_with(w, "NOPASSWD:"@) {
        w.skip("NOPASSWD:"@.len() as int)
    } else {
        w
    }
}

/// The rule with the words `ws` is for `user` running `cmd`.
pub open spec fn rule_applies(ws: Seq<Seq<char>>, user: Seq<char>, cmd: Seq<char>) -> bool {
    &&& ws.len() >= 2
    &&& ws[0] == user
    &&& (rule_command(ws.last()) == "ALL"@ || rule_command(ws.last()) == cmd)
}

/// The rule with the words `ws` needs no password.
pub open spec fn rule_nopasswd(ws: Seq<Seq<char>>) -> bool {
    exists|j: int| 0 <= j < ws.len() && starts_with(#[trigger] ws[j], "NOPASSWD:"@)
}

/// Some rule of the sudoers text `text` is for `user` running `cmd`.
pub open spec fn has_sudo_entry(text: Seq<char>, user: Seq<char>, cmd: Seq<char>) -> bool {
    exists|i: int| 0 <= i < lines(text).len() && rule_applies(words(#[trigger] lines(text)[i]), user, cmd)
}

/// Some rule of the sudoers text `text` lets `user` run `cmd` without a
/// password.
pub open spec fn has_nopasswd_sudo(text: Seq<char>, user: Seq<char>, cmd: Seq<char>) -> bool {
    exists|i: int|
        0 <= i < lines(text).len() && rule_applies(words(#[trigger] lines(text)[i]), user, cmd) && rule_nopasswd(
            words(lines(text)[i]),
        )
}

/// The text of `/etc/sudoers` in `s` (empty when it cannot be read).
pub open spec fn sudoers_text(s: CtxState) -> Seq<char> {
    contents_or_empty(read_spec(s.fs, resolve(s.cwd, "/etc/sudoers"@)))
}

/// What `sudo` does in a context holding `s`: the checks in order (options,
/// command, target user, sudoers, registry), then the named command's
/// outcome with the remaining arguments, run as the target user.
pub open spec fn sudo_outcome(s: CtxState) -> Outcome {
    match sudo_options(s.args, 0) {
        None => unchanged(s, Err("sudo: option '-u' requires an argument"@)),
        Some((t, st)) => {
            if st >= s.args.len() {
                unchanged(s, Err("sudo: missing command"@))
            } else {
                let name = s.args[st];
                match sudo_identity(db_of(&vfs_of(s)).0, t) {
                    None => unchanged(s, Err("sudo: unknown user: '"@ + t.unwrap() + "'"@)),
                    Some((uid, user)) => {
                        if !has_nopasswd_sudo(sudoers_text(s), s.username, name) {
                            if has_sudo_entry(sudoers_text(s), s.username, name) {
                                unchanged(s, Err("sudo: password required (NOPASSWD sudoers entry not found)"@))
                            } else {
                                unchanged(s, Err("sudo: "@ + s.username + " is not in the sudoers file"@))
                            }
                        } else {
                            match find_kind(s.registry, name) {
                                Some(k) => {
                                    if k is Sudo {
                                        unchanged(s, Err("sudo: command not found: "@ + name))
                                    } else {
                                        builtin_outcome(
                                            k,
                                            CtxState { args: s.args.skip(st + 1), uid, username: user, ..s },
                                        )
                                    }
                                },
                                None => unchanged(s, Err("sudo: command not found: "@ + name)),
                            }
                        }
                    },
                }
            }
        },
    }
}

/// The view of an optional argument.
pub open spec fn opt_view(t: Option<&str>) -> Option<Seq<char>> {
    match t {
        Some(a) => Some(a@),
        None => None,
    }
}

/// The `-u` user and the index of the command name, from `args[i..]`.
fn options_from<'a>(args: &[&'a str], i: usize) -> (r: Option<(Option<&'a str>, usize)>)
    ensures
        match r {
            None => sudo_options(strs_view(args@), i as int) is None,
            Some((t, st)) => sudo_options(strs_view(args@), i as int) == Some((opt_view(t), st as int)),
        },
    decreases args.len() - i,
{
    let ghost av = strs_view(args@);
    if i >= args.len() {
        return Some((None, 0));
    }
    assert(av[i as int] == args@[i as int]@);
    if str_eq(args[i], "-u") {
        if i + 1 < args.len() {
            match options_from(args, i + 2) {
                Some((t, st)) => {
                    let u: Option<&'a str> = match t {
                        Some(x) => Some(x),
                        None => Some(args[i + 1]),
                    };
                    Some((u, st))
                },
                None => None,
            }
        } else {
            None
        }
    } else {
        Some((None, i))
    }
}

/// The last word of a rule names `cmd` (or every command).
fn rule_names(w: &[char], cmd: &str) -> (r: bool)
    ensures
        r == (rule_command(w@) == "ALL"@ || rule_command(w@) == cmd@),
{
    proof {
        reveal_strlit("NOPASSWD:");
    }
    let named: Vec<char> = if has_prefix_str(w, "NOPASSWD:") {
        slice_chars(w, 9, w.len())
    } else {
        slice_chars(w, 0, w.len())
    };
    assert(named@ == rule_command(w@));
    eq_str(named.as_slice(), "ALL") || eq_str(named.as_slice(), cmd)
}

/// Whether some word of a rule starts with `NOPASSWD:`.
fn rule_without_password(ws: &Vec<Vec<char>>) -> (r: bool)
    ensures
        r == rule_nopasswd(vv(ws@)),
{
    let mut j: usize = 0;
    while j < ws.len()
        invariant
            j <= ws@.len(),
            forall|k: int| 0 <= k < j ==> !starts_with(#[trigger] vv(ws@)[k], "NOPASSWD:"@),
        decreases ws.len() - j,
    {
        if has_prefix_str(ws[j].as_slice(), "NOPASSWD:") {
            assert(vv(ws@)[j as int] == ws@[j as int]@);
            return true;
        }
        assert(vv(ws@)[j as int] == ws@[j as int]@);
        j += 1;
    }
    false
}

/// Whether the sudoers text `text` has a rule for `user` running `cmd`, and
/// whether it has one that needs no password.
fn sudo_rules(text: &str, user: &str, cmd: &str) -> (r: (bool, bool))
    ensures
        r.0 == has_sudo_entry(text@, user@, cmd@),
        r.1 == has_nopasswd_sudo(text@, user@, cmd@),
{
    let ls = str_lines(text);
    let ghost lv = lines(text@);
    let mut entry = false;
    let mut free = false;
    let mut i: usize = 0;
    while i < ls.len()
        invariant
            i <= ls@.len(),
            vv(ls@) == lv,
            lv == lines(text@),
            entry == exists|k: int| 0 <= k < i && rule_applies(words(#[trigger] lv[k]), user@, cmd@),
            free == exists|k: int|
                0 <= k < i && rule_applies(words(#[trigger] lv[k]), user@, cmd@) && rule_nopasswd(words(lv[k])),
        decreases ls.len() - i,
    {
        let ws = split_words(ls[i].as_slice());
        assert(lv[i as int] == ls@[i as int]@);
        let applies = ws.len() >= 2 && eq_str(ws[0].as_slice(), user) && rule_names(ws[ws.len() - 1].as_slice(), cmd);
        proof {
            let wv = vv(ws@);
            if ws@.len() >= 2 {
                assert(wv[0] == ws@[0]@);
                assert(wv.last() == ws@[ws@.len() - 1]@);
            }
            assert(applies == rule_applies(words(lv[i as int]), user@, cmd@));
        }
        let nopw = applies && rule_without_password(&ws);
        proof {
            if entry {
                let k = choose|k: int| 0 <= k < i && rule_applies(words(#[trigger] lv[k]), user@, cmd@);
                assert(0 <= k < i + 1 && rule_applies(words(lv[k]), user@, cmd@));
            }
            if free {
                let k = choose|k: int|
                    0 <= k < i && rule_applies(words(#[trigger] lv[k]), user@, cmd@) && rule_nopasswd(words(lv[k]));
                assert(0 <= k < i + 1 && rule_applies(words(lv[k]), user@, cmd@) && rule_nopasswd(words(lv[k])));
            }
        }
        entry = entry || applies;
        free = free || nopw;
        i += 1;
    }
    (entry, free)
}

/// Execute `sudo` in `ctx`. The context's user, id and arguments are as they
/// were when it returns.
pub fn execute(ctx: &mut CommandContext) -> (r: Result<String, String>)
    ensures
        meets(outcome(CommandKind::Sudo, state_of(old(ctx))), r, final(ctx)),
        final(ctx).uid == old(ctx).uid,
        final(ctx).username == old(ctx).username,
        final(ctx).args == old(ctx).args,
        *final(final(ctx).vfs) == *final(old(ctx).vfs),
        *final(final(ctx).env_vars) == *final(old(ctx).env_vars),
{
    proof {
        lemma_vfs_of(ctx);
    }
    let ghost s = state_of(ctx);
    let args = ctx.args;
    let (target, start) = match options_from(args, 0) {
        None => {
            return Err(to_owned_string("sudo: option '-u' requires an argument"));
        },
        Some(o) => o,
    };
    if start >= args.len() {
        return Err(to_owned_string("sudo: missing command"));
    }
    let name = args[start];
    assert(s.args[start as int] == name@);
    let db = UserDatabase::from_vfs(ctx.vfs);
    let (uid, as_user): (u32, &str) = match target {
        None => {
            proof {
                reveal_strlit("root");
            }
            (0, "root")
        },
        Some(u) => match db.uid_of_name(u) {
            Some(id) => (id, u),
            None => {
                let mut m: Vec<char> = Vec::new();
                push_str(&mut m, "sudo: unknown user: '");
                push_str(&mut m, u);
                push_str(&mut m, "'");
                assert(m@ =~= "sudo: unknown user: '"@ + u@ + "'"@);
                return Err(string_of(m.as_slice()));
            },
        },
    };
    let text = match ctx.vfs.read_file("/etc/sudoers") {
        Ok(c) => c,
        Err(_) => String::new(),
    };
    assert(text@ == sudoers_text(s));
    let (entry, free) = sudo_rules(text.as_str(), ctx.username, name);
    if !free {
        if entry {
            return Err(to_owned_string("sudo: password required (NOPASSWD sudoers entry not found)"));
        }
        let mut m: Vec<char> = Vec::new();
        push_str(&mut m, "sudo: ");
        push_str(&mut m, ctx.username);
        push_str(&mut m, " is not in the sudoers file");
        assert(m@ =~= "sudo: "@ + s.username + " is not in the sudoers file"@);
        return Err(string_of(m.as_slice()));
    }
    let found = ctx.registry.get(name);
    let kind = match found {
        Some(k) => {
            if matches!(k, CommandKind::Sudo) {
                None
            } else {
                Some(k)
            }
        },
        None => None,
    };
    let kind = match kind {
        Some(k) => k,
        None => {
            let mut m: Vec<char> = Vec::new();
            push_str(&mut m, "sudo: command not found: ");
            push_str(&mut m, name);
            assert(m@ =~= "sudo: command not found: "@ + name@);
            return Err(string_of(m.as_slice()));
        },
    };
    let rest = &args[start + 1..args.len()];
    assert(strs_view(rest@) =~= s.args.skip(start + 1));
    let old_uid = ctx.uid;
    let old_user = ctx.username;
    ctx.args = rest;
    ctx.uid = uid;
    ctx.username = as_user;
    let r = run_builtin(kind, ctx);
    ctx.args = args;
    ctx.uid = old_uid;
    ctx.username = old_user;
    r
}

/// The `sudo` command.
pub struct SudoCommand;

impl Command for SudoCommand {
    fn name(&self) -> (r: &'static str)
        ensures
            r@ == "sudo"@,
    {
        "sudo"
    }

    fn description(&self) -> (r: &'static str)
        ensures
            r@ == "Execute a command with elevated privileges"@,
    {
        "Execute a command with elevated privileges"
    }

    fn execute(&self, ctx: &mut CommandContext) -> (r: Result<String, String>)
        ensures
            meets(outcome(CommandKind::Sudo, state_of(old(ctx))), r, final(ctx)),
    {
        execute(ctx)
    }

    fn synopsis(&self) -> (r: &'static str)
        ensures
            r@ == "sudo [-u user] command [args...]"@,
    {
        "sudo [-u user] command [args...]"
    }

    fn man_description(&self) -> (r: &'static str)
        ensures
            r@ == "Execute a command with elevated privileges (euid 0 by default). Checks /etc/sudoers \
         for NOPASSWD authorization. Only NOPASSWD entries are supported in v1."@,
    {
        "Execute a command with elevated privileges (euid 0 by default). Checks /etc/sudoers \
         for NOPASSWD authorization. Only NOPASSWD entries are supported in v1."
    }

    fn examples(&self) -> (r: &'static [&'static str])
        ensures
            strs_view(r@) == seq!["sudo whoami"@, "sudo -u alice id"@, "sudo cat /etc/shadow"@],
    {
        let r: &'static [&'static str] = &["sudo whoami", "sudo -u alice id", "sudo cat /etc/shadow"];
        assert(r@ == seq!["sudo whoami", "sudo -u alice id", "sudo cat /etc/shadow"]);
        r
    }
}

} // verus!
