//! `su [-] [user]` -- become another user (`root` by default; no password
//! is asked). With `-` the session also takes the user's home directory,
//! shell and working directory, as a login would.
use vstd::prelude::*;
use crate::text::{strs_view, chars_of, string_of, push_str, to_owned_string, str_eq};
use crate::users::{UserDatabase, UserView, DbView, db_of, user_named, user_view};
use crate::shell::{Shell, Session};

verus! {

/// The user `su` switches to: the first operand other than `-`, or `root`.
pub open spec fn su_target(args: Seq<Seq<char>>) -> Seq<char>
    decreases args.len(),
{
    if args.len() == 0 {
        "root"@
    } else if args[0] != seq!['-'] {
        args[0]
    } else {
        su_target(args.drop_first())
    }
}

/// The session after switching to the user `u`, as a login when `login`.
pub open spec fn switched(s: Session, u: UserView, login: bool) -> Session {
    let env1 = s.env.insert("USER"@, u.0);
    if login {
        Session {
            username: u.0,
            uid: u.1,
            gid: u.2,
            env: env1.insert("HOME"@, u.3).insert("SHELL"@, u.4).insert("PWD"@, u.3),
            cwd: u.3,
            ..s
        }
    } else {
        Session { username: u.0, uid: u.1, gid: u.2, env: env1, ..s }
    }
}

/// The result of `su` and the session after it, with the user database
/// `db`.
pub open spec fn su_spec(s: Session, db: DbView, args: Seq<Seq<char>>) -> (Result<Seq<char>, Seq<char>>, Session) {
    let t = su_target(args);
    match user_named(db.0, t) {
        None => (Err("su: user '"@ + t + "' does not exist"@), s),
        Some(u) => (Ok(Seq::empty()), switched(s, u, args.contains(seq!['-']))),
    }
}

/// Execute `su` on the shell `state`.
pub fn execute(state: &mut Shell, args: &[&str]) -> (r: Result<String, String>)
    ensures
        (crate::vfs::rv(r), final(state)@) == su_spec(old(state)@, db_of(&old(state).vfs), strs_view(args@)),
{
    let ghost av = strs_view(args@);
    let mut login = false;
    let mut target: Option<&str> = None;
    let mut i: usize = 0;
    assert(av.skip(0) =~= av);
    assert(av.take(0) =~= Seq::<Seq<char>>::empty());
    while i < args.len()
        invariant
            i <= args@.len(),
            av == strs_view(args@),
            login == av.take(i as int).contains(seq!['-']),
            target is Some ==> target->Some_0@ == su_target(av),
            target is None ==> su_target(av) == su_target(av.skip(i as int)),
        decreases args.len() - i,
    {
        let a = args[i];
        assert(av[i as int] == a@);

        proof {
            reveal_strlit("-");
            assert("-"@ =~= seq!['-']);
        }
        let is_dash = str_eq(a, "-");
        assert(av.take(i + 1) =~= av.take(i as int).push(a@));
        proof {
            crate::users::lemma_contains_push(av.take(i as int), a@, seq!['-']);
        }
        if is_dash {
            login = true;
        } else if target.is_none() {
            proof {
                assert(av.skip(i as int)[0] == a@);
                assert(a@ != seq!['-']);
                assert(su_target(av.skip(i as int)) == a@);
            }
            target = Some(a);
        }
        proof {
            if target is None {
                assert(av.skip(i as int)[0] == a@);
                assert(av.skip(i as int).drop_first() =~= av.skip(i + 1));
            }
        }
        i += 1;
    }
    let t: &str = match target {
        Some(t) => t,
        None => {
            proof {
                reveal_strlit("root");
                assert(av.skip(i as int) =~= Seq::<Seq<char>>::empty());
            }
            "root"
        },
    };
    assert(av.take(args@.len() as int) =~= av);
    let db = UserDatabase::from_vfs(&state.vfs);
    let entry = match db.entry_of_name(t) {
        Some(u) => u,
        None => {
            let mut m: Vec<char> = Vec::new();
            push_str(&mut m, "su: user '");
            push_str(&mut m, t);
            push_str(&mut m, "' does not exist");
            assert(m@ =~= "su: user '"@ + t@ + "' does not exist"@);
            return Err(string_of(m.as_slice()));
        },
    };
    let name = chars_of(entry.username.as_str());
    let home = chars_of(entry.home_dir.as_str());
    let shell = chars_of(entry.shell.as_str());
    state.username = string_of(name.as_slice());
    state.uid = entry.uid;
    state.gid = entry.gid;
    state.env_vars.insert_chars(chars_of("USER").as_slice(), name.as_slice());
    if login {
        state.env_vars.insert_chars(chars_of("HOME").as_slice(), home.as_slice());
        state.env_vars.insert_chars(chars_of("SHELL").as_slice(), shell.as_slice());
        state.vfs.set_cwd(string_of(home.as_slice()));
        state.env_vars.insert_chars(chars_of("PWD").as_slice(), home.as_slice());
    }
    Ok(String::new())
}

/// The `su` command.
pub struct SuCommand;

} // verus!
