//! `chown OWNER[:GROUP] file...` -- change ownership (root only).
//!
//! OWNER and GROUP are names from the user database or numeric ids; an
//! empty GROUP after the colon keeps each file's group. A missing file
//! gets a message line and the others are still processed.
use vstd::prelude::*;
use crate::text::{strs_view, chars_of, string_of, to_owned_string, push_str, push_all, find_char,
    is_first_char, has_char, slice_chars};
use crate::numeric::{parse_bounded, parse_u32};
use crate::path::resolve;
use crate::users::{UserDatabase, DbView, user_ids, group_ids, user_named, group_named};
use crate::vfs::{Vfs, FsView, Meta, rv};
use crate::command::kinds::outcome;
use crate::command::{Command, CommandContext, CommandKind, state_of, meets, lemma_vfs_of};

verus! {

/// The owner part and the optional group part of `OWNER[:GROUP]`, split at
/// the first colon.
pub open spec fn owner_parts(s: Seq<char>) -> (Seq<char>, Option<Seq<char>>) {
    if has_char(s, ':') {
        let i = choose|i: int| is_first_char(s, ':', i);
        (s.take(i), Some(s.skip(i + 1)))
    } else {
        (s, None)
    }
}

/// The uid an owner name stands for.
pub open spec fn owner_uid(db: DbView, o: Seq<char>) -> Result<u32, Seq<char>> {
    match user_named(db.0, o) {
        Some(u) => Ok(u.1),
        None => match parse_bounded(o, u32::MAX as nat) {
            Some(n) => Ok(n as u32),
            None => Err("chown: invalid user: '"@ + o + "'"@),
        },
    }
}

/// The gid a group part stands for (`None`: keep the group).
pub open spec fn group_gid(db: DbView, g: Option<Seq<char>>) -> Result<Option<u32>, Seq<char>> {
    match g {
        None => Ok(None),
        Some(g) => if g.len() == 0 {
            Ok(None)
        } else {
            match group_named(db.1, g) {
                Some(e) => Ok(Some(e.1)),
                None => match parse_bounded(g, u32::MAX as nat) {
                    Some(n) => Ok(Some(n as u32)),
                    None => Err("chown: invalid group: '"@ + g + "'"@),
                },
            }
        },
    }
}

/// The new owner and group, or the error.
pub open spec fn chown_ids(db: DbView, spec: Seq<char>) -> Result<(u32, Option<u32>), Seq<char>> {
    let (o, g) = owner_parts(spec);
    if o.len() == 0 {
        Err("chown: invalid user"@)
    } else {
        match owner_uid(db, o) {
            Err(e) => Err(e),
            Ok(uid) => match group_gid(db, g) {
                Err(e) => Err(e),
                Ok(gid) => Ok((uid, gid)),
            },
        }
    }
}

/// The file system and the messages after changing ownership of `paths`.
pub open spec fn chown_run(fs: FsView, cwd: Seq<char>, paths: Seq<Seq<char>>, uid: u32, gid: Option<u32>) -> (FsView, Seq<char>)
    decreases paths.len(),
{
    if paths.len() == 0 {
        (fs, Seq::empty())
    } else {
        let (f, out) = chown_run(fs, cwd, paths.drop_last(), uid, gid);
        let p = paths.last();
        let k = resolve(cwd, p);
        if !f.dom().contains(k) {
            (f, out + "chown: cannot access '"@ + p + "': No such file or directory\n"@)
        } else {
            let m = f[k].2;
            let g = match gid {
                Some(x) => x,
                None => m.gid,
            };
            (f.insert(k, (f[k].0, f[k].1, Meta { uid, gid: g, ..m })), out)
        }
    }
}

/// The result of `chown`: the file system after it and its output.
pub open spec fn chown_spec(fs: FsView, cwd: Seq<char>, args: Seq<Seq<char>>, euid: u32, db: DbView) -> (FsView, Result<Seq<char>, Seq<char>>) {
    if args.len() < 2 {
        (fs, Err("chown: missing operand"@))
    } else if euid != 0 {
        (fs, Err("chown: Operation not permitted"@))
    } else {
        match chown_ids(db, args[0]) {
            Err(e) => (fs, Err(e)),
            Ok((uid, gid)) => {
                let run = chown_run(fs, cwd, args.skip(1), uid, gid);
                (run.0, Ok(run.1))
            },
        }
    }
}

fn quoted_error(prefix: &str, s: &[char]) -> (r: String)
    ensures
        r@ == prefix@ + s@ + "'"@,
{
    let mut m: Vec<char> = Vec::new();
    push_str(&mut m, prefix);
    push_all(&mut m, s);
    push_str(&mut m, "'");
    string_of(m.as_slice())
}

fn lookup_owner(db: &UserDatabase, o: &[char]) -> (r: Result<u32, String>)
    ensures
        match owner_uid(db@, o@) {
            Ok(u) => r == Ok::<u32, String>(u),
            Err(e) => r is Err && r->Err_0@ == e,
        },
{
    let os = string_of(o);
    match db.uid_of_name(os.as_str()) {
        Some(u) => Ok(u),
        None => match parse_u32(o) {
            Some(u) => Ok(u),
            None => Err(quoted_error("chown: invalid user: '", o)),
        },
    }
}

fn lookup_group(db: &UserDatabase, g: &Option<Vec<char>>) -> (r: Result<Option<u32>, String>)
    ensures
        match group_gid(db@, match g { Some(v) => Some(v@), None => None }) {
            Ok(x) => r == Ok::<Option<u32>, String>(x),
            Err(e) => r is Err && r->Err_0@ == e,
        },
{
    match g {
        None => Ok(None),
        Some(gc) => {
            if gc.len() == 0 {
                Ok(None)
            } else {
                let gs = string_of(gc.as_slice());
                match db.gid_of_name(gs.as_str()) {
                    Some(x) => Ok(Some(x)),
                    None => match parse_u32(gc.as_slice()) {
                        Some(x) => Ok(Some(x)),
                        None => Err(quoted_error("chown: invalid group: '", gc.as_slice())),
                    },
                }
            }
        },
    }
}

fn split_owner(spec: &str) -> (r: (Vec<char>, Option<Vec<char>>))
    ensures
        r.0@ == owner_parts(spec@).0,
        (match r.1 { Some(v) => Some(v@), None => None }) == owner_parts(spec@).1,
{
    let sc = chars_of(spec);
    match find_char(sc.as_slice(), ':') {
        Some(i) => {
            assert(is_first_char(sc@, ':', i as int));
            assert(i < sc@.len());
            proof {
                let j = choose|j: int| is_first_char(sc@, ':', j);
                if j < i {
                } else if i < j {
                }
                assert(j == i);
            }
            let n = sc.len();
            assert(i < n);
            let after: usize = i + 1;
            (slice_chars(sc.as_slice(), 0, i), Some(slice_chars(sc.as_slice(), after, n)))
        },
        None => (sc, None),
    }
}

fn parse_ids(db: &UserDatabase, spec: &str) -> (r: Result<(u32, Option<u32>), String>)
    ensures
        match chown_ids(db@, spec@) {
            Ok(ids) => r == Ok::<(u32, Option<u32>), String>(ids),
            Err(e) => r is Err && r->Err_0@ == e,
        },
{
    let (o, g) = split_owner(spec);
    if o.len() == 0 {
        return Err(to_owned_string("chown: invalid user"));
    }
    let uid = lookup_owner(db, o.as_slice())?;
    let gid = lookup_group(db, &g)?;
    Ok((uid, gid))
}

/// Execute `chown` with effective user `euid` and the user database `db`.
pub fn execute(vfs: &mut Vfs, args: &[&str], euid: u32, db: &UserDatabase) -> (r: Result<String, String>)
    ensures
        final(vfs).cwd == old(vfs).cwd,
        final(vfs)@ == chown_spec(old(vfs)@, old(vfs).cwd@, strs_view(args@), euid, db@).0,
        rv(r) == chown_spec(old(vfs)@, old(vfs).cwd@, strs_view(args@), euid, db@).1,
{
    if args.len() < 2 {
        return Err(to_owned_string("chown: missing operand"));
    }
    if euid != 0 {
        return Err(to_owned_string("chown: Operation not permitted"));
    }
    let ghost av = strs_view(args@);
    let ghost files = av.skip(1);
    assert(av[0] == args@[0]@);
    let (uid, gid) = parse_ids(db, args[0])?;
    let ghost fs0 = vfs@;
    let ghost cwd = vfs.cwd@;
    let mut out: Vec<char> = Vec::new();
    let mut k: usize = 1;
    assert(files.take(0) =~= Seq::<Seq<char>>::empty());
    while k < args.len()
        invariant
            1 <= k <= args@.len(),
            av == strs_view(args@),
            files == av.skip(1),
            vfs.cwd == old(vfs).cwd,
            fs0 == old(vfs)@,
            cwd == old(vfs).cwd@,
            vfs.cwd@ == cwd,
            chown_run(fs0, cwd, files.take(k - 1), uid, gid) == (vfs@, out@),
        decreases args.len() - k,
    {
        assert(files.take(k as int).drop_last() == files.take(k - 1));
        assert(files.take(k as int).last() == args@[k as int]@);
        let p = args[k];
        match vfs.get_meta(p) {
            None => {
                push_str(&mut out, "chown: cannot access '");
                push_str(&mut out, p);
                push_str(&mut out, "': No such file or directory\n");
            },
            Some(meta) => {
                let g = match gid {
                    Some(x) => x,
                    None => meta.gid,
                };
                let ok = vfs.set_meta(p, Meta { uid, gid: g, ..meta });
            },
        }
        k += 1;
        assert(out@ =~= chown_run(fs0, cwd, files.take(k - 1), uid, gid).1);
    }
    assert(files.take(args@.len() - 1) == files);
    Ok(string_of(out.as_slice()))
}

/// The `chown` command.
pub struct ChownCommand;

impl Command for ChownCommand {
    fn name(&self) -> (r: &'static str)
        ensures
            r@ == "chown"@,
    {
        "chown"
    }

    fn description(&self) -> (r: &'static str)
        ensures
            r@ == "Change file ownership (owner[:group])"@,
    {
        "Change file ownership (owner[:group])"
    }

    fn accepts_stdin(&self) -> (r: bool)
        ensures
            !r,
    {
        false
    }

    fn execute(&self, ctx: &mut CommandContext) -> (r: Result<String, String>)
        ensures
            meets(outcome(CommandKind::Chown, state_of(old(ctx))), r, final(ctx)),
    {
        proof {
            lemma_vfs_of(ctx);
        }
        let db = UserDatabase::from_vfs(ctx.vfs);
        execute(ctx.vfs, ctx.args, ctx.uid, &db)
    }

    fn synopsis(&self) -> (r: &'static str)
        ensures
            r@ == "chown owner[:group] file [file2 ...]"@,
    {
        "chown owner[:group] file [file2 ...]"
    }

    fn man_description(&self) -> (r: &'static str)
        ensures
            r@ == "Change file ownership. Only root can change ownership. The owner can be a username or \
         numeric UID, optionally followed by :group or :GID."@,
    {
        "Change file ownership. Only root can change ownership. The owner can be a username or \
         numeric UID, optionally followed by :group or :GID."
    }

    fn examples(&self) -> (r: &'static [&'static str])
        ensures
            strs_view(r@) == seq!["chown alice file.txt"@, "chown root:root /etc/config"@],
    {
        let r: &'static [&'static str] = &["chown alice file.txt", "chown root:root /etc/config"];
        assert(r@ == seq!["chown alice file.txt", "chown root:root /etc/config"]);
        r
    }
}

} // verus!
