//! The user and group database, read from `/etc/passwd`
//! (`name:password:uid:gid:gecos:home:shell`) and `/etc/group`
//! (`name:password:gid:member,member,...`) in the virtual file system.
use vstd::prelude::*;
use crate::text::{chars_of, string_of, chars_eq, eq_str, copy_chars, push_all, push_str, vv,
    split_char, split_on, str_lines, lines, join, join_chars};
use crate::numeric::{parse_u32, parse_bounded, push_u64, nat_str};
use crate::vfs::{Vfs, read_spec, rv};

verus! {

/// A line of `/etc/passwd`.
pub struct UserEntry {
    /// Login name.
    pub username: String,
    /// User id.
    pub uid: u32,
    /// Primary group id.
    pub gid: u32,
    /// Home directory.
    pub home_dir: String,
    /// Login shell.
    pub shell: String,
}

/// A line of `/etc/group`.
pub struct GroupEntry {
    /// Group name.
    pub groupname: String,
    /// Group id.
    pub gid: u32,
    /// Names of the supplementary members.
    pub members: Vec<Vec<char>>,
}

/// The users and groups known to the system, in file order.
pub struct UserDatabase {
    /// Users, in `/etc/passwd` order.
    pub users: Vec<UserEntry>,
    /// Groups, in `/etc/group` order.
    pub groups: Vec<GroupEntry>,
}

/// The content of a user entry: name, uid, gid, home, shell.
pub type UserView = (Seq<char>, u32, u32, Seq<char>, Seq<char>);

/// The content of a group entry: name, gid, members.
pub type GroupView = (Seq<char>, u32, Seq<Seq<char>>);

/// The content of a database: its users and its groups, in file order.
pub type DbView = (Seq<UserView>, Seq<GroupView>);

/// The user ids, in file order.
pub open spec fn user_ids(us: Seq<UserView>) -> Seq<u32> {
    us.map_values(|v: UserView| v.1)
}

/// The group ids, in file order.
pub open spec fn group_ids(gs: Seq<GroupView>) -> Seq<u32> {
    gs.map_values(|v: GroupView| v.1)
}

/// The database read from the file system of `vfs`.
pub open spec fn db_of(vfs: &Vfs) -> DbView {
    UserDatabase::parsed(
        contents_or_empty(read_spec(vfs@, vfs.key("/etc/passwd"@))),
        contents_or_empty(read_spec(vfs@, vfs.key("/etc/group"@))),
    )
}

/// The view of a user entry.
pub open spec fn user_view(u: UserEntry) -> UserView {
    (u.username@, u.uid, u.gid, u.home_dir@, u.shell@)
}

/// The view of a group entry.
pub open spec fn group_view(g: GroupEntry) -> GroupView {
    (g.groupname@, g.gid, vv(g.members@))
}

/// The user described by one line of `/etc/passwd`, when it is well formed
/// (at least seven fields, numeric uid and gid).
pub open spec fn parse_user_line(line: Seq<char>) -> Option<UserView> {
    let f = split_char(line, ':');
    if f.len() >= 7 && parse_bounded(f[2], u32::MAX as nat) is Some && parse_bounded(
        f[3],
        u32::MAX as nat,
    ) is Some {
        Some(
            (
                f[0],
                parse_bounded(f[2], u32::MAX as nat).unwrap() as u32,
                parse_bounded(f[3], u32::MAX as nat).unwrap() as u32,
                f[5],
                f[6],
            ),
        )
    } else {
        None
    }
}

/// The non-empty comma-separated names of a member list.
pub open spec fn member_list(s: Seq<char>) -> Seq<Seq<char>> {
    split_char(s, ',').filter(|m: Seq<char>| m.len() > 0)
}

/// The group described by one line of `/etc/group`, when it is well formed
/// (at least four fields, numeric gid).
pub open spec fn parse_group_line(line: Seq<char>) -> Option<GroupView> {
    let f = split_char(line, ':');
    if f.len() >= 4 && parse_bounded(f[2], u32::MAX as nat) is Some {
        Some((f[0], parse_bounded(f[2], u32::MAX as nat).unwrap() as u32, member_list(f[3])))
    } else {
        None
    }
}

/// The well-formed entries of a sequence of lines, in order.
pub open spec fn parse_users(ls: Seq<Seq<char>>) -> Seq<UserView>
    decreases ls.len(),
{
    if ls.len() == 0 {
        Seq::empty()
    } else {
        let r = parse_users(ls.drop_last());
        match parse_user_line(ls.last()) {
            Some(u) => r.push(u),
            None => r,
        }
    }
}

/// The well-formed group entries of a sequence of lines, in order.
pub open spec fn parse_groups(ls: Seq<Seq<char>>) -> Seq<GroupView>
    decreases ls.len(),
{
    if ls.len() == 0 {
        Seq::empty()
    } else {
        let r = parse_groups(ls.drop_last());
        match parse_group_line(ls.last()) {
            Some(g) => r.push(g),
            None => r,
        }
    }
}

/// The contents of a file, or nothing when it cannot be read.
pub open spec fn contents_or_empty(r: Result<Seq<char>, Seq<char>>) -> Seq<char> {
    match r {
        Ok(c) => c,
        Err(_) => Seq::empty(),
    }
}

/// Index of the first element satisfying `f`, if any.
pub open spec fn first_where<A>(s: Seq<A>, f: spec_fn(A) -> bool) -> Option<int> {
    if exists|i: int| 0 <= i < s.len() && f(s[i]) {
        Some(choose|i: int| 0 <= i < s.len() && f(s[i]) && forall|j: int| 0 <= j < i ==> !f(s[j]))
    } else {
        None
    }
}

/// `i` is the first index whose element satisfies `f`.
pub open spec fn is_first<A>(s: Seq<A>, f: spec_fn(A) -> bool, i: int) -> bool {
    0 <= i < s.len() && f(s[i]) && forall|j: int| 0 <= j < i ==> !f(s[j])
}

/// No element satisfies `f`.
pub open spec fn none_where<A>(s: Seq<A>, f: spec_fn(A) -> bool) -> bool {
    forall|i: int| 0 <= i < s.len() ==> !f(s[i])
}

fn copy_string(s: &String) -> (r: String)
    ensures
        r@ == s@,
{
    let c = chars_of(s.as_str());
    string_of(c.as_slice())
}

fn parse_user(line: &[char]) -> (r: Option<UserEntry>)
    ensures
        match r {
            Some(u) => parse_user_line(line@) == Some(user_view(u)),
            None => parse_user_line(line@) is None,
        },
{
    let f = split_on(line, ':');
    if f.len() < 7 {
        return None;
    }
    assert(vv(f@)[2] == f@[2]@ && vv(f@)[3] == f@[3]@ && vv(f@)[0] == f@[0]@);
    assert(vv(f@)[5] == f@[5]@ && vv(f@)[6] == f@[6]@);
    let uid = match parse_u32(f[2].as_slice()) {
        Some(v) => v,
        None => return None,
    };
    let gid = match parse_u32(f[3].as_slice()) {
        Some(v) => v,
        None => return None,
    };
    Some(UserEntry {
        username: string_of(f[0].as_slice()),
        uid,
        gid,
        home_dir: string_of(f[5].as_slice()),
        shell: string_of(f[6].as_slice()),
    })
}

fn members_of(s: &[char]) -> (r: Vec<Vec<char>>)
    ensures
        vv(r@) == member_list(s@),
{
    let parts = split_on(s, ',');
    let mut out: Vec<Vec<char>> = Vec::new();
    let mut i: usize = 0;
    let ghost pv = vv(parts@);
    let ghost f = |m: Seq<char>| m.len() > 0;
    while i < parts.len()
        invariant
            i <= parts@.len(),
            pv == vv(parts@),
            pv == split_char(s@, ','),
            f == (|m: Seq<char>| m.len() > 0),
            vv(out@) == pv.take(i as int).filter(f),
        decreases parts.len() - i,
    {
        let ghost before = out@;
        assert(pv.take(i + 1).drop_last() == pv.take(i as int));
        assert(pv.take(i + 1).last() == parts@[i as int]@);
        reveal_with_fuel(Seq::<Seq<char>>::filter, 1);
        if parts[i].len() > 0 {
            out.push(copy_chars(parts[i].as_slice()));
            assert(vv(out@) =~= vv(before).push(parts@[i as int]@));
        }
        i += 1;
    }
    assert(pv.take(parts@.len() as int) == pv);
    out
}

fn parse_group(line: &[char]) -> (r: Option<GroupEntry>)
    ensures
        match r {
            Some(g) => parse_group_line(line@) == Some(group_view(g)),
            None => parse_group_line(line@) is None,
        },
{
    let f = split_on(line, ':');
    if f.len() < 4 {
        return None;
    }
    assert(vv(f@)[2] == f@[2]@ && vv(f@)[3] == f@[3]@ && vv(f@)[0] == f@[0]@);
    let gid = match parse_u32(f[2].as_slice()) {
        Some(v) => v,
        None => return None,
    };
    Some(GroupEntry { groupname: string_of(f[0].as_slice()), gid, members: members_of(f[3].as_slice()) })
}

impl View for UserDatabase {
    type V = DbView;

    open spec fn view(&self) -> DbView {
        (self.users_view(), self.groups_view())
    }
}

impl UserDatabase {
    /// The users of the database.
    pub open spec fn users_view(&self) -> Seq<UserView> {
        self.users@.map_values(|u: UserEntry| user_view(u))
    }

    /// The groups of the database.
    pub open spec fn groups_view(&self) -> Seq<GroupView> {
        self.groups@.map_values(|g: GroupEntry| group_view(g))
    }

    /// The database described by the contents of `/etc/passwd` and
    /// `/etc/group`.
    pub open spec fn parsed(passwd: Seq<char>, group: Seq<char>) -> (Seq<UserView>, Seq<GroupView>) {
        (parse_users(lines(passwd)), parse_groups(lines(group)))
    }

    /// Read the database from `/etc/passwd` and `/etc/group` (a missing
    /// file contributes no entries; malformed lines are skipped).
    pub fn from_vfs(vfs: &Vfs) -> (r: UserDatabase)
        ensures
            r@ == db_of(vfs),
    {
        let passwd = match vfs.read_file("/etc/passwd") {
            Ok(c) => c,
            Err(_) => String::new(),
        };
        let group = match vfs.read_file("/etc/group") {
            Ok(c) => c,
            Err(_) => String::new(),
        };
        Self::from_contents(passwd.as_str(), group.as_str())
    }

    /// The database described by the given file contents.
    pub fn from_contents(passwd: &str, group: &str) -> (r: UserDatabase)
        ensures
            r@ == Self::parsed(passwd@, group@),
    {
        let pl = str_lines(passwd);
        let mut users: Vec<UserEntry> = Vec::new();
        let mut i: usize = 0;
        while i < pl.len()
            invariant
                i <= pl@.len(),
                users@.map_values(|u: UserEntry| user_view(u)) == parse_users(vv(pl@).take(i as int)),
            decreases pl.len() - i,
        {
            let ghost before = users@;
            assert(vv(pl@).take(i + 1).drop_last() == vv(pl@).take(i as int));
            assert(vv(pl@).take(i + 1).last() == pl@[i as int]@);
            match parse_user(pl[i].as_slice()) {
                Some(u) => {
                    users.push(u);
                    assert(users@.map_values(|u: UserEntry| user_view(u)) =~= before.map_values(
                        |u: UserEntry| user_view(u),
                    ).push(user_view(users@.last())));
                },
                None => {},
            }
            i += 1;
        }
        assert(vv(pl@).take(pl@.len() as int) == vv(pl@));
        let gl = str_lines(group);
        let mut groups: Vec<GroupEntry> = Vec::new();
        let mut j: usize = 0;
        while j < gl.len()
            invariant
                j <= gl@.len(),
                groups@.map_values(|g: GroupEntry| group_view(g)) == parse_groups(vv(gl@).take(j as int)),
            decreases gl.len() - j,
        {
            let ghost before = groups@;
            assert(vv(gl@).take(j + 1).drop_last() == vv(gl@).take(j as int));
            assert(vv(gl@).take(j + 1).last() == gl@[j as int]@);
            match parse_group(gl[j].as_slice()) {
                Some(g) => {
                    groups.push(g);
                    assert(groups@.map_values(|g: GroupEntry| group_view(g)) =~= before.map_values(
                        |g: GroupEntry| group_view(g),
                    ).push(group_view(groups@.last())));
                },
                None => {},
            }
            j += 1;
        }
        assert(vv(gl@).take(gl@.len() as int) == vv(gl@));
        UserDatabase { users, groups }
    }

    /// The first user called `name`.
    pub fn find_user_by_name(&self, name: &str) -> (r: Option<&UserEntry>)
        ensures
            match r {
                Some(u) => exists|i: int| is_first(self.users_view(), |v: UserView| v.0 == name@, i)
                    && user_view(*u) == self.users_view()[i],
                None => none_where(self.users_view(), |v: UserView| v.0 == name@),
            },
    {
        let n = chars_of(name);
        let mut i: usize = 0;
        while i < self.users.len()
            invariant
                i <= self.users@.len(),
                n@ == name@,
                forall|j: int| 0 <= j < i ==> self.users@[j].username@ != name@,
            decreases self.users.len() - i,
        {
            let un = chars_of(self.users[i].username.as_str());
            if chars_eq(un.as_slice(), n.as_slice()) {
                assert(is_first(self.users_view(), |v: UserView| v.0 == name@, i as int));
                return Some(&self.users[i]);
            }
            i += 1;
        }
        None
    }

    /// The first user with id `uid`.
    pub fn find_user_by_uid(&self, uid: u32) -> (r: Option<&UserEntry>)
        ensures
            match r {
                Some(u) => exists|i: int| is_first(self.users_view(), |v: UserView| v.1 == uid, i)
                    && user_view(*u) == self.users_view()[i],
                None => none_where(self.users_view(), |v: UserView| v.1 == uid),
            },
    {
        let mut i: usize = 0;
        while i < self.users.len()
            invariant
                i <= self.users@.len(),
                forall|j: int| 0 <= j < i ==> self.users@[j].uid != uid,
            decreases self.users.len() - i,
        {
            if self.users[i].uid == uid {
                assert(is_first(self.users_view(), |v: UserView| v.1 == uid, i as int));
                return Some(&self.users[i]);
            }
            i += 1;
        }
        None
    }

    /// The first group called `name`.
    pub fn find_group_by_name(&self, name: &str) -> (r: Option<&GroupEntry>)
        ensures
            match r {
                Some(g) => exists|i: int| is_first(self.groups_view(), |v: GroupView| v.0 == name@, i)
                    && group_view(*g) == self.groups_view()[i],
                None => none_where(self.groups_view(), |v: GroupView| v.0 == name@),
            },
    {
        let n = chars_of(name);
        let mut i: usize = 0;
        while i < self.groups.len()
            invariant
                i <= self.groups@.len(),
                n@ == name@,
                forall|j: int| 0 <= j < i ==> self.groups@[j].groupname@ != name@,
            decreases self.groups.len() - i,
        {
            let gn = chars_of(self.groups[i].groupname.as_str());
            if chars_eq(gn.as_slice(), n.as_slice()) {
                assert(is_first(self.groups_view(), |v: GroupView| v.0 == name@, i as int));
                return Some(&self.groups[i]);
            }
            i += 1;
        }
        None
    }

    /// The first group with id `gid`.
    pub fn find_group_by_gid(&self, gid: u32) -> (r: Option<&GroupEntry>)
        ensures
            match r {
                Some(g) => exists|i: int| is_first(self.groups_view(), |v: GroupView| v.1 == gid, i)
                    && group_view(*g) == self.groups_view()[i],
                None => none_where(self.groups_view(), |v: GroupView| v.1 == gid),
            },
    {
        let mut i: usize = 0;
        while i < self.groups.len()
            invariant
                i <= self.groups@.len(),
                forall|j: int| 0 <= j < i ==> self.groups@[j].gid != gid,
            decreases self.groups.len() - i,
        {
            if self.groups[i].gid == gid {
                assert(is_first(self.groups_view(), |v: GroupView| v.1 == gid, i as int));
                return Some(&self.groups[i]);
            }
            i += 1;
        }
        None
    }

    /// The id for a new user: one more than the largest uid of at least 1000
    /// (1000 when there is none; the largest `u32` when that overflows).
    pub fn next_uid(&self) -> (r: u32)
        ensures
            r == next_id(user_ids(self.users_view())),
    {
        let mut ids: Vec<u32> = Vec::new();
        let mut i: usize = 0;
        while i < self.users.len()
            invariant
                i <= self.users@.len(),
                ids@ == self.users_view().map_values(|v: UserView| v.1).take(i as int),
            decreases self.users.len() - i,
        {
            ids.push(self.users[i].uid);
            i += 1;
            assert(ids@ =~= self.users_view().map_values(|v: UserView| v.1).take(i as int));
        }
        assert(self.users_view().map_values(|v: UserView| v.1).take(self.users@.len() as int) =~= self.users_view().map_values(|v: UserView| v.1));
        next_id_of(ids.as_slice())
    }

    /// The id for a new group, chosen as for users.
    pub fn next_gid(&self) -> (r: u32)
        ensures
            r == next_id(group_ids(self.groups_view())),
    {
        let mut ids: Vec<u32> = Vec::new();
        let mut i: usize = 0;
        while i < self.groups.len()
            invariant
                i <= self.groups@.len(),
                ids@ == self.groups_view().map_values(|v: GroupView| v.1).take(i as int),
            decreases self.groups.len() - i,
        {
            ids.push(self.groups[i].gid);
            i += 1;
            assert(ids@ =~= self.groups_view().map_values(|v: GroupView| v.1).take(i as int));
        }
        assert(self.groups_view().map_values(|v: GroupView| v.1).take(self.groups@.len() as int) =~= self.groups_view().map_values(|v: GroupView| v.1));
        next_id_of(ids.as_slice())
    }

    /// The names of the groups `name` belongs to (its primary group and every
    /// group listing it as a member), in file order, separated by spaces;
    /// empty when there is no such user.
    pub fn format_groups(&self, name: &str) -> (r: String)
        ensures
            r@ == groups_text(self.users_view(), self.groups_view(), name@),
    {
        match self.find_user_by_name(name) {
            None => {
                proof {
                    assert(first_where(self.users_view(), |v: UserView| v.0 == name@) is None);
                }
                String::new()
            },
            Some(u) => {
                let gid = u.gid;
                proof {
                    lemma_first_where(self.users_view(), |v: UserView| v.0 == name@);
                }
                let names = self.member_groups(name, gid);
                let mut sep: Vec<char> = Vec::new();
                sep.push(' ');
                assert(sep@ =~= seq![' ']);
                let j = join_chars(&names, sep.as_slice());
                string_of(j.as_slice())
            },
        }
    }

    fn member_groups(&self, name: &str, gid: u32) -> (r: Vec<Vec<char>>)
        ensures
            vv(r@) == member_group_names(self.groups_view(), name@, gid),
    {
        let n = chars_of(name);
        let mut out: Vec<Vec<char>> = Vec::new();
        let mut i: usize = 0;
        while i < self.groups.len()
            invariant
                i <= self.groups@.len(),
                n@ == name@,
                vv(out@) == member_group_names(self.groups_view().take(i as int), name@, gid),
            decreases self.groups.len() - i,
        {
            let ghost gv = self.groups_view();
            assert(gv.take(i + 1).drop_last() == gv.take(i as int));
            assert(gv.take(i + 1).last() == group_view(self.groups@[i as int]));
            let g = &self.groups[i];
            let mut member = false;
            let mut k: usize = 0;
            while k < g.members.len()
                invariant
                    k <= g.members@.len(),
                    n@ == name@,
                    member == vv(g.members@).take(k as int).contains(name@),
                decreases g.members.len() - k,
            {
                assert(vv(g.members@).take(k + 1) =~= vv(g.members@).take(k as int).push(g.members@[k as int]@));
                proof {
                    lemma_contains_push(vv(g.members@).take(k as int), g.members@[k as int]@, name@);
                }
                if chars_eq(g.members[k].as_slice(), n.as_slice()) {
                    member = true;
                }
                k += 1;
            }
            assert(vv(g.members@).take(g.members@.len() as int) == vv(g.members@));
            if g.gid == gid || member {
                let ghost before = out@;
                let gn = chars_of(g.groupname.as_str());
                out.push(gn);
                assert(vv(out@) =~= vv(before).push(g.groupname@));
            }
            i += 1;
        }
        assert(self.groups_view().take(self.groups@.len() as int) =~= self.groups_view());
        out
    }

    /// `uid=U(name) gid=G(group) groups=G(group),...` for the user `name`
    /// (a group without an entry shows only its number); `None` when there
    /// is no such user.
    pub fn format_id(&self, name: &str) -> (r: Option<String>)
        ensures
            match id_text(self.users_view(), self.groups_view(), name@) {
                Some(t) => r is Some && r->Some_0@ == t,
                None => r is None,
            },
    {
        match self.find_user_by_name(name) {
            None => {
                proof {
                    assert(first_where(self.users_view(), |v: UserView| v.0 == name@) is None);
                }
                None
            },
            Some(u) => {
                proof {
                    lemma_first_where(self.users_view(), |v: UserView| v.0 == name@);
                }
                let mut out: Vec<char> = Vec::new();
                push_str(&mut out, "uid=");
                push_u64(&mut out, u.uid as u64);
                out.push('(');
                push_str(&mut out, u.username.as_str());
                push_str(&mut out, ") gid=");
                let pg = self.gid_label(u.gid);
                push_all(&mut out, pg.as_slice());
                push_str(&mut out, " groups=");
                let ids = self.member_group_labels(name, u.gid);
                let mut sep: Vec<char> = Vec::new();
                sep.push(',');
                assert(sep@ =~= seq![',']);
                let j = join_chars(&ids, sep.as_slice());
                push_all(&mut out, j.as_slice());
                Some(string_of(out.as_slice()))
            },
        }
    }

    fn gid_label(&self, gid: u32) -> (r: Vec<char>)
        ensures
            r@ == gid_label_spec(self.groups_view(), gid),
    {
        let mut out: Vec<char> = Vec::new();
        push_u64(&mut out, gid as u64);
        match self.find_group_by_gid(gid) {
            Some(g) => {
                proof {
                    lemma_first_where(self.groups_view(), |v: GroupView| v.1 == gid);
                }
                out.push('(');
                push_str(&mut out, g.groupname.as_str());
                out.push(')');
            },
            None => {
                proof {
                    assert(first_where(self.groups_view(), |v: GroupView| v.1 == gid) is None);
                }
            },
        }
        out
    }

    fn member_group_labels(&self, name: &str, gid: u32) -> (r: Vec<Vec<char>>)
        ensures
            vv(r@) == member_group_labels_spec(self.groups_view(), name@, gid),
    {
        let n = chars_of(name);
        let mut out: Vec<Vec<char>> = Vec::new();
        let mut i: usize = 0;
        while i < self.groups.len()
            invariant
                i <= self.groups@.len(),
                n@ == name@,
                vv(out@) == member_group_labels_spec(self.groups_view().take(i as int), name@, gid),
            decreases self.groups.len() - i,
        {
            let ghost gv = self.groups_view();
            assert(gv.take(i + 1).drop_last() == gv.take(i as int));
            assert(gv.take(i + 1).last() == group_view(self.groups@[i as int]));
            let g = &self.groups[i];
            let mut member = false;
            let mut k: usize = 0;
            while k < g.members.len()
                invariant
                    k <= g.members@.len(),
                    n@ == name@,
                    member == vv(g.members@).take(k as int).contains(name@),
                decreases g.members.len() - k,
            {
                assert(vv(g.members@).take(k + 1) =~= vv(g.members@).take(k as int).push(g.members@[k as int]@));
                proof {
                    lemma_contains_push(vv(g.members@).take(k as int), g.members@[k as int]@, name@);
                }
                if chars_eq(g.members[k].as_slice(), n.as_slice()) {
                    member = true;
                }
                k += 1;
            }
            assert(vv(g.members@).take(g.members@.len() as int) == vv(g.members@));
            if g.gid == gid || member {
                let ghost before = out@;
                let mut label: Vec<char> = Vec::new();
                push_u64(&mut label, g.gid as u64);
                label.push('(');
                push_str(&mut label, g.groupname.as_str());
                label.push(')');
                assert(label@ =~= nat_str(g.gid as nat) + seq!['('] + g.groupname@ + seq![')']);
                out.push(label);
                assert(vv(out@) =~= vv(before).push(nat_str(g.gid as nat) + seq!['('] + g.groupname@ + seq![')']));
            }
            i += 1;
        }
        assert(self.groups_view().take(self.groups@.len() as int) =~= self.groups_view());
        out
    }
}

/// The first user called `name`.
pub open spec fn user_named(us: Seq<UserView>, name: Seq<char>) -> Option<UserView> {
    match first_where(us, |v: UserView| v.0 == name) {
        Some(i) => Some(us[i]),
        None => None,
    }
}

/// The first user with id `uid`.
pub open spec fn user_with_uid(us: Seq<UserView>, uid: u32) -> Option<UserView> {
    match first_where(us, |v: UserView| v.1 == uid) {
        Some(i) => Some(us[i]),
        None => None,
    }
}

/// The first group called `name`.
pub open spec fn group_named(gs: Seq<GroupView>, name: Seq<char>) -> Option<GroupView> {
    match first_where(gs, |v: GroupView| v.0 == name) {
        Some(i) => Some(gs[i]),
        None => None,
    }
}

/// The first group with id `gid`.
pub open spec fn group_with_gid(gs: Seq<GroupView>, gid: u32) -> Option<GroupView> {
    match first_where(gs, |v: GroupView| v.1 == gid) {
        Some(i) => Some(gs[i]),
        None => None,
    }
}

impl UserDatabase {
    /// The id of the first user called `name`.
    pub fn uid_of_name(&self, name: &str) -> (r: Option<u32>)
        ensures
            r == (match user_named(self.users_view(), name@) {
                Some(u) => Some(u.1),
                None => None::<u32>,
            }),
    {
        proof {
            lemma_first_where(self.users_view(), |v: UserView| v.0 == name@);
        }
        match self.find_user_by_name(name) {
            Some(u) => Some(u.uid),
            None => None,
        }
    }

    /// The first user called `name`, by reference.
    pub fn entry_of_name(&self, name: &str) -> (r: Option<&UserEntry>)
        ensures
            match r {
                Some(u) => user_named(self.users_view(), name@) == Some(user_view(*u)),
                None => user_named(self.users_view(), name@) is None,
            },
    {
        proof {
            lemma_first_where(self.users_view(), |v: UserView| v.0 == name@);
        }
        self.find_user_by_name(name)
    }

    /// The id of the first group called `name`.
    pub fn gid_of_name(&self, name: &str) -> (r: Option<u32>)
        ensures
            r == (match group_named(self.groups_view(), name@) {
                Some(g) => Some(g.1),
                None => None::<u32>,
            }),
    {
        proof {
            lemma_first_where(self.groups_view(), |v: GroupView| v.0 == name@);
        }
        match self.find_group_by_name(name) {
            Some(g) => Some(g.gid),
            None => None,
        }
    }

    /// The name of the first user with id `uid`.
    pub fn name_of_uid(&self, uid: u32) -> (r: Option<String>)
        ensures
            match user_with_uid(self.users_view(), uid) {
                Some(u) => r is Some && r->Some_0@ == u.0,
                None => r is None,
            },
    {
        proof {
            lemma_first_where(self.users_view(), |v: UserView| v.1 == uid);
        }
        match self.find_user_by_uid(uid) {
            Some(u) => Some(copy_string(&u.username)),
            None => None,
        }
    }

    /// The name of the first group with id `gid`.
    pub fn name_of_gid(&self, gid: u32) -> (r: Option<String>)
        ensures
            match group_with_gid(self.groups_view(), gid) {
                Some(g) => r is Some && r->Some_0@ == g.0,
                None => r is None,
            },
    {
        proof {
            lemma_first_where(self.groups_view(), |v: GroupView| v.1 == gid);
        }
        match self.find_group_by_gid(gid) {
            Some(g) => Some(copy_string(&g.groupname)),
            None => None,
        }
    }
}

pub proof fn lemma_contains_push<A>(s: Seq<A>, x: A, n: A)
    ensures
        s.push(x).contains(n) <==> (s.contains(n) || x == n),
{
    if s.push(x).contains(n) && x != n {
        let i = choose|i: int| 0 <= i < s.push(x).len() && s.push(x)[i] == n;
        assert(s[i] == n);
    }
    if s.contains(n) {
        let i = choose|i: int| 0 <= i < s.len() && s[i] == n;
        assert(s.push(x)[i] == n);
    }
    if x == n {
        assert(s.push(x)[s.len() as int] == n);
    }
}

proof fn lemma_first_where<A>(s: Seq<A>, f: spec_fn(A) -> bool)
    ensures
        match first_where(s, f) {
            Some(i) => is_first(s, f, i),
            None => none_where(s, f),
        },
        forall|i: int| is_first(s, f, i) ==> first_where(s, f) == Some(i),
{
    if exists|i: int| 0 <= i < s.len() && f(s[i]) {
        let w = choose|i: int| 0 <= i < s.len() && f(s[i]);
        lemma_exists_first(s, f, w);
        let c = choose|i: int| 0 <= i < s.len() && f(s[i]) && forall|j: int| 0 <= j < i ==> !f(s[j]);
        assert forall|i: int| is_first(s, f, i) implies first_where(s, f) == Some(i) by {
            if i < c {
            } else if c < i {
            }
        }
    }
}

proof fn lemma_exists_first<A>(s: Seq<A>, f: spec_fn(A) -> bool, w: int)
    requires
        0 <= w < s.len(),
        f(s[w]),
    ensures
        exists|i: int| 0 <= i < s.len() && f(s[i]) && forall|j: int| 0 <= j < i ==> !f(s[j]),
    decreases w,
{
    if exists|j: int| 0 <= j < w && f(s[j]) {
        let j = choose|j: int| 0 <= j < w && f(s[j]);
        lemma_exists_first(s, f, j);
    } else {
        assert(forall|j: int| 0 <= j < w ==> !f(s[j]));
    }
}

/// The largest of the ids that are at least 1000, plus one; 1000 when there
/// is none, and `u32::MAX` when the largest is `u32::MAX`.
pub open spec fn next_id(ids: Seq<u32>) -> u32
    decreases ids.len(),
{
    if ids.len() == 0 {
        1000
    } else {
        let r = next_id(ids.drop_last());
        let x = ids.last();
        if x >= 1000 && x >= r {
            if x == u32::MAX {
                u32::MAX
            } else {
                (x + 1) as u32
            }
        } else {
            r
        }
    }
}

fn next_id_of(ids: &[u32]) -> (r: u32)
    ensures
        r == next_id(ids@),
{
    let mut r: u32 = 1000;
    let mut i: usize = 0;
    while i < ids.len()
        invariant
            i <= ids@.len(),
            r == next_id(ids@.take(i as int)),
        decreases ids.len() - i,
    {
        assert(ids@.take(i + 1).drop_last() == ids@.take(i as int));
        let x = ids[i];
        if x >= 1000 && x >= r {
            r = if x == u32::MAX {
                u32::MAX
            } else {
                x + 1
            };
        }
        i += 1;
    }
    assert(ids@.take(ids@.len() as int) == ids@);
    r
}

/// The names of the groups with id `gid` or listing `name` as a member.
pub open spec fn member_group_names(gs: Seq<GroupView>, name: Seq<char>, gid: u32) -> Seq<Seq<char>>
    decreases gs.len(),
{
    if gs.len() == 0 {
        Seq::empty()
    } else {
        let r = member_group_names(gs.drop_last(), name, gid);
        let g = gs.last();
        if g.1 == gid || g.2.contains(name) {
            r.push(g.0)
        } else {
            r
        }
    }
}

/// `gid(name)` labels of the groups with id `gid` or listing `name`.
pub open spec fn member_group_labels_spec(gs: Seq<GroupView>, name: Seq<char>, gid: u32) -> Seq<Seq<char>>
    decreases gs.len(),
{
    if gs.len() == 0 {
        Seq::empty()
    } else {
        let r = member_group_labels_spec(gs.drop_last(), name, gid);
        let g = gs.last();
        if g.1 == gid || g.2.contains(name) {
            r.push(nat_str(g.1 as nat) + seq!['('] + g.0 + seq![')'])
        } else {
            r
        }
    }
}

/// The text of `groups NAME`.
pub open spec fn groups_text(us: Seq<UserView>, gs: Seq<GroupView>, name: Seq<char>) -> Seq<char> {
    match first_where(us, |v: UserView| v.0 == name) {
        Some(i) => join(member_group_names(gs, name, us[i].2), seq![' ']),
        None => Seq::empty(),
    }
}

/// A group id followed by the group's name in parentheses when it has one.
pub open spec fn gid_label_spec(gs: Seq<GroupView>, gid: u32) -> Seq<char> {
    match first_where(gs, |v: GroupView| v.1 == gid) {
        Some(i) => nat_str(gid as nat) + seq!['('] + gs[i].0 + seq![')'],
        None => nat_str(gid as nat),
    }
}

/// The text of `id NAME`.
pub open spec fn id_text(us: Seq<UserView>, gs: Seq<GroupView>, name: Seq<char>) -> Option<Seq<char>> {
    match first_where(us, |v: UserView| v.0 == name) {
        Some(i) => Some(
            "uid="@ + nat_str(us[i].1 as nat) + seq!['('] + us[i].0 + ") gid="@ + gid_label_spec(gs, us[i].2)
                + " groups="@ + join(member_group_labels_spec(gs, name, us[i].2), seq![',']),
        ),
        None => None,
    }
}

} // verus!
