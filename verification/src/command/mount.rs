//! `mount [-u] [path]` -- the table of host directories mounted into the
//! file system.
//!
//! With no argument `mount` lists the table. With a path it creates the
//! mount point (and any missing directories on the way, as `mkdir -p`
//! does), enters it in the table with no host directory yet, and answers
//! with the action `mount_request:<path>`, on which the host asks the user
//! for the directory to mount. `mount -u path` (or `--unmount`) removes a
//! mount point from the table.
use vstd::prelude::*;
use crate::text::{strs_view, chars_of, string_of, push_str, to_owned_string, str_eq};
use crate::path::{resolve, resolved_stack};
use crate::vfs::{Vfs, FsView};
use crate::command::mkdir::{mkdirp_from, make_parents};

verus! {

/// A mount: the mount point and the host directory mounted there.
pub type MountView = (Seq<char>, Seq<char>);

/// The mounts of `m` other than the one at `k`, in order.
pub open spec fn without(m: Seq<MountView>, k: Seq<char>) -> Seq<MountView>
    decreases m.len(),
{
    if m.len() == 0 {
        m
    } else if m.last().0 == k {
        without(m.drop_last(), k)
    } else {
        without(m.drop_last(), k).push(m.last())
    }
}

/// Some mount of `m` is at `k`.
pub open spec fn mounted(m: Seq<MountView>, k: Seq<char>) -> bool {
    exists|i: int| 0 <= i < m.len() && (#[trigger] m[i]).0 == k
}

/// The listing lines of `m`: `  point -> host` for each mount, in order.
pub open spec fn mount_lines(m: Seq<MountView>) -> Seq<char>
    decreases m.len(),
{
    if m.len() == 0 {
        Seq::empty()
    } else {
        mount_lines(m.drop_last()) + "  "@ + m.last().0 + " -> "@ + m.last().1 + seq!['\n']
    }
}

/// What `mount` lists for the table `m`.
pub open spec fn mount_listing(m: Seq<MountView>) -> Seq<char> {
    if m.len() == 0 {
        "No directories mounted.\nUsage: mount <path>\n       mount -u <path>\n"@
    } else {
        "Mounted directories:\n"@ + mount_lines(m)
    }
}

/// What `mount` does with the arguments `args`, in a file system with the
/// nodes `fs` and the working directory `cwd`, and the mount table `m`: its
/// result (the printed text and the action for the host) and the nodes and
/// the table after it.
pub open spec fn mount_spec(fs: FsView, cwd: Seq<char>, m: Seq<MountView>, args: Seq<Seq<char>>) -> (
    Result<(Seq<char>, Option<Seq<char>>), Seq<char>>,
    FsView,
    Seq<MountView>,
) {
    if args.len() == 0 {
        (Ok((mount_listing(m), None)), fs, m)
    } else if args[0] == "-u"@ || args[0] == "--unmount"@ {
        if args.len() < 2 {
            (Err("mount: missing path for -u"@), fs, m)
        } else {
            let k = resolve(cwd, args[1]);
            if mounted(m, k) {
                (Ok(("Unmounted "@ + k + seq!['\n'], None)), fs, without(m, k))
            } else {
                (Err("mount: "@ + k + " is not mounted"@), fs, m)
            }
        }
    } else {
        let k = resolve(cwd, args[0]);
        let made = if fs.dom().contains(k) {
            (fs, None)
        } else {
            mkdirp_from(fs, resolved_stack(cwd, args[0]), 0, 0, 0)
        };
        match made.1 {
            Some(e) => (Err("mount: "@ + e), made.0, m),
            None => (Ok((Seq::empty(), Some("mount_request:"@ + k))), made.0, without(m, k).push((k, Seq::empty()))),
        }
    }
}

/// The table of mounts.
pub struct Mounts {
    entries: Vec<(String, String)>,
}

/// The view of a list of mounts.
pub open spec fn mounts_view(v: Seq<(String, String)>) -> Seq<MountView> {
    v.map_values(|e: (String, String)| (e.0@, e.1@))
}

impl View for Mounts {
    type V = Seq<MountView>;

    closed spec fn view(&self) -> Seq<MountView> {
        mounts_view(self.entries@)
    }
}

impl Mounts {
    /// No mounts.
    pub fn new() -> (r: Mounts)
        ensures
            r@.len() == 0,
    {
        Mounts { entries: Vec::new() }
    }

    /// The mounts, in order: mount point and host directory.
    pub fn list(&self) -> (r: Vec<(String, String)>)
        ensures
            mounts_view(r@) == self@,
    {
        let mut r: Vec<(String, String)> = Vec::new();
        let mut i: usize = 0;
        while i < self.entries.len()
            invariant
                i <= self.entries@.len(),
                mounts_view(r@) == mounts_view(self.entries@).take(i as int),
            decreases self.entries.len() - i,
        {
            let ghost before = mounts_view(r@);
            r.push((to_owned_string(self.entries[i].0.as_str()), to_owned_string(self.entries[i].1.as_str())));
            assert(mounts_view(r@) =~= before.push(mounts_view(self.entries@)[i as int]));
            assert(mounts_view(self.entries@).take(i + 1) =~= mounts_view(self.entries@).take(i as int).push(
                mounts_view(self.entries@)[i as int],
            ));
            i += 1;
        }
        assert(mounts_view(self.entries@).take(i as int) =~= mounts_view(self.entries@));
        r
    }

    /// Whether a mount is at `k`.
    pub fn is_mounted(&self, k: &str) -> (r: bool)
        ensures
            r == mounted(self@, k@),
    {
        let ghost m = self@;
        let mut i: usize = 0;
        while i < self.entries.len()
            invariant
                i <= self.entries@.len(),
                m == mounts_view(self.entries@),
                forall|j: int| 0 <= j < i ==> (#[trigger] m[j]).0 != k@,
            decreases self.entries.len() - i,
        {
            assert(m[i as int].0 == self.entries@[i as int].0@);
            if str_eq(self.entries[i].0.as_str(), k) {
                return true;
            }
            i += 1;
        }
        false
    }

    /// Take out the mount at `k`, if any.
    pub fn remove(&mut self, k: &str)
        ensures
            final(self)@ == without(old(self)@, k@),
    {
        let ghost m = self@;
        let mut kept: Vec<(String, String)> = Vec::new();
        let mut i: usize = 0;
        while i < self.entries.len()
            invariant
                i <= self.entries@.len(),
                m == mounts_view(self.entries@),
                mounts_view(kept@) == without(m.take(i as int), k@),
            decreases self.entries.len() - i,
        {
            assert(m.take(i + 1).drop_last() =~= m.take(i as int));
            assert(m.take(i + 1).last() == (self.entries@[i as int].0@, self.entries@[i as int].1@));
            if !str_eq(self.entries[i].0.as_str(), k) {
                let ghost before = mounts_view(kept@);
                kept.push((to_owned_string(self.entries[i].0.as_str()), to_owned_string(self.entries[i].1.as_str())));
                assert(mounts_view(kept@) =~= before.push(m[i as int]));
            }
            i += 1;
        }
        assert(m.take(i as int) =~= m);
        self.entries = kept;
    }

    /// Put a mount of `host` at `k`, replacing any mount there.
    pub fn add(&mut self, k: &str, host: &str)
        ensures
            final(self)@ == without(old(self)@, k@).push((k@, host@)),
    {
        self.remove(k);
        let ghost before = self@;
        self.entries.push((to_owned_string(k), to_owned_string(host)));
        assert(self@ =~= before.push((k@, host@)));
    }
}

/// The listing of the table `mounts`.
fn listing(mounts: &Mounts) -> (r: String)
    ensures
        r@ == mount_listing(mounts@),
{
    let es = mounts.list();
    if es.len() == 0 {
        return to_owned_string("No directories mounted.\nUsage: mount <path>\n       mount -u <path>\n");
    }
    let ghost m = mounts_view(es@);
    let mut out: Vec<char> = chars_of("Mounted directories:\n");
    let ghost head = out@;
    let mut i: usize = 0;
    while i < es.len()
        invariant
            i <= es@.len(),
            m == mounts_view(es@),
            out@ == head + mount_lines(m.take(i as int)),
        decreases es.len() - i,
    {
        assert(m.take(i + 1).drop_last() =~= m.take(i as int));
        assert(m.take(i + 1).last() == (es@[i as int].0@, es@[i as int].1@));
        push_str(&mut out, "  ");
        push_str(&mut out, es[i].0.as_str());
        push_str(&mut out, " -> ");
        push_str(&mut out, es[i].1.as_str());
        out.push('\n');
        assert(out@ =~= head + mount_lines(m.take(i + 1)));
        i += 1;
    }
    assert(m.take(i as int) =~= m);
    string_of(out.as_slice())
}

/// Execute `mount` on the file system `vfs` and the table `mounts`: the
/// printed text and the action for the host, or the error.
pub fn execute(vfs: &mut Vfs, mounts: &mut Mounts, args: &[&str]) -> (r: Result<(String, Option<String>), String>)
    ensures
        final(vfs).cwd == old(vfs).cwd,
        (match r {
            Ok((out, act)) => Ok((out@, match act {
                Some(a) => Some(a@),
                None => None,
            })),
            Err(e) => Err(e@),
        }, final(vfs)@, final(mounts)@) == mount_spec(old(vfs)@, old(vfs).cwd@, old(mounts)@, strs_view(args@)),
{
    let ghost av = strs_view(args@);
    if args.len() == 0 {
        return Ok((listing(mounts), None));
    }
    assert(av[0] == args@[0]@);
    if str_eq(args[0], "-u") || str_eq(args[0], "--unmount") {
        if args.len() < 2 {
            return Err(to_owned_string("mount: missing path for -u"));
        }
        assert(av[1] == args@[1]@);
        let k = vfs.resolve_path(args[1]).unwrap();
        if mounts.is_mounted(k.as_str()) {
            mounts.remove(k.as_str());
            let mut out = chars_of("Unmounted ");
            push_str(&mut out, k.as_str());
            out.push('\n');
            assert(out@ =~= "Unmounted "@ + k@ + seq!['\n']);
            Ok((string_of(out.as_slice()), None))
        } else {
            let mut m: Vec<char> = chars_of("mount: ");
            push_str(&mut m, k.as_str());
            push_str(&mut m, " is not mounted");
            assert(m@ =~= "mount: "@ + k@ + " is not mounted"@);
            Err(string_of(m.as_slice()))
        }
    } else {
        let k = vfs.resolve_path(args[0]).unwrap();
        if !vfs.exists_path(k.as_str()) {
            proof {
                vfs.lemma_key_idempotent(args[0]@);
            }
            match make_parents(vfs, args[0], 0, 0) {
                Ok(()) => {},
                Err(e) => {
                    let mut m: Vec<char> = chars_of("mount: ");
                    push_str(&mut m, e.as_str());
                    assert(m@ =~= "mount: "@ + e@);
                    return Err(string_of(m.as_slice()));
                },
            }
        } else {
            proof {
                vfs.lemma_key_idempotent(args[0]@);
            }
        }
        proof {
            reveal_strlit("");
            assert(""@ =~= Seq::<char>::empty());
        }
        mounts.add(k.as_str(), "");
        let mut a: Vec<char> = chars_of("mount_request:");
        push_str(&mut a, k.as_str());
        assert(a@ =~= "mount_request:"@ + k@);
        let out = String::new();
        assert(out@ =~= Seq::<char>::empty());
        Ok((out, Some(string_of(a.as_slice()))))
    }
}

/// The `mount` command's name and manual text. (The command needs the
/// mount table, which a command context does not hold, so it is run through
/// [`execute`].)
pub struct MountCommand;

impl MountCommand {
    /// The name the user types.
    pub fn name(&self) -> (r: &'static str)
        ensures
            r@ == "mount"@,
    {
        "mount"
    }

    /// One line for `help`.
    pub fn description(&self) -> (r: &'static str)
        ensures
            r@ == "Mount a host directory into the virtual filesystem"@,
    {
        "Mount a host directory into the virtual filesystem"
    }

    /// The usage line of the manual page.
    pub fn synopsis(&self) -> (r: &'static str)
        ensures
            r@ == "mount [-u] [path]"@,
    {
        "mount [-u] [path]"
    }

    /// The description of the manual page.
    pub fn man_description(&self) -> (r: &'static str)
        ensures
            r@ == "Mount a real directory from the host machine into the NexOS virtual filesystem.\n\n\
When called without arguments, lists all current mounts.\n\
When called with a path, requests mounting a host directory at that VFS path.\n\
The browser will open a directory picker for you to select the directory.\n\n\
Use -u to unmount a previously mounted directory."@,
    {
        "Mount a real directory from the host machine into the NexOS virtual filesystem.\n\n\
When called without arguments, lists all current mounts.\n\
When called with a path, requests mounting a host directory at that VFS path.\n\
The browser will open a directory picker for you to select the directory.\n\n\
Use -u to unmount a previously mounted directory."
    }

    /// Example command lines for the manual page.
    pub fn examples(&self) -> (r: &'static [&'static str])
        ensures
            strs_view(r@) == seq!["mount /mnt/project"@, "mount -u /mnt/project"@],
    {
        let r: &'static [&'static str] = &["mount /mnt/project", "mount -u /mnt/project"];
        assert(r@ == seq!["mount /mnt/project", "mount -u /mnt/project"]);
        r
    }
}

} // verus!
