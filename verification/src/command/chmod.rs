//! `chmod MODE file...` -- change permission bits.
//!
//! MODE is three or four octal digits or a symbolic mode (`u+x`, `go-w`,
//! `a=rx`, ...). Only root and a file's owner may change its mode. A file
//! that cannot be changed gets a message line and the others are still
//! processed.
use vstd::prelude::*;
use crate::text::{strs_view, chars_of, string_of, to_owned_string, push_str, push_all};
use crate::path::resolve;
use crate::permissions::{valid_octal, octal_val, valid_symbolic, symbolic_result, invalid_mode,
    parse_octal_mode, apply_symbolic_mode, is_octal_digit};
use crate::vfs::{Vfs, FsView, Meta, rv};
use crate::command::kinds::outcome;
use crate::command::{Command, CommandContext, CommandKind, state_of, meets, lemma_vfs_of};

verus! {

/// The new mode for a node whose mode is `old`, or the error message.
pub open spec fn new_mode(old: u32, mode: Seq<char>) -> Result<u32, Seq<char>> {
    if valid_octal(mode) {
        Ok(octal_val(mode) as u32)
    } else if valid_symbolic(mode) {
        Ok(symbolic_result(old, mode))
    } else {
        Err(invalid_mode(mode))
    }
}

/// The file system and the messages after changing the mode of `paths`.
pub open spec fn chmod_run(fs: FsView, cwd: Seq<char>, mode: Seq<char>, paths: Seq<Seq<char>>, euid: u32) -> (FsView, Seq<char>)
    decreases paths.len(),
{
    if paths.len() == 0 {
        (fs, Seq::empty())
    } else {
        let (f, out) = chmod_run(fs, cwd, mode, paths.drop_last(), euid);
        let p = paths.last();
        let k = resolve(cwd, p);
        if !f.dom().contains(k) {
            (f, out + "chmod: cannot access '"@ + p + "': No such file or directory\n"@)
        } else if euid != 0 && euid != f[k].2.uid {
            (f, out + "chmod: changing permissions of '"@ + p + "': Operation not permitted\n"@)
        } else {
            match new_mode(f[k].2.mode, mode) {
                Err(e) => (f, out + "chmod: "@ + e + seq!['\n']),
                Ok(m) => (f.insert(k, (f[k].0, f[k].1, Meta { mode: m, ..f[k].2 })), out),
            }
        }
    }
}

/// Execute `chmod` with effective user `euid`.
pub fn execute(vfs: &mut Vfs, args: &[&str], euid: u32) -> (r: Result<String, String>)
    ensures
        final(vfs).cwd == old(vfs).cwd,
        args@.len() < 2 ==> rv(r) == Err::<Seq<char>, Seq<char>>("chmod: missing operand"@)
            && final(vfs)@ == old(vfs)@,
        args@.len() >= 2 ==> {
            let run = chmod_run(old(vfs)@, old(vfs).cwd@, args@[0]@, strs_view(args@).skip(1), euid);
            final(vfs)@ == run.0 && rv(r) == Ok::<Seq<char>, Seq<char>>(run.1)
        },
{
    if args.len() < 2 {
        return Err(to_owned_string("chmod: missing operand"));
    }
    let ghost av = strs_view(args@);
    let ghost files = av.skip(1);
    let mode = args[0];
    let mc = chars_of(mode);
    let mut octal = mc.len() == 3 || mc.len() == 4;
    let mut q: usize = 0;
    while q < mc.len()
        invariant
            q <= mc@.len(),
            octal == ((mc@.len() == 3 || mc@.len() == 4) && forall|j: int| 0 <= j < q ==> is_octal_digit(#[trigger] mc@[j])),
        decreases mc.len() - q,
    {
        if !('0' <= mc[q] && mc[q] <= '7') {
            octal = false;
        }
        q += 1;
    }
    assert(octal == valid_octal(mode@));
    let ghost fs0 = vfs@;
    let ghost cwd = vfs.cwd@;
    let mut out: Vec<char> = Vec::new();
    let mut k: usize = 1;
    assert(files.take(0) =~= Seq::<Seq<char>>::empty());
    while k < args.len()
        invariant
            1 <= k <= args@.len(),
            av == strs_view(args@),
            files == av.skip(1),
            octal == valid_octal(mode@),
            mode@ == args@[0]@,
            vfs.cwd == old(vfs).cwd,
            fs0 == old(vfs)@,
            cwd == old(vfs).cwd@,
            vfs.cwd@ == cwd,
            chmod_run(fs0, cwd, mode@, files.take(k - 1), euid) == (vfs@, out@),
        decreases args.len() - k,
    {
        assert(files.take(k as int).drop_last() == files.take(k - 1));
        assert(files.take(k as int).last() == args@[k as int]@);
        let p = args[k];
        match vfs.get_meta(p) {
            None => {
                push_str(&mut out, "chmod: cannot access '");
                push_str(&mut out, p);
                push_str(&mut out, "': No such file or directory\n");
            },
            Some(meta) => {
                if euid != 0 && euid != meta.uid {
                    push_str(&mut out, "chmod: changing permissions of '");
                    push_str(&mut out, p);
                    push_str(&mut out, "': Operation not permitted\n");
                } else {
                    let nm = if octal {
                        parse_octal_mode(mode)
                    } else {
                        apply_symbolic_mode(meta.mode, mode)
                    };
                    match nm {
                        Err(e) => {
                            push_str(&mut out, "chmod: ");
                            push_str(&mut out, e.as_str());
                            out.push('\n');
                        },
                        Ok(m) => {
                            let ok = vfs.set_meta(p, Meta { mode: m, ..meta });
                        },
                    }
                }
            },
        }
        k += 1;
        assert(out@ =~= chmod_run(fs0, cwd, mode@, files.take(k - 1), euid).1);
    }
    assert(files.take(args@.len() - 1) == files);
    Ok(string_of(out.as_slice()))
}

/// The `chmod` command.
pub struct ChmodCommand;

impl Command for ChmodCommand {
    fn name(&self) -> (r: &'static str)
        ensures
            r@ == "chmod"@,
    {
        "chmod"
    }

    fn description(&self) -> (r: &'static str)
        ensures
            r@ == "Change file permissions (octal or symbolic)"@,
    {
        "Change file permissions (octal or symbolic)"
    }

    fn accepts_stdin(&self) -> (r: bool)
        ensures
            !r,
    {
        false
    }

    fn execute(&self, ctx: &mut CommandContext) -> (r: Result<String, String>)
        ensures
            meets(outcome(CommandKind::Chmod, state_of(old(ctx))), r, final(ctx)),
    {
        proof {
            lemma_vfs_of(ctx);
        }
        execute(ctx.vfs, ctx.args, ctx.uid)
    }

    fn synopsis(&self) -> (r: &'static str)
        ensures
            r@ == "chmod mode file [file2 ...]"@,
    {
        "chmod mode file [file2 ...]"
    }

    fn man_description(&self) -> (r: &'static str)
        ensures
            r@ == "Change file permissions. Accepts octal modes (e.g. 755, 0644) or symbolic modes \
         (e.g. +x, -w, u+r, a+x). Only the file owner or root can change permissions."@,
    {
        "Change file permissions. Accepts octal modes (e.g. 755, 0644) or symbolic modes \
         (e.g. +x, -w, u+r, a+x). Only the file owner or root can change permissions."
    }

    fn examples(&self) -> (r: &'static [&'static str])
        ensures
            strs_view(r@) == seq!["chmod 755 script.sh"@, "chmod +x script.sh"@, "chmod u+r file.txt"@],
    {
        let r: &'static [&'static str] = &["chmod 755 script.sh", "chmod +x script.sh", "chmod u+r file.txt"];
        assert(r@ == seq!["chmod 755 script.sh", "chmod +x script.sh", "chmod u+r file.txt"]);
        r
    }
}


/// `chmod` changes nothing but modes, and never the mode of a node that the
/// acting user neither owns nor is root for.
pub proof fn law_chmod_only_modes(fs: FsView, cwd: Seq<char>, mode: Seq<char>, paths: Seq<Seq<char>>, euid: u32, q: Seq<char>)
    ensures
        chmod_run(fs, cwd, mode, paths, euid).0.dom() == fs.dom(),
        fs.dom().contains(q) ==> {
            let n = chmod_run(fs, cwd, mode, paths, euid).0[q];
            &&& n.0 == fs[q].0
            &&& n.1 == fs[q].1
            &&& n.2.uid == fs[q].2.uid
            &&& n.2.gid == fs[q].2.gid
            &&& n.2.mtime == fs[q].2.mtime
            &&& (euid != 0 && euid != fs[q].2.uid ==> n == fs[q])
        },
    decreases paths.len(),
{
    if paths.len() > 0 {
        law_chmod_only_modes(fs, cwd, mode, paths.drop_last(), euid, q);
        let (f, out) = chmod_run(fs, cwd, mode, paths.drop_last(), euid);
        let k = resolve(cwd, paths.last());
        assert(chmod_run(fs, cwd, mode, paths, euid).0.dom() =~= fs.dom());
    }
}

} // verus!
