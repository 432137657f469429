//! `download file` -- ask the host to save a file of the virtual file
//! system. The command decides what to send: the file's name and its
//! resolved path; the host performs the download.
use vstd::prelude::*;
use crate::text::{strs_view, chars_of, string_of, push_str, to_owned_string};
use crate::path::{name_of, split_parent};
use crate::vfs::{Vfs, rv};

verus! {

/// The name and path of the file to download, or the error.
pub open spec fn download_spec(vfs: &Vfs, args: Seq<Seq<char>>) -> Result<(Seq<char>, Seq<char>), Seq<char>> {
    if args.len() == 0 {
        Err("download: missing file operand"@)
    } else {
        let k = vfs.key(args[0]);
        if !vfs@.dom().contains(k) {
            Err("download: "@ + args[0] + ": No such file or directory"@)
        } else if vfs@[k].0 {
            Err("download: "@ + args[0] + ": Is a directory"@)
        } else {
            Ok((name_of(k), k))
        }
    }
}

/// Execute `download`: the file name and the path to hand to the host.
pub fn execute(vfs: &Vfs, args: &[&str]) -> (r: Result<(String, String), String>)
    ensures
        match download_spec(vfs, strs_view(args@)) {
            Ok((n, p)) => r is Ok && r->Ok_0.0@ == n && r->Ok_0.1@ == p,
            Err(e) => r is Err && r->Err_0@ == e,
        },
{
    if args.len() == 0 {
        return Err(to_owned_string("download: missing file operand"));
    }
    assert(strs_view(args@)[0] == args@[0]@);
    let path = vfs.resolve_path(args[0]).unwrap();
    if !vfs.exists_path(path.as_str()) || vfs.is_dir(path.as_str()) {
        proof {
            vfs.lemma_key_idempotent(args@[0]@);
        }
        let mut m: Vec<char> = Vec::new();
        push_str(&mut m, "download: ");
        push_str(&mut m, args[0]);
        if !vfs.exists_path(path.as_str()) {
            push_str(&mut m, ": No such file or directory");
        } else {
            push_str(&mut m, ": Is a directory");
        }
        return Err(string_of(m.as_slice()));
    }
    proof {
        vfs.lemma_key_idempotent(args@[0]@);
    }
    let pc = chars_of(path.as_str());
    let (_, name) = split_parent(pc.as_slice());
    Ok((string_of(name.as_slice()), path))
}

/// The `download` command.
pub struct DownloadCommand;

} // verus!
