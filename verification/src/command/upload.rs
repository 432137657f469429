//! `upload [dir]` -- ask the host to copy files into a directory of the
//! virtual file system (the working directory by default). The command
//! checks the destination; the host picks and copies the files.
use vstd::prelude::*;
use crate::text::{strs_view, chars_of, string_of, push_str};
use crate::vfs::{Vfs, rv};

verus! {

/// The destination directory, or the error.
pub open spec fn upload_spec(vfs: &Vfs, args: Seq<Seq<char>>) -> Result<Seq<char>, Seq<char>> {
    let k = vfs.key(if args.len() == 0 { "."@ } else { args[0] });
    if !vfs@.dom().contains(k) {
        Err("upload: "@ + k + ": No such file or directory"@)
    } else if !vfs@[k].0 {
        Err("upload: "@ + k + ": Not a directory"@)
    } else {
        Ok(k)
    }
}

/// Execute `upload`: the directory to hand to the host.
pub fn execute(vfs: &Vfs, args: &[&str]) -> (r: Result<String, String>)
    ensures
        rv(r) == upload_spec(vfs, strs_view(args@)),
{
    let target: &str = if args.len() == 0 {
        "."
    } else {
        assert(strs_view(args@)[0] == args@[0]@);
        args[0]
    };
    let dest = vfs.resolve_path(target).unwrap();
    proof {
        vfs.lemma_key_idempotent(target@);
    }
    if !vfs.exists_path(dest.as_str()) {
        let mut m: Vec<char> = Vec::new();
        push_str(&mut m, "upload: ");
        push_str(&mut m, dest.as_str());
        push_str(&mut m, ": No such file or directory");
        return Err(string_of(m.as_slice()));
    }
    if !vfs.is_dir(dest.as_str()) {
        let mut m: Vec<char> = Vec::new();
        push_str(&mut m, "upload: ");
        push_str(&mut m, dest.as_str());
        push_str(&mut m, ": Not a directory");
        return Err(string_of(m.as_slice()));
    }
    Ok(dest)
}

/// The `upload` command.
pub struct UploadCommand;

} // verus!
