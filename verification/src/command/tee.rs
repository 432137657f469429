//! `tee [-a] file...` -- copy the input to files and pass it through.
//!
//! Without `-a` each file is replaced by the input; with `-a` the input is
//! appended to what the file held (nothing, for a file that cannot be
//! read). The first write that fails stops the command; the files before
//! it keep what was written to them.
use vstd::prelude::*;
use crate::text::{strs_view, chars_of, string_of, to_owned_string, push_str, str_eq};
use crate::path::resolve;
use crate::users::contents_or_empty;
use crate::vfs::{Vfs, FsView, rv, read_spec, write_spec};
use crate::command::kinds::outcome;
use crate::command::{Command, CommandContext, CommandKind, state_of, meets, lemma_vfs_of};

verus! {

/// The file operands: every argument but `-a`.
pub open spec fn tee_files(args: Seq<Seq<char>>) -> Seq<Seq<char>>
    decreases args.len(),
{
    if args.len() == 0 {
        Seq::empty()
    } else if args.last() == "-a"@ {
        tee_files(args.drop_last())
    } else {
        tee_files(args.drop_last()).push(args.last())
    }
}

/// The file system after writing to `files` in order, and the error that
/// stopped the writing, if any.
pub open spec fn tee_run(
    fs: FsView,
    cwd: Seq<char>,
    files: Seq<Seq<char>>,
    input: Seq<char>,
    append: bool,
) -> (FsView, Option<Seq<char>>)
    decreases files.len(),
{
    if files.len() == 0 {
        (fs, None)
    } else {
        let prev = tee_run(fs, cwd, files.drop_last(), input, append);
        if prev.1 is Some {
            prev
        } else {
            let p = files.last();
            let k = resolve(cwd, p);
            let content = if append {
                contents_or_empty(read_spec(prev.0, k)) + input
            } else {
                input
            };
            match write_spec(prev.0, k, content) {
                Ok(m) => (m, None),
                Err(e) => (prev.0, Some("tee: "@ + p + ": "@ + e)),
            }
        }
    }
}

proof fn lemma_tee_stop(
    fs: FsView,
    cwd: Seq<char>,
    files: Seq<Seq<char>>,
    k: int,
    input: Seq<char>,
    append: bool,
)
    requires
        0 <= k <= files.len(),
        tee_run(fs, cwd, files.take(k), input, append).1 is Some,
    ensures
        tee_run(fs, cwd, files, input, append) == tee_run(fs, cwd, files.take(k), input, append),
    decreases files.len(),
{
    if k == files.len() {
        assert(files.take(k) == files);
    } else {
        assert(files.drop_last().take(k) == files.take(k));
        lemma_tee_stop(fs, cwd, files.drop_last(), k, input, append);
    }
}

/// Execute `tee` with `input` as the data.
pub fn execute(vfs: &mut Vfs, input: &str, args: &[&str]) -> (r: Result<String, String>)
    ensures
        final(vfs).cwd == old(vfs).cwd,
        tee_files(strs_view(args@)).len() == 0 ==> rv(r) == Err::<Seq<char>, Seq<char>>("tee: missing file operand"@)
            && final(vfs)@ == old(vfs)@,
        tee_files(strs_view(args@)).len() > 0 ==> {
            let run = tee_run(old(vfs)@, old(vfs).cwd@, tee_files(strs_view(args@)), input@, strs_view(args@).contains("-a"@));
            &&& final(vfs)@ == run.0
            &&& match run.1 {
                Some(e) => rv(r) == Err::<Seq<char>, Seq<char>>(e),
                None => rv(r) == Ok::<Seq<char>, Seq<char>>(input@),
            }
        },
{
    let ghost av = strs_view(args@);
    let mut files: Vec<&str> = Vec::new();
    let mut i: usize = 0;
    while i < args.len()
        invariant
            i <= args@.len(),
            av == strs_view(args@),
            strs_view(files@) == tee_files(av.take(i as int)),
        decreases args.len() - i,
    {
        assert(av.take(i + 1).drop_last() == av.take(i as int));
        assert(av.take(i + 1).last() == args@[i as int]@);
        let a = args[i];
        if !str_eq(a, "-a") {
            let ghost before = files@;
            files.push(a);
            assert(strs_view(files@) =~= strs_view(before).push(a@));
        }
        i += 1;
    }
    assert(av.take(args@.len() as int) == av);
    let append = crate::text::strs_contains(args, "-a");
    if files.len() == 0 {
        return Err(to_owned_string("tee: missing file operand"));
    }
    let ghost fv = strs_view(files@);
    let ghost fs0 = vfs@;
    let ghost cwd = vfs.cwd@;
    let mut k: usize = 0;
    while k < files.len()
        invariant
            k <= files@.len(),
            fv == strs_view(files@),
            vfs.cwd@ == cwd,
            vfs.cwd == old(vfs).cwd,
            fs0 == old(vfs)@,
            cwd == old(vfs).cwd@,
            av == strs_view(args@),
            fv == tee_files(av),
            append == av.contains("-a"@),
            tee_run(fs0, cwd, fv.take(k as int), input@, append) == (vfs@, None::<Seq<char>>),
        decreases files.len() - k,
    {
        assert(fv.take(k + 1).drop_last() == fv.take(k as int));
        assert(fv.take(k + 1).last() == files@[k as int]@);
        let path = files[k];
        let write_result = if append {
            let existing = match vfs.read_file(path) {
                Ok(c) => c,
                Err(_) => String::new(),
            };
            let mut c = chars_of(existing.as_str());
            push_str(&mut c, input);
            let joined = string_of(c.as_slice());
            vfs.write_file(path, joined.as_str())
        } else {
            vfs.write_file(path, input)
        };
        match write_result {
            Ok(()) => {},
            Err(e) => {
                let mut m: Vec<char> = Vec::new();
                push_str(&mut m, "tee: ");
                push_str(&mut m, path);
                push_str(&mut m, ": ");
                push_str(&mut m, e.as_str());
                proof {
                    lemma_tee_stop(fs0, cwd, fv, k + 1, input@, append);
                }
                return Err(string_of(m.as_slice()));
            },
        }
        k += 1;
    }
    assert(fv.take(files@.len() as int) == fv);
    Ok(to_owned_string(input))
}

/// The `tee` command.
pub struct TeeCommand;

impl Command for TeeCommand {
    fn name(&self) -> (r: &'static str)
        ensures
            r@ == "tee"@,
    {
        "tee"
    }

    fn description(&self) -> (r: &'static str)
        ensures
            r@ == "Write stdin to stdout and files (-a for append)"@,
    {
        "Write stdin to stdout and files (-a for append)"
    }

    fn accepts_stdin(&self) -> (r: bool)
        ensures
            !r,
    {
        false
    }

    fn execute(&self, ctx: &mut CommandContext) -> (r: Result<String, String>)
        ensures
            meets(outcome(CommandKind::Tee, state_of(old(ctx))), r, final(ctx)),
    {
        proof {
            lemma_vfs_of(ctx);
        }
        execute(ctx.vfs, ctx.stdin, ctx.args)
    }

    fn synopsis(&self) -> (r: &'static str)
        ensures
            r@ == "echo text | tee [-a] file [file2 ...]"@,
    {
        "echo text | tee [-a] file [file2 ...]"
    }

    fn man_description(&self) -> (r: &'static str)
        ensures
            r@ == "Read from stdin and write the input to both stdout and one or more files simultaneously, \
acting as a T-splitter in a pipeline. By default each file is overwritten. With -a, the input \
is appended to each file instead of replacing its contents."@,
    {
        "Read from stdin and write the input to both stdout and one or more files simultaneously, \
acting as a T-splitter in a pipeline. By default each file is overwritten. With -a, the input \
is appended to each file instead of replacing its contents."
    }

    fn examples(&self) -> (r: &'static [&'static str])
        ensures
            strs_view(r@) == seq!["echo hello | tee output.txt"@, "echo data | tee -a log.txt"@],
    {
        let r: &'static [&'static str] = &["echo hello | tee output.txt", "echo data | tee -a log.txt"];
        assert(r@ == seq!["echo hello | tee output.txt", "echo data | tee -a log.txt"]);
        r
    }
}

} // verus!
