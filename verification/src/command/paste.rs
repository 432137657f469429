//! `paste [-d DELIM] file1 file2...` -- merge lines of files side by side.
//!
//! Row `k` of the output joins line `k` of every file with the delimiter
//! (tab by default; the first character of `-d`'s argument otherwise), a
//! file without a line `k` contributing an empty field. There are as many
//! rows as the longest file has lines.
use vstd::prelude::*;
use crate::text::{strs_view, chars_of, string_of, to_owned_string, str_eq, str_lines, join,
    join_chars, push_line, unlines, lemma_unlines_push, lines, vv};
use crate::vfs::{Vfs, rv, read_spec};
use crate::command::kinds::outcome;
use crate::command::vfs_of;
use crate::command::{Command, CommandContext, CommandKind, state_of, meets, lemma_vfs_of};

verus! {

/// The delimiter and the file operands, from `args[i..]`.
pub open spec fn paste_args(args: Seq<Seq<char>>, i: int, d: char, files: Seq<Seq<char>>) -> Result<(char, Seq<Seq<char>>), Seq<char>>
    decreases args.len() - i,
{
    if i < 0 || i >= args.len() {
        Ok((d, files))
    } else if args[i] == "-d"@ {
        if i + 1 >= args.len() {
            Err("paste: option requires an argument -- 'd'"@)
        } else if args[i + 1].len() == 0 {
            Err("paste: empty delimiter"@)
        } else {
            paste_args(args, i + 2, args[i + 1][0], files)
        }
    } else {
        paste_args(args, i + 1, d, files.push(args[i]))
    }
}

/// The lines of every file, or the first read error.
pub open spec fn read_all(vfs: &Vfs, files: Seq<Seq<char>>) -> Result<Seq<Seq<Seq<char>>>, Seq<char>>
    decreases files.len(),
{
    if files.len() == 0 {
        Ok(Seq::empty())
    } else {
        match read_all(vfs, files.drop_last()) {
            Err(e) => Err(e),
            Ok(ls) => match read_spec(vfs@, vfs.key(files.last())) {
                Err(e) => Err(e),
                Ok(c) => Ok(ls.push(lines(c))),
            },
        }
    }
}

/// The largest number of lines among the files.
pub open spec fn max_lines(ls: Seq<Seq<Seq<char>>>) -> nat
    decreases ls.len(),
{
    if ls.len() == 0 {
        0
    } else {
        let m = max_lines(ls.drop_last());
        if ls.last().len() > m {
            ls.last().len()
        } else {
            m
        }
    }
}

/// Row `k`: line `k` of every file (empty where a file is shorter).
pub open spec fn paste_row(ls: Seq<Seq<Seq<char>>>, k: int, d: char) -> Seq<char> {
    join(
        Seq::new(ls.len(), |f: int| if k < ls[f].len() { ls[f][k] } else { Seq::empty() }),
        seq![d],
    )
}

/// The result of `paste` on the given arguments.
pub open spec fn paste_spec(vfs: &Vfs, args: Seq<Seq<char>>) -> Result<Seq<char>, Seq<char>> {
    match paste_args(args, 0, '\t', Seq::empty()) {
        Err(e) => Err(e),
        Ok((d, files)) => if files.len() < 2 {
            Err("paste: missing file operand"@)
        } else {
            match read_all(vfs, files) {
                Err(e) => Err(e),
                Ok(ls) => Ok(unlines(Seq::new(max_lines(ls), |k: int| paste_row(ls, k, d)))),
            }
        },
    }
}

proof fn lemma_read_all_err(vfs: &Vfs, files: Seq<Seq<char>>, k: int)
    requires
        0 <= k <= files.len(),
        read_all(vfs, files.take(k)) is Err,
    ensures
        read_all(vfs, files) == read_all(vfs, files.take(k)),
    decreases files.len(),
{
    if k == files.len() {
        assert(files.take(k) == files);
    } else {
        assert(files.drop_last().take(k) == files.take(k));
        lemma_read_all_err(vfs, files.drop_last(), k);
    }
}

/// The lines of every file in `files`.
fn read_all_lines(vfs: &Vfs, files: &Vec<Vec<char>>) -> (r: Result<Vec<Vec<Vec<char>>>, String>)
    ensures
        match read_all(vfs, vv(files@)) {
            Ok(ls) => r is Ok && r->Ok_0@.len() == ls.len() && forall|f: int| 0 <= f < ls.len() ==> vv(#[trigger] r->Ok_0@[f]@) == ls[f],
            Err(e) => r is Err && r->Err_0@ == e,
        },
{
    let ghost fv = vv(files@);
    let mut all: Vec<Vec<Vec<char>>> = Vec::new();
    let mut k: usize = 0;
    while k < files.len()
        invariant
            k <= files@.len(),
            fv == vv(files@),
            read_all(vfs, fv.take(k as int)) is Ok,
            all@.len() == k,
            forall|f: int| 0 <= f < k ==> vv(#[trigger] all@[f]@) == read_all(vfs, fv.take(k as int))->Ok_0[f],
            read_all(vfs, fv.take(k as int))->Ok_0.len() == k,
        decreases files.len() - k,
    {
        assert(fv.take(k + 1).drop_last() == fv.take(k as int));
        assert(fv.take(k + 1).last() == files@[k as int]@);
        let p = string_of(files[k].as_slice());
        let c = match vfs.read_file(p.as_str()) {
            Ok(c) => c,
            Err(e) => {
                proof {
                    lemma_read_all_err(vfs, fv, k + 1);
                }
                return Err(e);
            },
        };
        all.push(str_lines(c.as_str()));
        k += 1;
    }
    assert(fv.take(files@.len() as int) == fv);
    Ok(all)
}


/// Reading depends on a file system only through its nodes and directory.
pub proof fn lemma_read_all_view(v1: &Vfs, v2: &Vfs, files: Seq<Seq<char>>)
    requires
        v1@ == v2@,
        v1.cwd@ == v2.cwd@,
    ensures
        read_all(v1, files) == read_all(v2, files),
    decreases files.len(),
{
    if files.len() > 0 {
        lemma_read_all_view(v1, v2, files.drop_last());
    }
}

/// `paste` depends on a file system only through its nodes and directory.
pub proof fn lemma_paste_view(v1: &Vfs, v2: &Vfs, args: Seq<Seq<char>>)
    requires
        v1@ == v2@,
        v1.cwd@ == v2.cwd@,
    ensures
        paste_spec(v1, args) == paste_spec(v2, args),
{
    match paste_args(args, 0, '\t', Seq::empty()) {
        Err(e) => {},
        Ok((d, files)) => {
            lemma_read_all_view(v1, v2, files);
        },
    }
}

/// Execute `paste`.
pub fn execute(vfs: &Vfs, args: &[&str]) -> (r: Result<String, String>)
    ensures
        rv(r) == paste_spec(vfs, strs_view(args@)),
{
    let ghost av = strs_view(args@);
    let mut d: char = '\t';
    let mut files: Vec<Vec<char>> = Vec::new();
    let mut i: usize = 0;
    assert(vv(files@) =~= Seq::<Seq<char>>::empty());
    while i < args.len()
        invariant
            i <= args@.len(),
            av == strs_view(args@),
            paste_args(av, 0, '\t', Seq::empty()) == paste_args(av, i as int, d, vv(files@)),
        decreases args.len() - i,
    {
        assert(av[i as int] == args@[i as int]@);
        if str_eq(args[i], "-d") {
            if i + 1 >= args.len() {
                return Err(to_owned_string("paste: option requires an argument -- 'd'"));
            }
            assert(av[i + 1] == args@[i + 1]@);
            let dc = chars_of(args[i + 1]);
            if dc.len() == 0 {
                return Err(to_owned_string("paste: empty delimiter"));
            }
            d = dc[0];
            i += 2;
        } else {
            let ghost before = vv(files@);
            files.push(chars_of(args[i]));
            assert(vv(files@) =~= before.push(av[i as int]));
            i += 1;
        }
    }
    if files.len() < 2 {
        return Err(to_owned_string("paste: missing file operand"));
    }
    let all = read_all_lines(vfs, &files)?;
    let ghost ls = read_all(vfs, vv(files@))->Ok_0;
    let mut max: usize = 0;
    let mut f: usize = 0;
    while f < all.len()
        invariant
            f <= all@.len(),
            all@.len() == ls.len(),
            forall|g: int| 0 <= g < ls.len() ==> vv(#[trigger] all@[g]@) == ls[g],
            max as nat == max_lines(ls.take(f as int)),
        decreases all.len() - f,
    {
        assert(ls.take(f + 1).drop_last() == ls.take(f as int));
        assert(ls.take(f + 1).last() == ls[f as int]);
        assert(vv(all@[f as int]@) == ls[f as int]);
        if all[f].len() > max {
            max = all[f].len();
        }
        f += 1;
    }
    assert(ls.take(all@.len() as int) == ls);
    let ghost rows = Seq::new(max_lines(ls), |k: int| paste_row(ls, k, d));
    let mut sep: Vec<char> = Vec::new();
    sep.push(d);
    assert(sep@ =~= seq![d]);
    let mut out: Vec<char> = Vec::new();
    let mut k: usize = 0;
    while k < max
        invariant
            k <= max,
            max as nat == max_lines(ls),
            all@.len() == ls.len(),
            forall|g: int| 0 <= g < ls.len() ==> vv(#[trigger] all@[g]@) == ls[g],
            sep@ == seq![d],
            rows == Seq::new(max_lines(ls), |t: int| paste_row(ls, t, d)),
            out@ == unlines(rows.take(k as int)),
        decreases max - k,
    {
        let mut fields: Vec<Vec<char>> = Vec::new();
        let mut g: usize = 0;
        while g < all.len()
            invariant
                g <= all@.len(),
                all@.len() == ls.len(),
                forall|h: int| 0 <= h < ls.len() ==> vv(#[trigger] all@[h]@) == ls[h],
                fields@.len() == g,
                forall|h: int| 0 <= h < g ==> (#[trigger] fields@[h])@ == (if k < ls[h].len() { ls[h][k as int] } else { Seq::<char>::empty() }),
            decreases all.len() - g,
        {
            assert(vv(all@[g as int]@) == ls[g as int]);
            if k < all[g].len() {
                assert(vv(all@[g as int]@)[k as int] == all@[g as int]@[k as int]@);
                fields.push(crate::text::copy_chars(all[g][k].as_slice()));
            } else {
                fields.push(Vec::new());
            }
            g += 1;
        }
        let row = join_chars(&fields, sep.as_slice());
        proof {
            assert(vv(fields@) =~= Seq::new(ls.len(), |h: int| if k < ls[h].len() { ls[h][k as int] } else { Seq::<char>::empty() }));
            assert(row@ == rows[k as int]);
            lemma_unlines_push(rows.take(k as int), row@);
            assert(rows.take(k + 1) =~= rows.take(k as int).push(row@));
        }
        push_line(&mut out, row.as_slice());
        k += 1;
    }
    assert(rows.take(max as int) == rows);
    Ok(string_of(out.as_slice()))
}

/// The `paste` command.
pub struct PasteCommand;

impl Command for PasteCommand {
    fn name(&self) -> (r: &'static str)
        ensures
            r@ == "paste"@,
    {
        "paste"
    }

    fn description(&self) -> (r: &'static str)
        ensures
            r@ == "Merge lines of files side by side"@,
    {
        "Merge lines of files side by side"
    }

    fn accepts_stdin(&self) -> (r: bool)
        ensures
            r,
    {
        true
    }

    fn execute(&self, ctx: &mut CommandContext) -> (r: Result<String, String>)
        ensures
            meets(outcome(CommandKind::Paste, state_of(old(ctx))), r, final(ctx)),
    {
        proof {
            lemma_vfs_of(ctx);
            lemma_paste_view(ctx.vfs, &vfs_of(state_of(ctx)), state_of(ctx).args);
        }
        execute(ctx.vfs, ctx.args)
    }

    fn synopsis(&self) -> (r: &'static str)
        ensures
            r@ == "paste [-d DELIM] FILE1 FILE2 [FILE3 ...]"@,
    {
        "paste [-d DELIM] FILE1 FILE2 [FILE3 ...]"
    }

    fn man_description(&self) -> (r: &'static str)
        ensures
            r@ == "Merge lines from multiple files side by side, separated by tab characters. \
Each line from FILE1 is joined with the corresponding line from FILE2 (and FILE3, etc.) \
using the delimiter. If one file is shorter, empty strings are used for its missing lines. \
Use -d to specify a custom single-character delimiter instead of tab."@,
    {
        "Merge lines from multiple files side by side, separated by tab characters. \
Each line from FILE1 is joined with the corresponding line from FILE2 (and FILE3, etc.) \
using the delimiter. If one file is shorter, empty strings are used for its missing lines. \
Use -d to specify a custom single-character delimiter instead of tab."
    }

    fn examples(&self) -> (r: &'static [&'static str])
        ensures
            strs_view(r@) == seq!["paste file1 file2"@, "paste -d , file1 file2"@, "paste -d '|' file1 file2 file3"@],
    {
        let r: &'static [&'static str] = &["paste file1 file2", "paste -d , file1 file2", "paste -d '|' file1 file2 file3"];
        assert(r@ == seq!["paste file1 file2", "paste -d , file1 file2", "paste -d '|' file1 file2 file3"]);
        r
    }
}

} // verus!
