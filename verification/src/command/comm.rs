//! `comm [-1] [-2] [-3] file1 file2` -- compare two sorted files.
//!
//! Lines only in the first file form column 1, lines only in the second
//! column 2 (after one tab), lines in both column 3 (after two tabs); the
//! flags suppress columns. The files are walked together in lexicographic
//! order.
use vstd::prelude::*;
use crate::text::{strs_view, string_of, to_owned_string, str_eq, str_lines, push_all, lines, vv,
    strs_contains};
use crate::order::lex_lt;
use crate::vfs::{Vfs, rv, read_spec};
use crate::command::kinds::outcome;
use crate::command::{Command, CommandContext, CommandKind, state_of, meets, lemma_vfs_of};

verus! {

/// The output for one line in column `c` (0, 1 or 2 tabs before it), or
/// nothing when that column is suppressed.
pub open spec fn col_line(line: Seq<char>, tabs: nat, shown: bool) -> Seq<char> {
    if !shown {
        Seq::empty()
    } else if tabs == 0 {
        line + seq!['\n']
    } else if tabs == 1 {
        seq!['\t'] + line + seq!['\n']
    } else {
        seq!['\t', '\t'] + line + seq!['\n']
    }
}

/// The output for `a[i..]` and `b[j..]`.
pub open spec fn comm_rest(
    a: Seq<Seq<char>>,
    b: Seq<Seq<char>>,
    i: int,
    j: int,
    show: (bool, bool, bool),
) -> Seq<char>
    decreases a.len() - i + b.len() - j,
{
    if i < 0 || j < 0 || i > a.len() || j > b.len() {
        Seq::empty()
    } else if i < a.len() && j < b.len() {
        if lex_lt(a[i], b[j]) {
            col_line(a[i], 0, show.0) + comm_rest(a, b, i + 1, j, show)
        } else if lex_lt(b[j], a[i]) {
            col_line(b[j], 1, show.1) + comm_rest(a, b, i, j + 1, show)
        } else {
            col_line(a[i], 2, show.2) + comm_rest(a, b, i + 1, j + 1, show)
        }
    } else if i < a.len() {
        col_line(a[i], 0, show.0) + comm_rest(a, b, i + 1, j, show)
    } else if j < b.len() {
        col_line(b[j], 1, show.1) + comm_rest(a, b, i, j + 1, show)
    } else {
        Seq::empty()
    }
}

/// An argument that suppresses a column.
pub open spec fn comm_flag(a: Seq<char>) -> bool {
    a == "-1"@ || a == "-2"@ || a == "-3"@
}

/// The file operands.
pub open spec fn comm_files(args: Seq<Seq<char>>) -> Seq<Seq<char>>
    decreases args.len(),
{
    if args.len() == 0 {
        Seq::empty()
    } else if comm_flag(args.last()) {
        comm_files(args.drop_last())
    } else {
        comm_files(args.drop_last()).push(args.last())
    }
}

/// The result of `comm` on the given arguments.
pub open spec fn comm_spec(vfs: &Vfs, args: Seq<Seq<char>>) -> Result<Seq<char>, Seq<char>> {
    let files = comm_files(args);
    let show = (!args.contains("-1"@), !args.contains("-2"@), !args.contains("-3"@));
    if files.len() < 2 {
        Err("comm: missing file operand"@)
    } else if files.len() > 2 {
        Err("comm: too many arguments"@)
    } else {
        match read_spec(vfs@, vfs.key(files[0])) {
            Err(e) => Err(e),
            Ok(ca) => match read_spec(vfs@, vfs.key(files[1])) {
                Err(e) => Err(e),
                Ok(cb) => Ok(comm_rest(lines(ca), lines(cb), 0, 0, show)),
            },
        }
    }
}

fn push_col(out: &mut Vec<char>, line: &[char], tabs: usize, shown: bool)
    requires
        tabs <= 2,
    ensures
        final(out)@ == old(out)@ + col_line(line@, tabs as nat, shown),
{
    if shown {
        let mut t: usize = 0;
        while t < tabs
            invariant
                t <= tabs,
                out@ == old(out)@ + Seq::new(t as nat, |q: int| '\t'),
            decreases tabs - t,
        {
            out.push('\t');
            t += 1;
            assert(out@ =~= old(out)@ + Seq::new(t as nat, |q: int| '\t'));
        }
        push_all(out, line);
        out.push('\n');
        assert(Seq::new(1nat, |q: int| '\t') =~= seq!['\t']);
        assert(Seq::new(2nat, |q: int| '\t') =~= seq!['\t', '\t']);
        assert(out@ =~= old(out)@ + col_line(line@, tabs as nat, shown));
    } else {
        assert(out@ =~= old(out)@ + col_line(line@, tabs as nat, shown));
    }
}

/// Merge two sorted line sequences into the three columns.
pub fn comm_lines(a: &Vec<Vec<char>>, b: &Vec<Vec<char>>, s1: bool, s2: bool, s3: bool) -> (r: Vec<char>)
    ensures
        r@ == comm_rest(vv(a@), vv(b@), 0, 0, (s1, s2, s3)),
{
    let ghost av = vv(a@);
    let ghost bv = vv(b@);
    let ghost show = (s1, s2, s3);
    let mut out: Vec<char> = Vec::new();
    let mut i: usize = 0;
    let mut j: usize = 0;
    while i < a.len() || j < b.len()
        invariant
            i <= a@.len(),
            j <= b@.len(),
            av == vv(a@),
            bv == vv(b@),
            show == (s1, s2, s3),
            out@ + comm_rest(av, bv, i as int, j as int, show) == comm_rest(av, bv, 0, 0, show),
        decreases a.len() - i + b.len() - j,
    {
        let ghost before = out@;
        if i < a.len() && j < b.len() {
            assert(av[i as int] == a@[i as int]@ && bv[j as int] == b@[j as int]@);
            if crate::order::lex_less(a[i].as_slice(), b[j].as_slice()) {
                push_col(&mut out, a[i].as_slice(), 0, s1);
                i += 1;
            } else if crate::order::lex_less(b[j].as_slice(), a[i].as_slice()) {
                push_col(&mut out, b[j].as_slice(), 1, s2);
                j += 1;
            } else {
                push_col(&mut out, a[i].as_slice(), 2, s3);
                i += 1;
                j += 1;
            }
        } else if i < a.len() {
            assert(av[i as int] == a@[i as int]@);
            push_col(&mut out, a[i].as_slice(), 0, s1);
            i += 1;
        } else {
            assert(bv[j as int] == b@[j as int]@);
            push_col(&mut out, b[j].as_slice(), 1, s2);
            j += 1;
        }
        assert(out@ + comm_rest(av, bv, i as int, j as int, show) =~= comm_rest(av, bv, 0, 0, show));
    }
    assert(out@ + Seq::<char>::empty() =~= out@);
    out
}

/// Execute `comm`.
pub fn execute(vfs: &Vfs, args: &[&str]) -> (r: Result<String, String>)
    ensures
        rv(r) == comm_spec(vfs, strs_view(args@)),
{
    let ghost av = strs_view(args@);
    let mut files: Vec<&str> = Vec::new();
    let mut i: usize = 0;
    while i < args.len()
        invariant
            i <= args@.len(),
            av == strs_view(args@),
            strs_view(files@) == comm_files(av.take(i as int)),
        decreases args.len() - i,
    {
        assert(av.take(i + 1).drop_last() == av.take(i as int));
        assert(av.take(i + 1).last() == args@[i as int]@);
        let a = args[i];
        if !(str_eq(a, "-1") || str_eq(a, "-2") || str_eq(a, "-3")) {
            let ghost before = files@;
            files.push(a);
            assert(strs_view(files@) =~= strs_view(before).push(a@));
        }
        i += 1;
    }
    assert(av.take(args@.len() as int) == av);
    let s1 = !strs_contains(args, "-1");
    let s2 = !strs_contains(args, "-2");
    let s3 = !strs_contains(args, "-3");
    if files.len() < 2 {
        return Err(to_owned_string("comm: missing file operand"));
    }
    if files.len() > 2 {
        return Err(to_owned_string("comm: too many arguments"));
    }
    assert(strs_view(files@)[0] == files@[0]@ && strs_view(files@)[1] == files@[1]@);
    let ca = vfs.read_file(files[0])?;
    let cb = vfs.read_file(files[1])?;
    let la = str_lines(ca.as_str());
    let lb = str_lines(cb.as_str());
    let out = comm_lines(&la, &lb, s1, s2, s3);
    Ok(string_of(out.as_slice()))
}

/// The `comm` command.
pub struct CommCommand;

impl Command for CommCommand {
    fn name(&self) -> (r: &'static str)
        ensures
            r@ == "comm"@,
    {
        "comm"
    }

    fn description(&self) -> (r: &'static str)
        ensures
            r@ == "Compare two sorted files line by line"@,
    {
        "Compare two sorted files line by line"
    }

    fn accepts_stdin(&self) -> (r: bool)
        ensures
            r,
    {
        true
    }

    fn execute(&self, ctx: &mut CommandContext) -> (r: Result<String, String>)
        ensures
            meets(outcome(CommandKind::Comm, state_of(old(ctx))), r, final(ctx)),
    {
        proof {
            lemma_vfs_of(ctx);
        }
        execute(ctx.vfs, ctx.args)
    }

    fn synopsis(&self) -> (r: &'static str)
        ensures
            r@ == "comm [-1] [-2] [-3] FILE1 FILE2"@,
    {
        "comm [-1] [-2] [-3] FILE1 FILE2"
    }

    fn man_description(&self) -> (r: &'static str)
        ensures
            r@ == "Compare two sorted files line by line. Output three tab-separated columns: lines only \
in FILE1, lines only in FILE2, and lines in both. Columns can be suppressed with flags: \
-1 suppress column 1, -2 suppress column 2, -3 suppress column 3. Both input files must be sorted."@,
    {
        "Compare two sorted files line by line. Output three tab-separated columns: lines only \
in FILE1, lines only in FILE2, and lines in both. Columns can be suppressed with flags: \
-1 suppress column 1, -2 suppress column 2, -3 suppress column 3. Both input files must be sorted."
    }

    fn examples(&self) -> (r: &'static [&'static str])
        ensures
            strs_view(r@) == seq!["comm file1 file2"@, "comm -1 -3 file1 file2"@],
    {
        let r: &'static [&'static str] = &["comm file1 file2", "comm -1 -3 file1 file2"];
        assert(r@ == seq!["comm file1 file2", "comm -1 -3 file1 file2"]);
        r
    }
}

} // verus!
