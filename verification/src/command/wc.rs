//! `wc [-l] [-w] [-c] file...` -- count lines, words and characters.
//!
//! Without flags all three counts are shown. Each file gets a row of the
//! selected counts, right-aligned in six columns, then its name; with more
//! than one file a `total` row follows.
use vstd::prelude::*;
use crate::text::{strs_view, chars_of, string_of, to_owned_string, push_str, push_all, str_eq,
    split_lines, split_words, join, join_chars, lines, words, vv};
use crate::numeric::{nat_str, pad_left, push_u64_padded};
use crate::vfs::{Vfs, rv, read_spec};
use crate::command::kinds::outcome;
use crate::command::vfs_of;
use crate::command::{Command, CommandContext, CommandKind, state_of, meets, lemma_vfs_of};

verus! {

/// An argument that selects a count.
pub open spec fn wc_flag(a: Seq<char>) -> bool {
    a == "-l"@ || a == "-w"@ || a == "-c"@
}

/// The file operands: the arguments that are not count flags, in order.
pub open spec fn wc_files(args: Seq<Seq<char>>) -> Seq<Seq<char>>
    decreases args.len(),
{
    if args.len() == 0 {
        Seq::empty()
    } else if wc_flag(args.last()) {
        wc_files(args.drop_last())
    } else {
        wc_files(args.drop_last()).push(args.last())
    }
}

/// Which counts are shown: lines, words, characters.
pub open spec fn wc_show(args: Seq<Seq<char>>) -> (bool, bool, bool) {
    let l = args.contains("-l"@);
    let w = args.contains("-w"@);
    let c = args.contains("-c"@);
    if !l && !w && !c {
        (true, true, true)
    } else {
        (l, w, c)
    }
}

/// A count right-aligned in six columns.
pub open spec fn col(n: nat) -> Seq<char> {
    pad_left(nat_str(n), 6, ' ')
}

/// The selected counts of a row, space-separated.
pub open spec fn wc_row(l: nat, w: nat, c: nat, show: (bool, bool, bool)) -> Seq<char> {
    let p1: Seq<Seq<char>> = if show.0 { seq![col(l)] } else { Seq::empty() };
    let p2: Seq<Seq<char>> = if show.1 { seq![col(w)] } else { Seq::empty() };
    let p3: Seq<Seq<char>> = if show.2 { seq![col(c)] } else { Seq::empty() };
    join(p1 + p2 + p3, seq![' '])
}

/// A total, capped at the largest machine word.
pub open spec fn capped(n: nat) -> nat {
    if n > usize::MAX {
        usize::MAX as nat
    } else {
        n
    }
}

/// The rows for `files` and the totals of their counts, or the first
/// read error.
pub open spec fn wc_acc(vfs: &Vfs, files: Seq<Seq<char>>, show: (bool, bool, bool)) -> Result<(Seq<char>, nat, nat, nat), Seq<char>>
    decreases files.len(),
{
    if files.len() == 0 {
        Ok((Seq::empty(), 0, 0, 0))
    } else {
        match wc_acc(vfs, files.drop_last(), show) {
            Err(e) => Err(e),
            Ok((o, tl, tw, tc)) => match read_spec(vfs@, vfs.key(files.last())) {
                Err(e) => Err(e),
                Ok(t) => {
                    let (l, w, c) = (lines(t).len(), words(t).len(), t.len());
                    Ok((o + wc_row(l, w, c, show) + seq![' '] + files.last() + seq!['\n'], tl + l, tw + w, tc + c))
                },
            },
        }
    }
}

/// The result of `wc` on the given arguments.
pub open spec fn wc_spec(vfs: &Vfs, args: Seq<Seq<char>>) -> Result<Seq<char>, Seq<char>> {
    let files = wc_files(args);
    let show = wc_show(args);
    if files.len() == 0 {
        Err("wc: missing file operand"@)
    } else {
        match wc_acc(vfs, files, show) {
            Err(e) => Err(e),
            Ok((o, tl, tw, tc)) => if files.len() > 1 {
                Ok(o + wc_row(capped(tl), capped(tw), capped(tc), show) + " total\n"@)
            } else {
                Ok(o)
            },
        }
    }
}

proof fn lemma_wc_acc_err(vfs: &Vfs, files: Seq<Seq<char>>, k: int, show: (bool, bool, bool))
    requires
        0 <= k <= files.len(),
        wc_acc(vfs, files.take(k), show) is Err,
    ensures
        wc_acc(vfs, files, show) == wc_acc(vfs, files.take(k), show),
    decreases files.len(),
{
    if k == files.len() {
        assert(files.take(k) == files);
    } else {
        assert(files.drop_last().take(k) == files.take(k));
        lemma_wc_acc_err(vfs, files.drop_last(), k, show);
    }
}

fn push_row(out: &mut Vec<char>, l: usize, w: usize, c: usize, sl: bool, sw: bool, sc: bool)
    ensures
        final(out)@ == old(out)@ + wc_row(l as nat, w as nat, c as nat, (sl, sw, sc)),
{
    let mut parts: Vec<Vec<char>> = Vec::new();
    let ghost p1: Seq<Seq<char>> = if sl { seq![col(l as nat)] } else { Seq::empty() };
    let ghost p2: Seq<Seq<char>> = if sw { seq![col(w as nat)] } else { Seq::empty() };
    let ghost p3: Seq<Seq<char>> = if sc { seq![col(c as nat)] } else { Seq::empty() };
    if sl {
        let mut v: Vec<char> = Vec::new();
        push_u64_padded(&mut v, l as u64, 6, ' ');
        parts.push(v);
    }
    assert(vv(parts@) =~= p1);
    if sw {
        let mut v: Vec<char> = Vec::new();
        push_u64_padded(&mut v, w as u64, 6, ' ');
        parts.push(v);
    }
    assert(vv(parts@) =~= p1 + p2);
    if sc {
        let mut v: Vec<char> = Vec::new();
        push_u64_padded(&mut v, c as u64, 6, ' ');
        parts.push(v);
    }
    assert(vv(parts@) =~= p1 + p2 + p3);
    let mut sep: Vec<char> = Vec::new();
    sep.push(' ');
    assert(sep@ =~= seq![' ']);
    let row = join_chars(&parts, sep.as_slice());
    push_all(out, row.as_slice());
}


/// `wc` depends on a file system only through its nodes and directory.
pub proof fn lemma_wc_acc_view(v1: &Vfs, v2: &Vfs, files: Seq<Seq<char>>, show: (bool, bool, bool))
    requires
        v1@ == v2@,
        v1.cwd@ == v2.cwd@,
    ensures
        wc_acc(v1, files, show) == wc_acc(v2, files, show),
    decreases files.len(),
{
    if files.len() > 0 {
        lemma_wc_acc_view(v1, v2, files.drop_last(), show);
    }
}

/// `wc` depends on a file system only through its nodes and directory.
pub proof fn lemma_wc_view(v1: &Vfs, v2: &Vfs, args: Seq<Seq<char>>)
    requires
        v1@ == v2@,
        v1.cwd@ == v2.cwd@,
    ensures
        wc_spec(v1, args) == wc_spec(v2, args),
{
    lemma_wc_acc_view(v1, v2, wc_files(args), wc_show(args));
}

/// Execute `wc`.
pub fn execute(vfs: &Vfs, args: &[&str]) -> (r: Result<String, String>)
    ensures
        rv(r) == wc_spec(vfs, strs_view(args@)),
{
    let ghost av = strs_view(args@);
    let mut files: Vec<&str> = Vec::new();
    let mut i: usize = 0;
    while i < args.len()
        invariant
            i <= args@.len(),
            av == strs_view(args@),
            strs_view(files@) == wc_files(av.take(i as int)),
        decreases args.len() - i,
    {
        assert(av.take(i + 1).drop_last() == av.take(i as int));
        assert(av.take(i + 1).last() == args@[i as int]@);
        let a = args[i];
        let is_flag = str_eq(a, "-l") || str_eq(a, "-w") || str_eq(a, "-c");
        if !is_flag {
            let ghost before = files@;
            files.push(a);
            assert(strs_view(files@) =~= strs_view(before).push(a@));
        }
        i += 1;
    }
    assert(av.take(args@.len() as int) == av);
    let mut sl = crate::text::strs_contains(args, "-l");
    let mut sw = crate::text::strs_contains(args, "-w");
    let mut sc = crate::text::strs_contains(args, "-c");
    if !sl && !sw && !sc {
        sl = true;
        sw = true;
        sc = true;
    }
    if files.len() == 0 {
        return Err(to_owned_string("wc: missing file operand"));
    }
    let ghost fv = strs_view(files@);
    let ghost show = (sl, sw, sc);
    let mut out: Vec<char> = Vec::new();
    let mut tl: usize = 0;
    let mut tw: usize = 0;
    let mut tc: usize = 0;
    let mut k: usize = 0;
    while k < files.len()
        invariant
            k <= files@.len(),
            fv == strs_view(files@),
            show == (sl, sw, sc),
            fv == wc_files(av),
            show == wc_show(av),
            av == strs_view(args@),
            match wc_acc(vfs, fv.take(k as int), show) {
                Ok((o, a, b, c)) => out@ == o && tl as nat == capped(a) && tw as nat == capped(b)
                    && tc as nat == capped(c),
                Err(_) => false,
            },
        decreases files.len() - k,
    {
        assert(fv.take(k + 1).drop_last() == fv.take(k as int));
        assert(fv.take(k + 1).last() == files@[k as int]@);
        let path = files[k];
        let content = match vfs.read_file(path) {
            Ok(c) => c,
            Err(e) => {
                proof {
                    assert(wc_acc(vfs, fv.take(k + 1), show) == Err::<(Seq<char>, nat, nat, nat), Seq<char>>(e@));
                    lemma_wc_acc_err(vfs, fv, k + 1, show);
                    assert(fv == wc_files(av));
                    assert(show == wc_show(av));
                    assert(wc_acc(vfs, fv, show) == Err::<(Seq<char>, nat, nat, nat), Seq<char>>(e@));
                    assert(fv.len() > 0);
                    assert(wc_spec(vfs, av) == Err::<Seq<char>, Seq<char>>(e@));
                }
                return Err(e);
            },
        };
        let cs = chars_of(content.as_str());
        let nl = split_lines(cs.as_slice()).len();
        let nw = split_words(cs.as_slice()).len();
        let nc = cs.len();
        push_row(&mut out, nl, nw, nc, sl, sw, sc);
        out.push(' ');
        push_str(&mut out, path);
        out.push('\n');
        tl = tl.saturating_add(nl);
        tw = tw.saturating_add(nw);
        tc = tc.saturating_add(nc);
        k += 1;
        assert(out@ =~= wc_acc(vfs, fv.take(k as int), show)->Ok_0.0);
    }
    assert(fv.take(files@.len() as int) == fv);
    if files.len() > 1 {
        push_row(&mut out, tl, tw, tc, sl, sw, sc);
        push_str(&mut out, " total\n");
    }
    Ok(string_of(out.as_slice()))
}

/// The `wc` command.
pub struct WcCommand;

impl Command for WcCommand {
    fn name(&self) -> (r: &'static str)
        ensures
            r@ == "wc"@,
    {
        "wc"
    }

    fn description(&self) -> (r: &'static str)
        ensures
            r@ == "Count lines, words, and characters (-l -w -c)"@,
    {
        "Count lines, words, and characters (-l -w -c)"
    }

    fn accepts_stdin(&self) -> (r: bool)
        ensures
            r,
    {
        true
    }

    fn execute(&self, ctx: &mut CommandContext) -> (r: Result<String, String>)
        ensures
            meets(outcome(CommandKind::Wc, state_of(old(ctx))), r, final(ctx)),
    {
        proof {
            lemma_vfs_of(ctx);
            lemma_wc_view(ctx.vfs, &vfs_of(state_of(ctx)), state_of(ctx).args);
        }
        execute(ctx.vfs, ctx.args)
    }

    fn synopsis(&self) -> (r: &'static str)
        ensures
            r@ == "wc [-l] [-w] [-c] file [file2 ...]"@,
    {
        "wc [-l] [-w] [-c] file [file2 ...]"
    }

    fn man_description(&self) -> (r: &'static str)
        ensures
            r@ == "Count lines, words, and characters in one or more files. By default all three counts \
are displayed. Use -l to show only lines, -w to show only words, or -c to show only \
characters. When multiple files are given, a summary total line is appended."@,
    {
        "Count lines, words, and characters in one or more files. By default all three counts \
are displayed. Use -l to show only lines, -w to show only words, or -c to show only \
characters. When multiple files are given, a summary total line is appended."
    }

    fn examples(&self) -> (r: &'static [&'static str])
        ensures
            strs_view(r@) == seq!["wc file.txt"@, "wc -l *.txt"@],
    {
        let r: &'static [&'static str] = &["wc file.txt", "wc -l *.txt"];
        assert(r@ == seq!["wc file.txt", "wc -l *.txt"]);
        r
    }
}

/// The line, word and character counts of a text.
pub open spec fn text_counts(t: Seq<char>) -> (nat, nat, nat) {
    (lines(t).len(), words(t).len(), t.len())
}

/// The sums of the counts of the texts of `files`, each file's text read
/// from `vfs` (an unreadable file counts nothing).
pub open spec fn summed_counts(vfs: &Vfs, files: Seq<Seq<char>>) -> (nat, nat, nat)
    decreases files.len(),
{
    if files.len() == 0 {
        (0, 0, 0)
    } else {
        let prev = summed_counts(vfs, files.drop_last());
        let t = match read_spec(vfs@, vfs.key(files.last())) {
            Ok(t) => t,
            Err(_) => Seq::empty(),
        };
        (prev.0 + text_counts(t).0, prev.1 + text_counts(t).1, prev.2 + text_counts(t).2)
    }
}

/// One row per file: the file's line, word and character counts (as
/// selected by `show`), then its name.
pub open spec fn file_rows(vfs: &Vfs, files: Seq<Seq<char>>, show: (bool, bool, bool)) -> Seq<char>
    decreases files.len(),
{
    if files.len() == 0 {
        Seq::empty()
    } else {
        let t = match read_spec(vfs@, vfs.key(files.last())) {
            Ok(t) => t,
            Err(_) => Seq::empty(),
        };
        file_rows(vfs, files.drop_last(), show) + wc_row(text_counts(t).0, text_counts(t).1, text_counts(t).2, show)
            + seq![' '] + files.last() + seq!['\n']
    }
}

/// When every file can be read, `wc` shows one row per file with that
/// file's line, word and character counts, and its totals are the sums of
/// those counts.
proof fn lemma_wc_totals(vfs: &Vfs, files: Seq<Seq<char>>, show: (bool, bool, bool))
    requires
        wc_acc(vfs, files, show) is Ok,
    ensures
        (wc_acc(vfs, files, show)->Ok_0.1, wc_acc(vfs, files, show)->Ok_0.2, wc_acc(vfs, files, show)->Ok_0.3)
            == summed_counts(vfs, files),
        wc_acc(vfs, files, show)->Ok_0.0 == file_rows(vfs, files, show),
    decreases files.len(),
{
    if files.len() > 0 {
        lemma_wc_totals(vfs, files.drop_last(), show);
    }
}

/// `wc` over several files shows a row per file with that file's own line,
/// word and character counts, then a total row that shows, in each column,
/// the sum of that column over the files' rows.
pub proof fn law_wc_total_row(vfs: &Vfs, args: Seq<Seq<char>>)
    requires
        wc_files(args).len() > 1,
        wc_spec(vfs, args) is Ok,
    ensures
        wc_spec(vfs, args) == Ok::<Seq<char>, Seq<char>>(
                file_rows(vfs, wc_files(args), wc_show(args)) + wc_row(
                    capped(summed_counts(vfs, wc_files(args)).0),
                    capped(summed_counts(vfs, wc_files(args)).1),
                    capped(summed_counts(vfs, wc_files(args)).2),
                    wc_show(args),
                ) + " total\n"@,
            ),
{
    let files = wc_files(args);
    let show = wc_show(args);
    assert(wc_acc(vfs, files, show) is Ok);
    lemma_wc_totals(vfs, files, show);
    let o = wc_acc(vfs, files, show)->Ok_0.0;
    assert(wc_spec(vfs, args) == Ok::<Seq<char>, Seq<char>>(
        o + wc_row(
            capped(summed_counts(vfs, files).0),
            capped(summed_counts(vfs, files).1),
            capped(summed_counts(vfs, files).2),
            show,
        ) + " total\n"@,
    ));
}

} // verus!
