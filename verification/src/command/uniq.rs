//! `uniq [-c] file` -- collapse runs of equal adjacent lines into one,
//! with `-c` preceded by the length of the run.
use vstd::prelude::*;
use crate::text::{strs_view, chars_of, string_of, to_owned_string, str_eq, str_lines, chars_eq,
    push_all, lines, vv, unlines};
use crate::numeric::{nat_str, pad_left, push_u64_padded};
use crate::vfs::{Vfs, rv, read_spec};
use crate::command::kinds::outcome;
use crate::command::{Command, CommandContext, CommandKind, state_of, meets, lemma_vfs_of};

verus! {

/// The runs of equal adjacent lines: each distinct line of a run and the
/// run's length, in order.
pub open spec fn runs(ls: Seq<Seq<char>>) -> Seq<(Seq<char>, nat)>
    decreases ls.len(),
{
    if ls.len() == 0 {
        Seq::empty()
    } else {
        let r = runs(ls.drop_last());
        if r.len() > 0 && r.last().0 == ls.last() {
            r.update(r.len() - 1, (ls.last(), r.last().1 + 1))
        } else {
            r.push((ls.last(), 1))
        }
    }
}

/// The output line of a run.
pub open spec fn run_line(run: (Seq<char>, nat), count: bool) -> Seq<char> {
    if count {
        pad_left(nat_str(run.1), 6, ' ') + seq![' '] + run.0 + seq!['\n']
    } else {
        run.0 + seq!['\n']
    }
}

/// The output for a sequence of runs.
pub open spec fn render_runs(rs: Seq<(Seq<char>, nat)>, count: bool) -> Seq<char>
    decreases rs.len(),
{
    if rs.len() == 0 {
        Seq::empty()
    } else {
        render_runs(rs.drop_last(), count) + run_line(rs.last(), count)
    }
}

/// Whether `-c` was seen and the file operand, from `args[i..]`.
pub open spec fn uniq_args(args: Seq<Seq<char>>, i: int, count: bool, file: Option<Seq<char>>) -> Result<(bool, Option<Seq<char>>), Seq<char>>
    decreases args.len() - i,
{
    if i < 0 || i >= args.len() {
        Ok((count, file))
    } else if args[i] == "-c"@ {
        uniq_args(args, i + 1, true, file)
    } else if file is None {
        uniq_args(args, i + 1, count, Some(args[i]))
    } else {
        Err("uniq: too many arguments"@)
    }
}

/// The result of `uniq` on the given arguments.
pub open spec fn uniq_spec(vfs: &Vfs, args: Seq<Seq<char>>) -> Result<Seq<char>, Seq<char>> {
    match uniq_args(args, 0, false, None) {
        Err(e) => Err(e),
        Ok((count, f)) => match f {
            None => Err("uniq: missing file operand"@),
            Some(p) => match read_spec(vfs@, vfs.key(p)) {
                Err(e) => Err(e),
                Ok(c) => Ok(render_runs(runs(lines(c)), count)),
            },
        },
    }
}

fn push_run(out: &mut Vec<char>, line: &[char], n: usize, count: bool)
    ensures
        final(out)@ == old(out)@ + run_line((line@, n as nat), count),
{
    if count {
        push_u64_padded(out, n as u64, 6, ' ');
        out.push(' ');
    }
    push_all(out, line);
    out.push('\n');
    assert(out@ =~= old(out)@ + run_line((line@, n as nat), count));
}

proof fn lemma_render_push(rs: Seq<(Seq<char>, nat)>, x: (Seq<char>, nat), count: bool)
    ensures
        render_runs(rs.push(x), count) == render_runs(rs, count) + run_line(x, count),
{
    assert(rs.push(x).drop_last() =~= rs);
}

/// Collapse runs of equal adjacent lines.
pub fn uniq_lines(ls: &Vec<Vec<char>>, count: bool) -> (r: Vec<char>)
    ensures
        r@ == render_runs(runs(vv(ls@)), count),
{
    let ghost lv = vv(ls@);
    let mut out: Vec<char> = Vec::new();
    if ls.len() == 0 {
        return out;
    }
    let mut cur: usize = 0;
    let mut n: usize = 1;
    let ghost mut done: Seq<(Seq<char>, nat)> = Seq::empty();
    let mut k: usize = 1;
    assert(lv.take(1).drop_last() =~= Seq::<Seq<char>>::empty());
    assert(lv.take(1).last() == lv[0]);
    assert(runs(lv.take(1).drop_last()) =~= Seq::<(Seq<char>, nat)>::empty());
    assert(runs(lv.take(1)) =~= done.push((lv[0], 1nat)));
    while k < ls.len()
        invariant
            1 <= k <= ls@.len(),
            lv == vv(ls@),
            cur < k,
            1 <= n <= k,
            runs(lv.take(k as int)) == done.push((lv[cur as int], n as nat)),
            out@ == render_runs(done, count),
        decreases ls.len() - k,
    {
        assert(lv.take(k + 1).drop_last() == lv.take(k as int));
        assert(lv.take(k + 1).last() == lv[k as int]);
        assert(lv[k as int] == ls@[k as int]@ && lv[cur as int] == ls@[cur as int]@);
        if chars_eq(ls[k].as_slice(), ls[cur].as_slice()) {
            n += 1;
            assert(runs(lv.take(k + 1)) =~= done.push((lv[cur as int], n as nat)));
        } else {
            proof {
                lemma_render_push(done, (lv[cur as int], n as nat), count);
            }
            push_run(&mut out, ls[cur].as_slice(), n, count);
            proof {
                done = done.push((lv[cur as int], n as nat));
            }
            cur = k;
            n = 1;
        }
        k += 1;
    }
    assert(lv.take(ls@.len() as int) == lv);
    proof {
        lemma_render_push(done, (lv[cur as int], n as nat), count);
    }
    assert(lv[cur as int] == ls@[cur as int]@);
    push_run(&mut out, ls[cur].as_slice(), n, count);
    out
}

/// Execute `uniq`.
pub fn execute(vfs: &Vfs, args: &[&str]) -> (r: Result<String, String>)
    ensures
        rv(r) == uniq_spec(vfs, strs_view(args@)),
{
    let ghost av = strs_view(args@);
    let mut count = false;
    let mut file: Option<&str> = None;
    let mut i: usize = 0;
    while i < args.len()
        invariant
            i <= args@.len(),
            av == strs_view(args@),
            uniq_args(av, 0, false, None) == uniq_args(
                av,
                i as int,
                count,
                match file {
                    Some(p) => Some(p@),
                    None => None,
                },
            ),
        decreases args.len() - i,
    {
        assert(av[i as int] == args@[i as int]@);
        if str_eq(args[i], "-c") {
            count = true;
        } else if file.is_none() {
            file = Some(args[i]);
        } else {
            return Err(to_owned_string("uniq: too many arguments"));
        }
        i += 1;
    }
    let path = match file {
        Some(p) => p,
        None => return Err(to_owned_string("uniq: missing file operand")),
    };
    let content = vfs.read_file(path)?;
    let ls = str_lines(content.as_str());
    let out = uniq_lines(&ls, count);
    Ok(string_of(out.as_slice()))
}

/// The `uniq` command.
pub struct UniqCommand;

impl Command for UniqCommand {
    fn name(&self) -> (r: &'static str)
        ensures
            r@ == "uniq"@,
    {
        "uniq"
    }

    fn description(&self) -> (r: &'static str)
        ensures
            r@ == "Filter adjacent duplicate lines (-c for counts)"@,
    {
        "Filter adjacent duplicate lines (-c for counts)"
    }

    fn accepts_stdin(&self) -> (r: bool)
        ensures
            r,
    {
        true
    }

    fn execute(&self, ctx: &mut CommandContext) -> (r: Result<String, String>)
        ensures
            meets(outcome(CommandKind::Uniq, state_of(old(ctx))), r, final(ctx)),
    {
        proof {
            lemma_vfs_of(ctx);
        }
        execute(ctx.vfs, ctx.args)
    }

    fn synopsis(&self) -> (r: &'static str)
        ensures
            r@ == "uniq [-c] file"@,
    {
        "uniq [-c] file"
    }

    fn man_description(&self) -> (r: &'static str)
        ensures
            r@ == "Filter adjacent duplicate lines from a file, collapsing consecutive identical lines \
into a single line. Only truly adjacent duplicates are removed; identical lines separated by \
a different line are both kept. With -c, each output line is prefixed with its occurrence \
count, right-aligned in a 6-character field."@,
    {
        "Filter adjacent duplicate lines from a file, collapsing consecutive identical lines \
into a single line. Only truly adjacent duplicates are removed; identical lines separated by \
a different line are both kept. With -c, each output line is prefixed with its occurrence \
count, right-aligned in a 6-character field."
    }

    fn examples(&self) -> (r: &'static [&'static str])
        ensures
            strs_view(r@) == seq!["uniq file.txt"@, "sort file.txt | uniq -c"@],
    {
        let r: &'static [&'static str] = &["uniq file.txt", "sort file.txt | uniq -c"];
        assert(r@ == seq!["uniq file.txt", "sort file.txt | uniq -c"]);
        r
    }
}

/// `n` copies of the line `x`.
pub open spec fn copies(x: Seq<char>, n: nat) -> Seq<Seq<char>>
    decreases n,
{
    if n == 0 {
        Seq::empty()
    } else {
        copies(x, (n - 1) as nat).push(x)
    }
}

/// The lines that a sequence of (line, count) pairs stands for: each line
/// as many times as its count, in order.
pub open spec fn expand(rs: Seq<(Seq<char>, nat)>) -> Seq<Seq<char>>
    decreases rs.len(),
{
    if rs.len() == 0 {
        Seq::empty()
    } else {
        expand(rs.drop_last()) + copies(rs.last().0, rs.last().1)
    }
}

/// Sum of the counts.
pub open spec fn count_sum(rs: Seq<(Seq<char>, nat)>) -> nat
    decreases rs.len(),
{
    if rs.len() == 0 {
        0
    } else {
        count_sum(rs.drop_last()) + rs.last().1
    }
}

proof fn lemma_expand_len(rs: Seq<(Seq<char>, nat)>)
    ensures
        expand(rs).len() == count_sum(rs),
    decreases rs.len(),
{
    if rs.len() > 0 {
        lemma_expand_len(rs.drop_last());
        lemma_copies_len(rs.last().0, rs.last().1);
    }
}

proof fn lemma_copies_len(x: Seq<char>, n: nat)
    ensures
        copies(x, n).len() == n,
    decreases n,
{
    if n > 0 {
        lemma_copies_len(x, (n - 1) as nat);
    }
}

/// `uniq` groups its input into maximal runs: repeating each output line
/// as often as its count gives back the input exactly, every count is at
/// least one, and neighbouring output lines differ (so each run is as long
/// as it can be). Hence the counts `uniq -c` prints sum to the number of
/// input lines.
pub proof fn law_uniq_runs(ls: Seq<Seq<char>>)
    ensures
        expand(runs(ls)) == ls,
        forall|i: int| 0 <= i < runs(ls).len() ==> #[trigger] runs(ls)[i].1 >= 1,
        forall|i: int| 0 <= i < runs(ls).len() - 1 ==> #[trigger] runs(ls)[i].0 != runs(ls)[i + 1].0,
        count_sum(runs(ls)) == ls.len(),
    decreases ls.len(),
{
    if ls.len() > 0 {
        let init = ls.drop_last();
        let x = ls.last();
        law_uniq_runs(init);
        let r = runs(init);
        if r.len() > 0 && r.last().0 == x {
            let u = r.update(r.len() - 1, (x, r.last().1 + 1));
            assert(u.drop_last() =~= r.drop_last());
            assert(copies(x, r.last().1 + 1) == copies(x, r.last().1).push(x));
            assert(expand(r) == expand(r.drop_last()) + copies(x, r.last().1));
            assert(expand(u) =~= expand(r).push(x));
            assert(count_sum(u) == count_sum(r) + 1);
            assert forall|i: int| 0 <= i < u.len() - 1 implies #[trigger] u[i].0 != u[i + 1].0 by {
                assert(r[i].0 != r[i + 1].0);
            }
        } else {
            let u = r.push((x, 1nat));
            assert(u.drop_last() =~= r);
            assert(copies(x, 0) =~= Seq::<Seq<char>>::empty());
            assert(copies(x, 1) == copies(x, 0).push(x));
            assert(copies(x, 1) =~= seq![x]);
            assert(expand(u) =~= expand(r).push(x));
            assert forall|i: int| 0 <= i < u.len() - 1 implies #[trigger] u[i].0 != u[i + 1].0 by {
                if i < r.len() - 1 {
                    assert(r[i].0 != r[i + 1].0);
                }
            }
        }
        assert(ls =~= init.push(x));
    }
}

/// The lines of `ls` that differ from the line before them (the first line
/// always counts), in order.
pub open spec fn changes_of(ls: Seq<Seq<char>>) -> Seq<Seq<char>>
    decreases ls.len(),
{
    if ls.len() == 0 {
        Seq::empty()
    } else if ls.len() > 1 && ls[ls.len() - 2] == ls.last() {
        changes_of(ls.drop_last())
    } else {
        changes_of(ls.drop_last()).push(ls.last())
    }
}

proof fn lemma_run_heads(ls: Seq<Seq<char>>)
    ensures
        runs(ls).map_values(|r: (Seq<char>, nat)| r.0) == changes_of(ls),
        ls.len() > 0 ==> runs(ls).len() > 0 && runs(ls).last().0 == ls.last(),
    decreases ls.len(),
{
    if ls.len() > 0 {
        let init = ls.drop_last();
        lemma_run_heads(init);
        let r = runs(init);
        if init.len() > 0 {
            assert(init.last() == ls[ls.len() - 2]);
        }
        if r.len() > 0 && r.last().0 == ls.last() {
            assert(runs(ls).map_values(|r: (Seq<char>, nat)| r.0) =~= r.map_values(|r: (Seq<char>, nat)| r.0));
        } else {
            assert(runs(ls).map_values(|r: (Seq<char>, nat)| r.0) =~= r.map_values(|r: (Seq<char>, nat)| r.0).push(
                ls.last(),
            ));
        }
    }
}

proof fn lemma_render_plain(rs: Seq<(Seq<char>, nat)>)
    ensures
        render_runs(rs, false) == unlines(rs.map_values(|r: (Seq<char>, nat)| r.0)),
    decreases rs.len(),
{
    if rs.len() > 0 {
        lemma_render_plain(rs.drop_last());
        assert(rs.map_values(|r: (Seq<char>, nat)| r.0).drop_last() =~= rs.drop_last().map_values(
            |r: (Seq<char>, nat)| r.0,
        ));
    }
}

/// Without `-c`, `uniq` prints each line of its input that differs from
/// the line before it (and the first line), in order, each once.
pub proof fn law_uniq_plain(ls: Seq<Seq<char>>)
    ensures
        render_runs(runs(ls), false) == unlines(changes_of(ls)),
{
    lemma_run_heads(ls);
    lemma_render_plain(runs(ls));
}

} // verus!
