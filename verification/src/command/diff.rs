//! `diff file1 file2` -- compare two files line by line.
//!
//! The comparison is driven by a longest common subsequence of the two
//! line sequences: the lines outside it are reported, in a simplified
//! unified format (`--- a`, `+++ b`, then `@@ line N @@` before each block
//! of consecutive changes, each change written `- text` or `+ text`).
//! Identical files produce no output.
use vstd::prelude::*;
use crate::text::{strs_view, strs_to_chars, chars_of, chars_eq, push_all, push_str, str_lines,
    string_of, to_owned_string, join, join_chars, lines, vv, starts_with};
use crate::numeric::{nat_str, push_u64};
use crate::vfs::{Vfs, rv, read_spec};
use crate::command::kinds::outcome;
use crate::command::{Command, CommandContext, CommandKind, state_of, meets, lemma_vfs_of};

verus! {

/// One step of an edit script: its kind (`' '` common, `'-'` removed,
/// `'+'` added), the 1-based line number it refers to, and the line.
pub type OpView = (char, nat, Seq<char>);

/// An executable edit step.
pub type DiffOp = (char, usize, Vec<char>);

/// The view of an edit step.
pub open spec fn opv(o: DiffOp) -> OpView {
    (o.0, o.1 as nat, o.2@)
}

/// The views of a sequence of edit steps.
pub open spec fn opsv(v: Seq<DiffOp>) -> Seq<OpView> {
    v.map_values(|o: DiffOp| opv(o))
}

/// Length of a longest common subsequence of `a[..i]` and `b[..j]`.
pub open spec fn lcs_len(a: Seq<Seq<char>>, b: Seq<Seq<char>>, i: nat, j: nat) -> nat
    decreases i + j,
{
    if i == 0 || j == 0 {
        0
    } else if a[i - 1] == b[j - 1] {
        lcs_len(a, b, (i - 1) as nat, (j - 1) as nat) + 1
    } else {
        let x = lcs_len(a, b, (i - 1) as nat, j);
        let y = lcs_len(a, b, i, (j - 1) as nat);
        if x >= y {
            x
        } else {
            y
        }
    }
}

/// The edit script turning `a[..i]` into `b[..j]`, in order: equal last
/// lines are kept, otherwise the longer common subsequence decides, an
/// addition winning a tie.
pub open spec fn diff_ops(a: Seq<Seq<char>>, b: Seq<Seq<char>>, i: nat, j: nat) -> Seq<OpView>
    decreases i + j,
{
    if i == 0 && j == 0 {
        Seq::empty()
    } else if i > 0 && j > 0 && a[i - 1] == b[j - 1] {
        diff_ops(a, b, (i - 1) as nat, (j - 1) as nat).push((' ', i, a[i - 1]))
    } else if j > 0 && (i == 0 || lcs_len(a, b, i, (j - 1) as nat) >= lcs_len(a, b, (i - 1) as nat, j)) {
        diff_ops(a, b, i, (j - 1) as nat).push(('+', j, b[j - 1]))
    } else {
        diff_ops(a, b, (i - 1) as nat, j).push(('-', i, a[i - 1]))
    }
}

/// The output line of a change: its kind, a space, the text.
pub open spec fn change_line(op: OpView) -> Seq<char> {
    seq![op.0, ' '] + op.2
}

/// The hunk header of a block starting at line `n`.
pub open spec fn hunk_header(n: nat) -> Seq<char> {
    "@@ line "@ + nat_str(n) + " @@"@
}

/// Output lines and whether a block of changes is open, after the steps
/// `ops`: common lines close a block, the first change of a block writes
/// its header (preceded, the first time, by the two file-name lines).
pub open spec fn render_acc(ops: Seq<OpView>, na: Seq<char>, nb: Seq<char>) -> (Seq<Seq<char>>, bool)
    decreases ops.len(),
{
    if ops.len() == 0 {
        (Seq::empty(), false)
    } else {
        let prev = render_acc(ops.drop_last(), na, nb);
        let op = ops.last();
        if op.0 == ' ' {
            (prev.0, false)
        } else {
            let opened = if prev.1 {
                prev.0
            } else if prev.0.len() == 0 {
                prev.0.push("--- "@ + na).push("+++ "@ + nb).push(hunk_header(op.1))
            } else {
                prev.0.push(hunk_header(op.1))
            };
            (opened.push(change_line(op)), true)
        }
    }
}

/// The diff output lines for the line sequences `a` and `b`.
pub open spec fn diff_lines(a: Seq<Seq<char>>, b: Seq<Seq<char>>, na: Seq<char>, nb: Seq<char>) -> Seq<Seq<char>> {
    render_acc(diff_ops(a, b, a.len(), b.len()), na, nb).0
}

/// The result of `diff` on the given arguments.
pub open spec fn diff_spec(vfs: &Vfs, args: Seq<Seq<char>>) -> Result<Seq<char>, Seq<char>> {
    if args.len() < 2 {
        Err("diff: missing file operand"@)
    } else if args.len() > 2 {
        Err("diff: too many arguments"@)
    } else {
        match read_spec(vfs@, vfs.key(args[0])) {
            Err(e) => Err(e),
            Ok(ca) => match read_spec(vfs@, vfs.key(args[1])) {
                Err(e) => Err(e),
                Ok(cb) => {
                    let out = diff_lines(lines(ca), lines(cb), args[0], args[1]);
                    if out.len() == 0 {
                        Ok(Seq::empty())
                    } else {
                        Ok(join(out, seq!['\n']) + seq!['\n'])
                    }
                },
            },
        }
    }
}

proof fn lemma_lcs_bound(a: Seq<Seq<char>>, b: Seq<Seq<char>>, i: nat, j: nat)
    ensures
        lcs_len(a, b, i, j) <= i,
    decreases i + j,
{
    if i > 0 && j > 0 {
        if a[i - 1] == b[j - 1] {
            lemma_lcs_bound(a, b, (i - 1) as nat, (j - 1) as nat);
        } else {
            lemma_lcs_bound(a, b, (i - 1) as nat, j);
            lemma_lcs_bound(a, b, i, (j - 1) as nat);
        }
    }
}

proof fn lemma_ops_len(a: Seq<Seq<char>>, b: Seq<Seq<char>>, i: nat, j: nat)
    ensures
        diff_ops(a, b, i, j).len() <= i + j,
    decreases i + j,
{
    if i == 0 && j == 0 {
    } else if i > 0 && j > 0 && a[i - 1] == b[j - 1] {
        lemma_ops_len(a, b, (i - 1) as nat, (j - 1) as nat);
    } else if j > 0 && (i == 0 || lcs_len(a, b, i, (j - 1) as nat) >= lcs_len(a, b, (i - 1) as nat, j)) {
        lemma_ops_len(a, b, i, (j - 1) as nat);
    } else {
        lemma_ops_len(a, b, (i - 1) as nat, j);
    }
}

/// The table of longest-common-subsequence lengths of all prefixes.
fn lcs_table(a: &Vec<Vec<char>>, b: &Vec<Vec<char>>) -> (dp: Vec<Vec<usize>>)
    ensures
        dp@.len() == a@.len() + 1,
        forall|i: int| 0 <= i <= a@.len() ==> #[trigger] dp@[i]@.len() == b@.len() + 1,
        forall|i: int, j: int|
            0 <= i <= a@.len() && 0 <= j <= b@.len() ==> #[trigger] dp@[i]@[j] == lcs_len(
                vv(a@),
                vv(b@),
                i as nat,
                j as nat,
            ),
{
    let ghost av = vv(a@);
    let ghost bv = vv(b@);
    let n = a.len();
    let m = b.len();
    let mut dp: Vec<Vec<usize>> = Vec::new();
    let mut row0: Vec<usize> = Vec::new();
    row0.push(0);
    let mut j: usize = 0;
    while j < m
        invariant
            j <= m,
            m == b@.len(),
            row0@.len() == j + 1,
            forall|k: int| 0 <= k <= j ==> row0@[k] == 0,
        decreases m - j,
    {
        row0.push(0);
        j += 1;
    }
    dp.push(row0);
    let mut k: usize = 0;
    while k < n
        invariant
            k <= n,
            n == a@.len(),
            m == b@.len(),
            av == vv(a@),
            bv == vv(b@),
            dp@.len() == k + 1,
            forall|r: int| 0 <= r <= k ==> #[trigger] dp@[r]@.len() == m + 1,
            forall|r: int, c: int| 0 <= r <= k && 0 <= c <= m ==> #[trigger] dp@[r]@[c] == lcs_len(av, bv, r as nat, c as nat),
        decreases n - k,
    {
        let i = k + 1;
        let mut row: Vec<usize> = Vec::new();
        row.push(0);
        let mut q: usize = 0;
        while q < m
            invariant
                k < n,
                i == k + 1,
                q <= m,
                n == a@.len(),
                m == b@.len(),
                av == vv(a@),
                bv == vv(b@),
                dp@.len() == i,
                forall|r: int| 0 <= r < i ==> #[trigger] dp@[r]@.len() == m + 1,
                forall|r: int, c: int| 0 <= r < i && 0 <= c <= m ==> #[trigger] dp@[r]@[c] == lcs_len(av, bv, r as nat, c as nat),
                row@.len() == q + 1,
                forall|c: int| 0 <= c <= q ==> #[trigger] row@[c] == lcs_len(av, bv, i as nat, c as nat),
            decreases m - q,
        {
            let j = q + 1;
            assert(av[i - 1] == a@[i - 1]@ && bv[j - 1] == b@[j - 1]@);
            let same = chars_eq(a[i - 1].as_slice(), b[j - 1].as_slice());
            let v: usize = if same {
                proof {
                    lemma_lcs_bound(av, bv, (i - 1) as nat, (j - 1) as nat);
                }
                dp[i - 1][j - 1] + 1
            } else {
                let x = dp[i - 1][j];
                let y = row[j - 1];
                if x >= y {
                    x
                } else {
                    y
                }
            };
            row.push(v);
            q += 1;
        }
        dp.push(row);
        k += 1;
    }
    dp
}

/// The edit script of `a` into `b`, in order.
fn diff_script(a: &Vec<Vec<char>>, b: &Vec<Vec<char>>) -> (r: Vec<DiffOp>)
    ensures
        opsv(r@) == diff_ops(vv(a@), vv(b@), a@.len() as nat, b@.len() as nat),
{
    let ghost av = vv(a@);
    let ghost bv = vv(b@);
    let dp = lcs_table(a, b);
    let ghost full = diff_ops(av, bv, a@.len() as nat, b@.len() as nat);
    let ghost total = full.len();
    proof {
        lemma_ops_len(av, bv, a@.len() as nat, b@.len() as nat);
    }
    let mut i: usize = a.len();
    let mut j: usize = b.len();
    let mut rev: Vec<DiffOp> = Vec::new();
    assert(full.take(total as int) == full);
    while i > 0 || j > 0
        invariant
            i <= a@.len(),
            j <= b@.len(),
            av == vv(a@),
            bv == vv(b@),
            full == diff_ops(av, bv, a@.len() as nat, b@.len() as nat),
            total == full.len(),
            dp@.len() == a@.len() + 1,
            forall|r: int| 0 <= r <= a@.len() ==> #[trigger] dp@[r]@.len() == b@.len() + 1,
            forall|r: int, c: int| 0 <= r <= a@.len() && 0 <= c <= b@.len() ==> #[trigger] dp@[r]@[c] == lcs_len(av, bv, r as nat, c as nat),
            rev@.len() <= total,
            diff_ops(av, bv, i as nat, j as nat) == full.take(total - rev@.len()),
            forall|t: int| 0 <= t < rev@.len() ==> opv(#[trigger] rev@[t]) == full[total - 1 - t],
        decreases i + j,
    {
        let ghost cur = diff_ops(av, bv, i as nat, j as nat);
        let ghost k = rev@.len();
        let same = i > 0 && j > 0 && chars_eq(a[i - 1].as_slice(), b[j - 1].as_slice());
        proof {
            if i > 0 && j > 0 {
                assert(av[i - 1] == a@[i - 1]@ && bv[j - 1] == b@[j - 1]@);
            }
        }
        let op: DiffOp;
        if same {
            op = (' ', i, crate::text::copy_chars(a[i - 1].as_slice()));
            i -= 1;
            j -= 1;
        } else if j > 0 && (i == 0 || dp[i][j - 1] >= dp[i - 1][j]) {
            op = ('+', j, crate::text::copy_chars(b[j - 1].as_slice()));
            j -= 1;
        } else {
            op = ('-', i, crate::text::copy_chars(a[i - 1].as_slice()));
            i -= 1;
        }
        proof {
            assert(cur == diff_ops(av, bv, i as nat, j as nat).push(opv(op)));
            assert(full.take(total - k - 1) =~= cur.drop_last());
            assert(full[total - 1 - k] == cur.last());
        }
        rev.push(op);
    }
    assert(rev@.len() == total);
    let mut r: Vec<DiffOp> = Vec::new();
    let mut t: usize = rev.len();
    while t > 0
        invariant
            t <= rev@.len(),
            rev@.len() == total,
            full.len() == total,
            forall|s: int| 0 <= s < rev@.len() ==> opv(#[trigger] rev@[s]) == full[total - 1 - s],
            r@.len() == total - t,
            forall|s: int| 0 <= s < r@.len() ==> opv(#[trigger] r@[s]) == full[s],
        decreases t,
    {
        t -= 1;
        let o = &rev[t];
        r.push((o.0, o.1, crate::text::copy_chars(o.2.as_slice())));
        assert(opv(rev@[t as int]) == full[total - 1 - t]);
    }
    assert(opsv(r@) =~= full);
    r
}

/// The diff output lines for two line sequences, or nothing when they are
/// equal.
pub fn compute_diff(a: &Vec<Vec<char>>, b: &Vec<Vec<char>>, name_a: &str, name_b: &str) -> (r: Vec<Vec<char>>)
    ensures
        vv(r@) == diff_lines(vv(a@), vv(b@), name_a@, name_b@),
        (r@.len() == 0) == (vv(a@) == vv(b@)),
{
    proof {
        law_diff_empty_iff_same(vv(a@), vv(b@), name_a@, name_b@);
    }
    let ops = diff_script(a, b);
    let ghost os = opsv(ops@);
    let mut out: Vec<Vec<char>> = Vec::new();
    let mut open = false;
    let mut t: usize = 0;
    while t < ops.len()
        invariant
            t <= ops@.len(),
            os == opsv(ops@),
            (vv(out@), open) == render_acc(os.take(t as int), name_a@, name_b@),
        decreases ops.len() - t,
    {
        assert(os.take(t + 1).drop_last() == os.take(t as int));
        assert(os.take(t + 1).last() == opv(ops@[t as int]));
        let ghost before = vv(out@);
        let ghost prev = render_acc(os.take(t as int), name_a@, name_b@);
        let o = &ops[t];
        let ghost ov = opv(*o);
        assert(ov == os[t as int]);
        if o.0 == ' ' {
            open = false;
        } else {
            if !open {
                if out.len() == 0 {
                    let mut l1: Vec<char> = Vec::new();
                    push_str(&mut l1, "--- ");
                    push_str(&mut l1, name_a);
                    out.push(l1);
                    let mut l2: Vec<char> = Vec::new();
                    push_str(&mut l2, "+++ ");
                    push_str(&mut l2, name_b);
                    out.push(l2);
                }
                let mut h: Vec<char> = Vec::new();
                push_str(&mut h, "@@ line ");
                push_u64(&mut h, o.1 as u64);
                push_str(&mut h, " @@");
                assert(h@ =~= hunk_header(ov.1));
                out.push(h);
            }
            let mut l: Vec<char> = Vec::new();
            l.push(o.0);
            l.push(' ');
            push_all(&mut l, o.2.as_slice());
            assert(l@ =~= change_line(ov));
            out.push(l);
            open = true;
        }
        t += 1;
        assert(vv(out@) =~= render_acc(os.take(t as int), name_a@, name_b@).0);
    }
    assert(os.take(ops@.len() as int) == os);
    out
}

/// Execute `diff file1 file2`.
pub fn execute(vfs: &Vfs, args: &[&str]) -> (r: Result<String, String>)
    ensures
        rv(r) == diff_spec(vfs, strs_view(args@)),
{
    if args.len() < 2 {
        return Err(to_owned_string("diff: missing file operand"));
    }
    if args.len() > 2 {
        return Err(to_owned_string("diff: too many arguments"));
    }
    assert(strs_view(args@)[0] == args@[0]@ && strs_view(args@)[1] == args@[1]@);
    let content_a = vfs.read_file(args[0])?;
    let content_b = vfs.read_file(args[1])?;
    let lines_a = str_lines(content_a.as_str());
    let lines_b = str_lines(content_b.as_str());
    let hunks = compute_diff(&lines_a, &lines_b, args[0], args[1]);
    if hunks.len() == 0 {
        return Ok(String::new());
    }
    let mut sep: Vec<char> = Vec::new();
    sep.push('\n');
    let mut out = join_chars(&hunks, sep.as_slice());
    out.push('\n');
    assert(sep@ =~= seq!['\n']);
    assert(out@ =~= join(vv(hunks@), seq!['\n']) + seq!['\n']);
    Ok(string_of(out.as_slice()))
}

/// The lines an edit script keeps or removes: the source it reads.
pub open spec fn script_source(ops: Seq<OpView>) -> Seq<Seq<char>>
    decreases ops.len(),
{
    if ops.len() == 0 {
        Seq::empty()
    } else if ops.last().0 == '+' {
        script_source(ops.drop_last())
    } else {
        script_source(ops.drop_last()).push(ops.last().2)
    }
}

/// The lines an edit script keeps or adds: the target it writes.
pub open spec fn script_target(ops: Seq<OpView>) -> Seq<Seq<char>>
    decreases ops.len(),
{
    if ops.len() == 0 {
        Seq::empty()
    } else if ops.last().0 == '-' {
        script_target(ops.drop_last())
    } else {
        script_target(ops.drop_last()).push(ops.last().2)
    }
}

/// Number of lines an edit script keeps unchanged.
pub open spec fn script_common(ops: Seq<OpView>) -> nat
    decreases ops.len(),
{
    if ops.len() == 0 {
        0
    } else if ops.last().0 == ' ' {
        script_common(ops.drop_last()) + 1
    } else {
        script_common(ops.drop_last())
    }
}

/// The edit script is correct and optimal: reading its kept and removed
/// lines gives the first file, its kept and added lines give the second,
/// and it keeps a longest common subsequence of the two.
pub proof fn lemma_diff_script_sound(a: Seq<Seq<char>>, b: Seq<Seq<char>>, i: nat, j: nat)
    requires
        i <= a.len(),
        j <= b.len(),
    ensures
        script_source(diff_ops(a, b, i, j)) == a.take(i as int),
        script_target(diff_ops(a, b, i, j)) == b.take(j as int),
        script_common(diff_ops(a, b, i, j)) == lcs_len(a, b, i, j),
    decreases i + j,
{
    if i == 0 && j == 0 {
        assert(a.take(0) =~= Seq::<Seq<char>>::empty());
        assert(b.take(0) =~= Seq::<Seq<char>>::empty());
    } else if i > 0 && j > 0 && a[i - 1] == b[j - 1] {
        lemma_diff_script_sound(a, b, (i - 1) as nat, (j - 1) as nat);
        let prev = diff_ops(a, b, (i - 1) as nat, (j - 1) as nat);
        assert(diff_ops(a, b, i, j).drop_last() =~= prev);
        assert(a.take(i as int) =~= a.take(i - 1).push(a[i - 1]));
        assert(b.take(j as int) =~= b.take(j - 1).push(b[j - 1]));
    } else if j > 0 && (i == 0 || lcs_len(a, b, i, (j - 1) as nat) >= lcs_len(a, b, (i - 1) as nat, j)) {
        lemma_diff_script_sound(a, b, i, (j - 1) as nat);
        let prev = diff_ops(a, b, i, (j - 1) as nat);
        assert(diff_ops(a, b, i, j).drop_last() =~= prev);
        assert(b.take(j as int) =~= b.take(j - 1).push(b[j - 1]));
    } else {
        lemma_diff_script_sound(a, b, (i - 1) as nat, j);
        let prev = diff_ops(a, b, (i - 1) as nat, j);
        assert(diff_ops(a, b, i, j).drop_last() =~= prev);
        assert(a.take(i as int) =~= a.take(i - 1).push(a[i - 1]));
    }
}

proof fn lemma_ops_all_common(a: Seq<Seq<char>>, i: nat)
    requires
        i <= a.len(),
    ensures
        forall|k: int| 0 <= k < diff_ops(a, a, i, i).len() ==> (#[trigger] diff_ops(a, a, i, i)[k]).0 == ' ',
    decreases i,
{
    if i > 0 {
        lemma_ops_all_common(a, (i - 1) as nat);
        let prev = diff_ops(a, a, (i - 1) as nat, (i - 1) as nat);
        assert(diff_ops(a, a, i, i) == prev.push((' ', i, a[i - 1])));
        assert forall|k: int| 0 <= k < diff_ops(a, a, i, i).len() implies (#[trigger] diff_ops(a, a, i, i)[k]).0 == ' ' by {
            if k < prev.len() {
                assert(diff_ops(a, a, i, i)[k] == prev[k]);
            }
        }
    }
}

proof fn lemma_render_common(ops: Seq<OpView>, na: Seq<char>, nb: Seq<char>)
    requires
        forall|k: int| 0 <= k < ops.len() ==> (#[trigger] ops[k]).0 == ' ',
    ensures
        render_acc(ops, na, nb).0.len() == 0,
    decreases ops.len(),
{
    if ops.len() > 0 {
        assert(ops.last() == ops[ops.len() - 1]);
        assert forall|k: int| 0 <= k < ops.drop_last().len() implies (#[trigger] ops.drop_last()[k]).0 == ' ' by {
            assert(ops.drop_last()[k] == ops[k]);
        }
        lemma_render_common(ops.drop_last(), na, nb);
    }
}

/// A file compared with itself has no differences.
pub proof fn lemma_diff_identical(a: Seq<Seq<char>>, na: Seq<char>, nb: Seq<char>)
    ensures
        diff_lines(a, a, na, nb).len() == 0,
{
    lemma_ops_all_common(a, a.len());
    lemma_render_common(diff_ops(a, a, a.len(), a.len()), na, nb);
}

/// Number of lines an edit script removes.
pub open spec fn script_removed(ops: Seq<OpView>) -> nat
    decreases ops.len(),
{
    if ops.len() == 0 {
        0
    } else if ops.last().0 == '-' {
        script_removed(ops.drop_last()) + 1
    } else {
        script_removed(ops.drop_last())
    }
}

/// Number of lines an edit script adds.
pub open spec fn script_added(ops: Seq<OpView>) -> nat
    decreases ops.len(),
{
    if ops.len() == 0 {
        0
    } else if ops.last().0 == '+' {
        script_added(ops.drop_last()) + 1
    } else {
        script_added(ops.drop_last())
    }
}

/// Every step of the script keeps, removes or adds a line.
pub open spec fn plain_script(ops: Seq<OpView>) -> bool {
    forall|k: int| 0 <= k < ops.len() ==> (#[trigger] ops[k]).0 == ' ' || ops[k].0 == '-' || ops[k].0 == '+'
}

/// One more line on either side changes the longest common subsequence by
/// at most one, and never shortens it.
proof fn lemma_lcs_steps(a: Seq<Seq<char>>, b: Seq<Seq<char>>, i: nat, j: nat)
    ensures
        i >= 1 ==> lcs_len(a, b, (i - 1) as nat, j) <= lcs_len(a, b, i, j) <= lcs_len(a, b, (i - 1) as nat, j) + 1,
        j >= 1 ==> lcs_len(a, b, i, (j - 1) as nat) <= lcs_len(a, b, i, j) <= lcs_len(a, b, i, (j - 1) as nat) + 1,
    decreases i + j,
{
    if i > 0 && j > 0 {
        lemma_lcs_steps(a, b, (i - 1) as nat, j);
        lemma_lcs_steps(a, b, i, (j - 1) as nat);
    }
}

/// The longest common subsequence of two prefixes depends only on them.
proof fn lemma_lcs_same_prefix(
    a: Seq<Seq<char>>,
    b: Seq<Seq<char>>,
    a2: Seq<Seq<char>>,
    b2: Seq<Seq<char>>,
    i: nat,
    j: nat,
)
    requires
        forall|k: int| 0 <= k < i ==> a[k] == a2[k],
        forall|k: int| 0 <= k < j ==> b[k] == b2[k],
    ensures
        lcs_len(a, b, i, j) == lcs_len(a2, b2, i, j),
    decreases i + j,
{
    if i > 0 && j > 0 {
        assert(a[i - 1] == a2[i - 1]);
        assert(b[j - 1] == b2[j - 1]);
        lemma_lcs_same_prefix(a, b, a2, b2, (i - 1) as nat, (j - 1) as nat);
        lemma_lcs_same_prefix(a, b, a2, b2, (i - 1) as nat, j);
        lemma_lcs_same_prefix(a, b, a2, b2, i, (j - 1) as nat);
    }
}

/// No edit script keeps more lines than a longest common subsequence of
/// what it reads and what it writes.
proof fn lemma_script_common_bound(ops: Seq<OpView>)
    ensures
        script_common(ops) <= lcs_len(
            script_source(ops),
            script_target(ops),
            script_source(ops).len(),
            script_target(ops).len(),
        ),
    decreases ops.len(),
{
    if ops.len() > 0 {
        let p = ops.drop_last();
        lemma_script_common_bound(p);
        let s = script_source(ops);
        let t = script_target(ops);
        let s0 = script_source(p);
        let t0 = script_target(p);
        assert forall|k: int| 0 <= k < s0.len() implies s0[k] == s[k] by {}
        assert forall|k: int| 0 <= k < t0.len() implies t0[k] == t[k] by {}
        lemma_lcs_same_prefix(s0, t0, s, t, s0.len(), t0.len());
        lemma_lcs_steps(s, t, s.len(), t.len());
        if s.len() > 0 {
            lemma_lcs_steps(s, t, (s.len() - 1) as nat, t.len());
        }
    }
}

/// Keep, remove and add steps account for every line read and written.
proof fn lemma_script_counts(ops: Seq<OpView>)
    requires
        plain_script(ops),
    ensures
        script_source(ops).len() == script_common(ops) + script_removed(ops),
        script_target(ops).len() == script_common(ops) + script_added(ops),
    decreases ops.len(),
{
    if ops.len() > 0 {
        let p = ops.drop_last();
        assert forall|k: int| 0 <= k < p.len() implies (#[trigger] p[k]).0 == ' ' || p[k].0 == '-' || p[k].0
            == '+' by {
            assert(p[k] == ops[k]);
        }
        assert(ops.last() == ops[ops.len() - 1]);
        lemma_script_counts(p);
    }
}

/// The script `diff` builds keeps, removes and adds lines only.
proof fn lemma_diff_ops_plain(a: Seq<Seq<char>>, b: Seq<Seq<char>>, i: nat, j: nat)
    ensures
        plain_script(diff_ops(a, b, i, j)),
    decreases i + j,
{
    if i == 0 && j == 0 {
    } else {
        let (pi, pj): (nat, nat) = if i > 0 && j > 0 && a[i - 1] == b[j - 1] {
            ((i - 1) as nat, (j - 1) as nat)
        } else if j > 0 && (i == 0 || lcs_len(a, b, i, (j - 1) as nat) >= lcs_len(a, b, (i - 1) as nat, j)) {
            (i, (j - 1) as nat)
        } else {
            ((i - 1) as nat, j)
        };
        lemma_diff_ops_plain(a, b, pi, pj);
        let prev = diff_ops(a, b, pi, pj);
        let d = diff_ops(a, b, i, j);
        assert(d.drop_last() == prev);
        assert forall|k: int| 0 <= k < d.len() implies (#[trigger] d[k]).0 == ' ' || d[k].0 == '-' || d[k].0 == '+' by {
            if k < prev.len() {
                assert(d[k] == prev[k]);
            }
        }
    }
}

/// `diff` reports as few changes as possible: for any edit script that
/// reads the first sequence of lines and writes the second with keep,
/// remove and add steps, the script `diff` prints removes no more lines and
/// adds no more lines.
pub proof fn law_diff_minimal(a: Seq<Seq<char>>, b: Seq<Seq<char>>, ops: Seq<OpView>)
    requires
        plain_script(ops),
        script_source(ops) == a,
        script_target(ops) == b,
    ensures
        script_source(diff_ops(a, b, a.len(), b.len())) == a,
        script_target(diff_ops(a, b, a.len(), b.len())) == b,
        script_removed(diff_ops(a, b, a.len(), b.len())) <= script_removed(ops),
        script_added(diff_ops(a, b, a.len(), b.len())) <= script_added(ops),
{
    let d = diff_ops(a, b, a.len(), b.len());
    lemma_script_common_bound(ops);
    lemma_diff_script_sound(a, b, a.len(), b.len());
    assert(a.take(a.len() as int) =~= a);
    assert(b.take(b.len() as int) =~= b);
    lemma_diff_ops_plain(a, b, a.len(), b.len());
    lemma_script_counts(ops);
    lemma_script_counts(d);
}

proof fn lemma_all_kept_same(ops: Seq<OpView>)
    requires
        forall|k: int| 0 <= k < ops.len() ==> (#[trigger] ops[k]).0 == ' ',
    ensures
        script_source(ops) == script_target(ops),
    decreases ops.len(),
{
    if ops.len() > 0 {
        let p = ops.drop_last();
        assert forall|k: int| 0 <= k < p.len() implies (#[trigger] p[k]).0 == ' ' by {
            assert(p[k] == ops[k]);
        }
        assert(ops.last() == ops[ops.len() - 1]);
        lemma_all_kept_same(p);
    }
}

proof fn lemma_render_change(ops: Seq<OpView>, na: Seq<char>, nb: Seq<char>, k: int)
    requires
        0 <= k < ops.len(),
        ops[k].0 != ' ',
    ensures
        render_acc(ops, na, nb).0.len() > 0,
    decreases ops.len(),
{
    if ops.last().0 == ' ' {
        let p = ops.drop_last();
        assert(k != ops.len() - 1);
        assert(p[k] == ops[k]);
        lemma_render_change(p, na, nb, k);
    }
}

/// `diff` prints nothing exactly when the two sequences of lines are the
/// same.
pub proof fn law_diff_empty_iff_same(a: Seq<Seq<char>>, b: Seq<Seq<char>>, na: Seq<char>, nb: Seq<char>)
    ensures
        (diff_lines(a, b, na, nb).len() == 0) == (a == b),
{
    if a == b {
        lemma_diff_identical(a, na, nb);
    } else {
        let d = diff_ops(a, b, a.len(), b.len());
        lemma_diff_script_sound(a, b, a.len(), b.len());
        assert(a.take(a.len() as int) =~= a);
        assert(b.take(b.len() as int) =~= b);
        if forall|k: int| 0 <= k < d.len() ==> (#[trigger] d[k]).0 == ' ' {
            lemma_all_kept_same(d);
        } else {
            let k = choose|k: int| 0 <= k < d.len() && (#[trigger] d[k]).0 != ' ';
            lemma_render_change(d, na, nb, k);
        }
    }
}

/// The lines of an edit script's changes, in order: `- x` for a removed
/// line, `+ y` for an added one.
pub open spec fn change_lines(ops: Seq<OpView>) -> Seq<Seq<char>>
    decreases ops.len(),
{
    if ops.len() == 0 {
        Seq::empty()
    } else if ops.last().0 == ' ' {
        change_lines(ops.drop_last())
    } else {
        change_lines(ops.drop_last()).push(change_line(ops.last()))
    }
}

/// A line of the output that is not a change: a file-name line or a hunk
/// header.
pub open spec fn is_marker(l: Seq<char>, na: Seq<char>, nb: Seq<char>) -> bool {
    l == "--- "@ + na || l == "+++ "@ + nb || starts_with(l, "@@ line "@)
}

proof fn lemma_filter_push(s: Seq<Seq<char>>, x: Seq<char>, p: spec_fn(Seq<char>) -> bool)
    ensures
        s.push(x).filter(p) == (if p(x) { s.filter(p).push(x) } else { s.filter(p) }),
{
    reveal(Seq::filter);
    assert(s.push(x).drop_last() =~= s);
}

proof fn lemma_markers(na: Seq<char>, nb: Seq<char>, n: nat, op: OpView)
    requires
        op.0 == '-' || op.0 == '+',
    ensures
        is_marker("--- "@ + na, na, nb),
        is_marker("+++ "@ + nb, na, nb),
        is_marker(hunk_header(n), na, nb),
        !is_marker(change_line(op), na, nb),
{
    reveal_strlit("--- ");
    reveal_strlit("+++ ");
    reveal_strlit("@@ line ");
    reveal_strlit(" @@");
    assert(hunk_header(n).take(8) =~= "@@ line "@);
    let c = change_line(op);
    assert(c[1] == ' ');
    if c == "--- "@ + na {
        assert(c[1] == ("--- "@ + na)[1]);
    }
    if c == "+++ "@ + nb {
        assert(c[1] == ("+++ "@ + nb)[1]);
    }
    if starts_with(c, "@@ line "@) {
        assert(c[0] == c.take(8)[0]);
    }
}

/// The output lines of a script, less its markers, are its changes; when
/// there is output it starts with the two file-name lines.
proof fn lemma_render_changes(ops: Seq<OpView>, na: Seq<char>, nb: Seq<char>)
    requires
        plain_script(ops),
    ensures
        render_acc(ops, na, nb).0.filter(|l: Seq<char>| !is_marker(l, na, nb)) == change_lines(ops),
        render_acc(ops, na, nb).0.len() > 0 ==> render_acc(ops, na, nb).0.len() >= 2
            && render_acc(ops, na, nb).0[0] == "--- "@ + na && render_acc(ops, na, nb).0[1] == "+++ "@ + nb,
    decreases ops.len(),
{
    let f = |l: Seq<char>| !is_marker(l, na, nb);
    if ops.len() == 0 {
        reveal(Seq::filter);
    } else {
        let p = ops.drop_last();
        assert forall|k: int| 0 <= k < p.len() implies (#[trigger] p[k]).0 == ' ' || p[k].0 == '-' || p[k].0
            == '+' by {
            assert(p[k] == ops[k]);
        }
        assert(ops.last() == ops[ops.len() - 1]);
        lemma_render_changes(p, na, nb);
        let prev = render_acc(p, na, nb);
        let op = ops.last();
        if op.0 != ' ' {
            lemma_markers(na, nb, op.1, op);
            let opened = if prev.1 {
                prev.0
            } else if prev.0.len() == 0 {
                prev.0.push("--- "@ + na).push("+++ "@ + nb).push(hunk_header(op.1))
            } else {
                prev.0.push(hunk_header(op.1))
            };
            if !prev.1 {
                if prev.0.len() == 0 {
                    lemma_filter_push(prev.0, "--- "@ + na, f);
                    lemma_filter_push(prev.0.push("--- "@ + na), "+++ "@ + nb, f);
                    lemma_filter_push(prev.0.push("--- "@ + na).push("+++ "@ + nb), hunk_header(op.1), f);
                } else {
                    lemma_filter_push(prev.0, hunk_header(op.1), f);
                }
            }
            lemma_filter_push(opened, change_line(op), f);
        }
    }
}

/// What `diff` prints, less the file-name and `@@` lines, is its changes
/// in order: `a.len() - L` removals and `b.len() - L` additions, where `L`
/// is the length of a longest common subsequence, the removed and kept
/// lines reading `a` in order and the added and kept ones `b`. Output, when
/// there is any, starts with the two file-name lines, and there is output
/// exactly when the two sequences differ.
pub proof fn law_diff_output(a: Seq<Seq<char>>, b: Seq<Seq<char>>, na: Seq<char>, nb: Seq<char>)
    ensures
        diff_lines(a, b, na, nb).filter(|l: Seq<char>| !is_marker(l, na, nb)) == change_lines(
            diff_ops(a, b, a.len(), b.len()),
        ),
        script_removed(diff_ops(a, b, a.len(), b.len())) == a.len() - lcs_len(a, b, a.len(), b.len()),
        script_added(diff_ops(a, b, a.len(), b.len())) == b.len() - lcs_len(a, b, a.len(), b.len()),
        script_source(diff_ops(a, b, a.len(), b.len())) == a,
        script_target(diff_ops(a, b, a.len(), b.len())) == b,
        diff_lines(a, b, na, nb).len() > 0 ==> diff_lines(a, b, na, nb)[0] == "--- "@ + na
            && diff_lines(a, b, na, nb)[1] == "+++ "@ + nb,
        (diff_lines(a, b, na, nb).len() == 0) == (a == b),
{
    let d = diff_ops(a, b, a.len(), b.len());
    lemma_diff_ops_plain(a, b, a.len(), b.len());
    lemma_render_changes(d, na, nb);
    lemma_diff_script_sound(a, b, a.len(), b.len());
    assert(a.take(a.len() as int) =~= a);
    assert(b.take(b.len() as int) =~= b);
    lemma_script_counts(d);
    law_diff_empty_iff_same(a, b, na, nb);
}

/// The `diff` command.
pub struct DiffCommand;

impl Command for DiffCommand {
    fn name(&self) -> (r: &'static str)
        ensures
            r@ == "diff"@,
    {
        "diff"
    }

    fn description(&self) -> (r: &'static str)
        ensures
            r@ == "Compare two files line by line"@,
    {
        "Compare two files line by line"
    }

    fn accepts_stdin(&self) -> (r: bool)
        ensures
            !r,
    {
        false
    }

    fn execute(&self, ctx: &mut CommandContext) -> (r: Result<String, String>)
        ensures
            meets(outcome(CommandKind::Diff, state_of(old(ctx))), r, final(ctx)),
    {
        proof {
            lemma_vfs_of(ctx);
        }
        execute(ctx.vfs, ctx.args)
    }

    fn synopsis(&self) -> (r: &'static str)
        ensures
            r@ == "diff file1 file2"@,
    {
        "diff file1 file2"
    }

    fn man_description(&self) -> (r: &'static str)
        ensures
            r@ == "Compare two files line by line using a Longest Common Subsequence (LCS) algorithm. Output is in a simplified unified-diff format showing added and removed lines. Identical files produce no output."@,
    {
        "Compare two files line by line using a Longest Common Subsequence (LCS) algorithm. Output is in a simplified unified-diff format showing added and removed lines. Identical files produce no output."
    }

    fn examples(&self) -> (r: &'static [&'static str])
        ensures
            strs_view(r@) == seq!["diff old.txt new.txt"@],
    {
        let r: &'static [&'static str] = &["diff old.txt new.txt"];
        assert(r@ == seq!["diff old.txt new.txt"]);
        r
    }
}

} // verus!
