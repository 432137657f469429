//! `grep [-i] [-n] pattern file...` -- print the lines containing a pattern.
//!
//! The pattern is a plain substring. `-i` compares the lower-case forms of
//! pattern and line; `-n` puts the 1-based line number before each match,
//! and with several files each match is preceded by its file name. The
//! flags may be combined as `-in` or `-ni`.
use vstd::prelude::*;
use crate::text::{strs_view, chars_of, string_of, to_owned_string, push_str, push_all, str_eq,
    str_lines, contains, contains_sub, lines, lowercase, to_lowercase, vv, unlines};
use crate::numeric::{nat_str, push_u64};
use crate::vfs::{Vfs, rv, read_spec};
use crate::command::kinds::outcome;
use crate::command::vfs_of;
use crate::command::{Command, CommandContext, CommandKind, state_of, meets, lemma_vfs_of};

verus! {

/// An argument that is one of the flags.
pub open spec fn grep_flag(a: Seq<char>) -> bool {
    a == "-i"@ || a == "-n"@ || a == "-in"@ || a == "-ni"@
}

/// The arguments that are not flags, in order.
pub open spec fn grep_positional(args: Seq<Seq<char>>) -> Seq<Seq<char>>
    decreases args.len(),
{
    if args.len() == 0 {
        Seq::empty()
    } else if grep_flag(args.last()) {
        grep_positional(args.drop_last())
    } else {
        grep_positional(args.drop_last()).push(args.last())
    }
}

/// The output for the lines `ls[..n]` that match: `keys[k]` is the text
/// compared for line `k`, each matching line is written after `pre` and,
/// with `numbers`, its 1-based number and a colon.
pub open spec fn grep_block(
    ls: Seq<Seq<char>>,
    keys: Seq<Seq<char>>,
    p: Seq<char>,
    pre: Seq<char>,
    numbers: bool,
    n: nat,
) -> Seq<char>
    decreases n,
{
    if n == 0 {
        Seq::empty()
    } else {
        let prev = grep_block(ls, keys, p, pre, numbers, (n - 1) as nat);
        if contains(keys[n - 1], p) {
            let num = if numbers {
                nat_str(n) + seq![':']
            } else {
                Seq::empty()
            };
            prev + pre + num + ls[n - 1] + seq!['\n']
        } else {
            prev
        }
    }
}

/// The text compared for each line: the line, or its lower-case form.
pub open spec fn grep_keys(ls: Seq<Seq<char>>, fold: bool) -> Seq<Seq<char>> {
    if fold {
        Seq::new(ls.len(), |k: int| lowercase(ls[k]))
    } else {
        ls
    }
}

/// The matches of all `files`, or the first read error.
pub open spec fn grep_acc(
    vfs: &Vfs,
    files: Seq<Seq<char>>,
    p: Seq<char>,
    fold: bool,
    numbers: bool,
    named: bool,
) -> Result<Seq<char>, Seq<char>>
    decreases files.len(),
{
    if files.len() == 0 {
        Ok(Seq::empty())
    } else {
        match grep_acc(vfs, files.drop_last(), p, fold, numbers, named) {
            Err(e) => Err(e),
            Ok(o) => match read_spec(vfs@, vfs.key(files.last())) {
                Err(e) => Err(e),
                Ok(c) => {
                    let ls = lines(c);
                    let pre = if named {
                        files.last() + seq![':']
                    } else {
                        Seq::empty()
                    };
                    let pk = if fold {
                        lowercase(p)
                    } else {
                        p
                    };
                    Ok(o + grep_block(ls, grep_keys(ls, fold), pk, pre, numbers, ls.len()))
                },
            },
        }
    }
}

/// The result of `grep` on the given arguments.
pub open spec fn grep_spec(vfs: &Vfs, args: Seq<Seq<char>>) -> Result<Seq<char>, Seq<char>> {
    let pos = grep_positional(args);
    let fold = args.contains("-i"@) || args.contains("-in"@) || args.contains("-ni"@);
    let numbers = args.contains("-n"@) || args.contains("-in"@) || args.contains("-ni"@);
    if pos.len() == 0 {
        Err("grep: missing pattern"@)
    } else if pos.len() < 2 {
        Err("grep: missing file operand"@)
    } else {
        let files = pos.skip(1);
        grep_acc(vfs, files, pos[0], fold, numbers, files.len() > 1)
    }
}

/// The lines among `ls` whose key contains `p`, each preceded by `pre`
/// and, with `numbers`, by its line number.
pub fn matching_lines(
    ls: &Vec<Vec<char>>,
    keys: &Vec<Vec<char>>,
    p: &[char],
    pre: &[char],
    numbers: bool,
) -> (r: Vec<char>)
    requires
        keys@.len() == ls@.len(),
    ensures
        r@ == grep_block(vv(ls@), vv(keys@), p@, pre@, numbers, ls@.len() as nat),
{
    let mut out: Vec<char> = Vec::new();
    let mut k: usize = 0;
    while k < ls.len()
        invariant
            k <= ls@.len(),
            keys@.len() == ls@.len(),
            out@ == grep_block(vv(ls@), vv(keys@), p@, pre@, numbers, k as nat),
        decreases ls.len() - k,
    {
        assert(vv(keys@)[k as int] == keys@[k as int]@);
        assert(vv(ls@)[k as int] == ls@[k as int]@);
        if contains_sub(keys[k].as_slice(), p) {
            push_all(&mut out, pre);
            if numbers {
                push_u64(&mut out, (k + 1) as u64);
                out.push(':');
            }
            push_all(&mut out, ls[k].as_slice());
            out.push('\n');
        }
        k += 1;
        assert(out@ =~= grep_block(vv(ls@), vv(keys@), p@, pre@, numbers, k as nat));
    }
    out
}

proof fn lemma_grep_acc_err(
    vfs: &Vfs,
    files: Seq<Seq<char>>,
    k: int,
    p: Seq<char>,
    fold: bool,
    numbers: bool,
    named: bool,
)
    requires
        0 <= k <= files.len(),
        grep_acc(vfs, files.take(k), p, fold, numbers, named) is Err,
    ensures
        grep_acc(vfs, files, p, fold, numbers, named) == grep_acc(vfs, files.take(k), p, fold, numbers, named),
    decreases files.len(),
{
    if k == files.len() {
        assert(files.take(k) == files);
    } else {
        assert(files.drop_last().take(k) == files.take(k));
        lemma_grep_acc_err(vfs, files.drop_last(), k, p, fold, numbers, named);
    }
}


/// `grep` depends on a file system only through its nodes and directory.
pub proof fn lemma_grep_acc_view(
    v1: &Vfs,
    v2: &Vfs,
    files: Seq<Seq<char>>,
    p: Seq<char>,
    fold: bool,
    numbers: bool,
    named: bool,
)
    requires
        v1@ == v2@,
        v1.cwd@ == v2.cwd@,
    ensures
        grep_acc(v1, files, p, fold, numbers, named) == grep_acc(v2, files, p, fold, numbers, named),
    decreases files.len(),
{
    if files.len() > 0 {
        lemma_grep_acc_view(v1, v2, files.drop_last(), p, fold, numbers, named);
    }
}

/// `grep` depends on a file system only through its nodes and directory.
pub proof fn lemma_grep_view(v1: &Vfs, v2: &Vfs, args: Seq<Seq<char>>)
    requires
        v1@ == v2@,
        v1.cwd@ == v2.cwd@,
    ensures
        grep_spec(v1, args) == grep_spec(v2, args),
{
    let pos = grep_positional(args);
    let fold = args.contains("-i"@) || args.contains("-in"@) || args.contains("-ni"@);
    let numbers = args.contains("-n"@) || args.contains("-in"@) || args.contains("-ni"@);
    if pos.len() >= 2 {
        let files = pos.skip(1);
        lemma_grep_acc_view(v1, v2, files, pos[0], fold, numbers, files.len() > 1);
    }
}

/// Execute `grep`.
pub fn execute(vfs: &Vfs, args: &[&str]) -> (r: Result<String, String>)
    ensures
        rv(r) == grep_spec(vfs, strs_view(args@)),
{
    let ghost av = strs_view(args@);
    let mut pos: Vec<&str> = Vec::new();
    let mut i: usize = 0;
    while i < args.len()
        invariant
            i <= args@.len(),
            av == strs_view(args@),
            strs_view(pos@) == grep_positional(av.take(i as int)),
        decreases args.len() - i,
    {
        assert(av.take(i + 1).drop_last() == av.take(i as int));
        assert(av.take(i + 1).last() == args@[i as int]@);
        let a = args[i];
        let is_flag = str_eq(a, "-i") || str_eq(a, "-n") || str_eq(a, "-in") || str_eq(a, "-ni");
        if !is_flag {
            let ghost before = pos@;
            pos.push(a);
            assert(strs_view(pos@) =~= strs_view(before).push(a@));
        }
        i += 1;
    }
    assert(av.take(args@.len() as int) == av);
    let fold = crate::text::strs_contains(args, "-i") || crate::text::strs_contains(args, "-in") || crate::text::strs_contains(args, "-ni");
    let numbers = crate::text::strs_contains(args, "-n") || crate::text::strs_contains(args, "-in") || crate::text::strs_contains(args, "-ni");
    if pos.len() == 0 {
        return Err(to_owned_string("grep: missing pattern"));
    }
    if pos.len() < 2 {
        return Err(to_owned_string("grep: missing file operand"));
    }
    let pattern = pos[0];
    let nfiles = pos.len() - 1;
    let named = nfiles > 1;
    let ghost pv = strs_view(pos@);
    let ghost files = pv.skip(1);
    assert(pv[0] == pattern@);
    let pat_plain = chars_of(pattern);
    let pat_lower_s = to_lowercase(pattern);
    let pat_lower = chars_of(pat_lower_s.as_str());
    let mut out: Vec<char> = Vec::new();
    let mut k: usize = 1;
    assert(files.take(0) =~= Seq::<Seq<char>>::empty());
    while k < pos.len()
        invariant
            1 <= k <= pos@.len(),
            pv == strs_view(pos@),
            files == pv.skip(1),
            av == strs_view(args@),
            pv == grep_positional(av),
            named == (files.len() > 1),
            fold == (av.contains("-i"@) || av.contains("-in"@) || av.contains("-ni"@)),
            numbers == (av.contains("-n"@) || av.contains("-in"@) || av.contains("-ni"@)),
            pv.len() >= 2,
            pat_plain@ == pv[0],
            pat_lower@ == lowercase(pv[0]),
            grep_acc(vfs, files.take(k - 1), pv[0], fold, numbers, named) == Ok::<Seq<char>, Seq<char>>(out@),
        decreases pos.len() - k,
    {
        assert(files.take(k as int).drop_last() == files.take(k - 1));
        assert(files.take(k as int).last() == pos@[k as int]@);
        let path = pos[k];
        let content = match vfs.read_file(path) {
            Ok(c) => c,
            Err(e) => {
                proof {
                    lemma_grep_acc_err(vfs, files, k as int, pv[0], fold, numbers, named);
                }
                return Err(e);
            },
        };
        let ls = str_lines(content.as_str());
        let mut pre: Vec<char> = Vec::new();
        if named {
            push_str(&mut pre, path);
            pre.push(':');
        }
        let block = if fold {
            let mut keys: Vec<Vec<char>> = Vec::new();
            let mut t: usize = 0;
            while t < ls.len()
                invariant
                    t <= ls@.len(),
                    keys@.len() == t,
                    forall|q: int| 0 <= q < t ==> #[trigger] keys@[q]@ == lowercase(ls@[q]@),
                decreases ls.len() - t,
            {
                let line_s = string_of(ls[t].as_slice());
                let low = to_lowercase(line_s.as_str());
                keys.push(chars_of(low.as_str()));
                t += 1;
            }
            assert(vv(keys@) =~= grep_keys(vv(ls@), true));
            matching_lines(&ls, &keys, pat_lower.as_slice(), pre.as_slice(), numbers)
        } else {
            matching_lines(&ls, &ls, pat_plain.as_slice(), pre.as_slice(), numbers)
        };
        push_all(&mut out, block.as_slice());
        k += 1;
        proof {
            assert(pre@ =~= (if named { files.take(k - 1).last() + seq![':'] } else { Seq::<char>::empty() }));
        }
    }
    assert(files.take(pos@.len() - 1) == files);
    Ok(string_of(out.as_slice()))
}

/// The `grep` command.
pub struct GrepCommand;

impl Command for GrepCommand {
    fn name(&self) -> (r: &'static str)
        ensures
            r@ == "grep"@,
    {
        "grep"
    }

    fn description(&self) -> (r: &'static str)
        ensures
            r@ == "Search for patterns in files (-i case-insensitive, -n line numbers)"@,
    {
        "Search for patterns in files (-i case-insensitive, -n line numbers)"
    }

    fn accepts_stdin(&self) -> (r: bool)
        ensures
            r,
    {
        true
    }

    fn execute(&self, ctx: &mut CommandContext) -> (r: Result<String, String>)
        ensures
            meets(outcome(CommandKind::Grep, state_of(old(ctx))), r, final(ctx)),
    {
        proof {
            lemma_vfs_of(ctx);
            lemma_grep_view(ctx.vfs, &vfs_of(state_of(ctx)), state_of(ctx).args);
        }
        execute(ctx.vfs, ctx.args)
    }

    fn synopsis(&self) -> (r: &'static str)
        ensures
            r@ == "grep [-i] [-n] pattern file [file2 ...]"@,
    {
        "grep [-i] [-n] pattern file [file2 ...]"
    }

    fn man_description(&self) -> (r: &'static str)
        ensures
            r@ == "Search for lines matching a pattern in one or more files. The pattern is matched as a \
substring (not a regular expression). With -i, matching is case-insensitive. With -n, each \
matching line is prefixed with its 1-based line number. When multiple files are specified, \
output lines are prefixed with the filename."@,
    {
        "Search for lines matching a pattern in one or more files. The pattern is matched as a \
substring (not a regular expression). With -i, matching is case-insensitive. With -n, each \
matching line is prefixed with its 1-based line number. When multiple files are specified, \
output lines are prefixed with the filename."
    }

    fn examples(&self) -> (r: &'static [&'static str])
        ensures
            strs_view(r@) == seq!["grep hello file.txt"@, "grep -i error log.txt"@, "grep -n TODO *.rs"@],
    {
        let r: &'static [&'static str] = &["grep hello file.txt", "grep -i error log.txt", "grep -n TODO *.rs"];
        assert(r@ == seq!["grep hello file.txt", "grep -i error log.txt", "grep -n TODO *.rs"]);
        r
    }
}

/// Whether `grep` selects the line `l` for the pattern `p`: with `fold`,
/// when the lower-case form of the line contains the lower-case form of the
/// pattern; otherwise when the line contains the pattern.
pub open spec fn selects(l: Seq<char>, p: Seq<char>, fold: bool) -> bool {
    if fold {
        contains(lowercase(l), lowercase(p))
    } else {
        contains(l, p)
    }
}

proof fn lemma_block_filter(ls: Seq<Seq<char>>, p: Seq<char>, fold: bool, n: nat)
    requires
        n <= ls.len(),
    ensures
        grep_block(ls, grep_keys(ls, fold), if fold { lowercase(p) } else { p }, Seq::empty(), false, n)
            == unlines(ls.take(n as int).filter(|l: Seq<char>| selects(l, p, fold))),
    decreases n,
{
    reveal(Seq::filter);
    let f = |l: Seq<char>| selects(l, p, fold);
    if n == 0 {
        assert(ls.take(0) =~= Seq::<Seq<char>>::empty());
    } else {
        lemma_block_filter(ls, p, fold, (n - 1) as nat);
        let t = ls.take(n as int);
        assert(t.drop_last() =~= ls.take(n - 1));
        assert(t.last() == ls[n - 1]);
        assert(grep_keys(ls, fold)[n - 1] == (if fold { lowercase(ls[n - 1]) } else { ls[n - 1] }));
        let prev = ls.take(n - 1).filter(f);
        if f(ls[n - 1]) {
            assert(t.filter(f) == prev.push(ls[n - 1]));
            assert(unlines(prev.push(ls[n - 1])) == unlines(prev) + ls[n - 1] + seq!['\n']) by {
                assert(prev.push(ls[n - 1]).drop_last() =~= prev);
            }
            assert(Seq::<char>::empty() + Seq::<char>::empty() + ls[n - 1] =~= ls[n - 1]);
        } else {
            assert(t.filter(f) == prev);
        }
    }
}

/// `grep` prints, in order, the lines of the file that it selects and no
/// others: with `-i`, the lines whose lower-case form contains the
/// lower-case form of the pattern; without, the lines containing the
/// pattern.
pub proof fn law_grep_selects(vfs: &Vfs, p: Seq<char>, f: Seq<char>, fold: bool)
    requires
        !grep_flag(p),
        !grep_flag(f),
    ensures
        grep_spec(vfs, if fold { seq!["-i"@, p, f] } else { seq![p, f] }) == (match read_spec(vfs@, vfs.key(f)) {
            Err(e) => Err(e),
            Ok(c) => Ok(unlines(lines(c).filter(|l: Seq<char>| selects(l, p, fold)))),
        }),
{
    let args = if fold { seq!["-i"@, p, f] } else { seq![p, f] };
    reveal_strlit("-i");
    reveal_strlit("-n");
    reveal_strlit("-in");
    reveal_strlit("-ni");
    assert(grep_flag("-i"@));
    if fold {
        let a1 = seq!["-i"@];
        let a2 = seq!["-i"@, p];
        assert(a1.drop_last() =~= Seq::<Seq<char>>::empty());
        assert(a1.last() == "-i"@);
        assert(grep_positional(a1) == grep_positional(Seq::<Seq<char>>::empty()));
        assert(grep_positional(a1) =~= Seq::<Seq<char>>::empty());
        assert(a2.drop_last() =~= a1);
        assert(a2.last() == p);
        assert(grep_positional(a2) =~= seq![p]);
        assert(args.drop_last() =~= a2);
        assert(args.last() == f);
        assert(grep_positional(args) =~= seq![p, f]);
        assert(args.contains("-i"@)) by {
            assert(args[0] == "-i"@);
        }
        assert(!args.contains("-n"@)) by {
            if args.contains("-n"@) {
                let j = choose|j: int| 0 <= j < args.len() && args[j] == "-n"@;
                assert("-i"@ != "-n"@) by {
                    assert("-i"@[1] != "-n"@[1]);
                }
            }
        }
        assert(!args.contains("-in"@)) by {
            if args.contains("-in"@) {
                let j = choose|j: int| 0 <= j < args.len() && args[j] == "-in"@;
                assert("-i"@.len() != "-in"@.len());
            }
        }
        assert(!args.contains("-ni"@)) by {
            if args.contains("-ni"@) {
                let j = choose|j: int| 0 <= j < args.len() && args[j] == "-ni"@;
                assert("-i"@.len() != "-ni"@.len());
            }
        }
    } else {
        let a1 = seq![p];
        assert(a1.drop_last() =~= Seq::<Seq<char>>::empty());
        assert(a1.last() == p);
        assert(grep_positional(a1) == grep_positional(Seq::<Seq<char>>::empty()).push(p));
        assert(grep_positional(a1) =~= seq![p]);
        assert(args.drop_last() =~= a1);
        assert(args.last() == f);
        assert(grep_positional(args) =~= seq![p, f]);
        assert(!args.contains("-i"@) && !args.contains("-n"@) && !args.contains("-in"@) && !args.contains("-ni"@)) by {
            assert forall|j: int| 0 <= j < args.len() implies !grep_flag(#[trigger] args[j]) by {}
        }
    }
    let files = seq![p, f].skip(1);
    assert(files =~= seq![f]);
    assert(files.drop_last() =~= Seq::<Seq<char>>::empty());
    assert(files.last() == f);
    assert(grep_spec(vfs, args) == grep_acc(vfs, files, p, fold, false, false));
    assert(grep_acc(vfs, files.drop_last(), p, fold, false, false) == Ok::<Seq<char>, Seq<char>>(Seq::empty()));
    match read_spec(vfs@, vfs.key(f)) {
        Err(e) => {},
        Ok(c) => {
            let ls = lines(c);
            lemma_block_filter(ls, p, fold, ls.len());
            assert(ls.take(ls.len() as int) =~= ls);
            assert(Seq::<char>::empty() + grep_block(ls, grep_keys(ls, fold), if fold { lowercase(p) } else { p }, Seq::empty(), false, ls.len()) =~= grep_block(ls, grep_keys(ls, fold), if fold { lowercase(p) } else { p }, Seq::empty(), false, ls.len()));
        },
    }
}

} // verus!
