//! `tr SET1 SET2` -- translate characters of the input.
//!
//! Each character of the input that occurs in SET1 is replaced by the
//! character at the same position in SET2; when SET2 is shorter its last
//! character stands in for the rest. Other characters pass through. The
//! sets understand the escapes `\n`, `\t` and `\\`; any other backslash
//! sequence keeps both characters. A range `x-y` of two ASCII characters
//! with `x` not after `y` stands for every character from `x` to `y`, so
//! `tr a-z A-Z` turns `abc` into `ABC`.
use vstd::prelude::*;
use crate::text::{strs_view, chars_of, string_of, to_owned_string, has_char, is_first_char,
    find_char};
use crate::vfs::rv;
use crate::command::kinds::outcome;
use crate::command::{Command, CommandContext, CommandKind, state_of, meets, lemma_vfs_of};

verus! {

/// The ASCII characters from `a` to `b`, in order.
pub open spec fn ascii_range(a: char, b: char) -> Seq<char> {
    Seq::new((b as int - a as int + 1) as nat, |i: int| (a as int + i) as char)
}

/// `s` starts with an ASCII range `x-y` (`x` not after `y`).
pub open spec fn starts_with_range(s: Seq<char>) -> bool {
    &&& s.len() >= 3
    &&& s[1] == '-'
    &&& s[2] != '\\'
    &&& s[0] <= '\x7f'
    &&& s[2] <= '\x7f'
    &&& s[0] <= s[2]
}

/// The characters a set argument stands for, escapes and ranges expanded.
pub open spec fn char_set(s: Seq<char>) -> Seq<char>
    decreases s.len(),
{
    if s.len() == 0 {
        Seq::empty()
    } else if s[0] == '\\' {
        if s.len() == 1 {
            seq!['\\']
        } else {
            let e = s[1];
            let head = if e == 'n' {
                seq!['\n']
            } else if e == 't' {
                seq!['\t']
            } else if e == '\\' {
                seq!['\\']
            } else {
                seq!['\\', e]
            };
            head + char_set(s.skip(2))
        }
    } else if starts_with_range(s) {
        ascii_range(s[0], s[2]) + char_set(s.skip(3))
    } else {
        seq![s[0]] + char_set(s.drop_first())
    }
}

/// Where `tr` sends the character `c`.
pub open spec fn tr_char(set1: Seq<char>, set2: Seq<char>, c: char) -> char {
    if has_char(set1, c) {
        let pos = choose|i: int| is_first_char(set1, c, i);
        if pos < set2.len() {
            set2[pos]
        } else if set2.len() > 0 {
            set2.last()
        } else {
            c
        }
    } else {
        c
    }
}

/// The result of `tr` on `input` with the given arguments.
pub open spec fn tr_spec(input: Seq<char>, args: Seq<Seq<char>>) -> Result<Seq<char>, Seq<char>> {
    if args.len() < 2 {
        Err("tr: missing operand"@)
    } else if char_set(args[0]).len() == 0 {
        Err("tr: set1 must not be empty"@)
    } else {
        let s1 = char_set(args[0]);
        let s2 = char_set(args[1]);
        Ok(Seq::new(input.len(), |k: int| tr_char(s1, s2, input[k])))
    }
}

fn push_ascii_range(out: &mut Vec<char>, a: char, b: char)
    requires
        (a as int) < 128,
        (b as int) < 128,
        (a as int) <= (b as int),
    ensures
        final(out)@ == old(out)@ + ascii_range(a, b),
{
    let au: u32 = a as u32;
    let bu: u32 = b as u32;
    let lo: u8 = au as u8;
    let hi: u8 = bu as u8;
    assert((au as u8) as u32 == au) by (bit_vector)
        requires
            au < 128,
    ;
    assert((bu as u8) as u32 == bu) by (bit_vector)
        requires
            bu < 128,
    ;
    let mut x: u8 = lo;
    loop
        invariant
            lo <= x <= hi,
            hi < 128,
            lo as int == a as int,
            hi as int == b as int,
            out@ == old(out)@ + ascii_range(a, b).take(x - lo),
        decreases hi - x,
    {
        let c = x as char;
        assert(c == (a as int + (x - lo)) as char);
        out.push(c);
        assert(ascii_range(a, b).take(x - lo + 1) =~= ascii_range(a, b).take(x - lo).push(c));
        if x == hi {
            assert(ascii_range(a, b).take(x - lo + 1) =~= ascii_range(a, b));
            return;
        }
        x += 1;
    }
}

/// Expand the escapes and ranges of a set argument.
pub fn parse_char_set(s: &str) -> (r: Vec<char>)
    ensures
        r@ == char_set(s@),
{
    let cs = chars_of(s);
    let mut out: Vec<char> = Vec::new();
    let mut i: usize = 0;
    assert(cs@.skip(0) =~= cs@);
    assert(out@ + char_set(cs@.skip(0)) =~= char_set(s@));
    while i < cs.len()
        invariant
            i <= cs@.len(),
            cs@ == s@,
            out@ + char_set(cs@.skip(i as int)) == char_set(s@),
        decreases cs.len() - i,
    {
        let ghost rest = cs@.skip(i as int);
        if cs[i] == '\\' {
            if i + 1 == cs.len() {
                out.push('\\');
                i += 1;
                assert(rest =~= seq!['\\']);
            } else {
                let e = cs[i + 1];
                if e == 'n' {
                    out.push('\n');
                } else if e == 't' {
                    out.push('\t');
                } else if e == '\\' {
                    out.push('\\');
                } else {
                    out.push('\\');
                    out.push(e);
                }
                assert(rest.skip(2) =~= cs@.skip(i + 2));
                i += 2;
            }
        } else if 2 < cs.len() - i && cs[i + 1] == '-' && cs[i + 2] != '\\' && cs[i] <= '\x7f'
            && cs[i + 2] <= '\x7f' && cs[i] <= cs[i + 2] {
            assert(rest[0] == cs@[i as int] && rest[1] == cs@[i + 1] && rest[2] == cs@[i + 2]);
            assert(starts_with_range(rest));
            push_ascii_range(&mut out, cs[i], cs[i + 2]);
            assert(rest.skip(3) =~= cs@.skip(i + 3));
            i += 3;
        } else {
            out.push(cs[i]);
            assert(rest[0] == cs@[i as int]);
            assert(i + 2 < cs@.len() ==> rest[1] == cs@[i + 1] && rest[2] == cs@[i + 2]);
            assert(!starts_with_range(rest));
            assert(rest.drop_first() =~= cs@.skip(i + 1));
            i += 1;
        }
        assert(out@ + char_set(cs@.skip(i as int)) =~= char_set(s@));
    }
    assert(cs@.skip(i as int) =~= Seq::<char>::empty());
    assert(out@ + Seq::<char>::empty() =~= out@);
    out
}

proof fn lemma_first_char_unique(s: Seq<char>, c: char, i: int, j: int)
    requires
        is_first_char(s, c, i),
        is_first_char(s, c, j),
    ensures
        i == j,
{
}

/// Translate `input` with the two sets.
pub fn execute(input: &str, args: &[&str]) -> (r: Result<String, String>)
    ensures
        rv(r) == tr_spec(input@, strs_view(args@)),
{
    if args.len() < 2 {
        return Err(to_owned_string("tr: missing operand"));
    }
    assert(strs_view(args@)[0] == args@[0]@ && strs_view(args@)[1] == args@[1]@);
    let set1 = parse_char_set(args[0]);
    let set2 = parse_char_set(args[1]);
    if set1.len() == 0 {
        return Err(to_owned_string("tr: set1 must not be empty"));
    }
    let cs = chars_of(input);
    let mut out: Vec<char> = Vec::new();
    let mut k: usize = 0;
    while k < cs.len()
        invariant
            k <= cs@.len(),
            cs@ == input@,
            out@.len() == k,
            forall|t: int| 0 <= t < k ==> #[trigger] out@[t] == tr_char(set1@, set2@, cs@[t]),
        decreases cs.len() - k,
    {
        let ch = cs[k];
        let mapped = match find_char(set1.as_slice(), ch) {
            Some(pos) => {
                proof {
                    let p = choose|i: int| is_first_char(set1@, ch, i);
                    lemma_first_char_unique(set1@, ch, pos as int, p);
                }
                if pos < set2.len() {
                    set2[pos]
                } else if set2.len() > 0 {
                    set2[set2.len() - 1]
                } else {
                    ch
                }
            },
            None => ch,
        };
        out.push(mapped);
        k += 1;
    }
    assert(out@ =~= Seq::new(input@.len(), |t: int| tr_char(set1@, set2@, input@[t])));
    Ok(string_of(out.as_slice()))
}

/// The `tr` command.
pub struct TrCommand;

impl Command for TrCommand {
    fn name(&self) -> (r: &'static str)
        ensures
            r@ == "tr"@,
    {
        "tr"
    }

    fn description(&self) -> (r: &'static str)
        ensures
            r@ == "Translate characters from stdin (echo text | tr a-z A-Z)"@,
    {
        "Translate characters from stdin (echo text | tr a-z A-Z)"
    }

    fn accepts_stdin(&self) -> (r: bool)
        ensures
            !r,
    {
        false
    }

    fn execute(&self, ctx: &mut CommandContext) -> (r: Result<String, String>)
        ensures
            meets(outcome(CommandKind::Tr, state_of(old(ctx))), r, final(ctx)),
    {
        proof {
            lemma_vfs_of(ctx);
        }
        execute(ctx.stdin, ctx.args)
    }

    fn synopsis(&self) -> (r: &'static str)
        ensures
            r@ == "echo text | tr set1 set2"@,
    {
        "echo text | tr set1 set2"
    }

    fn man_description(&self) -> (r: &'static str)
        ensures
            r@ == "Translate characters from stdin by replacing each character found in set1 with the \
character at the same position in set2. Characters not in set1 are passed through unchanged. \
If set2 is shorter than set1, the last character of set2 is used for all remaining positions."@,
    {
        "Translate characters from stdin by replacing each character found in set1 with the \
character at the same position in set2. Characters not in set1 are passed through unchanged. \
If set2 is shorter than set1, the last character of set2 is used for all remaining positions."
    }

    fn examples(&self) -> (r: &'static [&'static str])
        ensures
            strs_view(r@) == seq!["echo hello | tr a-z A-Z"@, "echo hello | tr eo OE"@],
    {
        let r: &'static [&'static str] = &["echo hello | tr a-z A-Z", "echo hello | tr eo OE"];
        assert(r@ == seq!["echo hello | tr a-z A-Z", "echo hello | tr eo OE"]);
        r
    }
}

} // verus!
