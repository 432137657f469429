//! Decimal parsing (`str::parse` for integers) and integer formatting
//! (decimal, hexadecimal, octal, padded), specified over `Seq<char>`.
use vstd::prelude::*;
use crate::text::push_all;

verus! {

// ---------------------------------------------------------------------------
// Digits
// ---------------------------------------------------------------------------

/// An ASCII decimal digit.
pub open spec fn is_digit(c: char) -> bool {
    '0' <= c && c <= '9'
}

/// Every character of `s` is a decimal digit.
pub open spec fn all_digits(s: Seq<char>) -> bool {
    forall|i: int| 0 <= i < s.len() ==> is_digit(#[trigger] s[i])
}

/// The value of a digit character.
pub open spec fn digit_val(c: char) -> nat {
    (c as int - '0' as int) as nat
}

/// The value of a string of decimal digits, most significant first.
pub open spec fn digits_val(s: Seq<char>) -> nat
    decreases s.len(),
{
    if s.len() == 0 {
        0
    } else {
        digits_val(s.drop_last()) * 10 + digit_val(s.last())
    }
}

/// The digits of an unsigned literal: `s` without one optional leading `+`.
pub open spec fn unsigned_body(s: Seq<char>) -> Seq<char> {
    if s.len() > 0 && s[0] == '+' {
        s.drop_first()
    } else {
        s
    }
}

/// The value of an unsigned integer literal as `str::parse` reads it
/// (an optional `+` then at least one digit), or `None`.
pub open spec fn parse_nat(s: Seq<char>) -> Option<nat> {
    let b = unsigned_body(s);
    if b.len() > 0 && all_digits(b) {
        Some(digits_val(b))
    } else {
        None
    }
}

/// The value of a signed integer literal (an optional `+` or `-` then at
/// least one digit), or `None`.
pub open spec fn parse_int(s: Seq<char>) -> Option<int> {
    if s.len() > 0 && s[0] == '-' {
        let b = s.drop_first();
        if b.len() > 0 && all_digits(b) {
            Some(-(digits_val(b) as int))
        } else {
            None
        }
    } else {
        match parse_nat(s) {
            Some(n) => Some(n as int),
            None => None,
        }
    }
}

/// `parse_nat` limited to values up to `max` (an overflow is an error).
pub open spec fn parse_bounded(s: Seq<char>, max: nat) -> Option<nat> {
    match parse_nat(s) {
        Some(n) => if n <= max {
            Some(n)
        } else {
            None
        },
        None => None,
    }
}

proof fn lemma_digits_val_prefix(s: Seq<char>, k: int)
    requires
        0 <= k <= s.len(),
    ensures
        digits_val(s.take(k)) <= digits_val(s),
    decreases s.len(),
{
    if k < s.len() {
        lemma_digits_val_prefix(s.drop_last(), k);
        assert(s.drop_last().take(k) == s.take(k));
    } else {
        assert(s.take(k) == s);
    }
}

/// Parse the digits `s[from..]` with an upper bound on the value.
fn parse_digits_bounded(s: &[char], from: usize, max: u64) -> (r: Option<u64>)
    requires
        from <= s@.len(),
    ensures
        match r {
            Some(v) => all_digits(s@.skip(from as int)) && s@.len() > from && v == digits_val(
                s@.skip(from as int),
            ) && v <= max,
            None => !(all_digits(s@.skip(from as int)) && s@.len() > from && digits_val(
                s@.skip(from as int),
            ) <= max),
        },
{
    let ghost b = s@.skip(from as int);
    if from >= s.len() {
        return None;
    }
    let mut acc: u64 = 0;
    let mut i: usize = from;
    while i < s.len()
        invariant
            from <= i <= s@.len(),
            b == s@.skip(from as int),
            all_digits(b.take(i - from)),
            acc == digits_val(b.take(i - from)),
            acc <= max,
        decreases s.len() - i,
    {
        let c = s[i];
        assert(b.take(i - from + 1).drop_last() == b.take(i - from));
        assert(b[i - from] == c);
        if !('0' <= c && c <= '9') {
            assert(!all_digits(b)) by {
                assert(!is_digit(b[i - from]));
            }
            return None;
        }
        let d: u64 = ((c as u32) - ('0' as u32)) as u64;
        assert(d == digit_val(c));
        let next = match acc.checked_mul(10) {
            Some(m) => m.checked_add(d),
            None => None,
        };
        match next {
            Some(n) if n <= max => {
                acc = n;
                i += 1;
                assert(all_digits(b.take(i - from))) by {
                    assert forall|j: int| 0 <= j < i - from implies is_digit(
                        #[trigger] b.take(i - from)[j],
                    ) by {
                        if j < i - from - 1 {
                            assert(b.take(i - from)[j] == b.take(i - from - 1)[j]);
                        }
                    }
                }
            },
            _ => {
                proof {
                    assert(digits_val(b.take(i - from + 1)) > max);
                    lemma_digits_val_prefix(b, i - from + 1);
                }
                return None;
            },
        }
    }
    assert(b.take(s@.len() - from) == b);
    Some(acc)
}

/// Parse an unsigned integer not above `max`.
pub fn parse_u64_max(s: &[char], max: u64) -> (r: Option<u64>)
    ensures
        match r {
            Some(v) => parse_bounded(s@, max as nat) == Some(v as nat),
            None => parse_bounded(s@, max as nat) is None,
        },
{
    let from: usize = if s.len() > 0 && s[0] == '+' {
        1
    } else {
        0
    };
    assert(unsigned_body(s@) == s@.skip(from as int));
    parse_digits_bounded(s, from, max)
}

/// `str::parse::<usize>`.
pub fn parse_usize(s: &[char]) -> (r: Option<usize>)
    ensures
        match r {
            Some(v) => parse_bounded(s@, usize::MAX as nat) == Some(v as nat),
            None => parse_bounded(s@, usize::MAX as nat) is None,
        },
{
    match parse_u64_max(s, usize::MAX as u64) {
        Some(v) => Some(v as usize),
        None => None,
    }
}

/// `str::parse::<u32>`.
pub fn parse_u32(s: &[char]) -> (r: Option<u32>)
    ensures
        match r {
            Some(v) => parse_bounded(s@, u32::MAX as nat) == Some(v as nat),
            None => parse_bounded(s@, u32::MAX as nat) is None,
        },
{
    match parse_u64_max(s, u32::MAX as u64) {
        Some(v) => Some(v as u32),
        None => None,
    }
}

/// `parse_int` limited to the `i64` range.
pub open spec fn parse_i64_spec(s: Seq<char>) -> Option<int> {
    match parse_int(s) {
        Some(v) => if i64::MIN <= v <= i64::MAX {
            Some(v)
        } else {
            None
        },
        None => None,
    }
}

/// `str::parse::<i64>`.
pub fn parse_i64(s: &[char]) -> (r: Option<i64>)
    ensures
        match r {
            Some(v) => parse_i64_spec(s@) == Some(v as int),
            None => parse_i64_spec(s@) is None,
        },
{
    if s.len() > 0 && s[0] == '-' {
        assert(s@.drop_first() == s@.skip(1));
        match parse_digits_bounded(s, 1, 9223372036854775808u64) {
            Some(v) => {
                if v == 9223372036854775808u64 {
                    Some(i64::MIN)
                } else {
                    Some(-(v as i64))
                }
            },
            None => None,
        }
    } else {
        match parse_u64_max(s, i64::MAX as u64) {
            Some(v) => Some(v as i64),
            None => None,
        }
    }
}

// ---------------------------------------------------------------------------
// Formatting
// ---------------------------------------------------------------------------

/// The digit character for a value below 16 (lower-case letters above 9).
pub open spec fn digit_char(d: nat) -> char {
    if d < 10 {
        (('0' as nat) + d) as char
    } else {
        (('a' as nat) + (d - 10)) as char
    }
}

/// The representation of `n` in base `b`, most significant digit first,
/// without leading zeros (`"0"` for zero).
pub open spec fn base_str(n: nat, b: nat) -> Seq<char>
    recommends
        2 <= b <= 16,
    decreases n,
{
    if b < 2 || n < b {
        seq![digit_char(n % 16)]
    } else {
        proof {
            assert(n / b < n) by (nonlinear_arith)
                requires
                    n >= b,
                    b >= 2,
            ;
        }
        base_str(n / b, b).push(digit_char(n % b))
    }
}

/// Decimal representation of a natural number.
pub open spec fn nat_str(n: nat) -> Seq<char> {
    base_str(n, 10)
}

/// Decimal representation of an integer (`-` before negative values).
pub open spec fn int_str(n: int) -> Seq<char> {
    if n < 0 {
        seq!['-'] + nat_str((-n) as nat)
    } else {
        nat_str(n as nat)
    }
}

fn digit_of(d: u64) -> (c: char)
    requires
        d < 16,
    ensures
        c == digit_char(d as nat),
{
    let v: u8 = if d < 10 {
        48u8 + d as u8
    } else {
        87u8 + d as u8
    };
    let c = v as char;
    assert(c == digit_char(d as nat));
    c
}

/// Append the base-`b` representation of `n`.
pub fn push_base(out: &mut Vec<char>, n: u64, b: u64)
    requires
        2 <= b <= 16,
    ensures
        final(out)@ == old(out)@ + base_str(n as nat, b as nat),
    decreases n,
{
    if n >= b {
        assert(n / b < n) by (nonlinear_arith)
            requires
                n >= b,
                b >= 2,
        ;
        push_base(out, n / b, b);
    }
    let d = n % b;
    let c = digit_of(d);
    out.push(c);
    proof {
        if n < b {
            assert(n % b == n) by (nonlinear_arith)
                requires
                    n < b,
                    b >= 2,
            ;
            assert(n % 16 == n) by (nonlinear_arith)
                requires
                    n < b,
                    b <= 16,
            ;
        }
    }
}

/// Append the decimal representation of `n`.
pub fn push_u64(out: &mut Vec<char>, n: u64)
    ensures
        final(out)@ == old(out)@ + nat_str(n as nat),
{
    push_base(out, n, 10);
}

/// Append the decimal representation of a signed integer.
pub fn push_i64(out: &mut Vec<char>, n: i64)
    ensures
        final(out)@ == old(out)@ + int_str(n as int),
{
    if n < 0 {
        out.push('-');
        let m: u64 = if n == i64::MIN {
            9223372036854775808u64
        } else {
            (-n) as u64
        };
        let ghost before = out@;
        push_u64(out, m);
        assert(out@ =~= old(out)@ + int_str(n as int));
    } else {
        push_u64(out, n as u64);
    }
}

/// `s` preceded by enough `fill` characters to make it `w` long
/// (`{:>w}` formatting).
pub open spec fn pad_left(s: Seq<char>, w: nat, fill: char) -> Seq<char> {
    if s.len() >= w {
        s
    } else {
        Seq::new((w - s.len()) as nat, |i: int| fill) + s
    }
}

/// `s` followed by enough spaces to make it `w` long (`{:<w}` formatting).
pub open spec fn pad_right(s: Seq<char>, w: nat) -> Seq<char> {
    if s.len() >= w {
        s
    } else {
        s + Seq::new((w - s.len()) as nat, |i: int| ' ')
    }
}

/// Append `s` right-aligned in a field of width `w`.
pub fn push_padded_left(out: &mut Vec<char>, s: &[char], w: usize, fill: char)
    ensures
        final(out)@ == old(out)@ + pad_left(s@, w as nat, fill),
{
    let mut k: usize = s.len();
    while k < w
        invariant
            s@.len() <= k <= w || (k == s@.len() && k >= w),
            out@ == old(out)@ + Seq::new((k - s@.len()) as nat, |i: int| fill),
        decreases w - k,
    {
        out.push(fill);
        k += 1;
        assert(out@ =~= old(out)@ + Seq::new((k - s@.len()) as nat, |i: int| fill));
    }
    let ghost mid = out@;
    push_all(out, s);
    if s.len() >= w {
        assert(out@ =~= old(out)@ + pad_left(s@, w as nat, fill));
    } else {
        assert(out@ =~= old(out)@ + pad_left(s@, w as nat, fill));
    }
}

/// Append `s` left-aligned in a field of width `w`.
pub fn push_padded_right(out: &mut Vec<char>, s: &[char], w: usize)
    ensures
        final(out)@ == old(out)@ + pad_right(s@, w as nat),
{
    push_all(out, s);
    let ghost mid = out@;
    let mut k: usize = s.len();
    while k < w
        invariant
            s@.len() <= k <= w || (k == s@.len() && k >= w),
            out@ == mid + Seq::new((k - s@.len()) as nat, |i: int| ' '),
        decreases w - k,
    {
        out.push(' ');
        k += 1;
        assert(out@ =~= mid + Seq::new((k - s@.len()) as nat, |i: int| ' '));
    }
    assert(out@ =~= old(out)@ + pad_right(s@, w as nat));
}

/// Append the decimal representation of `n` right-aligned in width `w`.
pub fn push_u64_padded(out: &mut Vec<char>, n: u64, w: usize, fill: char)
    ensures
        final(out)@ == old(out)@ + pad_left(nat_str(n as nat), w as nat, fill),
{
    let mut digits: Vec<char> = Vec::new();
    push_u64(&mut digits, n);
    assert(digits@ =~= nat_str(n as nat));
    push_padded_left(out, digits.as_slice(), w, fill);
}

} // verus!
