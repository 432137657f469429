//! `printf FORMAT [value...]` -- formatted output.
//!
//! The format understands the escapes `\n`, `\t`, `\\` and the conversions
//! `%s`, `%d` (decimal), `%x` (hexadecimal), `%o` (octal), `%f` and `%%`.
//! Each conversion takes the next value; a missing value counts as empty
//! (`%s`) or zero, and a value that is not an integer counts as zero.
//! Unknown escapes and conversions are copied as they are.
//!
//! A `%f` value is shown as the decimal text of the floating-point number
//! it denotes. That text is computed by the caller (the library holds no
//! floating-point arithmetic) and handed in, one entry per value.
use vstd::prelude::*;
use crate::text::{strs_view, chars_of, string_of, to_owned_string, push_all, push_str, vv};
use crate::numeric::{parse_i64_spec, parse_i64, int_str, base_str, push_i64, push_base};
use crate::vfs::rv;

verus! {

/// The character an escape `\c` stands for, with its backslash kept when
/// the escape is unknown.
pub open spec fn escape_text(c: char) -> Seq<char> {
    if c == 'n' {
        seq!['\n']
    } else if c == 't' {
        seq!['\t']
    } else if c == '\\' {
        seq!['\\']
    } else {
        seq!['\\', c]
    }
}

/// Value `i`, or `dflt` when there are fewer values.
pub open spec fn value_or(vals: Seq<Seq<char>>, i: nat, dflt: Seq<char>) -> Seq<char> {
    if i < vals.len() {
        vals[i as int]
    } else {
        dflt
    }
}

/// The integer a value denotes (0 when it is not an `i64`).
pub open spec fn int_value(vals: Seq<Seq<char>>, i: nat) -> int {
    match parse_i64_spec(value_or(vals, i, seq!['0'])) {
        Some(n) => n,
        None => 0,
    }
}

/// The 64-bit two's-complement bit pattern of an `i64`, as an unsigned
/// number (how `{:x}` and `{:o}` show negative values).
pub open spec fn bits64(n: int) -> nat {
    if n < 0 {
        (n + 0x1_0000_0000_0000_0000) as nat
    } else {
        n as nat
    }
}

/// The text of a `%f` conversion of value `i`.
pub open spec fn float_value(vals: Seq<Seq<char>>, floats: Seq<Seq<char>>, i: nat) -> Seq<char> {
    if i < vals.len() && i < floats.len() {
        floats[i as int]
    } else {
        seq!['0']
    }
}

/// The output for the rest `fmt` of the format, the next value being `i`.
pub open spec fn printf_out(fmt: Seq<char>, vals: Seq<Seq<char>>, floats: Seq<Seq<char>>, i: nat) -> Seq<char>
    decreases fmt.len(),
{
    if fmt.len() == 0 {
        Seq::empty()
    } else if fmt[0] == '\\' {
        if fmt.len() == 1 {
            seq!['\\']
        } else {
            escape_text(fmt[1]) + printf_out(fmt.skip(2), vals, floats, i)
        }
    } else if fmt[0] == '%' {
        if fmt.len() == 1 {
            seq!['%']
        } else {
            let c = fmt[1];
            let rest = fmt.skip(2);
            if c == '%' {
                seq!['%'] + printf_out(rest, vals, floats, i)
            } else if c == 's' {
                value_or(vals, i, Seq::empty()) + printf_out(rest, vals, floats, i + 1)
            } else if c == 'd' {
                int_str(int_value(vals, i)) + printf_out(rest, vals, floats, i + 1)
            } else if c == 'f' {
                float_value(vals, floats, i) + printf_out(rest, vals, floats, i + 1)
            } else if c == 'x' {
                base_str(bits64(int_value(vals, i)), 16) + printf_out(rest, vals, floats, i + 1)
            } else if c == 'o' {
                base_str(bits64(int_value(vals, i)), 8) + printf_out(rest, vals, floats, i + 1)
            } else {
                seq!['%', c] + printf_out(rest, vals, floats, i)
            }
        }
    } else {
        seq![fmt[0]] + printf_out(fmt.drop_first(), vals, floats, i)
    }
}

/// The result of `printf`; `floats[k]` is the decimal text of value `k`
/// read as a floating-point number.
pub open spec fn printf_spec(args: Seq<Seq<char>>, floats: Seq<Seq<char>>) -> Result<Seq<char>, Seq<char>> {
    if args.len() == 0 {
        Err("printf: missing format operand"@)
    } else {
        Ok(printf_out(args[0], args.skip(1), floats, 0))
    }
}

/// The integer value `i` denotes.
fn int_arg(vals: &Vec<Vec<char>>, i: usize) -> (r: i64)
    ensures
        r as int == int_value(vv(vals@), i as nat),
{
    if i < vals.len() {
        assert(vv(vals@)[i as int] == vals@[i as int]@);
        match parse_i64(vals[i].as_slice()) {
            Some(n) => n,
            None => 0,
        }
    } else {
        let mut z: Vec<char> = Vec::new();
        z.push('0');
        assert(z@ =~= seq!['0']);
        proof {
            assert(parse_i64_spec(seq!['0']) == Some(0int)) by {
                assert(crate::numeric::unsigned_body(seq!['0']) =~= seq!['0']);
                assert(seq!['0'].drop_last() =~= Seq::<char>::empty());
                assert(seq!['0'].last() == '0');
                assert(crate::numeric::digit_val('0') == 0);
                assert(crate::numeric::digits_val(Seq::<char>::empty()) == 0);
                assert(crate::numeric::digits_val(seq!['0']) == 0);
                assert(crate::numeric::all_digits(seq!['0']));
            }
        }
        0
    }
}

/// Execute `printf`; `floats[k]` must be the decimal text of the
/// floating-point number that value `k` (argument `k + 1`) denotes.
pub fn execute(args: &[&str], floats: &[&str]) -> (r: Result<String, String>)
    ensures
        rv(r) == printf_spec(strs_view(args@), strs_view(floats@)),
{
    if args.len() == 0 {
        return Err(to_owned_string("printf: missing format operand"));
    }
    let ghost av = strs_view(args@);
    let ghost fl = strs_view(floats@);
    let fmt = chars_of(args[0]);
    assert(av[0] == args@[0]@);
    let mut vals: Vec<Vec<char>> = Vec::new();
    let mut q: usize = 1;
    while q < args.len()
        invariant
            1 <= q <= args@.len(),
            av == strs_view(args@),
            vv(vals@) == av.skip(1).take(q - 1),
        decreases args.len() - q,
    {
        let ghost before = vv(vals@);
        vals.push(chars_of(args[q]));
        assert(av[q as int] == args@[q as int]@);
        assert(vv(vals@) =~= before.push(av[q as int]));
        assert(av.skip(1).take(q as int) =~= av.skip(1).take(q - 1).push(av[q as int]));
        q += 1;
    }
    assert(av.skip(1).take(args@.len() - 1) == av.skip(1));
    let ghost vs = vv(vals@);
    let mut out: Vec<char> = Vec::new();
    let mut k: usize = 0;
    let mut idx: usize = 0;
    assert(fmt@.skip(0) =~= fmt@);
    while k < fmt.len()
        invariant
            k <= fmt@.len(),
            idx <= k,
            vs == vv(vals@),
            fl == strs_view(floats@),
            out@ + printf_out(fmt@.skip(k as int), vs, fl, idx as nat) == printf_out(fmt@, vs, fl, 0),
        decreases fmt.len() - k,
    {
        let ghost rest = fmt@.skip(k as int);
        let ghost before = out@;
        let c = fmt[k];
        if c == '\\' {
            if k + 1 == fmt.len() {
                out.push('\\');
                k += 1;
                assert(rest =~= seq!['\\']);
            } else {
                let e = fmt[k + 1];
                if e == 'n' {
                    out.push('\n');
                } else if e == 't' {
                    out.push('\t');
                } else if e == '\\' {
                    out.push('\\');
                } else {
                    out.push('\\');
                    out.push(e);
                }
                assert(rest.skip(2) =~= fmt@.skip(k + 2));
                k += 2;
            }
        } else if c == '%' {
            if k + 1 == fmt.len() {
                out.push('%');
                k += 1;
                assert(rest =~= seq!['%']);
            } else {
                let e = fmt[k + 1];
                assert(rest.skip(2) =~= fmt@.skip(k + 2));
                if e == '%' {
                    out.push('%');
                } else if e == 's' {
                    if idx < vals.len() {
                        assert(vs[idx as int] == vals@[idx as int]@);
                        push_all(&mut out, vals[idx].as_slice());
                    }
                    idx += 1;
                } else if e == 'd' {
                    let n = int_arg(&vals, idx);
                    push_i64(&mut out, n);
                    idx += 1;
                } else if e == 'f' {
                    if idx < vals.len() && idx < floats.len() {
                        assert(fl[idx as int] == floats@[idx as int]@);
                        push_str(&mut out, floats[idx]);
                    } else {
                        out.push('0');
                    }
                    idx += 1;
                } else if e == 'x' || e == 'o' {
                    let n = int_arg(&vals, idx);
                    let u: u64 = #[verifier::truncate] (n as u64);
                    assert(n < 0 ==> u as int == n as int + 0x1_0000_0000_0000_0000int) by (bit_vector)
                        requires
                            u == n as u64,
                    ;
                    assert(n >= 0 ==> u as int == n as int) by (bit_vector)
                        requires
                            u == n as u64,
                    ;
                    assert(u as nat == bits64(n as int));
                    push_base(&mut out, u, if e == 'x' { 16 } else { 8 });
                    idx += 1;
                } else {
                    out.push('%');
                    out.push(e);
                }
                k += 2;
            }
        } else {
            out.push(c);
            assert(rest.drop_first() =~= fmt@.skip(k + 1));
            k += 1;
        }
        assert(out@ + printf_out(fmt@.skip(k as int), vs, fl, idx as nat) =~= printf_out(fmt@, vs, fl, 0));
    }
    assert(fmt@.skip(k as int) =~= Seq::<char>::empty());
    assert(out@ + Seq::<char>::empty() =~= out@);
    Ok(string_of(out.as_slice()))
}

/// The `printf` command.
pub struct PrintfCommand;

} // verus!
