//! `cut -f LIST [-d DELIM] file` -- select fields from each line.
//!
//! LIST is a comma-separated list of 1-based field numbers (pieces that are
//! not numbers are ignored); DELIM is the first character of its argument
//! (tab by default, and for an empty argument). Each line is split on the
//! delimiter and the requested fields that exist are joined again with it.
use vstd::prelude::*;
use crate::text::{strs_view, strs_to_chars, chars_of, string_of, to_owned_string, push_str,
    push_all, split_on, split_char, trim, trim_chars, starts_with, join, join_chars, unlines,
    lemma_unlines_push, push_line, str_eq, str_lines, lines, vv};
use crate::numeric::{parse_bounded, parse_usize};
use crate::vfs::{Vfs, rv, read_spec};
use crate::command::kinds::outcome;
use crate::command::{Command, CommandContext, CommandKind, state_of, meets, lemma_vfs_of};

verus! {

/// The field numbers a list argument names, in order.
pub open spec fn parse_fields(ps: Seq<Seq<char>>) -> Seq<nat>
    decreases ps.len(),
{
    if ps.len() == 0 {
        Seq::empty()
    } else {
        let r = parse_fields(ps.drop_last());
        match parse_bounded(trim(ps.last()), usize::MAX as nat) {
            Some(n) => r.push(n),
            None => r,
        }
    }
}

/// The field numbers of a `-f` argument.
pub open spec fn field_list(s: Seq<char>) -> Seq<nat> {
    parse_fields(split_char(s, ','))
}

/// The parsed options: field numbers, delimiter, file operand.
pub type CutOpts = (Seq<nat>, char, Option<Seq<char>>);

/// The options given by `args[i..]`, starting from `st`.
pub open spec fn cut_args(args: Seq<Seq<char>>, i: int, st: CutOpts) -> Result<CutOpts, Seq<char>>
    decreases args.len() - i,
{
    if i >= args.len() {
        Ok(st)
    } else if args[i] == "-f"@ && i + 1 < args.len() {
        cut_args(args, i + 2, (field_list(args[i + 1]), st.1, st.2))
    } else if args[i] == "-d"@ && i + 1 < args.len() {
        let d = if args[i + 1].len() > 0 {
            args[i + 1][0]
        } else {
            '\t'
        };
        cut_args(args, i + 2, (st.0, d, st.2))
    } else if !starts_with(args[i], seq!['-']) && st.2 is None {
        cut_args(args, i + 1, (st.0, st.1, Some(args[i])))
    } else {
        Err("cut: unknown option: "@ + args[i])
    }
}

/// The pieces named by the field numbers that exist, in the order of the
/// field numbers.
pub open spec fn select_fields(parts: Seq<Seq<char>>, fields: Seq<nat>) -> Seq<Seq<char>>
    decreases fields.len(),
{
    if fields.len() == 0 {
        Seq::empty()
    } else {
        let r = select_fields(parts, fields.drop_last());
        let f = fields.last();
        if 1 <= f <= parts.len() {
            r.push(parts[f - 1])
        } else {
            r
        }
    }
}

/// One output line of `cut`.
pub open spec fn cut_line(line: Seq<char>, fields: Seq<nat>, d: char) -> Seq<char> {
    join(select_fields(split_char(line, d), fields), seq![d])
}

/// The result of `cut` on the given arguments.
pub open spec fn cut_spec(vfs: &Vfs, args: Seq<Seq<char>>) -> Result<Seq<char>, Seq<char>> {
    match cut_args(args, 0, (Seq::empty(), '\t', None)) {
        Err(e) => Err(e),
        Ok(st) => if st.0.len() == 0 {
            Err("cut: missing -f argument"@)
        } else {
            match st.2 {
                None => Err("cut: missing file operand"@),
                Some(p) => match read_spec(vfs@, vfs.key(p)) {
                    Err(e) => Err(e),
                    Ok(c) => {
                        let ls = lines(c);
                        Ok(unlines(Seq::new(ls.len(), |k: int| cut_line(ls[k], st.0, st.1))))
                    },
                },
            }
        },
    }
}

/// The numbers of a vector of field numbers.
pub open spec fn nats(v: Seq<usize>) -> Seq<nat> {
    v.map_values(|f: usize| f as nat)
}

/// Parse a `-f` list.
fn parse_field_list(s: &str) -> (r: Vec<usize>)
    ensures
        nats(r@) == field_list(s@),
{
    let cs = chars_of(s);
    let parts = split_on(cs.as_slice(), ',');
    let ghost ps = vv(parts@);
    let mut r: Vec<usize> = Vec::new();
    let mut k: usize = 0;
    while k < parts.len()
        invariant
            k <= parts@.len(),
            ps == vv(parts@),
            ps == split_char(s@, ','),
            nats(r@) == parse_fields(ps.take(k as int)),
        decreases parts.len() - k,
    {
        assert(ps.take(k + 1).drop_last() == ps.take(k as int));
        assert(ps.take(k + 1).last() == parts@[k as int]@);
        let t = trim_chars(parts[k].as_slice());
        let ghost before = r@;
        match parse_usize(t.as_slice()) {
            Some(n) => {
                r.push(n);
                assert(nats(r@) =~= nats(before).push(n as nat));
            },
            None => {},
        }
        k += 1;
    }
    assert(ps.take(parts@.len() as int) == ps);
    r
}

/// The fields of one line.
fn cut_one(line: &[char], fields: &Vec<usize>, d: char) -> (r: Vec<char>)
    ensures
        r@ == cut_line(line@, nats(fields@), d),
{
    let parts = split_on(line, d);
    let ghost ps = vv(parts@);
    let ghost fs = nats(fields@);
    let mut sel: Vec<Vec<char>> = Vec::new();
    let mut k: usize = 0;
    while k < fields.len()
        invariant
            k <= fields@.len(),
            ps == vv(parts@),
            fs == nats(fields@),
            vv(sel@) == select_fields(ps, fs.take(k as int)),
        decreases fields.len() - k,
    {
        assert(fs.take(k + 1).drop_last() == fs.take(k as int));
        assert(fs.take(k + 1).last() == fields@[k as int] as nat);
        let f = fields[k];
        let ghost before = vv(sel@);
        if f >= 1 && f <= parts.len() {
            sel.push(crate::text::copy_chars(parts[f - 1].as_slice()));
            assert(ps[f - 1] == parts@[f - 1]@);
            assert(vv(sel@) =~= before.push(ps[f - 1]));
        }
        k += 1;
    }
    assert(fs.take(fields@.len() as int) == fs);
    let mut sep: Vec<char> = Vec::new();
    sep.push(d);
    assert(sep@ =~= seq![d]);
    join_chars(&sel, sep.as_slice())
}

/// Execute `cut`.
pub fn execute(vfs: &Vfs, args: &[&str]) -> (r: Result<String, String>)
    ensures
        rv(r) == cut_spec(vfs, strs_view(args@)),
{
    let ghost av = strs_view(args@);
    let mut fields: Vec<usize> = Vec::new();
    let mut delim: char = '\t';
    let mut file: Option<&str> = None;
    let mut i: usize = 0;
    assert(nats(fields@) =~= Seq::<nat>::empty());
    while i < args.len()
        invariant
            i <= args@.len(),
            av == strs_view(args@),
            cut_args(av, 0, (Seq::empty(), '\t', None)) == cut_args(
                av,
                i as int,
                (nats(fields@), delim, match file { Some(p) => Some(p@), None => None }),
            ),
        decreases args.len() - i,
    {
        assert(av[i as int] == args@[i as int]@);
        if str_eq(args[i], "-f") && i + 1 < args.len() {
            assert(av[i + 1] == args@[i + 1]@);
            fields = parse_field_list(args[i + 1]);
            i += 2;
        } else if str_eq(args[i], "-d") && i + 1 < args.len() {
            assert(av[i + 1] == args@[i + 1]@);
            let dc = chars_of(args[i + 1]);
            delim = if dc.len() > 0 { dc[0] } else { '\t' };
            i += 2;
        } else {
            let dash = crate::text::str_starts_with_char(args[i], '-');
            if !dash && file.is_none() {
                file = Some(args[i]);
                i += 1;
            } else {
                let mut m: Vec<char> = Vec::new();
                push_str(&mut m, "cut: unknown option: ");
                push_str(&mut m, args[i]);
                return Err(string_of(m.as_slice()));
            }
        }
    }
    if fields.len() == 0 {
        return Err(to_owned_string("cut: missing -f argument"));
    }
    let path = match file {
        Some(p) => p,
        None => return Err(to_owned_string("cut: missing file operand")),
    };
    let content = vfs.read_file(path)?;
    let ls = str_lines(content.as_str());
    let ghost lv = vv(ls@);
    let ghost outs = Seq::new(lv.len(), |k: int| cut_line(lv[k], nats(fields@), delim));
    let mut out: Vec<char> = Vec::new();
    let mut k: usize = 0;
    while k < ls.len()
        invariant
            k <= ls@.len(),
            lv == vv(ls@),
            outs == Seq::new(lv.len(), |t: int| cut_line(lv[t], nats(fields@), delim)),
            out@ == unlines(outs.take(k as int)),
        decreases ls.len() - k,
    {
        let piece = cut_one(ls[k].as_slice(), &fields, delim);
        proof {
            assert(lv[k as int] == ls@[k as int]@);
            lemma_unlines_push(outs.take(k as int), piece@);
            assert(outs.take(k + 1) =~= outs.take(k as int).push(piece@));
        }
        push_line(&mut out, piece.as_slice());
        k += 1;
    }
    assert(outs.take(ls@.len() as int) == outs);
    Ok(string_of(out.as_slice()))
}

/// The `cut` command.
pub struct CutCommand;

impl Command for CutCommand {
    fn name(&self) -> (r: &'static str)
        ensures
            r@ == "cut"@,
    {
        "cut"
    }

    fn description(&self) -> (r: &'static str)
        ensures
            r@ == "Extract fields from each line (-f FIELDS -d DELIM)"@,
    {
        "Extract fields from each line (-f FIELDS -d DELIM)"
    }

    fn accepts_stdin(&self) -> (r: bool)
        ensures
            r,
    {
        true
    }

    fn execute(&self, ctx: &mut CommandContext) -> (r: Result<String, String>)
        ensures
            meets(outcome(CommandKind::Cut, state_of(old(ctx))), r, final(ctx)),
    {
        proof {
            lemma_vfs_of(ctx);
        }
        execute(ctx.vfs, ctx.args)
    }

    fn synopsis(&self) -> (r: &'static str)
        ensures
            r@ == "cut -f FIELDS [-d DELIM] file"@,
    {
        "cut -f FIELDS [-d DELIM] file"
    }

    fn man_description(&self) -> (r: &'static str)
        ensures
            r@ == "Extract selected fields from each line of a file. The -f flag (required) specifies \
a comma-separated list of 1-indexed field numbers to extract. The -d flag sets the \
single-character field delimiter, which defaults to tab. Out-of-range field numbers are \
silently skipped."@,
    {
        "Extract selected fields from each line of a file. The -f flag (required) specifies \
a comma-separated list of 1-indexed field numbers to extract. The -d flag sets the \
single-character field delimiter, which defaults to tab. Out-of-range field numbers are \
silently skipped."
    }

    fn examples(&self) -> (r: &'static [&'static str])
        ensures
            strs_view(r@) == seq!["cut -f 1,3 data.csv"@, "cut -f 2 -d , data.csv"@],
    {
        let r: &'static [&'static str] = &["cut -f 1,3 data.csv", "cut -f 2 -d , data.csv"];
        assert(r@ == seq!["cut -f 1,3 data.csv", "cut -f 2 -d , data.csv"]);
        r
    }
}

} // verus!
