//! `export [NAME[=VALUE]]...` -- set environment variables, or list them.
//!
//! Without operands every variable is listed as `declare -x NAME="VALUE"`,
//! ordered by name. Each operand is split at its first `=`; an operand
//! without `=` sets the variable to the empty string.
use vstd::prelude::*;
use crate::text::{strs_view, chars_of, has_char, is_first_char, find_char, slice_chars};
use crate::env::{EnvVars, pair_lines};
use crate::order::sorted_set;
use crate::vfs::rv;
use crate::command::kinds::outcome;
use crate::command::{Command, CommandContext, CommandKind, state_of, meets, lemma_vfs_of};

verus! {

/// The name and the value that an operand assigns.
pub open spec fn assignment(a: Seq<char>) -> (Seq<char>, Seq<char>) {
    if has_char(a, '=') {
        let i = choose|i: int| is_first_char(a, '=', i);
        (a.take(i), a.skip(i + 1))
    } else {
        (a, Seq::empty())
    }
}

/// The variables after the operands' assignments, made in order.
pub open spec fn assign_all(m: Map<Seq<char>, Seq<char>>, args: Seq<Seq<char>>) -> Map<Seq<char>, Seq<char>>
    decreases args.len(),
{
    if args.len() == 0 {
        m
    } else {
        let prev = assign_all(m, args.drop_last());
        let (k, v) = assignment(args.last());
        prev.insert(k, v)
    }
}

/// The listing that `export` prints without operands.
pub open spec fn declare_listing(m: Map<Seq<char>, Seq<char>>) -> Seq<char> {
    pair_lines(m, sorted_set(m.dom()), "declare -x "@, "=\""@, "\"\n"@)
}

fn split_assignment(a: &str) -> (r: (Vec<char>, Vec<char>))
    ensures
        r.0@ == assignment(a@).0,
        r.1@ == assignment(a@).1,
{
    let cs = chars_of(a);
    match find_char(cs.as_slice(), '=') {
        Some(i) => {
            proof {
                let j = choose|j: int| is_first_char(cs@, '=', j);
                if j < i {
                } else if i < j {
                }
                assert(j == i);
            }
            let n = cs.len();
            let after: usize = i + 1;
            (slice_chars(cs.as_slice(), 0, i), slice_chars(cs.as_slice(), after, n))
        },
        None => {
            assert(cs@ =~= cs@.subrange(0, cs@.len() as int));
            (cs, Vec::new())
        },
    }
}

/// Execute `export`.
pub fn execute(env_vars: &mut EnvVars, args: &[&str]) -> (r: Result<String, String>)
    ensures
        args@.len() == 0 ==> rv(r) == Ok::<Seq<char>, Seq<char>>(declare_listing(old(env_vars)@))
            && final(env_vars)@ == old(env_vars)@,
        args@.len() > 0 ==> rv(r) == Ok::<Seq<char>, Seq<char>>(Seq::empty())
            && final(env_vars)@ == assign_all(old(env_vars)@, strs_view(args@)),
{
    if args.len() == 0 {
        let out = env_vars.render("declare -x ", "=\"", "\"\n");
        return Ok(out);
    }
    let ghost av = strs_view(args@);
    let mut i: usize = 0;
    while i < args.len()
        invariant
            i <= args@.len(),
            av == strs_view(args@),
            env_vars@ == assign_all(old(env_vars)@, av.take(i as int)),
        decreases args.len() - i,
    {
        assert(av.take(i + 1).drop_last() =~= av.take(i as int));
        assert(av.take(i + 1).last() == args@[i as int]@);
        let (k, v) = split_assignment(args[i]);
        env_vars.insert_chars(k.as_slice(), v.as_slice());
        i += 1;
    }
    assert(av.take(args@.len() as int) =~= av);
    Ok(String::new())
}

/// The `export` command.
pub struct ExportCommand;

impl Command for ExportCommand {
    fn name(&self) -> (r: &'static str)
        ensures
            r@ == "export"@,
    {
        "export"
    }

    fn description(&self) -> (r: &'static str)
        ensures
            r@ == "Set environment variables (export KEY=VALUE)"@,
    {
        "Set environment variables (export KEY=VALUE)"
    }

    fn accepts_stdin(&self) -> (r: bool)
        ensures
            !r,
    {
        false
    }

    fn execute(&self, ctx: &mut CommandContext) -> (r: Result<String, String>)
        ensures
            meets(outcome(CommandKind::Export, state_of(old(ctx))), r, final(ctx)),
    {
        proof {
            lemma_vfs_of(ctx);
        }
        execute(ctx.env_vars, ctx.args)
    }

    fn synopsis(&self) -> (r: &'static str)
        ensures
            r@ == "export KEY=VALUE"@,
    {
        "export KEY=VALUE"
    }

    fn man_description(&self) -> (r: &'static str)
        ensures
            r@ == "Set environment variables in the shell session. When called without arguments, lists all exported variables in declare -x format. Values may contain = characters; only the first = is treated as the key-value separator. A bare key without = sets the variable to an empty string."@,
    {
        "Set environment variables in the shell session. When called without arguments, lists all exported variables in declare -x format. Values may contain = characters; only the first = is treated as the key-value separator. A bare key without = sets the variable to an empty string."
    }

    fn examples(&self) -> (r: &'static [&'static str])
        ensures
            strs_view(r@) == seq!["export PATH=/usr/bin"@, "export EDITOR=vim"@],
    {
        let r: &'static [&'static str] = &["export PATH=/usr/bin", "export EDITOR=vim"];
        assert(r@ == seq!["export PATH=/usr/bin", "export EDITOR=vim"]);
        r
    }
}


/// After `export NAME=VALUE` the variable `NAME` holds `VALUE`, even when
/// `VALUE` holds `=` (only the first `=` separates), and no other variable
/// changes.
pub proof fn law_export_sets(m: Map<Seq<char>, Seq<char>>, name: Seq<char>, value: Seq<char>)
    requires
        !has_char(name, '='),
    ensures
        assign_all(m, seq![name + seq!['='] + value]) == m.insert(name, value),
{
    let a = name + seq!['='] + value;
    let i = name.len() as int;
    assert(is_first_char(a, '=', i)) by {
        assert forall|j: int| 0 <= j < i implies a[j] != '=' by {
            assert(a[j] == name[j]);
        }
    }
    assert(has_char(a, '='));
    let k = choose|k: int| is_first_char(a, '=', k);
    if k < i {
        assert(a[k] == name[k]);
    } else if i < k {
    }
    assert(k == i);
    assert(a.take(i) =~= name);
    assert(a.skip(i + 1) =~= value);
    assert(assignment(a) == (name, value));
    assert(seq![a].drop_last() =~= Seq::<Seq<char>>::empty());
    assert(seq![a].last() == a);
    assert(assign_all(m, Seq::<Seq<char>>::empty()) == m);
}

/// `export NAME` alone sets `NAME` to the empty string.
pub proof fn law_export_bare(m: Map<Seq<char>, Seq<char>>, name: Seq<char>)
    requires
        !has_char(name, '='),
    ensures
        assign_all(m, seq![name]) == m.insert(name, Seq::<char>::empty()),
{
    assert(seq![name].drop_last() =~= Seq::<Seq<char>>::empty());
    assert(seq![name].last() == name);
    assert(assignment(name) == (name, Seq::<char>::empty()));
    assert(assign_all(m, Seq::<Seq<char>>::empty()) == m);
}

} // verus!
