//! `help` -- every registered command with its one-line description,
//! ordered by name.
use vstd::prelude::*;
use crate::text::{chars_of, string_of, push_str, push_all};
use crate::numeric::{pad_right, push_padded_right};
use crate::order::{lex_lt, lex_le, lex_less};
use crate::command::{Command, CommandKind, Registry, kind_name};
use crate::command::kinds::kind_description;
use crate::command::kinds::outcome;
use crate::command::{CommandContext, state_of, meets, lemma_vfs_of};
use crate::text::strs_view;

verus! {

/// `s` with `k` inserted after every command whose name is not greater
/// than `k`'s (one step of a stable insertion sort by name).
pub open spec fn insert_by_name(s: Seq<CommandKind>, k: CommandKind) -> Seq<CommandKind>
    decreases s.len(),
{
    if s.len() == 0 {
        seq![k]
    } else if lex_lt(kind_name(k), kind_name(s.last())) {
        insert_by_name(s.drop_last(), k).push(s.last())
    } else {
        s.push(k)
    }
}

/// The commands of `ks` stably sorted by name.
pub open spec fn sort_by_name(ks: Seq<CommandKind>) -> Seq<CommandKind>
    decreases ks.len(),
{
    if ks.len() == 0 {
        Seq::empty()
    } else {
        insert_by_name(sort_by_name(ks.drop_last()), ks.last())
    }
}

/// The `help` line of a command: two spaces, the name in a field of twelve,
/// a space, the description.
pub open spec fn help_line(k: CommandKind) -> Seq<char> {
    seq![' ', ' '] + pad_right(kind_name(k), 12) + seq![' '] + kind_description(k) + seq!['\n']
}

/// The `help` lines of `ks`, in order.
pub open spec fn help_lines(ks: Seq<CommandKind>) -> Seq<char>
    decreases ks.len(),
{
    if ks.len() == 0 {
        Seq::empty()
    } else {
        help_lines(ks.drop_last()) + help_line(ks.last())
    }
}

/// What `help` prints for the registered commands `ks`.
pub open spec fn help_text(ks: Seq<CommandKind>) -> Seq<char> {
    "Available commands:\n"@ + help_lines(sort_by_name(ks))
}

proof fn lemma_insert_at(s: Seq<CommandKind>, k: CommandKind, j: int)
    requires
        0 <= j <= s.len(),
        forall|m: int| j <= m < s.len() ==> lex_lt(kind_name(k), #[trigger] kind_name(s[m])),
        j == 0 || !lex_lt(kind_name(k), kind_name(s[j - 1])),
    ensures
        insert_by_name(s, k) == s.insert(j, k),
    decreases s.len(),
{
    if s.len() == 0 {
        assert(s.insert(j, k) =~= seq![k]);
    } else if j == s.len() {
        assert(s.insert(j, k) =~= s.push(k));
    } else {
        assert(lex_lt(kind_name(k), kind_name(s[s.len() - 1])));
        let d = s.drop_last();
        assert forall|m: int| j <= m < d.len() implies lex_lt(kind_name(k), #[trigger] kind_name(d[m])) by {
            assert(d[m] == s[m]);
        }
        lemma_insert_at(d, k, j);
        assert(s.insert(j, k) =~= d.insert(j, k).push(s.last()));
    }
}

fn insert_sorted(v: &mut Vec<CommandKind>, k: CommandKind)
    ensures
        final(v)@ == insert_by_name(old(v)@, k),
{
    let kn = chars_of(k.name());
    let mut j: usize = v.len();
    let mut moving = true;
    while moving && j > 0
        invariant
            j <= v@.len(),
            v@ == old(v)@,
            kn@ == kind_name(k),
            forall|m: int| j <= m < v@.len() ==> lex_lt(kind_name(k), #[trigger] kind_name(v@[m])),
            !moving ==> j > 0 && !lex_lt(kind_name(k), kind_name(v@[j - 1])),
        decreases j + (if moving { 1int } else { 0int }),
    {
        let other = chars_of(v[j - 1].name());
        if lex_less(kn.as_slice(), other.as_slice()) {
            j -= 1;
        } else {
            moving = false;
        }
    }
    proof {
        lemma_insert_at(v@, k, j as int);
    }
    v.insert(j, k);
}

/// The `help` text for the commands of `registry`.
pub fn execute(registry: &Registry) -> (r: String)
    ensures
        r@ == help_text(registry@),
{
    let ks = registry.all_commands();
    let mut sorted: Vec<CommandKind> = Vec::new();
    let mut i: usize = 0;
    while i < ks.len()
        invariant
            i <= ks@.len(),
            sorted@ == sort_by_name(ks@.take(i as int)),
        decreases ks.len() - i,
    {
        assert(ks@.take(i + 1).drop_last() =~= ks@.take(i as int));
        insert_sorted(&mut sorted, ks[i]);
        i += 1;
    }
    assert(ks@.take(ks@.len() as int) =~= ks@);
    let mut out: Vec<char> = Vec::new();
    push_str(&mut out, "Available commands:\n");
    let ghost head = out@;
    let mut j: usize = 0;
    while j < sorted.len()
        invariant
            j <= sorted@.len(),
            out@ == head + help_lines(sorted@.take(j as int)),
        decreases sorted.len() - j,
    {
        assert(sorted@.take(j + 1).drop_last() =~= sorted@.take(j as int));
        let k = sorted[j];
        let ghost before = out@;
        out.push(' ');
        out.push(' ');
        let n = chars_of(k.name());
        push_padded_right(&mut out, n.as_slice(), 12);
        out.push(' ');
        push_str(&mut out, k.description());
        out.push('\n');
        assert(out@ =~= before + help_line(k));
        j += 1;
    }
    assert(sorted@.take(sorted@.len() as int) =~= sorted@);
    string_of(out.as_slice())
}

/// The `help` command.
pub struct HelpCommand;

impl Command for HelpCommand {
    fn name(&self) -> (r: &'static str)
        ensures
            r@ == "help"@,
    {
        "help"
    }

    fn description(&self) -> (r: &'static str)
        ensures
            r@ == "Display this help message"@,
    {
        "Display this help message"
    }

    fn accepts_stdin(&self) -> (r: bool)
        ensures
            !r,
    {
        false
    }

    fn execute(&self, ctx: &mut CommandContext) -> (r: Result<String, String>)
        ensures
            meets(outcome(CommandKind::Help, state_of(old(ctx))), r, final(ctx)),
    {
        proof {
            lemma_vfs_of(ctx);
        }
        Ok(execute(ctx.registry))
    }

    fn synopsis(&self) -> (r: &'static str)
        ensures
            r@ == "help"@,
    {
        "help"
    }

    fn man_description(&self) -> (r: &'static str)
        ensures
            r@ == "Display a formatted list of all available commands sorted alphabetically, each with a brief description. This serves as the user's quick-reference guide within the terminal."@,
    {
        "Display a formatted list of all available commands sorted alphabetically, each with a brief description. This serves as the user's quick-reference guide within the terminal."
    }

    fn examples(&self) -> (r: &'static [&'static str])
        ensures
            strs_view(r@) == Seq::<Seq<char>>::empty(),
    {
        &[]
    }
}


/// The names of `s` are in order.
pub open spec fn names_sorted(s: Seq<CommandKind>) -> bool {
    forall|i: int, j: int| 0 <= i < j < s.len() ==> lex_le(kind_name(#[trigger] s[i]), kind_name(#[trigger] s[j]))
}

proof fn lemma_insert_sorted(s: Seq<CommandKind>, k: CommandKind)
    requires
        names_sorted(s),
    ensures
        names_sorted(insert_by_name(s, k)),
        insert_by_name(s, k).to_multiset() == s.to_multiset().insert(k),
    decreases s.len(),
{
    broadcast use vstd::seq_lib::group_to_multiset_ensures;

    if s.len() == 0 {
        assert(seq![k] =~= Seq::<CommandKind>::empty().push(k));
    } else if lex_lt(kind_name(k), kind_name(s.last())) {
        let d = s.drop_last();
        assert(names_sorted(d)) by {
            assert forall|i: int, j: int| 0 <= i < j < d.len() implies lex_le(kind_name(#[trigger] d[i]), kind_name(#[trigger] d[j])) by {
                assert(d[i] == s[i] && d[j] == s[j]);
            }
        }
        lemma_insert_sorted(d, k);
        let r = insert_by_name(d, k);
        assert(s =~= d.push(s.last()));
        assert forall|i: int| 0 <= i < r.len() implies lex_le(kind_name(#[trigger] r[i]), kind_name(s.last())) by {
            assert(r.to_multiset().count(r[i]) > 0);
            if r[i] != k {
                assert(d.to_multiset().count(r[i]) > 0);
                assert(d.contains(r[i]));
                let w = choose|w: int| 0 <= w < d.len() && d[w] == r[i];
                assert(s[w] == d[w]);
                assert(lex_le(kind_name(s[w]), kind_name(s[s.len() - 1])));
            }
        }
        let rr = r.push(s.last());
        assert forall|i: int, j: int| 0 <= i < j < rr.len() implies lex_le(kind_name(#[trigger] rr[i]), kind_name(#[trigger] rr[j])) by {
            if j == rr.len() - 1 {
                assert(rr[i] == r[i]);
            } else {
                assert(rr[i] == r[i] && rr[j] == r[j]);
            }
        }
        assert(rr.to_multiset() == r.to_multiset().insert(s.last()));
        assert(s.to_multiset() == d.to_multiset().insert(s.last()));
        assert(rr.to_multiset() =~= s.to_multiset().insert(k));
    } else {
        crate::order::lemma_lex_total(kind_name(k), kind_name(s.last()));
        let t = s.push(k);
        assert forall|i: int, j: int| 0 <= i < j < t.len() implies lex_le(kind_name(#[trigger] t[i]), kind_name(#[trigger] t[j])) by {
            if j == t.len() - 1 {
                assert(t[i] == s[i]);
                if i < s.len() - 1 {
                    assert(lex_le(kind_name(s[i]), kind_name(s[s.len() - 1])));
                }
                crate::order::lemma_le_trans(kind_name(s[i]), kind_name(s[s.len() - 1]), kind_name(k));
            } else {
                assert(t[i] == s[i] && t[j] == s[j]);
            }
        }
    }
}

/// `help` lists every command once per registration, ordered by name:
/// the order is sorted and the commands are those of the registry.
pub proof fn law_help_sorted(ks: Seq<CommandKind>)
    ensures
        names_sorted(sort_by_name(ks)),
        sort_by_name(ks).to_multiset() == ks.to_multiset(),
    decreases ks.len(),
{
    broadcast use vstd::seq_lib::group_to_multiset_ensures;

    if ks.len() > 0 {
        law_help_sorted(ks.drop_last());
        lemma_insert_sorted(sort_by_name(ks.drop_last()), ks.last());
        assert(ks =~= ks.drop_last().push(ks.last()));
    }
}

} // verus!
