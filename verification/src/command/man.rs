//! `man command` -- the manual page of a registered command: its name and
//! description, usage line, detailed description and examples.
use vstd::prelude::*;
use crate::text::{strs_view, chars_of, string_of, push_str, to_owned_string, uppercase, to_uppercase};
use crate::command::{Command, CommandKind, Registry, kind_name, find_kind};
use crate::command::kinds::{kind_description, kind_synopsis, kind_man_description, kind_examples};
use crate::vfs::rv;
use crate::command::kinds::outcome;
use crate::command::{CommandContext, state_of, meets, lemma_vfs_of};

verus! {

/// Each example indented by four spaces, on its own line.
pub open spec fn example_lines(ex: Seq<Seq<char>>) -> Seq<char>
    decreases ex.len(),
{
    if ex.len() == 0 {
        Seq::empty()
    } else {
        example_lines(ex.drop_last()) + "    "@ + ex.last() + seq!['\n']
    }
}

/// The description shown: the detailed one, or the `help` line when there
/// is none.
pub open spec fn shown_description(k: CommandKind) -> Seq<char> {
    if kind_man_description(k).len() == 0 {
        kind_description(k)
    } else {
        kind_man_description(k)
    }
}

/// The manual page of `k`.
pub open spec fn man_page(k: CommandKind) -> Seq<char> {
    page_layout(uppercase(kind_name(k)), k)
}

/// The manual page of `k` under the title `title` (the upper-cased name):
/// the title and `(1)`, then the NAME, SYNOPSIS and DESCRIPTION sections,
/// then the EXAMPLES section when `k` has examples.
pub open spec fn page_layout(title: Seq<char>, k: CommandKind) -> Seq<char> {
    let ex = kind_examples(k);
    title + "(1)\n\n"@ + "NAME\n    "@ + kind_name(k) + " - "@ + kind_description(k) + "\n\n"@
        + "SYNOPSIS\n    "@ + kind_synopsis(k) + "\n\n"@ + "DESCRIPTION\n    "@ + shown_description(k) + seq!['\n']
        + if ex.len() == 0 {
        Seq::empty()
    } else {
        seq!['\n'] + "EXAMPLES\n"@ + example_lines(ex)
    }
}

/// What `man` prints for the registered commands `ks`.
pub open spec fn man_spec(ks: Seq<CommandKind>, args: Seq<Seq<char>>) -> Result<Seq<char>, Seq<char>> {
    if args.len() == 0 {
        Err("man: what manual page do you want?\nFor example, try 'man ls'"@)
    } else {
        match find_kind(ks, args[0]) {
            None => Ok("man: no entry for '"@ + args[0] + "'"@),
            Some(k) => Ok(man_page(k)),
        }
    }
}

/// The manual page of `k`, titled with its upper-cased name.
pub fn build_man_page(k: CommandKind) -> (r: String)
    ensures
        r@ == man_page(k),
{
    let upper = to_uppercase(k.name());
    page_with_title(upper.as_str(), k)
}

/// The manual page of `k` under the title `title`.
pub fn page_with_title(title: &str, k: CommandKind) -> (r: String)
    ensures
        r@ == page_layout(title@, k),
{
    let name = k.name();
    let mut page = chars_of(title);
    push_str(&mut page, "(1)\n\n");
    push_str(&mut page, "NAME\n    ");
    push_str(&mut page, name);
    push_str(&mut page, " - ");
    push_str(&mut page, k.description());
    push_str(&mut page, "\n\n");
    push_str(&mut page, "SYNOPSIS\n    ");
    push_str(&mut page, k.synopsis());
    push_str(&mut page, "\n\n");
    push_str(&mut page, "DESCRIPTION\n    ");
    let md = k.man_description();
    let mdc = chars_of(md);
    if mdc.len() == 0 {
        push_str(&mut page, k.description());
    } else {
        push_str(&mut page, md);
    }
    page.push('\n');
    let ghost top = page@;
    assert(top =~= title@ + "(1)\n\n"@ + "NAME\n    "@ + kind_name(k) + " - "@ + kind_description(k)
        + "\n\n"@ + "SYNOPSIS\n    "@ + kind_synopsis(k) + "\n\n"@ + "DESCRIPTION\n    "@ + shown_description(k)
        + seq!['\n']);
    let ex = k.examples();
    if ex.len() > 0 {
        page.push('\n');
        push_str(&mut page, "EXAMPLES\n");
        let ghost mid = page@;
        let mut i: usize = 0;
        while i < ex.len()
            invariant
                i <= ex@.len(),
                page@ == mid + example_lines(strs_view(ex@).take(i as int)),
            decreases ex.len() - i,
        {
            assert(strs_view(ex@).take(i + 1).drop_last() =~= strs_view(ex@).take(i as int));
            assert(strs_view(ex@).take(i + 1).last() == ex@[i as int]@);
            let ghost before = page@;
            push_str(&mut page, "    ");
            push_str(&mut page, ex[i]);
            page.push('\n');
            assert(page@ =~= before + "    "@ + ex@[i as int]@ + seq!['\n']);
            i += 1;
        }
        assert(strs_view(ex@).take(ex@.len() as int) =~= strs_view(ex@));
        assert(mid =~= top + seq!['\n'] + "EXAMPLES\n"@);
        assert(page@ =~= top + (seq!['\n'] + "EXAMPLES\n"@ + example_lines(kind_examples(k))));
    } else {
        assert(strs_view(ex@).len() == 0);
        assert(page@ =~= top + Seq::<char>::empty());
    }
    string_of(page.as_slice())
}

/// Execute `man` against the commands of `registry`.
pub fn execute(registry: &Registry, args: &[&str]) -> (r: Result<String, String>)
    ensures
        rv(r) == man_spec(registry@, strs_view(args@)),
{
    if args.len() == 0 {
        return Err(to_owned_string("man: what manual page do you want?\nFor example, try 'man ls'"));
    }
    assert(strs_view(args@)[0] == args@[0]@);
    match registry.get(args[0]) {
        None => {
            let mut m: Vec<char> = Vec::new();
            push_str(&mut m, "man: no entry for '");
            push_str(&mut m, args[0]);
            push_str(&mut m, "'");
            assert(m@ =~= "man: no entry for '"@ + args@[0]@ + "'"@);
            Ok(string_of(m.as_slice()))
        },
        Some(k) => Ok(build_man_page(k)),
    }
}

/// The `man` command.
pub struct ManCommand;

impl Command for ManCommand {
    fn name(&self) -> (r: &'static str)
        ensures
            r@ == "man"@,
    {
        "man"
    }

    fn description(&self) -> (r: &'static str)
        ensures
            r@ == "Display manual page for a command"@,
    {
        "Display manual page for a command"
    }

    fn accepts_stdin(&self) -> (r: bool)
        ensures
            !r,
    {
        false
    }

    fn execute(&self, ctx: &mut CommandContext) -> (r: Result<String, String>)
        ensures
            meets(outcome(CommandKind::Man, state_of(old(ctx))), r, final(ctx)),
    {
        proof {
            lemma_vfs_of(ctx);
        }
        execute(ctx.registry, ctx.args)
    }

    fn synopsis(&self) -> (r: &'static str)
        ensures
            r@ == "man command"@,
    {
        "man command"
    }

    fn man_description(&self) -> (r: &'static str)
        ensures
            r@ == "Display a detailed manual page for the specified command, including its name, synopsis, description, and examples. Every registered command has a corresponding manual page."@,
    {
        "Display a detailed manual page for the specified command, including its name, synopsis, description, and examples. Every registered command has a corresponding manual page."
    }

    fn examples(&self) -> (r: &'static [&'static str])
        ensures
            strs_view(r@) == seq!["man ls"@, "man grep"@],
    {
        let r: &'static [&'static str] = &["man ls", "man grep"];
        assert(r@ == seq!["man ls", "man grep"]);
        r
    }
}

/// Every command of the registry has a manual page: `man NAME` shows the
/// page of the first command called `NAME`.
pub proof fn law_every_command_has_page(ks: Seq<CommandKind>, k: CommandKind)
    requires
        ks.contains(k),
    ensures
        find_kind(ks, kind_name(k)) is Some,
        man_spec(ks, seq![kind_name(k)]) == Ok::<Seq<char>, Seq<char>>(man_page(find_kind(ks, kind_name(k))->Some_0)),
{
    crate::command::law_get_finds(ks, k);
}

} // verus!
