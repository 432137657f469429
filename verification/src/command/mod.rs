//! The built-in commands, the context they run in, and the registry that
//! names them.
//!
//! Every command is a unit struct implementing [`Command`]; the registry
//! lists them as [`CommandKind`] values. What a command does in a context
//! is stated once, as [`kinds::outcome`], over the values the context
//! holds, so that the shell can state what a whole command line does.
use vstd::prelude::*;
use crate::text::{strs_view, strings_view, chars_of, string_of, has_prefix_str, starts_with};
use crate::vfs::{Vfs, FsView, rv};
use crate::env::EnvVars;

pub use kinds::{CommandKind, kind_name};

verus! {

/// The context a command runs in.
pub struct CommandContext<'a> {
    /// The file system.
    pub vfs: &'a mut Vfs,
    /// The output of the preceding pipeline stage (empty when there is none).
    pub stdin: &'a str,
    /// The arguments after the command name.
    pub args: &'a [&'a str],
    /// The logged-in user.
    pub username: &'a str,
    /// The machine name.
    pub hostname: &'a str,
    /// The command lines entered so far.
    pub history: &'a [String],
    /// The environment variables.
    pub env_vars: &'a mut EnvVars,
    /// The registry of commands (for `help` and `man`).
    pub registry: &'a Registry,
    /// The user id the command acts as.
    pub uid: u32,
    /// The group id the command acts as.
    pub gid: u32,
    /// The current date and time as text, supplied by the host.
    pub clock: &'a str,
}

/// The values a command context holds.
pub struct CtxState {
    /// The nodes of the file system.
    pub fs: FsView,
    /// The working directory.
    pub cwd: Seq<char>,
    /// The environment variables.
    pub env: Map<Seq<char>, Seq<char>>,
    /// The piped input.
    pub stdin: Seq<char>,
    /// The arguments.
    pub args: Seq<Seq<char>>,
    /// The logged-in user.
    pub username: Seq<char>,
    /// The machine name.
    pub hostname: Seq<char>,
    /// The command lines entered so far.
    pub history: Seq<Seq<char>>,
    /// The user id.
    pub uid: u32,
    /// The group id.
    pub gid: u32,
    /// The clock text.
    pub clock: Seq<char>,
    /// The registered commands.
    pub registry: Seq<CommandKind>,
}

/// What a command does: its result, and the nodes, the working directory
/// and the environment after it.
pub type Outcome = (Result<Seq<char>, Seq<char>>, FsView, Seq<char>, Map<Seq<char>, Seq<char>>);

/// The values held by `ctx`.
pub open spec fn state_of(ctx: &CommandContext) -> CtxState {
    CtxState {
        fs: ctx.vfs@,
        cwd: ctx.vfs.cwd@,
        env: ctx.env_vars@,
        stdin: ctx.stdin@,
        args: strs_view(ctx.args@),
        username: ctx.username@,
        hostname: ctx.hostname@,
        history: strings_view(ctx.history@),
        uid: ctx.uid,
        gid: ctx.gid,
        clock: ctx.clock@,
        registry: ctx.registry@,
    }
}

/// A file system with the nodes and the working directory of `s`.
pub open spec fn vfs_of(s: CtxState) -> Vfs {
    choose|v: Vfs| v@ == s.fs && v.cwd@ == s.cwd
}

/// The file system of a context is one with its nodes and directory.
pub proof fn lemma_vfs_of(ctx: &CommandContext)
    ensures
        vfs_of(state_of(ctx))@ == state_of(ctx).fs,
        vfs_of(state_of(ctx)).cwd@ == state_of(ctx).cwd,
{
    let v: Vfs = *ctx.vfs;
    assert(v@ == state_of(ctx).fs && v.cwd@ == state_of(ctx).cwd);
}

/// Some file system has the nodes and the directory of `s`.
pub open spec fn realizable(s: CtxState) -> bool {
    exists|v: Vfs| v@ == s.fs && v.cwd@ == s.cwd
}

/// The file system chosen for `s` has the nodes and directory of `s`,
/// when some file system has them.
pub proof fn lemma_vfs_of_state(s: CtxState)
    requires
        realizable(s),
    ensures
        vfs_of(s)@ == s.fs,
        vfs_of(s).cwd@ == s.cwd,
{
}

/// A result that changes nothing.
pub open spec fn unchanged(s: CtxState, r: Result<Seq<char>, Seq<char>>) -> Outcome {
    (r, s.fs, s.cwd, s.env)
}

/// A result that leaves the nodes `fs`.
pub open spec fn with_fs(s: CtxState, fs: FsView, r: Result<Seq<char>, Seq<char>>) -> Outcome {
    (r, fs, s.cwd, s.env)
}

/// The result `r` and the context `after` are the outcome `o`.
pub open spec fn meets(o: Outcome, r: Result<String, String>, after: &CommandContext) -> bool {
    &&& rv(r) == o.0
    &&& after.vfs@ == o.1
    &&& after.vfs.cwd@ == o.2
    &&& after.env_vars@ == o.3
}

/// A built-in shell command.
pub trait Command {
    /// The name the user types.
    fn name(&self) -> &'static str;

    /// One line for `help`.
    fn description(&self) -> &'static str;

    /// Whether piped input reaches the command as a trailing file operand.
    fn accepts_stdin(&self) -> (r: bool)
        default_ensures
            !r,
    {
        false
    }

    /// Run the command. The context's file system and environment stay the
    /// ones it was given.
    fn execute(&self, ctx: &mut CommandContext) -> (r: Result<String, String>)
        ensures
            *final(final(ctx).vfs) == *final(old(ctx).vfs),
            *final(final(ctx).env_vars) == *final(old(ctx).env_vars),
    ;

    /// The usage line of the manual page.
    fn synopsis(&self) -> (r: &'static str)
        default_ensures
            r@.len() == 0,
    {
        proof {
            reveal_strlit("");
        }
        ""
    }

    /// The description of the manual page (`description` when empty).
    fn man_description(&self) -> (r: &'static str)
        default_ensures
            r@.len() == 0,
    {
        proof {
            reveal_strlit("");
        }
        ""
    }

    /// Example command lines for the manual page.
    fn examples(&self) -> (r: &'static [&'static str])
        default_ensures
            r@.len() == 0,
    {
        &[]
    }
}

/// The registered commands, in registration order.
pub open spec fn registered() -> Seq<CommandKind> {
    seq![
        CommandKind::Ls, CommandKind::Cd, CommandKind::Pwd, CommandKind::Mkdir, CommandKind::Touch,
        CommandKind::Rm, CommandKind::Cp, CommandKind::Mv, CommandKind::Tree, CommandKind::Ln,
        CommandKind::Cat, CommandKind::Echo, CommandKind::Head, CommandKind::Tail, CommandKind::Grep,
        CommandKind::Sort, CommandKind::Uniq, CommandKind::Wc, CommandKind::Cut, CommandKind::Tr,
        CommandKind::Tee, CommandKind::Diff, CommandKind::Find, CommandKind::Du, CommandKind::Chmod,
        CommandKind::Chown, CommandKind::Whoami, CommandKind::Hostname, CommandKind::Date,
        CommandKind::History, CommandKind::Env, CommandKind::Export, CommandKind::Basename,
        CommandKind::Dirname, CommandKind::Man, CommandKind::Clear, CommandKind::Help, CommandKind::Exit,
    ]
}

/// The first command of `ks` called `name`.
pub open spec fn find_kind(ks: Seq<CommandKind>, name: Seq<char>) -> Option<CommandKind>
    decreases ks.len(),
{
    if ks.len() == 0 {
        None
    } else if kind_name(ks[0]) == name {
        Some(ks[0])
    } else {
        find_kind(ks.drop_first(), name)
    }
}

/// The names of the commands of `ks` that start with `partial`, in order.
pub open spec fn completions_of(ks: Seq<CommandKind>, partial: Seq<char>) -> Seq<Seq<char>>
    decreases ks.len(),
{
    if ks.len() == 0 {
        Seq::empty()
    } else {
        let r = completions_of(ks.drop_last(), partial);
        if starts_with(kind_name(ks.last()), partial) {
            r.push(kind_name(ks.last()))
        } else {
            r
        }
    }
}

/// Completion filters the registered names by the prefix, keeping
/// registration order; the empty prefix lists every registered name.
pub proof fn law_completions_filter(ks: Seq<CommandKind>, partial: Seq<char>)
    ensures
        completions_of(ks, partial) == ks.map_values(|k: CommandKind| kind_name(k)).filter(
            |n: Seq<char>| starts_with(n, partial),
        ),
        completions_of(ks, Seq::empty()) == ks.map_values(|k: CommandKind| kind_name(k)),
    decreases ks.len(),
{
    reveal(Seq::filter);
    if ks.len() > 0 {
        law_completions_filter(ks.drop_last(), partial);
        let names = ks.map_values(|k: CommandKind| kind_name(k));
        assert(names.drop_last() =~= ks.drop_last().map_values(|k: CommandKind| kind_name(k)));
        assert(names.last() == kind_name(ks.last()));
        assert(starts_with(kind_name(ks.last()), Seq::empty())) by {
            assert(kind_name(ks.last()).take(0) =~= Seq::<char>::empty());
        }
    } else {
        assert(ks.map_values(|k: CommandKind| kind_name(k)) =~= Seq::<Seq<char>>::empty());
    }
}

proof fn lemma_find_kind_skip(ks: Seq<CommandKind>, i: int, name: Seq<char>)
    requires
        0 <= i < ks.len(),
        kind_name(ks[i]) != name,
    ensures
        find_kind(ks.skip(i), name) == find_kind(ks.skip(i + 1), name),
{
    assert(ks.skip(i).drop_first() =~= ks.skip(i + 1));
}

/// Append every registered command to `commands`, grouped by kind: files,
/// contents, text processing, comparison, search, disk usage, permissions,
/// system information, environment, paths, documentation, terminal.
#[verifier::rlimit(60)]
pub fn register_all(commands: &mut Vec<CommandKind>)
    ensures
        final(commands)@ == old(commands)@ + registered(),
{
    commands.push(CommandKind::Ls);
    commands.push(CommandKind::Cd);
    commands.push(CommandKind::Pwd);
    commands.push(CommandKind::Mkdir);
    commands.push(CommandKind::Touch);
    commands.push(CommandKind::Rm);
    commands.push(CommandKind::Cp);
    commands.push(CommandKind::Mv);
    commands.push(CommandKind::Tree);
    commands.push(CommandKind::Ln);
    commands.push(CommandKind::Cat);
    commands.push(CommandKind::Echo);
    commands.push(CommandKind::Head);
    commands.push(CommandKind::Tail);
    commands.push(CommandKind::Grep);
    commands.push(CommandKind::Sort);
    commands.push(CommandKind::Uniq);
    commands.push(CommandKind::Wc);
    commands.push(CommandKind::Cut);
    commands.push(CommandKind::Tr);
    commands.push(CommandKind::Tee);
    commands.push(CommandKind::Diff);
    commands.push(CommandKind::Find);
    commands.push(CommandKind::Du);
    commands.push(CommandKind::Chmod);
    commands.push(CommandKind::Chown);
    commands.push(CommandKind::Whoami);
    commands.push(CommandKind::Hostname);
    commands.push(CommandKind::Date);
    commands.push(CommandKind::History);
    commands.push(CommandKind::Env);
    commands.push(CommandKind::Export);
    commands.push(CommandKind::Basename);
    commands.push(CommandKind::Dirname);
    commands.push(CommandKind::Man);
    commands.push(CommandKind::Clear);
    commands.push(CommandKind::Help);
    commands.push(CommandKind::Exit);
    assert(commands@ =~= old(commands)@ + registered());
}

/// The registry of built-in commands.
pub struct Registry {
    commands: Vec<CommandKind>,
}

impl View for Registry {
    type V = Seq<CommandKind>;

    closed spec fn view(&self) -> Seq<CommandKind> {
        self.commands@
    }
}

impl Registry {
    /// The registry of every built-in command.
    pub fn new() -> (r: Registry)
        ensures
            r@ == registered(),
    {
        let mut commands: Vec<CommandKind> = Vec::new();
        register_all(&mut commands);
        assert(commands@ =~= registered());
        Registry { commands }
    }

    /// The first registered command called `name`.
    pub fn get(&self, name: &str) -> (r: Option<CommandKind>)
        ensures
            r == find_kind(self@, name@),
    {
        let mut i: usize = 0;
        assert(self@.skip(0) =~= self@);
        while i < self.commands.len()
            invariant
                i <= self@.len(),
                self@ == self.commands@,
                find_kind(self@, name@) == find_kind(self@.skip(i as int), name@),
            decreases self.commands.len() - i,
        {
            let k = self.commands[i];
            if crate::text::str_eq(k.name(), name) {
                return Some(k);
            }
            proof {
                lemma_find_kind_skip(self@, i as int, name@);
            }
            i += 1;
        }
        assert(self@.skip(i as int) =~= Seq::<CommandKind>::empty());
        None
    }

    /// Every registered command, in registration order.
    pub fn all_commands(&self) -> (r: &[CommandKind])
        ensures
            r@ == self@,
    {
        self.commands.as_slice()
    }

    /// The names of the registered commands that start with `partial`, in
    /// registration order.
    pub fn completions(&self, partial: &str) -> (r: Vec<String>)
        ensures
            strings_view(r@) == completions_of(self@, partial@),
    {
        let mut out: Vec<String> = Vec::new();
        let mut i: usize = 0;
        while i < self.commands.len()
            invariant
                i <= self@.len(),
                self@ == self.commands@,
                strings_view(out@) == completions_of(self@.take(i as int), partial@),
            decreases self.commands.len() - i,
        {
            let ghost before = out@;
            assert(self@.take(i + 1).drop_last() =~= self@.take(i as int));
            let k = self.commands[i];
            let n = k.name();
            let nc = chars_of(n);
            if has_prefix_str(nc.as_slice(), partial) {
                out.push(string_of(nc.as_slice()));
                assert(strings_view(out@) =~= strings_view(before).push(n@));
            }
            i += 1;
        }
        assert(self@.take(self@.len() as int) =~= self@);
        out
    }
}

impl Default for Registry {
    fn default() -> (r: Registry)
        ensures
            r@ == registered(),
    {
        Registry::new()
    }
}



proof fn lemma_find_kind(ks: Seq<CommandKind>, name: Seq<char>)
    ensures
        match find_kind(ks, name) {
            Some(k) => ks.contains(k) && kind_name(k) == name,
            None => forall|i: int| 0 <= i < ks.len() ==> kind_name(#[trigger] ks[i]) != name,
        },
    decreases ks.len(),
{
    if ks.len() > 0 {
        lemma_find_kind(ks.drop_first(), name);
        if kind_name(ks[0]) != name {
            match find_kind(ks.drop_first(), name) {
                Some(k) => {
                    let j = choose|j: int| 0 <= j < ks.drop_first().len() && ks.drop_first()[j] == k;
                    assert(ks[j + 1] == k);
                },
                None => {
                    assert forall|i: int| 0 <= i < ks.len() implies kind_name(#[trigger] ks[i]) != name by {
                        if i > 0 {
                            assert(ks[i] == ks.drop_first()[i - 1]);
                        }
                    }
                },
            }
        } else {
            assert(ks[0] == ks[0]);
        }
    }
}

/// Looking a name up finds a command of that name whenever one is
/// registered, and nothing otherwise.
pub proof fn law_get_finds(ks: Seq<CommandKind>, k: CommandKind)
    requires
        ks.contains(k),
    ensures
        find_kind(ks, kind_name(k)) is Some,
        kind_name(find_kind(ks, kind_name(k))->Some_0) == kind_name(k),
        ks.contains(find_kind(ks, kind_name(k))->Some_0),
{
    lemma_find_kind(ks, kind_name(k));
    if find_kind(ks, kind_name(k)) is None {
        let j = choose|j: int| 0 <= j < ks.len() && ks[j] == k;
        assert(kind_name(ks[j]) != kind_name(k));
    }
}

/// Some command of `ks` is called `n`.
pub open spec fn names_one_of(ks: Seq<CommandKind>, n: Seq<char>) -> bool {
    exists|j: int| 0 <= j < ks.len() && kind_name(#[trigger] ks[j]) == n
}

/// Every completion starts with the typed text and names a command of the
/// registry; every command whose name starts with it is offered.
pub proof fn law_completions(ks: Seq<CommandKind>, partial: Seq<char>)
    ensures
        forall|i: int| 0 <= i < completions_of(ks, partial).len() ==> starts_with(
            #[trigger] completions_of(ks, partial)[i],
            partial,
        ),
        forall|i: int|
            0 <= i < completions_of(ks, partial).len() ==> names_one_of(ks, #[trigger] completions_of(ks, partial)[i]),
        forall|j: int|
            0 <= j < ks.len() && starts_with(kind_name(#[trigger] ks[j]), partial) ==> completions_of(
                ks,
                partial,
            ).contains(kind_name(ks[j])),
    decreases ks.len(),
{
    if ks.len() > 0 {
        let d = ks.drop_last();
        law_completions(d, partial);
        let r = completions_of(d, partial);
        let c = completions_of(ks, partial);
        assert forall|i: int| 0 <= i < c.len() implies names_one_of(ks, #[trigger] c[i]) by {
            if i < r.len() {
                assert(c[i] == r[i]);
                assert(names_one_of(d, r[i]));
                let j = choose|j: int| 0 <= j < d.len() && kind_name(#[trigger] d[j]) == r[i];
                assert(ks[j] == d[j]);
            } else {
                assert(kind_name(ks[ks.len() - 1]) == c[i]);
            }
        }
        assert forall|i: int| 0 <= i < c.len() implies starts_with(#[trigger] c[i], partial) by {
            if i < r.len() {
                assert(c[i] == r[i]);
            }
        }
        assert forall|j: int| 0 <= j < ks.len() && starts_with(kind_name(#[trigger] ks[j]), partial) implies c.contains(
            kind_name(ks[j]),
        ) by {
            if j < ks.len() - 1 {
                assert(ks[j] == d[j]);
                assert(r.contains(kind_name(d[j])));
                let w = choose|w: int| 0 <= w < r.len() && r[w] == kind_name(d[j]);
                assert(c[w] == r[w]);
            } else {
                assert(c[c.len() - 1] == kind_name(ks[j]));
            }
        }
    }
}

} // verus!

pub mod kinds;
pub mod basename;
pub mod cat;
pub mod cd;
pub mod chmod;
pub mod chown;
pub mod clear;
pub mod comm;
pub mod cp;
pub mod cut;
pub mod date;
pub mod diff;
pub mod dirname;
pub mod download;
pub mod du;
pub mod echo;
pub mod env;
pub mod exit;
pub mod export;
pub mod find;
pub mod grep;
pub mod groupadd;
pub mod groups;
pub mod head;
pub mod help;
pub mod history;
pub mod hostname;
pub mod id;
pub mod ln;
pub mod ls;
pub mod man;
pub mod mkdir;
pub mod mount;
pub mod mv;
pub mod nl;
pub mod passwd;
pub mod paste;
pub mod printf;
pub mod pwd;
pub mod rev;
pub mod rm;
pub mod sort;
pub mod su;
pub mod sudo;
pub mod tac;
pub mod tail;
pub mod tee;
pub mod touch;
pub mod tr;
pub mod tree;
pub mod uniq;
pub mod upload;
pub mod wc;
pub mod useradd;
pub mod whoami;
pub mod yes;
