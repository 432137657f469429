//! The command-line interpreter: it splits a line into `&&`-chained
//! segments, each segment into `|`-connected stages with an optional `>` or
//! `>>` redirection on the last one, and runs every stage's command from
//! the registry.
use vstd::prelude::*;
use crate::text::{chars_of, string_of, push_all, push_str, to_owned_string, vv, strs_view, strings_view,
    trim, trim_chars, words, split_words, join, join_chars, contains, is_first_occ, find_sub, has_char,
    is_first_char, find_char, trim_char, trim_matches, ends_with, slice_chars};
use crate::path::resolve;
use crate::vfs::{Vfs, FsView, rv, read_spec, write_spec, file_map};
use crate::changes::{ChangeLog, noted};
use crate::env::EnvVars;
use crate::users::contents_or_empty;
use crate::command::{Command, CommandContext, CommandKind, CtxState, Outcome, Registry, find_kind, state_of,
    registered};
use crate::command::kinds::{kind_accepts_stdin, outcome};

verus! {

// ---------------------------------------------------------------------------
// Splitting a command line
// ---------------------------------------------------------------------------

/// The pieces of `s` between the occurrences of `&&`, matched from left to
/// right without overlap (`str::split("&&")`).
pub open spec fn split_and(s: Seq<char>) -> Seq<Seq<char>>
    decreases s.len(),
{
    if s.len() == 0 {
        seq![Seq::empty()]
    } else if s.len() >= 2 && s[0] == '&' && s[1] == '&' {
        seq![Seq::<char>::empty()] + split_and(s.skip(2))
    } else {
        let r = split_and(s.drop_first());
        seq![seq![s[0]] + r[0]] + r.drop_first()
    }
}

proof fn lemma_split_and_len(s: Seq<char>)
    ensures
        split_and(s).len() >= 1,
    decreases s.len(),
{
    if s.len() > 0 && !(s.len() >= 2 && s[0] == '&' && s[1] == '&') {
        lemma_split_and_len(s.drop_first());
    }
}

/// The trimmed pieces that are not empty, in order.
pub open spec fn nonempty_trimmed(ps: Seq<Seq<char>>) -> Seq<Seq<char>>
    decreases ps.len(),
{
    if ps.len() == 0 {
        Seq::empty()
    } else {
        let r = nonempty_trimmed(ps.drop_last());
        let t = trim(ps.last());
        if t.len() > 0 {
            r.push(t)
        } else {
            r
        }
    }
}

/// The `&&`-chained segments of a command line.
pub open spec fn segments(s: Seq<char>) -> Seq<Seq<char>> {
    nonempty_trimmed(split_and(s))
}

fn split_segments(s: &[char]) -> (r: Vec<Vec<char>>)
    ensures
        vv(r@) == segments(s@),
{
    let mut pieces: Vec<Vec<char>> = Vec::new();
    let mut cur: Vec<char> = Vec::new();
    let mut i: usize = 0;
    proof {
        lemma_split_and_len(s@);
        assert(s@.skip(0) =~= s@);
        assert(split_and(s@) =~= vv(pieces@) + seq![cur@ + split_and(s@.skip(0))[0]] + split_and(
            s@.skip(0),
        ).drop_first());
    }
    while i < s.len()
        invariant
            i <= s@.len(),
            split_and(s@) == vv(pieces@) + seq![cur@ + split_and(s@.skip(i as int))[0]] + split_and(
                s@.skip(i as int),
            ).drop_first(),
        decreases s.len() - i,
    {
        let ghost rest = s@.skip(i as int);
        proof {
            lemma_split_and_len(rest);
        }
        if i + 1 < s.len() && s[i] == '&' && s[i + 1] == '&' {
            assert(rest.skip(2) =~= s@.skip(i + 2));
            let ghost r2 = split_and(s@.skip(i + 2));
            proof {
                lemma_split_and_len(s@.skip(i + 2));
            }
            let ghost before = vv(pieces@);
            let piece = cur;
            pieces.push(piece);
            cur = Vec::new();
            assert(vv(pieces@) =~= before.push(piece@));
            assert(split_and(rest) == seq![Seq::<char>::empty()] + r2);
            assert(split_and(s@) =~= vv(pieces@) + seq![cur@ + r2[0]] + r2.drop_first());
            i += 2;
        } else {
            assert(rest.drop_first() =~= s@.skip(i + 1));
            let ghost r1 = split_and(s@.skip(i + 1));
            proof {
                lemma_split_and_len(s@.skip(i + 1));
            }
            let ghost c0 = cur@;
            cur.push(s[i]);
            assert(split_and(rest) == seq![seq![s@[i as int]] + r1[0]] + r1.drop_first());
            assert(c0 + (seq![s@[i as int]] + r1[0]) =~= cur@ + r1[0]);
            i += 1;
        }
    }
    assert(s@.skip(i as int) =~= Seq::<char>::empty());
    let ghost all = vv(pieces@).push(cur@);
    assert(split_and(s@) =~= all);
    pieces.push(cur);
    assert(vv(pieces@) =~= all);
    let mut out: Vec<Vec<char>> = Vec::new();
    let mut j: usize = 0;
    while j < pieces.len()
        invariant
            j <= pieces@.len(),
            vv(pieces@) == split_and(s@),
            vv(out@) == nonempty_trimmed(vv(pieces@).take(j as int)),
        decreases pieces.len() - j,
    {
        assert(vv(pieces@).take(j + 1).drop_last() =~= vv(pieces@).take(j as int));
        assert(vv(pieces@).take(j + 1).last() == pieces@[j as int]@);
        let t = trim_chars(pieces[j].as_slice());
        if t.len() > 0 {
            let ghost before = vv(out@);
            out.push(t);
            assert(vv(out@) =~= before.push(t@));
        }
        j += 1;
    }
    assert(vv(pieces@).take(pieces@.len() as int) =~= vv(pieces@));
    out
}

/// The pipeline scan of `s`: the stages found so far, the stage being
/// read, and whether a single or a double quote is open.
pub open spec fn pipe_scan(s: Seq<char>) -> (Seq<Seq<char>>, Seq<char>, bool, bool)
    decreases s.len(),
{
    if s.len() == 0 {
        (Seq::empty(), Seq::empty(), false, false)
    } else {
        let (st, cur, sq, dq) = pipe_scan(s.drop_last());
        let c = s.last();
        if c == '\'' && !dq {
            (st, cur.push(c), !sq, dq)
        } else if c == '"' && !sq {
            (st, cur.push(c), sq, !dq)
        } else if c == '|' && !sq && !dq {
            (st.push(trim(cur)), Seq::empty(), sq, dq)
        } else {
            (st, cur.push(c), sq, dq)
        }
    }
}

/// The stages of a segment: the trimmed pieces between the `|` that stand
/// outside quotes (a last empty piece dropped; the whole trimmed segment
/// when that leaves nothing).
pub open spec fn pipe_stages(s: Seq<char>) -> Seq<Seq<char>> {
    let (st, cur, sq, dq) = pipe_scan(s);
    let last = trim(cur);
    let st2 = if last.len() > 0 {
        st.push(last)
    } else {
        st
    };
    if st2.len() == 0 {
        seq![trim(s)]
    } else {
        st2
    }
}

/// Split a segment into its pipeline stages.
pub fn split_pipe_stages(input: &str) -> (r: Vec<String>)
    ensures
        strings_view(r@) == pipe_stages(input@),
{
    let chars = chars_of(input);
    let mut stages: Vec<Vec<char>> = Vec::new();
    let mut current: Vec<char> = Vec::new();
    let mut in_single = false;
    let mut in_double = false;
    let mut i: usize = 0;
    while i < chars.len()
        invariant
            i <= chars@.len(),
            chars@ == input@,
            pipe_scan(chars@.take(i as int)) == (vv(stages@), current@, in_single, in_double),
        decreases chars.len() - i,
    {
        assert(chars@.take(i + 1).drop_last() =~= chars@.take(i as int));
        assert(chars@.take(i + 1).last() == chars@[i as int]);
        let c = chars[i];
        if c == '\'' && !in_double {
            in_single = !in_single;
            current.push(c);
        } else if c == '"' && !in_single {
            in_double = !in_double;
            current.push(c);
        } else if c == '|' && !in_single && !in_double {
            let ghost before = vv(stages@);
            let t = trim_chars(current.as_slice());
            stages.push(t);
            current = Vec::new();
            assert(vv(stages@) =~= before.push(t@));
        } else {
            current.push(c);
        }
        i += 1;
    }
    assert(chars@.take(chars@.len() as int) =~= chars@);
    let last = trim_chars(current.as_slice());
    if last.len() > 0 {
        let ghost before = vv(stages@);
        stages.push(last);
        assert(vv(stages@) =~= before.push(last@));
    }
    if stages.len() == 0 {
        stages.push(trim_chars(chars.as_slice()));
    }
    let mut out: Vec<String> = Vec::new();
    let mut j: usize = 0;
    while j < stages.len()
        invariant
            j <= stages@.len(),
            strings_view(out@) == vv(stages@).take(j as int),
        decreases stages.len() - j,
    {
        let ghost before = strings_view(out@);
        out.push(string_of(stages[j].as_slice()));
        assert(strings_view(out@) =~= before.push(stages@[j as int]@));
        assert(vv(stages@).take(j + 1) =~= vv(stages@).take(j as int).push(stages@[j as int]@));
        j += 1;
    }
    assert(vv(stages@).take(stages@.len() as int) =~= vv(stages@));
    out
}

/// A redirection target without surrounding single, then double, quotes.
pub open spec fn strip_quotes(t: Seq<char>) -> Seq<char> {
    trim_char(trim_char(t, '\''), '"')
}

/// The first index from `i` of a `>` or `>>` token followed by another
/// token.
pub open spec fn first_redirect(ts: Seq<Seq<char>>, i: int) -> Option<int>
    decreases ts.len() - i,
{
    if i < 0 || i >= ts.len() {
        None
    } else if (ts[i] == seq!['>', '>'] || ts[i] == seq!['>']) && i + 1 < ts.len() {
        Some(i)
    } else {
        first_redirect(ts, i + 1)
    }
}

/// A stage's command and its redirection: a `>` or `>>` token followed by
/// a target, or else the first `>>` (or, when there is none, the first `>`)
/// inside the text with a command before it and a target after it. The
/// flag says whether the output is appended.
pub open spec fn redirect_of(cmd: Seq<char>) -> (Seq<char>, Option<(Seq<char>, bool)>) {
    let ts = words(cmd);
    match first_redirect(ts, 0) {
        Some(j) => (join(ts.take(j), seq![' ']), Some((strip_quotes(ts[j + 1]), ts[j] == seq!['>', '>']))),
        None => if contains(cmd, seq!['>', '>']) {
            let idx = choose|i: int| is_first_occ(cmd, seq!['>', '>'], i);
            let c = trim(cmd.take(idx));
            let t = strip_quotes(trim(cmd.skip(idx + 2)));
            if c.len() > 0 && t.len() > 0 {
                (c, Some((t, true)))
            } else {
                (cmd, None)
            }
        } else if has_char(cmd, '>') {
            let idx = choose|i: int| is_first_char(cmd, '>', i);
            let c = trim(cmd.take(idx));
            let t = strip_quotes(trim(cmd.skip(idx + 1)));
            if c.len() > 0 && t.len() > 0 {
                (c, Some((t, false)))
            } else {
                (cmd, None)
            }
        } else {
            (cmd, None)
        },
    }
}

fn strip_quotes_exec(t: &[char]) -> (r: Vec<char>)
    ensures
        r@ == strip_quotes(t@),
{
    let a = trim_matches(t, '\'');
    trim_matches(a.as_slice(), '"')
}

/// Split a stage into its command and its redirection.
#[verifier::spinoff_prover]
pub fn extract_redirect(cmd: &str) -> (r: (String, Option<(String, bool)>))
    ensures
        r.0@ == redirect_of(cmd@).0,
        match redirect_of(cmd@).1 {
            Some((t, a)) => r.1 is Some && r.1->Some_0.0@ == t && r.1->Some_0.1 == a,
            None => r.1 is None,
        },
{
    let cs = chars_of(cmd);
    let tokens = split_words(cs.as_slice());
    let ghost ts = vv(tokens@);
    let mut i: usize = 0;
    while i < tokens.len()
        invariant
            i <= tokens@.len(),
            ts == vv(tokens@),
            ts == words(cmd@),
            cs@ == cmd@,
            first_redirect(ts, 0) == first_redirect(ts, i as int),
        decreases tokens.len() - i,
    {
        assert(ts[i as int] == tokens@[i as int]@);
        let t = tokens[i].as_slice();
        let is_append = t.len() == 2 && t[0] == '>' && t[1] == '>';
        let is_write = t.len() == 1 && t[0] == '>';
        assert(is_append == (ts[i as int] == seq!['>', '>'])) by {
            if is_append {
                assert(ts[i as int] =~= seq!['>', '>']);
            }
        }
        assert(is_write == (ts[i as int] == seq!['>'])) by {
            if is_write {
                assert(ts[i as int] =~= seq!['>']);
            }
        }
        if (is_append || is_write) && i + 1 < tokens.len() {
            let mut head: Vec<Vec<char>> = Vec::new();
            let mut k: usize = 0;
            while k < i
                invariant
                    k <= i < tokens@.len(),
                    vv(head@) == vv(tokens@).take(k as int),
                decreases i - k,
            {
                let ghost before = vv(head@);
                head.push(crate::text::copy_chars(tokens[k].as_slice()));
                assert(vv(head@) =~= before.push(tokens@[k as int]@));
                assert(vv(tokens@).take(k + 1) =~= vv(tokens@).take(k as int).push(tokens@[k as int]@));
                k += 1;
            }
            let mut sep: Vec<char> = Vec::new();
            sep.push(' ');
            assert(sep@ =~= seq![' ']);
            let part = join_chars(&head, sep.as_slice());
            assert(ts[i + 1] == tokens@[i + 1]@);
            let target = strip_quotes_exec(tokens[i + 1].as_slice());
            return (string_of(part.as_slice()), Some((string_of(target.as_slice()), is_append)));
        }
        i += 1;
    }
    assert(first_redirect(ts, i as int) is None);
    let mut pat: Vec<char> = Vec::new();
    pat.push('>');
    pat.push('>');
    assert(pat@ =~= seq!['>', '>']);
    match find_sub(cs.as_slice(), pat.as_slice()) {
        Some(idx) => {
            proof {
                let j = choose|j: int| is_first_occ(cmd@, seq!['>', '>'], j);
                if j < idx {
                } else if idx < j {
                }
                assert(j == idx);
                assert(crate::text::occurs_at(cs@, pat@, idx as int));
            }
            let n = cs.len();
            assert(idx + 2 <= n);
            let before = slice_chars(cs.as_slice(), 0, idx);
            let c = trim_chars(before.as_slice());
            let rest = slice_chars(cs.as_slice(), idx + 2, cs.len());
            let t0 = trim_chars(rest.as_slice());
            let t = strip_quotes_exec(t0.as_slice());
            if c.len() > 0 && t.len() > 0 {
                return (string_of(c.as_slice()), Some((string_of(t.as_slice()), true)));
            }
            (to_owned_string(cmd), None)
        },
        None => match find_char(cs.as_slice(), '>') {
            Some(idx) => {
                proof {
                    let j = choose|j: int| is_first_char(cmd@, '>', j);
                    if j < idx {
                    } else if idx < j {
                    }
                    assert(j == idx);
                }
                let n = cs.len();
                assert(idx + 1 <= n);
                let before = slice_chars(cs.as_slice(), 0, idx);
                let c = trim_chars(before.as_slice());
                let rest = slice_chars(cs.as_slice(), idx + 1, cs.len());
                let t0 = trim_chars(rest.as_slice());
                let t = strip_quotes_exec(t0.as_slice());
                if c.len() > 0 && t.len() > 0 {
                    return (string_of(c.as_slice()), Some((string_of(t.as_slice()), false)));
                }
                (to_owned_string(cmd), None)
            },
            None => (to_owned_string(cmd), None),
        },
    }
}

// ---------------------------------------------------------------------------
// The shell and what a command line does
// ---------------------------------------------------------------------------

/// The values a shell holds.
pub struct Session {
    /// The nodes of the file system.
    pub fs: FsView,
    /// The working directory.
    pub cwd: Seq<char>,
    /// The environment variables.
    pub env: Map<Seq<char>, Seq<char>>,
    /// The logged-in user.
    pub username: Seq<char>,
    /// The machine name.
    pub hostname: Seq<char>,
    /// The command lines entered so far.
    pub history: Seq<Seq<char>>,
    /// The user id.
    pub uid: u32,
    /// The group id.
    pub gid: u32,
    /// The clock text.
    pub clock: Seq<char>,
    /// The registered commands.
    pub registry: Seq<CommandKind>,
}

/// The shell: a file system, the session's identity and history, the
/// environment, and the registry of commands.
pub struct Shell {
    /// The file system.
    pub vfs: Vfs,
    /// The logged-in user.
    pub username: String,
    /// The machine name.
    pub hostname: String,
    /// The command lines entered so far.
    pub history: Vec<String>,
    /// The environment variables.
    pub env_vars: EnvVars,
    /// The registry of commands.
    pub registry: Registry,
    /// The user id commands act as.
    pub uid: u32,
    /// The group id commands act as.
    pub gid: u32,
    /// The current date and time as text, kept up to date by the host.
    pub clock: String,
}

impl View for Shell {
    type V = Session;

    open spec fn view(&self) -> Session {
        Session {
            fs: self.vfs@,
            cwd: self.vfs.cwd@,
            env: self.env_vars@,
            username: self.username@,
            hostname: self.hostname@,
            history: strings_view(self.history@),
            uid: self.uid,
            gid: self.gid,
            clock: self.clock@,
            registry: self.registry@,
        }
    }
}

/// The file that carries piped input to a command that reads files.
pub open spec fn pipe_path() -> Seq<char> {
    "/tmp/.pipe_input"@
}

/// An option: an argument that starts with `-`.
pub open spec fn is_option(a: Seq<char>) -> bool {
    a.len() > 0 && a[0] == '-'
}

/// Every argument is an option.
pub open spec fn all_options(args: Seq<Seq<char>>) -> bool {
    forall|i: int| 0 <= i < args.len() ==> is_option(#[trigger] args[i])
}

/// The context a command of `s` runs in.
pub open spec fn stage_state(s: Session, stdin: Seq<char>, args: Seq<Seq<char>>) -> CtxState {
    CtxState {
        fs: s.fs,
        cwd: s.cwd,
        env: s.env,
        stdin,
        args,
        username: s.username,
        hostname: s.hostname,
        history: s.history,
        uid: s.uid,
        gid: s.gid,
        clock: s.clock,
        registry: s.registry,
    }
}

/// `s` with the nodes `fs`.
pub open spec fn with_nodes(s: Session, fs: FsView) -> Session {
    Session { fs, ..s }
}

/// `s` after a command with outcome `o`.
pub open spec fn after(s: Session, o: Outcome) -> Session {
    Session { fs: o.1, cwd: o.2, env: o.3, ..s }
}

/// What one stage `cmd` does with the piped input `stdin`. A command that
/// reads files, given piped input and no operand, reads it from
/// `pipe_path()`, where it is written first.
pub open spec fn run_stage(s: Session, cmd: Seq<char>, stdin: Seq<char>) -> (Result<Seq<char>, Seq<char>>, Session) {
    let ts = words(cmd);
    if ts.len() == 0 {
        (Ok(Seq::empty()), s)
    } else {
        let args = ts.skip(1);
        match find_kind(s.registry, ts[0]) {
            None => (Err("command not found: "@ + ts[0]), s),
            Some(k) => if stdin.len() > 0 && kind_accepts_stdin(k) && all_options(args) {
                match write_spec(s.fs, resolve(s.cwd, pipe_path()), stdin) {
                    Err(e) => (Err(e), s),
                    Ok(fs1) => {
                        let s1 = with_nodes(s, fs1);
                        let o = outcome(k, stage_state(s1, stdin, args.push(pipe_path())));
                        (o.0, after(s1, o))
                    },
                }
            } else {
                let o = outcome(k, stage_state(s, stdin, args));
                (o.0, after(s, o))
            },
        }
    }
}

/// A stage's command and redirection, as values.
pub open spec fn stage_view(p: (String, Option<(String, bool)>)) -> (Seq<char>, Option<(Seq<char>, bool)>) {
    (p.0@, match p.1 {
        Some((t, a)) => Some((t@, a)),
        None => None,
    })
}

/// The stages of a pipeline, as values.
pub open spec fn pipeline_view(v: Seq<(String, Option<(String, bool)>)>) -> Seq<(Seq<char>, Option<(Seq<char>, bool)>)> {
    v.map_values(|p: (String, Option<(String, bool)>)| stage_view(p))
}

/// What the stages `i..` of a pipeline do, the first of them reading
/// `input`: each stage's output is the next one's input; the last stage's
/// output is written (or appended) to its redirection target, if it has
/// one, and nothing is shown; the first failure stops the pipeline.
pub open spec fn pipeline_from(
    s: Session,
    stages: Seq<(Seq<char>, Option<(Seq<char>, bool)>)>,
    i: int,
    input: Seq<char>,
) -> (Result<Seq<char>, Seq<char>>, Session)
    decreases stages.len() - i,
{
    if i < 0 || i >= stages.len() {
        (Ok(input), s)
    } else {
        let (r, s1) = run_stage(s, stages[i].0, input);
        match r {
            Err(e) => (Err(e), s1),
            Ok(out) => if i == stages.len() - 1 && stages[i].1 is Some {
                let target = stages[i].1->Some_0.0;
                let append = stages[i].1->Some_0.1;
                let k = resolve(s1.cwd, target);
                let content = if append {
                    contents_or_empty(read_spec(s1.fs, k)) + out
                } else {
                    out
                };
                match write_spec(s1.fs, k, content) {
                    Err(e) => (Err(e), s1),
                    Ok(m) => (Ok(Seq::empty()), with_nodes(s1, m)),
                }
            } else {
                pipeline_from(s1, stages, i + 1, out)
            },
        }
    }
}

/// The stages of a segment with their redirections.
pub open spec fn staged(stages: Seq<Seq<char>>) -> Seq<(Seq<char>, Option<(Seq<char>, bool)>)> {
    stages.map_values(|st: Seq<char>| redirect_of(st))
}

/// What the segments `i..` do after the output `out`: each segment's
/// pipeline runs in turn and its output is added; the first failure adds
/// its message (ended by a newline) and stops the line.
pub open spec fn run_segments(s: Session, segs: Seq<Seq<char>>, i: int, out: Seq<char>) -> (Seq<char>, Session)
    decreases segs.len() - i,
{
    if i < 0 || i >= segs.len() {
        (out, s)
    } else {
        let (r, s1) = pipeline_from(s, staged(pipe_stages(segs[i])), 0, Seq::empty());
        match r {
            Ok(res) => run_segments(s1, segs, i + 1, out + res),
            Err(e) => (out + e + (if ends_with(e, seq!['\n']) {
                Seq::empty()
            } else {
                seq!['\n']
            }), s1),
        }
    }
}

/// What a command line does: nothing when it is blank; otherwise it is
/// added, trimmed, to the history and its segments run.
pub open spec fn shell_run(s: Session, input: Seq<char>) -> (Seq<char>, Session) {
    let t = trim(input);
    if t.len() == 0 {
        (Seq::empty(), s)
    } else {
        run_segments(Session { history: s.history.push(t), ..s }, segments(t), 0, Seq::empty())
    }
}

/// The error text of a failed segment as the shell prints it: with a
/// newline added where it has none.
pub open spec fn error_text(e: Option<Seq<char>>) -> Seq<char> {
    match e {
        None => Seq::empty(),
        Some(e) => e + (if ends_with(e, seq!['\n']) {
            Seq::empty()
        } else {
            seq!['\n']
        }),
    }
}

/// The segments `segs[i..]` run after the output `out`, with the output of
/// the segments that succeeded and the error of the one that failed kept
/// apart: the output, the error (if a segment failed) and the session
/// after.
pub open spec fn segment_parts(s: Session, segs: Seq<Seq<char>>, i: int, out: Seq<char>) -> (
    Seq<char>,
    Option<Seq<char>>,
    Session,
)
    decreases segs.len() - i,
{
    if i < 0 || i >= segs.len() {
        (out, None, s)
    } else {
        let (r, s1) = pipeline_from(s, staged(pipe_stages(segs[i])), 0, Seq::empty());
        match r {
            Ok(res) => segment_parts(s1, segs, i + 1, out + res),
            Err(e) => (out, Some(e), s1),
        }
    }
}

/// What a command line does, its output and its error kept apart.
pub open spec fn shell_run_parts(s: Session, input: Seq<char>) -> (Seq<char>, Option<Seq<char>>, Session) {
    let t = trim(input);
    if t.len() == 0 {
        (Seq::empty(), None, s)
    } else {
        segment_parts(Session { history: s.history.push(t), ..s }, segments(t), 0, Seq::empty())
    }
}

proof fn lemma_segment_parts(s: Session, segs: Seq<Seq<char>>, i: int, out: Seq<char>)
    ensures
        run_segments(s, segs, i, out) == (
            segment_parts(s, segs, i, out).0 + error_text(segment_parts(s, segs, i, out).1),
            segment_parts(s, segs, i, out).2,
        ),
    decreases segs.len() - i,
{
    if i < 0 || i >= segs.len() {
        assert(out + Seq::<char>::empty() =~= out);
    } else {
        let (r, s1) = pipeline_from(s, staged(pipe_stages(segs[i])), 0, Seq::empty());
        match r {
            Ok(res) => lemma_segment_parts(s1, segs, i + 1, out + res),
            Err(e) => {},
        }
    }
}

/// The printed output of a command line is its output followed by its
/// error text: the two runs agree on everything.
pub proof fn law_run_parts(s: Session, input: Seq<char>)
    ensures
        shell_run(s, input) == (
            shell_run_parts(s, input).0 + error_text(shell_run_parts(s, input).1),
            shell_run_parts(s, input).2,
        ),
{
    let t = trim(input);
    if t.len() == 0 {
        assert(Seq::<char>::empty() + Seq::<char>::empty() =~= Seq::<char>::empty());
    } else {
        lemma_segment_parts(Session { history: s.history.push(t), ..s }, segments(t), 0, Seq::empty());
    }
}

/// The view of an optional error.
pub open spec fn opt_string(e: Option<String>) -> Option<Seq<char>> {
    match e {
        Some(x) => Some(x@),
        None => None,
    }
}

/// The command names offered for tab completion, in the order offered.
pub open spec fn completion_names() -> Seq<Seq<char>> {
    seq!["ls"@, "cd"@, "pwd"@, "mkdir"@, "touch"@, "rm"@, "cat"@, "echo"@, "cp"@, "mv"@, "tree"@, "clear"@, "help"@, "exit"@, "head"@, "tail"@, "wc"@, "grep"@, "find"@, "sort"@, "uniq"@, "whoami"@, "hostname"@, "date"@, "history"@]
}

/// The names of `ns` that start with `partial`, in order.
pub open spec fn names_with_prefix(ns: Seq<Seq<char>>, partial: Seq<char>) -> Seq<Seq<char>>
    decreases ns.len(),
{
    if ns.len() == 0 {
        Seq::empty()
    } else {
        let r = names_with_prefix(ns.drop_last(), partial);
        if crate::text::starts_with(ns.last(), partial) {
            r.push(ns.last())
        } else {
            r
        }
    }
}

/// The environment `m` with the entries `es` set in order.
pub open spec fn with_entries(m: Map<Seq<char>, Seq<char>>, es: Seq<(Seq<char>, Seq<char>)>) -> Map<
    Seq<char>,
    Seq<char>,
>
    decreases es.len(),
{
    if es.len() == 0 {
        m
    } else {
        with_entries(m, es.drop_last()).insert(es.last().0, es.last().1)
    }
}

/// Name-value pairs, as values.
pub open spec fn pairs_view(v: Seq<(String, String)>) -> Seq<(Seq<char>, Seq<char>)> {
    v.map_values(|p: (String, String)| (p.0@, p.1@))
}

/// The session `s` after merging saved state: the saved history replaces
/// the history; the saved variables override the environment entry by
/// entry, after which `USER` is set to the user name again; a saved host
/// name replaces the host name and sets `HOSTNAME`. Absent parts change
/// nothing.
pub open spec fn saved_applied(
    s: Session,
    history: Option<Seq<Seq<char>>>,
    env: Option<Seq<(Seq<char>, Seq<char>)>>,
    hostname: Option<Seq<char>>,
) -> Session {
    let s1 = match history {
        Some(h) => Session { history: h, ..s },
        None => s,
    };
    let s2 = match env {
        Some(es) => Session { env: with_entries(s1.env, es).insert("USER"@, s1.username), ..s1 },
        None => s1,
    };
    match hostname {
        Some(h) => Session { hostname: h, env: s2.env.insert("HOSTNAME"@, h), ..s2 },
        None => s2,
    }
}

/// The prompt: `user@host:` in bold green, the directory in bold blue,
/// then `$ `.
pub open spec fn prompt_text(s: Session) -> Seq<char> {
    "\x1b[1;32m"@ + s.username + seq!['@'] + s.hostname + ":\x1b[1;34m"@ + s.cwd + "\x1b[0m$ "@
}

#[verifier::spinoff_prover]
fn all_options_exec(v: &Vec<String>) -> (r: bool)
    ensures
        r == all_options(strings_view(v@)),
{
    let mut i: usize = 0;
    while i < v.len()
        invariant
            i <= v@.len(),
            all_options(strings_view(v@).take(i as int)),
        decreases v.len() - i,
    {
        let cs = chars_of(v[i].as_str());
        let ghost sv = strings_view(v@);
        assert(sv[i as int] == cs@);
        if cs.len() == 0 || cs[0] != '-' {
            assert(!all_options(sv)) by {
                if all_options(sv) {
                    assert(is_option(sv[i as int]));
                }
            }
            return false;
        }
        assert(all_options(sv.take(i + 1))) by {
            assert forall|j: int| 0 <= j < i + 1 implies is_option(#[trigger] sv.take(i + 1)[j]) by {
                if j < i {
                    assert(sv.take(i + 1)[j] == sv.take(i as int)[j]);
                } else {
                    assert(sv.take(i + 1)[j] == cs@);
                }
            }
        }
        i += 1;
    }
    assert(strings_view(v@).take(v@.len() as int) =~= strings_view(v@));
    true
}

fn ends_with_newline(s: &[char]) -> (r: bool)
    ensures
        r == ends_with(s@, seq!['\n']),
{
    if s.len() == 0 {
        return false;
    }
    let last = s[s.len() - 1];
    assert(s@.skip(s@.len() - 1) =~= seq![last]);
    if last == '\n' {
        true
    } else {
        assert(s@.skip(s@.len() - 1)[0] != '\n');
        false
    }
}

/// The stages of a segment with their redirections.
fn build_pipeline(seg: &[char]) -> (r: Vec<(String, Option<(String, bool)>)>)
    ensures
        pipeline_view(r@) == staged(pipe_stages(seg@)),
{
    let segment = string_of(seg);
    let stages = split_pipe_stages(segment.as_str());
    let ghost stv = strings_view(stages@);
    let mut pipeline: Vec<(String, Option<(String, bool)>)> = Vec::new();
    let mut j: usize = 0;
    while j < stages.len()
        invariant
            j <= stages@.len(),
            stv == strings_view(stages@),
            pipeline_view(pipeline@) == staged(stv).take(j as int),
        decreases stages.len() - j,
    {
        let ghost before = pipeline_view(pipeline@);
        let pr = extract_redirect(stages[j].as_str());
        assert(stv[j as int] == stages@[j as int]@);
        assert(stage_view(pr) == redirect_of(stv[j as int]));
        pipeline.push(pr);
        assert(pipeline_view(pipeline@) =~= before.push(stage_view(pr)));
        assert(staged(stv).take(j + 1) =~= staged(stv).take(j as int).push(redirect_of(stv[j as int])));
        j += 1;
    }
    assert(staged(stv).take(stages@.len() as int) =~= staged(stv));
    pipeline
}

impl Shell {
    /// A shell on `vfs` for the user `user` (uid and gid 1000) on the host
    /// `web-code`, with no history, no variables and every command.
    pub fn new(vfs: Vfs) -> (r: Shell)
        ensures
            r.vfs == vfs,
            r@.username == "user"@,
            r@.hostname == "web-code"@,
            r@.history.len() == 0,
            r@.env == Map::<Seq<char>, Seq<char>>::empty(),
            r@.uid == 1000,
            r@.gid == 1000,
            r@.clock.len() == 0,
            r@.registry == registered(),
    {
        Shell {
            vfs,
            username: to_owned_string("user"),
            hostname: to_owned_string("web-code"),
            history: Vec::new(),
            env_vars: EnvVars::new(),
            registry: Registry::new(),
            uid: 1000,
            gid: 1000,
            clock: String::new(),
        }
    }

    /// The prompt, with ANSI colors.
    pub fn get_prompt(&self) -> (r: String)
        ensures
            r@ == prompt_text(self@),
    {
        let mut v: Vec<char> = Vec::new();
        push_str(&mut v, "\x1b[1;32m");
        push_str(&mut v, self.username.as_str());
        v.push('@');
        push_str(&mut v, self.hostname.as_str());
        push_str(&mut v, ":\x1b[1;34m");
        push_str(&mut v, self.vfs.cwd.as_str());
        push_str(&mut v, "\x1b[0m$ ");
        string_of(v.as_slice())
    }

    /// The names among `completion_names()` that start with `partial`, in
    /// that list's order, for tab completion.
    pub fn get_completions(&self, partial: &str) -> (r: Vec<String>)
        ensures
            strings_view(r@) == names_with_prefix(completion_names(), partial@),
    {
        let names: &[&str] = &["ls", "cd", "pwd", "mkdir", "touch", "rm", "cat", "echo", "cp", "mv", "tree", "clear", "help", "exit", "head", "tail", "wc", "grep", "find", "sort", "uniq", "whoami", "hostname", "date", "history"];
        assert(names@ == seq!["ls", "cd", "pwd", "mkdir", "touch", "rm", "cat", "echo", "cp", "mv", "tree", "clear", "help", "exit", "head", "tail", "wc", "grep", "find", "sort", "uniq", "whoami", "hostname", "date", "history"]);
        assert(strs_view(names@) =~= completion_names());
        let ghost nv = strs_view(names@);
        let mut out: Vec<String> = Vec::new();
        let mut i: usize = 0;
        while i < names.len()
            invariant
                i <= names@.len(),
                nv == strs_view(names@),
                strings_view(out@) == names_with_prefix(nv.take(i as int), partial@),
            decreases names.len() - i,
        {
            assert(nv.take(i + 1).drop_last() =~= nv.take(i as int));
            assert(nv.take(i + 1).last() == names@[i as int]@);
            let nc = chars_of(names[i]);
            if crate::text::has_prefix_str(nc.as_slice(), partial) {
                let ghost before = strings_view(out@);
                out.push(string_of(nc.as_slice()));
                assert(strings_view(out@) =~= before.push(names@[i as int]@));
            }
            i += 1;
        }
        assert(nv.take(names@.len() as int) =~= nv);
        out
    }

    /// Merge saved state into the session: history, environment variables
    /// and host name, each only when given.
    pub fn apply_saved(
        &mut self,
        history: Option<Vec<String>>,
        env: Option<Vec<(String, String)>>,
        hostname: Option<String>,
    )
        ensures
            final(self).vfs == old(self).vfs,
            final(self)@ == saved_applied(
                old(self)@,
                match history {
                    Some(h) => Some(strings_view(h@)),
                    None => None,
                },
                match env {
                    Some(e) => Some(pairs_view(e@)),
                    None => None,
                },
                match hostname {
                    Some(h) => Some(h@),
                    None => None,
                },
            ),
    {
        let ghost s0 = self@;
        match history {
            Some(h) => {
                self.history = h;
            },
            None => {},
        }
        let ghost s1 = self@;
        match env {
            Some(es) => {
                let ghost ev = pairs_view(es@);
                let ghost m0 = self.env_vars@;
                let mut i: usize = 0;
                while i < es.len()
                    invariant
                        i <= es@.len(),
                        ev == pairs_view(es@),
                        self.env_vars@ == with_entries(m0, ev.take(i as int)),
                        self.vfs == old(self).vfs,
                        self.username == old(self).username,
                        self.hostname == old(self).hostname,
                        self@.history == s1.history,
                        self.uid == old(self).uid,
                        self.gid == old(self).gid,
                        self.clock == old(self).clock,
                        self.registry == old(self).registry,
                    decreases es.len() - i,
                {
                    assert(ev.take(i + 1).drop_last() =~= ev.take(i as int));
                    assert(ev.take(i + 1).last() == (es@[i as int].0@, es@[i as int].1@));
                    self.env_vars.insert(es[i].0.as_str(), es[i].1.as_str());
                    i += 1;
                }
                assert(ev.take(es@.len() as int) =~= ev);
                let user = chars_of(self.username.as_str());
                self.env_vars.insert_chars(chars_of("USER").as_slice(), user.as_slice());
            },
            None => {},
        }
        match hostname {
            Some(h) => {
                let hc = chars_of(h.as_str());
                self.env_vars.insert_chars(chars_of("HOSTNAME").as_slice(), hc.as_slice());
                self.hostname = h;
            },
            None => {},
        }
    }

    /// The command lines entered so far.
    pub fn get_history(&self) -> (r: &Vec<String>)
        ensures
            strings_view(r@) == self@.history,
    {
        &self.history
    }

    /// Run one stage's command with the piped input `stdin`.
    fn execute_with_stdin(&mut self, input: &str, stdin: &str) -> (r: Result<String, String>)
        ensures
            (rv(r), final(self)@) == run_stage(old(self)@, input@, stdin@),
    {
        let cs = chars_of(input);
        let tokens = split_words(cs.as_slice());
        let ghost ts = vv(tokens@);
        if tokens.len() == 0 {
            return Ok(String::new());
        }
        assert(ts[0] == tokens@[0]@);
        let name = string_of(tokens[0].as_slice());
        let kind = match self.registry.get(name.as_str()) {
            Some(k) => k,
            None => {
                let mut m: Vec<char> = Vec::new();
                push_str(&mut m, "command not found: ");
                push_str(&mut m, name.as_str());
                return Err(string_of(m.as_slice()));
            },
        };
        let mut arg_strings: Vec<String> = Vec::new();
        let mut j: usize = 1;
        while j < tokens.len()
            invariant
                1 <= j <= tokens@.len(),
                ts == vv(tokens@),
                strings_view(arg_strings@) == ts.subrange(1, j as int),
            decreases tokens.len() - j,
        {
            let ghost before = strings_view(arg_strings@);
            arg_strings.push(string_of(tokens[j].as_slice()));
            assert(strings_view(arg_strings@) =~= before.push(tokens@[j as int]@));
            assert(ts.subrange(1, j + 1) =~= ts.subrange(1, j as int).push(tokens@[j as int]@));
            j += 1;
        }
        assert(ts.subrange(1, tokens@.len() as int) =~= ts.skip(1));
        let stdin_chars = chars_of(stdin);
        let ghost s0 = self@;
        if stdin_chars.len() > 0 && kind.accepts_stdin() && all_options_exec(&arg_strings) {
            match self.vfs.write_file("/tmp/.pipe_input", stdin) {
                Ok(()) => {},
                Err(e) => {
                    return Err(e);
                },
            }
            let ghost before = strings_view(arg_strings@);
            arg_strings.push(to_owned_string("/tmp/.pipe_input"));
            assert(strings_view(arg_strings@) =~= before.push(pipe_path()));
        }
        let mut args: Vec<&str> = Vec::new();
        let mut k: usize = 0;
        while k < arg_strings.len()
            invariant
                k <= arg_strings@.len(),
                strs_view(args@) == strings_view(arg_strings@).take(k as int),
            decreases arg_strings.len() - k,
        {
            let ghost before = strs_view(args@);
            args.push(arg_strings[k].as_str());
            assert(strs_view(args@) =~= before.push(arg_strings@[k as int]@));
            assert(strings_view(arg_strings@).take(k + 1) =~= strings_view(arg_strings@).take(k as int).push(
                arg_strings@[k as int]@,
            ));
            k += 1;
        }
        assert(strings_view(arg_strings@).take(arg_strings@.len() as int) =~= strings_view(arg_strings@));
        let r;
        {
            let mut ctx = CommandContext {
                vfs: &mut self.vfs,
                stdin,
                args: args.as_slice(),
                username: self.username.as_str(),
                hostname: self.hostname.as_str(),
                history: self.history.as_slice(),
                env_vars: &mut self.env_vars,
                registry: &self.registry,
                uid: self.uid,
                gid: self.gid,
                clock: self.clock.as_str(),
            };
            r = kind.execute(&mut ctx);
        }
        r
    }

    /// Run a pipeline: each stage's output is the next stage's input; the
    /// last stage's output goes to its redirection target when it has one.
    fn run_pipeline(&mut self, pipeline: &[(String, Option<(String, bool)>)]) -> (r: Result<String, String>)
        ensures
            (rv(r), final(self)@) == pipeline_from(old(self)@, pipeline_view(pipeline@), 0, Seq::empty()),
    {
        let ghost pv = pipeline_view(pipeline@);
        let ghost s0 = self@;
        let mut current_input = String::new();
        let mut i: usize = 0;
        while i < pipeline.len()
            invariant
                i <= pipeline@.len(),
                pv == pipeline_view(pipeline@),
                s0 == old(self)@,
                pipeline_from(s0, pv, 0, Seq::empty()) == pipeline_from(self@, pv, i as int, current_input@),
            decreases pipeline.len() - i,
        {
            assert(pv[i as int] == stage_view(pipeline@[i as int]));
            let is_last = i + 1 == pipeline.len();
            let result = match self.execute_with_stdin(pipeline[i].0.as_str(), current_input.as_str()) {
                Ok(out) => out,
                Err(e) => {
                    return Err(e);
                },
            };
            if is_last {
                match &pipeline[i].1 {
                    Some(p) => {
                        let target = &p.0;
                        let append = p.1;
                        let content = if append {
                            let existing = match self.vfs.read_file(target.as_str()) {
                                Ok(c) => c,
                                Err(_) => String::new(),
                            };
                            let mut c = chars_of(existing.as_str());
                            push_str(&mut c, result.as_str());
                            string_of(c.as_slice())
                        } else {
                            result
                        };
                        return match self.vfs.write_file(target.as_str(), content.as_str()) {
                            Ok(()) => Ok(String::new()),
                            Err(e) => Err(e),
                        };
                    },
                    None => {},
                }
            }
            current_input = result;
            i += 1;
        }
        Ok(current_input)
    }

    /// Run a command line; the output of the segments that succeeded, and
    /// the error of the segment that failed, if one did.
    ///
    /// `&&` chains segments (the first failure stops the line); within a
    /// segment `|` connects stages; the last stage may redirect its output
    /// with `>` or `>>`. A line that is not blank is added, trimmed, to the
    /// history before it runs.
    pub fn run_line(&mut self, input: &str) -> (r: (String, Option<String>))
        ensures
            (r.0@, opt_string(r.1), final(self)@) == shell_run_parts(old(self)@, input@),
    {
        let ic = chars_of(input);
        let t = trim_chars(ic.as_slice());
        if t.len() == 0 {
            return (String::new(), None);
        }
        let ghost h0 = self@.history;
        self.history.push(string_of(t.as_slice()));
        assert(self@.history =~= h0.push(t@));
        let segs = split_segments(t.as_slice());
        let ghost sv = vv(segs@);
        let ghost s1 = self@;
        assert(s1 == Session { history: old(self)@.history.push(trim(input@)), ..old(self)@ });
        assert(shell_run_parts(old(self)@, input@) == segment_parts(s1, sv, 0, Seq::empty()));
        let mut output: Vec<char> = Vec::new();
        let mut i: usize = 0;
        while i < segs.len()
            invariant
                i <= segs@.len(),
                sv == vv(segs@),
                shell_run_parts(old(self)@, input@) == segment_parts(s1, sv, 0, Seq::empty()),
                segment_parts(s1, sv, 0, Seq::empty()) == segment_parts(self@, sv, i as int, output@),
            decreases segs.len() - i,
        {
            assert(sv[i as int] == segs@[i as int]@);
            let pipeline = build_pipeline(segs[i].as_slice());
            match self.run_pipeline(pipeline.as_slice()) {
                Ok(res) => {
                    push_str(&mut output, res.as_str());
                },
                Err(e) => {
                    return (string_of(output.as_slice()), Some(e));
                },
            }
            i += 1;
        }
        (string_of(output.as_slice()), None)
    }

    /// Run a command line, as `run_line` does, and record in `log` what it
    /// changed: the files it wrote or removed, and whether it changed the
    /// history or the environment.
    pub fn run_line_noting(&mut self, input: &str, log: &mut ChangeLog) -> (r: (String, Option<String>))
        ensures
            (r.0@, opt_string(r.1), final(self)@) == shell_run_parts(old(self)@, input@),
            final(log)@ == noted(
                old(log)@,
                file_map(old(self)@.fs),
                file_map(final(self)@.fs),
                final(self)@.history != old(self)@.history,
                final(self)@.env != old(self)@.env,
            ),
    {
        let ghost s0 = self@;
        proof {
            law_run_parts(s0, input@);
            if trim(input@).len() > 0 {
                law_line_recorded(s0, input@);
            } else {
                law_blank_line(s0, input@);
            }
        }
        let before = self.vfs.files();
        let env0 = self.env_vars.copy();
        let h0 = self.history.len();
        let r = self.run_line(input);
        let after = self.vfs.files();
        log.note_files(&before, &after, Ghost(file_map(s0.fs)), Ghost(file_map(self@.fs)));
        if self.history.len() != h0 {
            log.history = true;
        }
        proof {
            assert(self@ == shell_run(s0, input@).1);
            assert(self@.history.len() == self.history@.len());
            assert(s0.history.len() == h0);
            if trim(input@).len() > 0 {
                assert(self@.history.len() == h0 + 1);
            } else {
                assert(self@.history == s0.history);
            }
        }
        assert((self.history.len() != h0) == (self@.history != s0.history));
        if !self.env_vars.same_as(&env0) {
            log.env_vars = true;
        }
        r
    }

    /// Run a command line and return what it prints: the output of the
    /// segments that ran, then the error of the segment that failed (with a
    /// newline where it has none).
    pub fn execute(&mut self, input: &str) -> (r: String)
        ensures
            (r@, final(self)@) == shell_run(old(self)@, input@),
    {
        proof {
            law_run_parts(self@, input@);
        }
        let (out, err) = self.run_line(input);
        match err {
            None => {
                assert(out@ + Seq::<char>::empty() =~= out@);
                out
            },
            Some(e) => {
                let mut o = chars_of(out.as_str());
                let ec = chars_of(e.as_str());
                push_all(&mut o, ec.as_slice());
                if !ends_with_newline(ec.as_slice()) {
                    o.push('\n');
                }
                assert(o@ =~= out@ + error_text(Some(e@)));
                string_of(o.as_slice())
            },
        }
    }
}


/// The session fields that running commands never changes.
pub open spec fn same_identity(a: Session, b: Session) -> bool {
    &&& a.username == b.username
    &&& a.hostname == b.hostname
    &&& a.history == b.history
    &&& a.uid == b.uid
    &&& a.gid == b.gid
    &&& a.clock == b.clock
    &&& a.registry == b.registry
}

proof fn lemma_stage_identity(s: Session, cmd: Seq<char>, stdin: Seq<char>)
    ensures
        same_identity(s, run_stage(s, cmd, stdin).1),
{
}

proof fn lemma_pipeline_identity(
    s: Session,
    stages: Seq<(Seq<char>, Option<(Seq<char>, bool)>)>,
    i: int,
    input: Seq<char>,
)
    ensures
        same_identity(s, pipeline_from(s, stages, i, input).1),
    decreases stages.len() - i,
{
    if 0 <= i < stages.len() {
        lemma_stage_identity(s, stages[i].0, input);
        let (r, s1) = run_stage(s, stages[i].0, input);
        if r is Ok && !(i == stages.len() - 1 && stages[i].1 is Some) {
            lemma_pipeline_identity(s1, stages, i + 1, r->Ok_0);
        }
    }
}

proof fn lemma_segments_identity(s: Session, segs: Seq<Seq<char>>, i: int, out: Seq<char>)
    ensures
        same_identity(s, run_segments(s, segs, i, out).1),
    decreases segs.len() - i,
{
    if 0 <= i < segs.len() {
        let stages = staged(pipe_stages(segs[i]));
        lemma_pipeline_identity(s, stages, 0, Seq::empty());
        let (r, s1) = pipeline_from(s, stages, 0, Seq::empty());
        if r is Ok {
            lemma_segments_identity(s1, segs, i + 1, out + r->Ok_0);
        }
    }
}

/// A blank line prints nothing and changes nothing.
pub proof fn law_blank_line(s: Session, input: Seq<char>)
    requires
        trim(input).len() == 0,
    ensures
        shell_run(s, input) == (Seq::<char>::empty(), s),
{
}

/// Every other line is recorded once, trimmed, at the end of the history;
/// the user, host, ids, clock and registry stay as they were.
pub proof fn law_line_recorded(s: Session, input: Seq<char>)
    requires
        trim(input).len() > 0,
    ensures
        shell_run(s, input).1.history == s.history.push(trim(input)),
        shell_run(s, input).1.username == s.username,
        shell_run(s, input).1.hostname == s.hostname,
        shell_run(s, input).1.uid == s.uid,
        shell_run(s, input).1.gid == s.gid,
        shell_run(s, input).1.clock == s.clock,
        shell_run(s, input).1.registry == s.registry,
{
    let t = trim(input);
    lemma_segments_identity(Session { history: s.history.push(t), ..s }, segments(t), 0, Seq::empty());
}


/// A pipeline whose last stage redirects its output prints nothing when it
/// succeeds: the output went to the file.
pub proof fn law_redirect_silent(
    s: Session,
    stages: Seq<(Seq<char>, Option<(Seq<char>, bool)>)>,
    i: int,
    input: Seq<char>,
)
    requires
        0 <= i < stages.len(),
        stages.last().1 is Some,
        pipeline_from(s, stages, i, input).0 is Ok,
    ensures
        pipeline_from(s, stages, i, input).0 == Ok::<Seq<char>, Seq<char>>(Seq::empty()),
    decreases stages.len() - i,
{
    let (r, s1) = run_stage(s, stages[i].0, input);
    if r is Ok && i < stages.len() - 1 {
        law_redirect_silent(s1, stages, i + 1, r->Ok_0);
    }
}

/// The last stage's redirection writes the stage's output to its target
/// (after the target's old contents when appending) and prints nothing;
/// reading the target then gives what was written.
pub proof fn law_redirect_writes(
    s: Session,
    stages: Seq<(Seq<char>, Option<(Seq<char>, bool)>)>,
    input: Seq<char>,
    target: Seq<char>,
    append: bool,
)
    requires
        stages.len() > 0,
        stages.last().1 == Some((target, append)),
        run_stage(s, stages.last().0, input).0 is Ok,
        write_spec(
            run_stage(s, stages.last().0, input).1.fs,
            resolve(run_stage(s, stages.last().0, input).1.cwd, target),
            if append {
                contents_or_empty(
                    read_spec(
                        run_stage(s, stages.last().0, input).1.fs,
                        resolve(run_stage(s, stages.last().0, input).1.cwd, target),
                    ),
                ) + run_stage(s, stages.last().0, input).0->Ok_0
            } else {
                run_stage(s, stages.last().0, input).0->Ok_0
            },
        ) is Ok,
    ensures
        pipeline_from(s, stages, stages.len() - 1, input).0 == Ok::<Seq<char>, Seq<char>>(Seq::empty()),
        read_spec(
            pipeline_from(s, stages, stages.len() - 1, input).1.fs,
            resolve(run_stage(s, stages.last().0, input).1.cwd, target),
        ) == Ok::<Seq<char>, Seq<char>>(
            if append {
                contents_or_empty(
                    read_spec(
                        run_stage(s, stages.last().0, input).1.fs,
                        resolve(run_stage(s, stages.last().0, input).1.cwd, target),
                    ),
                ) + run_stage(s, stages.last().0, input).0->Ok_0
            } else {
                run_stage(s, stages.last().0, input).0->Ok_0
            },
        ),
{
    let (r, s1) = run_stage(s, stages.last().0, input);
    let k = resolve(s1.cwd, target);
    let content = if append {
        contents_or_empty(read_spec(s1.fs, k)) + r->Ok_0
    } else {
        r->Ok_0
    };
    assert(stages[stages.len() - 1] == stages.last());
    crate::vfs::law_write_then_read(s1.fs, k, content);
}

/// A stage other than the last hands its output on to the next stage; a
/// redirection written on it is ignored.
pub proof fn law_inner_redirect_ignored(
    s: Session,
    stages: Seq<(Seq<char>, Option<(Seq<char>, bool)>)>,
    i: int,
    input: Seq<char>,
)
    requires
        0 <= i < stages.len() - 1,
        run_stage(s, stages[i].0, input).0 is Ok,
    ensures
        pipeline_from(s, stages, i, input) == pipeline_from(
            run_stage(s, stages[i].0, input).1,
            stages,
            i + 1,
            run_stage(s, stages[i].0, input).0->Ok_0,
        ),
        pipeline_from(s, stages, i, input) == pipeline_from(s, stages.update(i, (stages[i].0, None)), i, input),
{
    let u = stages.update(i, (stages[i].0, None));
    let (r, s1) = run_stage(s, stages[i].0, input);
    lemma_pipeline_same_rest(s1, stages, u, i + 1, r->Ok_0);
}

proof fn lemma_pipeline_same_rest(
    s: Session,
    a: Seq<(Seq<char>, Option<(Seq<char>, bool)>)>,
    b: Seq<(Seq<char>, Option<(Seq<char>, bool)>)>,
    j: int,
    input: Seq<char>,
)
    requires
        a.len() == b.len(),
        0 <= j,
        forall|k: int| j <= k < a.len() ==> a[k] == b[k],
    ensures
        pipeline_from(s, a, j, input) == pipeline_from(s, b, j, input),
    decreases a.len() - j,
{
    if j < a.len() {
        let (r, s1) = run_stage(s, a[j].0, input);
        if r is Ok {
            lemma_pipeline_same_rest(s1, a, b, j + 1, r->Ok_0);
        }
    }
}

} // verus!
