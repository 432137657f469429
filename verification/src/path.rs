//! Path arithmetic: resolving a user-supplied path against the working
//! directory into a normalized absolute path, and the parent/child/name
//! relations between absolute paths.
use vstd::prelude::*;
use crate::text::{split_char, split_acc, split_on, vv, join, join_chars, chars_of, push_all, string_of,
    rfind_char, is_last_char, has_char, slice_chars, starts_with, has_prefix};

verus! {

/// The home directory that `~` stands for.
pub open spec fn home_dir() -> Seq<char> {
    seq!['/', 'h', 'o', 'm', 'e', '/', 'u', 's', 'e', 'r']
}

/// The root path `/`.
pub open spec fn root() -> Seq<char> {
    seq!['/']
}

/// Apply one path component to a stack of directory names: empty and `.`
/// components change nothing, `..` goes up one level (not above the root),
/// anything else descends.
pub open spec fn step_comp(stack: Seq<Seq<char>>, c: Seq<char>) -> Seq<Seq<char>> {
    if c.len() == 0 || c == seq!['.'] {
        stack
    } else if c == seq!['.', '.'] {
        if stack.len() > 0 {
            stack.drop_last()
        } else {
            stack
        }
    } else {
        stack.push(c)
    }
}

/// Apply a sequence of components in order.
pub open spec fn apply_comps(stack: Seq<Seq<char>>, cs: Seq<Seq<char>>) -> Seq<Seq<char>>
    decreases cs.len(),
{
    if cs.len() == 0 {
        stack
    } else {
        step_comp(apply_comps(stack, cs.drop_last()), cs.last())
    }
}

/// The absolute path naming a stack of directory names.
pub open spec fn path_of(stack: Seq<Seq<char>>) -> Seq<char> {
    seq!['/'] + join(stack, seq!['/'])
}

/// Where resolution starts: the home directory for `~` and `~/...`, the
/// root for absolute paths, the working directory otherwise.
pub open spec fn base_of(cwd: Seq<char>, p: Seq<char>) -> Seq<char> {
    if p == seq!['~'] || starts_with(p, seq!['~', '/']) {
        home_dir()
    } else if p.len() > 0 && p[0] == '/' {
        root()
    } else {
        cwd
    }
}

/// The part of `p` that is resolved relative to the base.
pub open spec fn rest_of(p: Seq<char>) -> Seq<char> {
    if p == seq!['~'] || starts_with(p, seq!['~', '/']) {
        p.drop_first()
    } else {
        p
    }
}

/// The normalized absolute path that `p` names when the working directory
/// is `cwd`.
pub open spec fn resolve(cwd: Seq<char>, p: Seq<char>) -> Seq<char> {
    path_of(
        apply_comps(
            apply_comps(Seq::empty(), split_char(base_of(cwd, p), '/')),
            split_char(rest_of(p), '/'),
        ),
    )
}

/// `dir` followed by the separator before a child name (`/` itself for
/// the root).
pub open spec fn dir_prefix(dir: Seq<char>) -> Seq<char> {
    if dir == root() {
        root()
    } else {
        dir.push('/')
    }
}

/// The path of the entry called `name` inside `dir`.
pub open spec fn child_of(dir: Seq<char>, name: Seq<char>) -> Seq<char> {
    dir_prefix(dir) + name
}

fn apply_all(stack: &mut Vec<Vec<char>>, cs: &Vec<Vec<char>>)
    ensures
        vv(final(stack)@) == apply_comps(vv(old(stack)@), vv(cs@)),
{
    let mut i: usize = 0;
    let ghost start = vv(stack@);
    while i < cs.len()
        invariant
            i <= cs@.len(),
            start == vv(old(stack)@),
            vv(stack@) == apply_comps(start, vv(cs@).take(i as int)),
        decreases cs.len() - i,
    {
        let ghost csv = vv(cs@);
        assert(csv.take(i + 1).drop_last() == csv.take(i as int));
        assert(csv.take(i + 1).last() == cs@[i as int]@);
        let c = &cs[i];
        let ghost before = stack@;
        if c.len() == 0 || (c.len() == 1 && c[0] == '.') {
            assert(c@.len() == 0 || c@ == seq!['.']) by {
                if c@.len() == 1 {
                    assert(c@ =~= seq!['.']);
                }
            }
        } else if c.len() == 2 && c[0] == '.' && c[1] == '.' {
            assert(c@ =~= seq!['.', '.']);
            if stack.len() > 0 {
                stack.pop();
                assert(vv(stack@) =~= vv(before).drop_last());
            }
        } else {
            assert(c@ != seq!['.']) by {
                if c@ == seq!['.'] {
                    assert(c@.len() == 1);
                    assert(c@[0] == '.');
                }
            }
            assert(c@ != seq!['.', '.']) by {
                if c@ == seq!['.', '.'] {
                    assert(c@.len() == 2);
                    assert(c@[0] == '.' && c@[1] == '.');
                }
            }
            let cc = crate::text::copy_chars(c.as_slice());
            stack.push(cc);
            assert(vv(stack@) =~= vv(before).push(c@));
        }
        i += 1;
    }
    assert(vv(cs@).take(cs@.len() as int) == vv(cs@));
}

/// Resolve `p` against the working directory `cwd`.
pub fn resolve_chars(cwd: &[char], p: &[char]) -> (r: Vec<char>)
    ensures
        r@ == resolve(cwd@, p@),
{
    let tilde = p.len() == 1 && p[0] == '~';
    let tilde_slash = p.len() >= 2 && p[0] == '~' && p[1] == '/';
    proof {
        if p@.len() == 1 && p@[0] == '~' {
            assert(p@ =~= seq!['~']);
        }
        if p@ == seq!['~'] {
            assert(p@[0] == '~');
        }
        if p@.len() >= 2 {
            assert(starts_with(p@, seq!['~', '/']) <==> (p@[0] == '~' && p@[1] == '/')) by {
                if p@[0] == '~' && p@[1] == '/' {
                    assert(p@.take(2) =~= seq!['~', '/']);
                }
                if starts_with(p@, seq!['~', '/']) {
                    assert(p@.take(2)[0] == '~' && p@.take(2)[1] == '/');
                }
            }
        } else {
            assert(!starts_with(p@, seq!['~', '/']));
        }
    }
    let base: Vec<char> = if tilde || tilde_slash {
        let mut h: Vec<char> = Vec::new();
        crate::text::push_str(&mut h, "/home/user");
        proof {
            reveal_strlit("/home/user");
            assert(h@ =~= home_dir());
        }
        h
    } else if p.len() > 0 && p[0] == '/' {
        let mut h: Vec<char> = Vec::new();
        h.push('/');
        assert(h@ =~= root());
        h
    } else {
        crate::text::copy_chars(cwd)
    };
    let rest: Vec<char> = if tilde || tilde_slash {
        let r = slice_chars(p, 1, p.len());
        assert(r@ =~= p@.drop_first());
        r
    } else {
        crate::text::copy_chars(p)
    };
    let base_parts = split_on(base.as_slice(), '/');
    let rest_parts = split_on(rest.as_slice(), '/');
    let mut stack: Vec<Vec<char>> = Vec::new();
    assert(vv(stack@) =~= Seq::<Seq<char>>::empty());
    apply_all(&mut stack, &base_parts);
    apply_all(&mut stack, &rest_parts);
    let mut sep: Vec<char> = Vec::new();
    sep.push('/');
    let joined = join_chars(&stack, sep.as_slice());
    let mut out: Vec<char> = Vec::new();
    out.push('/');
    push_all(&mut out, joined.as_slice());
    assert(sep@ =~= seq!['/']);
    assert(out@ =~= resolve(cwd@, p@));
    out
}

/// The path of `name` inside the directory `dir`.
pub fn child_path_chars(dir: &[char], name: &[char]) -> (r: Vec<char>)
    ensures
        r@ == child_of(dir@, name@),
{
    let mut r = crate::text::copy_chars(dir);
    let is_root = dir.len() == 1 && dir[0] == '/';
    assert(is_root == (dir@ == root())) by {
        if dir@.len() == 1 && dir@[0] == '/' {
            assert(dir@ =~= root());
        }
    }
    if !is_root {
        r.push('/');
    }
    push_all(&mut r, name);
    r
}

/// The directory that contains `p`: everything before the last `/`
/// (the root when that `/` is the first character).
pub open spec fn parent_of(p: Seq<char>) -> Seq<char> {
    if has_char(p, '/') {
        let i = choose|i: int| is_last_char(p, '/', i);
        if i == 0 {
            root()
        } else {
            p.take(i)
        }
    } else {
        p
    }
}

/// The last component of `p`: everything after the last `/`.
pub open spec fn name_of(p: Seq<char>) -> Seq<char> {
    if has_char(p, '/') {
        let i = choose|i: int| is_last_char(p, '/', i);
        p.skip(i + 1)
    } else {
        p
    }
}

proof fn lemma_last_char_unique(s: Seq<char>, c: char, i: int, j: int)
    requires
        is_last_char(s, c, i),
        is_last_char(s, c, j),
    ensures
        i == j,
{
    if i < j {
    } else if j < i {
    }
}

/// The parent directory and the last component of an absolute path.
pub fn split_parent(p: &[char]) -> (r: (Vec<char>, Vec<char>))
    ensures
        r.0@ == parent_of(p@),
        r.1@ == name_of(p@),
{
    match rfind_char(p, '/') {
        Some(i) => {
            proof {
                let k = choose|k: int| is_last_char(p@, '/', k);
                lemma_last_char_unique(p@, '/', i as int, k);
            }
            let parent = if i == 0 {
                let mut v: Vec<char> = Vec::new();
                v.push('/');
                assert(v@ =~= root());
                v
            } else {
                slice_chars(p, 0, i)
            };
            assert(i < p.len());
            let name = slice_chars(p, i + 1, p.len());
            assert(name@ =~= p@.skip(i + 1));
            assert(parent@ =~= parent_of(p@));
            (parent, name)
        },
        None => (crate::text::copy_chars(p), crate::text::copy_chars(p)),
    }
}

// ---------------------------------------------------------------------------
// Normalized paths
// ---------------------------------------------------------------------------

/// A component that normalization keeps: not empty, no `/`, neither `.`
/// nor `..`.
pub open spec fn clean_comp(c: Seq<char>) -> bool {
    c.len() > 0 && !has_char(c, '/') && c != seq!['.'] && c != seq!['.', '.']
}

/// Every component of `s` is clean.
pub open spec fn clean_stack(s: Seq<Seq<char>>) -> bool {
    forall|i: int| 0 <= i < s.len() ==> clean_comp(#[trigger] s[i])
}

/// The components that `resolve` keeps for `p`.
pub open spec fn resolved_stack(cwd: Seq<char>, p: Seq<char>) -> Seq<Seq<char>> {
    apply_comps(
        apply_comps(Seq::empty(), split_char(base_of(cwd, p), '/')),
        split_char(rest_of(p), '/'),
    )
}

proof fn lemma_split_acc_no_delim(s: Seq<char>, d: char)
    ensures
        forall|i: int| 0 <= i < split_acc(s, d).0.len() ==> !has_char(#[trigger] split_acc(s, d).0[i], d),
        !has_char(split_acc(s, d).1, d),
    decreases s.len(),
{
    if s.len() > 0 {
        let acc = split_acc(s.drop_last(), d);
        lemma_split_acc_no_delim(s.drop_last(), d);
        let c = s.last();
        if c == d {
            assert(!has_char(Seq::<char>::empty(), d));
            assert forall|i: int| 0 <= i < acc.0.push(acc.1).len() implies !has_char(#[trigger] acc.0.push(acc.1)[i], d) by {
                if i < acc.0.len() {
                    assert(acc.0.push(acc.1)[i] == acc.0[i]);
                }
            }
        } else {
            assert(!has_char(acc.1.push(c), d)) by {
                if has_char(acc.1.push(c), d) {
                    let j = choose|j: int| 0 <= j < acc.1.push(c).len() && acc.1.push(c)[j] == d;
                    assert(acc.1[j] == d);
                }
            }
        }
    }
}

/// No piece of a split contains the delimiter.
pub proof fn lemma_split_no_delim(s: Seq<char>, d: char)
    ensures
        forall|i: int| 0 <= i < split_char(s, d).len() ==> !has_char(#[trigger] split_char(s, d)[i], d),
{
    lemma_split_acc_no_delim(s, d);
    let acc = split_acc(s, d);
    assert forall|i: int| 0 <= i < split_char(s, d).len() implies !has_char(#[trigger] split_char(s, d)[i], d) by {
        if i < acc.0.len() {
            assert(split_char(s, d)[i] == acc.0[i]);
        }
    }
}

proof fn lemma_apply_clean(stack: Seq<Seq<char>>, cs: Seq<Seq<char>>)
    requires
        clean_stack(stack),
        forall|i: int| 0 <= i < cs.len() ==> !has_char(#[trigger] cs[i], '/'),
    ensures
        clean_stack(apply_comps(stack, cs)),
    decreases cs.len(),
{
    if cs.len() > 0 {
        assert forall|i: int| 0 <= i < cs.drop_last().len() implies !has_char(#[trigger] cs.drop_last()[i], '/') by {
            assert(cs.drop_last()[i] == cs[i]);
        }
        lemma_apply_clean(stack, cs.drop_last());
        let s = apply_comps(stack, cs.drop_last());
        let c = cs.last();
        assert(!has_char(cs[cs.len() - 1], '/'));
        if c.len() == 0 || c == seq!['.'] {
        } else if c == seq!['.', '.'] {
            if s.len() > 0 {
                assert forall|i: int| 0 <= i < s.drop_last().len() implies clean_comp(#[trigger] s.drop_last()[i]) by {
                    assert(s.drop_last()[i] == s[i]);
                }
            }
        } else {
            assert forall|i: int| 0 <= i < s.push(c).len() implies clean_comp(#[trigger] s.push(c)[i]) by {
                if i < s.len() {
                    assert(s.push(c)[i] == s[i]);
                }
            }
        }
    }
}

/// What `resolve` keeps is a stack of clean components.
pub proof fn lemma_resolved_clean(cwd: Seq<char>, p: Seq<char>)
    ensures
        clean_stack(resolved_stack(cwd, p)),
        resolve(cwd, p) == path_of(resolved_stack(cwd, p)),
{
    lemma_split_no_delim(base_of(cwd, p), '/');
    lemma_split_no_delim(rest_of(p), '/');
    let s0: Seq<Seq<char>> = Seq::empty();
    lemma_apply_clean(s0, split_char(base_of(cwd, p), '/'));
    lemma_apply_clean(apply_comps(s0, split_char(base_of(cwd, p), '/')), split_char(rest_of(p), '/'));
}

proof fn lemma_split_acc_plain(s: Seq<char>, x: Seq<char>, d: char)
    requires
        !has_char(x, d),
    ensures
        split_acc(s + x, d) == (split_acc(s, d).0, split_acc(s, d).1 + x),
    decreases x.len(),
{
    if x.len() == 0 {
        assert(s + x =~= s);
        assert(split_acc(s, d).1 + x =~= split_acc(s, d).1);
    } else {
        let y = x.drop_last();
        assert(!has_char(y, d)) by {
            if has_char(y, d) {
                let j = choose|j: int| 0 <= j < y.len() && y[j] == d;
                assert(x[j] == d);
            }
        }
        lemma_split_acc_plain(s, y, d);
        assert((s + x).drop_last() =~= s + y);
        assert((s + x).last() == x.last());
        assert(x.last() != d) by {
            assert(x[x.len() - 1] == x.last());
        }
        assert(split_acc(s, d).1 + x =~= (split_acc(s, d).1 + y).push(x.last()));
    }
}

/// The split of a normalized path: an empty piece, then its components
/// (two empty pieces for the root).
pub proof fn lemma_split_path_of(t: Seq<Seq<char>>)
    requires
        clean_stack(t),
    ensures
        t.len() == 0 ==> split_char(path_of(t), '/') == seq![Seq::<char>::empty(), Seq::<char>::empty()],
        t.len() > 0 ==> split_char(path_of(t), '/') == seq![Seq::<char>::empty()] + t,
    decreases t.len(),
{
    let e = Seq::<char>::empty();
    let slash = seq!['/'];
    assert(slash.drop_last() =~= e);
    assert(split_acc(e, '/') == (Seq::<Seq<char>>::empty(), e));
    assert(split_acc(slash, '/') == (seq![e], e));
    if t.len() == 0 {
        assert(path_of(t) =~= slash);
        assert(split_char(slash, '/') =~= seq![e, e]);
    } else if t.len() == 1 {
        assert(join(t, slash) == t[0]);
        assert(path_of(t) == slash + t[0]);
        assert(clean_comp(t[0]));
        lemma_split_acc_plain(slash, t[0], '/');
        assert(split_acc(slash, '/').1 + t[0] =~= t[0]);
        assert(split_char(path_of(t), '/') =~= seq![e] + t);
    } else {
        let u = t.drop_last();
        let x = t.last();
        assert(clean_stack(u)) by {
            assert forall|i: int| 0 <= i < u.len() implies clean_comp(#[trigger] u[i]) by {
                assert(u[i] == t[i]);
            }
        }
        assert(clean_comp(t[t.len() - 1]));
        lemma_split_path_of(u);
        let pu = path_of(u);
        assert(path_of(t) =~= pu.push('/') + x);
        assert(pu.push('/').drop_last() =~= pu);
        lemma_split_acc_plain(pu.push('/'), x, '/');
        assert(split_acc(pu.push('/'), '/') == (split_char(pu, '/'), e));
        assert(e + x =~= x);
        assert(split_char(path_of(t), '/') =~= split_char(pu, '/').push(x));
        assert(seq![e] + u + seq![x] =~= seq![e] + t);
    }
}

proof fn lemma_apply_clean_id(t: Seq<Seq<char>>)
    requires
        clean_stack(t),
    ensures
        apply_comps(Seq::empty(), seq![Seq::<char>::empty()] + t) == t,
    decreases t.len(),
{
    let e = Seq::<char>::empty();
    let z: Seq<Seq<char>> = Seq::empty();
    if t.len() == 0 {
        assert(seq![e] + t =~= seq![e]);
        assert(seq![e].drop_last() =~= z);
        assert(apply_comps(z, z) == z);
        assert(step_comp(z, e) == z);
        assert(apply_comps(z, seq![e]) == step_comp(apply_comps(z, seq![e].drop_last()), seq![e].last()));
    } else {
        let u = t.drop_last();
        assert(clean_stack(u)) by {
            assert forall|i: int| 0 <= i < u.len() implies clean_comp(#[trigger] u[i]) by {
                assert(u[i] == t[i]);
            }
        }
        lemma_apply_clean_id(u);
        assert((seq![e] + t).drop_last() =~= seq![e] + u);
        assert((seq![e] + t).last() == t.last());
        assert(clean_comp(t[t.len() - 1]));
        assert(t.last() == t[t.len() - 1]);
        assert(step_comp(u, t.last()) == u.push(t.last()));
        assert(apply_comps(z, seq![e] + t) == step_comp(apply_comps(z, (seq![e] + t).drop_last()), (seq![e] + t).last()));
        assert(u.push(t.last()) =~= t);
    }
}

/// A normalized path resolves to itself from any working directory.
pub proof fn lemma_resolve_normal(cwd: Seq<char>, t: Seq<Seq<char>>)
    requires
        clean_stack(t),
    ensures
        resolve(cwd, path_of(t)) == path_of(t),
{
    let e = Seq::<char>::empty();
    let p = path_of(t);
    assert(p[0] == '/');
    assert(p != seq!['~']) by {
        if p == seq!['~'] {
            assert(p[0] == '~');
        }
    }
    assert(!starts_with(p, seq!['~', '/'])) by {
        if starts_with(p, seq!['~', '/']) {
            assert(p.take(2)[0] == '~');
        }
    }
    assert(base_of(cwd, p) == root());
    assert(rest_of(p) == p);
    let empty_stack: Seq<Seq<char>> = Seq::empty();
    lemma_split_path_of(empty_stack);
    assert(path_of(empty_stack) =~= root());
    assert(apply_comps(empty_stack, seq![e, e]) == empty_stack) by {
        assert(seq![e, e].drop_last() =~= seq![e]);
        assert(seq![e].drop_last() =~= empty_stack);
        assert(seq![e, e].last() == e);
        assert(seq![e].last() == e);
        assert(apply_comps(empty_stack, empty_stack) == empty_stack);
        assert(step_comp(empty_stack, e) == empty_stack);
        assert(apply_comps(empty_stack, seq![e]) == step_comp(apply_comps(empty_stack, seq![e].drop_last()), e));
        assert(apply_comps(empty_stack, seq![e, e]) == step_comp(apply_comps(empty_stack, seq![e, e].drop_last()), e));
    }
    lemma_split_path_of(t);
    if t.len() == 0 {
        assert(p =~= root());
    } else {
        lemma_apply_clean_id(t);
    }
}

/// Resolving is idempotent: a resolved path resolves to itself, whatever
/// the working directory.
pub proof fn lemma_resolve_idempotent(cwd: Seq<char>, cwd2: Seq<char>, p: Seq<char>)
    ensures
        resolve(cwd2, resolve(cwd, p)) == resolve(cwd, p),
{
    lemma_resolved_clean(cwd, p);
    lemma_resolve_normal(cwd2, resolved_stack(cwd, p));
}

/// The child `name` of a normalized directory is the normalized path with
/// `name` as one more component.
pub proof fn lemma_child_path_of(t: Seq<Seq<char>>, name: Seq<char>)
    requires
        clean_stack(t),
    ensures
        child_of(path_of(t), name) == path_of(t.push(name)),
{
    let slash = seq!['/'];
    if t.len() == 0 {
        assert(path_of(t) =~= root());
        assert(join(t.push(name), slash) == t.push(name)[0]);
        assert(child_of(path_of(t), name) =~= path_of(t.push(name)));
    } else {
        assert(path_of(t) != root()) by {
            if path_of(t) == root() {
                assert(path_of(t).len() == 1);
                assert(join(t, slash).len() == 0);
                lemma_join_nonempty(t, slash);
            }
        }
        assert(t.push(name).drop_last() =~= t);
        assert(child_of(path_of(t), name) =~= path_of(t.push(name)));
    }
}

proof fn lemma_join_nonempty(t: Seq<Seq<char>>, sep: Seq<char>)
    requires
        t.len() > 0,
        clean_stack(t) || sep.len() > 0,
        t.len() == 1 ==> t[0].len() > 0,
    ensures
        join(t, sep).len() > 0,
{
    if t.len() > 1 {
        assert(join(t, sep) == join(t.drop_last(), sep) + sep + t.last());
        if sep.len() == 0 {
            assert(clean_comp(t[t.len() - 1]));
        }
    }
}

/// A normalized absolute path: the path of a stack of clean components.
pub open spec fn is_normal(p: Seq<char>) -> bool {
    exists|t: Seq<Seq<char>>| clean_stack(t) && path_of(t) == p
}

/// The root is normalized.
pub proof fn lemma_root_normal()
    ensures
        is_normal(root()),
{
    let t: Seq<Seq<char>> = Seq::empty();
    assert(path_of(t) =~= root());
}

/// `/c` is normalized for a clean component `c`.
pub proof fn lemma_top_normal(c: Seq<char>)
    requires
        clean_comp(c),
    ensures
        is_normal(seq!['/'] + c),
{
    let t = seq![c];
    assert(join(t, seq!['/']) == c);
    assert(path_of(t) == seq!['/'] + c);
}

/// What `resolve` produces is normalized.
pub proof fn lemma_resolve_is_normal(cwd: Seq<char>, p: Seq<char>)
    ensures
        is_normal(resolve(cwd, p)),
{
    lemma_resolved_clean(cwd, p);
}

/// A normalized path resolves to itself.
pub proof fn lemma_normal_fixed(cwd: Seq<char>, p: Seq<char>)
    requires
        is_normal(p),
    ensures
        resolve(cwd, p) == p,
{
    let t = choose|t: Seq<Seq<char>>| clean_stack(t) && path_of(t) == p;
    lemma_resolve_normal(cwd, t);
}

} // verus!
