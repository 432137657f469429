//! The shell's environment variables: a map from names to values.
use vstd::prelude::*;
use crate::text::{chars_of, string_of, chars_eq, copy_chars, vv};
use crate::order::{sort_lex, strictly_sorted, lemma_sorted_perm_strict, sorted_set, lemma_sorted_set};
use crate::text::push_str;

verus! {

/// One variable.
pub struct EnvVar {
    name: Vec<char>,
    value: Vec<char>,
}

spec fn distinct_names(es: Seq<EnvVar>) -> bool {
    forall|i: int, j: int| 0 <= i < j < es.len() ==> es[i].name@ != es[j].name@
}

spec fn emap(es: Seq<EnvVar>) -> Map<Seq<char>, Seq<char>>
    decreases es.len(),
{
    if es.len() == 0 {
        Map::empty()
    } else {
        emap(es.drop_last()).insert(es.last().name@, es.last().value@)
    }
}

proof fn lemma_emap_dom(es: Seq<EnvVar>, k: Seq<char>)
    ensures
        emap(es).dom().contains(k) <==> exists|i: int| 0 <= i < es.len() && es[i].name@ == k,
    decreases es.len(),
{
    if es.len() > 0 {
        lemma_emap_dom(es.drop_last(), k);
        if emap(es.drop_last()).dom().contains(k) {
            let i = choose|i: int| 0 <= i < es.drop_last().len() && es.drop_last()[i].name@ == k;
            assert(es[i].name@ == k);
        }
        if exists|i: int| 0 <= i < es.len() && es[i].name@ == k {
            let i = choose|i: int| 0 <= i < es.len() && es[i].name@ == k;
            if i < es.len() - 1 {
                assert(es.drop_last()[i].name@ == k);
            }
        }
    }
}

proof fn lemma_emap_at(es: Seq<EnvVar>, i: int)
    requires
        distinct_names(es),
        0 <= i < es.len(),
    ensures
        emap(es).dom().contains(es[i].name@),
        emap(es)[es[i].name@] == es[i].value@,
    decreases es.len(),
{
    if i < es.len() - 1 {
        assert(distinct_names(es.drop_last()));
        assert(es.drop_last()[i] == es[i]);
        lemma_emap_at(es.drop_last(), i);
    }
}

proof fn lemma_emap_update(es: Seq<EnvVar>, i: int, e: EnvVar)
    requires
        distinct_names(es),
        0 <= i < es.len(),
        e.name@ == es[i].name@,
    ensures
        distinct_names(es.update(i, e)),
        emap(es.update(i, e)) == emap(es).insert(e.name@, e.value@),
    decreases es.len(),
{
    let u = es.update(i, e);
    assert(distinct_names(u)) by {
        assert forall|a: int, b: int| 0 <= a < b < u.len() implies u[a].name@ != u[b].name@ by {
            assert(es[a].name@ != es[b].name@);
        }
    }
    if i == es.len() - 1 {
        assert(u.drop_last() =~= es.drop_last());
        assert(emap(u) =~= emap(es).insert(e.name@, e.value@));
    } else {
        assert(distinct_names(es.drop_last()));
        lemma_emap_update(es.drop_last(), i, e);
        assert(u.drop_last() =~= es.drop_last().update(i, e));
        assert(emap(u) =~= emap(es).insert(e.name@, e.value@));
    }
}

proof fn lemma_emap_same(es: Seq<EnvVar>, fs: Seq<EnvVar>)
    requires
        es.len() == fs.len(),
        forall|i: int| 0 <= i < es.len() ==> (#[trigger] es[i]).name@ == fs[i].name@ && es[i].value@ == fs[i].value@,
    ensures
        emap(es) == emap(fs),
    decreases es.len(),
{
    if es.len() > 0 {
        assert(es.last() == es[es.len() - 1]);
        assert(fs.last() == fs[fs.len() - 1]);
        assert forall|i: int| 0 <= i < es.drop_last().len() implies (#[trigger] es.drop_last()[i]).name@ == fs.drop_last()[i].name@
            && es.drop_last()[i].value@ == fs.drop_last()[i].value@ by {
            assert(es.drop_last()[i] == es[i]);
            assert(fs.drop_last()[i] == fs[i]);
        }
        lemma_emap_same(es.drop_last(), fs.drop_last());
    }
}

/// A set of environment variables.
pub struct EnvVars {
    vars: Vec<EnvVar>,
}

impl EnvVars {
    #[verifier::type_invariant]
    spec fn inv(self) -> bool {
        distinct_names(self.vars@)
    }
}

impl View for EnvVars {
    type V = Map<Seq<char>, Seq<char>>;

    closed spec fn view(&self) -> Map<Seq<char>, Seq<char>> {
        emap(self.vars@)
    }
}

impl EnvVars {
    /// No variables.
    pub fn new() -> (r: EnvVars)
        ensures
            r@ == Map::<Seq<char>, Seq<char>>::empty(),
    {
        EnvVars { vars: Vec::new() }
    }

    fn find(&self, name: &[char]) -> (r: Option<usize>)
        ensures
            match r {
                Some(i) => i < self.vars@.len() && self.vars@[i as int].name@ == name@
                    && self@.dom().contains(name@) && self@[name@] == self.vars@[i as int].value@,
                None => !self@.dom().contains(name@),
            },
    {
        proof {
            use_type_invariant(self);
        }
        let mut i: usize = 0;
        while i < self.vars.len()
            invariant
                i <= self.vars@.len(),
                distinct_names(self.vars@),
                forall|j: int| 0 <= j < i ==> self.vars@[j].name@ != name@,
            decreases self.vars.len() - i,
        {
            if chars_eq(self.vars[i].name.as_slice(), name) {
                proof {
                    lemma_emap_at(self.vars@, i as int);
                }
                return Some(i);
            }
            i += 1;
        }
        proof {
            lemma_emap_dom(self.vars@, name@);
        }
        None
    }

    /// The value of `name`, if set.
    pub fn get(&self, name: &str) -> (r: Option<String>)
        ensures
            match r {
                Some(v) => self@.dom().contains(name@) && v@ == self@[name@],
                None => !self@.dom().contains(name@),
            },
    {
        let n = chars_of(name);
        match self.find(n.as_slice()) {
            Some(i) => Some(string_of(self.vars[i].value.as_slice())),
            None => None,
        }
    }

    fn take_vars(&mut self) -> (r: Vec<EnvVar>)
        ensures
            r@ == old(self).vars@,
            distinct_names(r@),
    {
        proof {
            use_type_invariant(&*self);
        }
        let mut t = EnvVars::new();
        std::mem::swap(self, &mut t);
        proof {
            use_type_invariant(&t);
        }
        let EnvVars { vars } = t;
        vars
    }

    /// Set `name` to `value`.
    pub fn insert_chars(&mut self, name: &[char], value: &[char])
        ensures
            final(self)@ == old(self)@.insert(name@, value@),
    {
        proof {
            use_type_invariant(&*self);
        }
        let e = EnvVar { name: copy_chars(name), value: copy_chars(value) };
        match self.find(name) {
            Some(i) => {
                let mut vs = self.take_vars();
                proof {
                    lemma_emap_update(vs@, i as int, e);
                }
                vs.set(i, e);
                *self = EnvVars { vars: vs };
            },
            None => {
                proof {
                    lemma_emap_dom(self.vars@, name@);
                }
                let mut vs = self.take_vars();
                let ghost before = vs@;
                vs.push(e);
                proof {
                    assert(vs@.drop_last() == before);
                    assert forall|a: int, b: int| 0 <= a < b < vs@.len() implies vs@[a].name@ != vs@[b].name@ by {
                        if b == before.len() {
                            assert(vs@[a] == before[a]);
                        }
                    }
                }
                *self = EnvVars { vars: vs };
            },
        }
    }

    /// Set `name` to `value`.
    pub fn insert(&mut self, name: &str, value: &str)
        ensures
            final(self)@ == old(self)@.insert(name@, value@),
    {
        let n = chars_of(name);
        let v = chars_of(value);
        self.insert_chars(n.as_slice(), v.as_slice());
    }

    /// Number of variables.
    pub fn len(&self) -> (r: usize)
        ensures
            r == self@.len(),
    {
        proof {
            use_type_invariant(self);
            lemma_emap_len(self.vars@);
        }
        self.vars.len()
    }

    /// A copy of the environment.
    pub fn copy(&self) -> (r: EnvVars)
        ensures
            r@ == self@,
    {
        proof {
            use_type_invariant(self);
        }
        let mut vars: Vec<EnvVar> = Vec::new();
        let mut i: usize = 0;
        while i < self.vars.len()
            invariant
                i <= self.vars@.len(),
                vars@.len() == i,
                forall|j: int| 0 <= j < i ==> (#[trigger] vars@[j]).name@ == self.vars@[j].name@ && vars@[j].value@
                    == self.vars@[j].value@,
            decreases self.vars.len() - i,
        {
            let e = EnvVar { name: copy_chars(self.vars[i].name.as_slice()), value: copy_chars(self.vars[i].value.as_slice()) };
            vars.push(e);
            i += 1;
        }
        proof {
            lemma_emap_same(vars@, self.vars@);
            assert(distinct_names(vars@)) by {
                assert forall|a: int, b: int| 0 <= a < b < vars@.len() implies vars@[a].name@ != vars@[b].name@ by {
                    assert(self.vars@[a].name@ != self.vars@[b].name@);
                }
            }
        }
        EnvVars { vars }
    }

    /// Whether the two environments hold the same variables with the same
    /// values.
    pub fn same_as(&self, other: &EnvVars) -> (r: bool)
        ensures
            r == (self@ == other@),
    {
        let ps = self.sorted_pairs();
        let qs = other.sorted_pairs();
        let ghost kp = ps@.map_values(|p: (Vec<char>, Vec<char>)| p.0@);
        let ghost kq = qs@.map_values(|p: (Vec<char>, Vec<char>)| p.0@);
        proof {
            if self@ == other@ {
                assert forall|x: Seq<char>| kp.contains(x) <==> kq.contains(x) by {
                    assert(kp.contains(x) <==> self@.dom().contains(x));
                    assert(kq.contains(x) <==> other@.dom().contains(x));
                }
                crate::order::lemma_strict_unique(kp, kq);
            }
        }
        if ps.len() != qs.len() {
            assert(kp.len() == ps@.len() && kq.len() == qs@.len());
            return false;
        }
        let mut i: usize = 0;
        while i < ps.len()
            invariant
                i <= ps@.len(),
                ps@.len() == qs@.len(),
                kp == ps@.map_values(|p: (Vec<char>, Vec<char>)| p.0@),
                kq == qs@.map_values(|p: (Vec<char>, Vec<char>)| p.0@),
                self@ == other@ ==> kp == kq,
                forall|j: int| 0 <= j < ps@.len() ==> self@[(#[trigger] ps@[j]).0@] == ps@[j].1@,
                forall|j: int| 0 <= j < qs@.len() ==> other@[(#[trigger] qs@[j]).0@] == qs@[j].1@,
                forall|j: int| 0 <= j < i ==> (#[trigger] ps@[j]).0@ == qs@[j].0@ && ps@[j].1@ == qs@[j].1@,
            decreases ps.len() - i,
        {
            if !chars_eq(ps[i].0.as_slice(), qs[i].0.as_slice()) || !chars_eq(ps[i].1.as_slice(), qs[i].1.as_slice()) {
                proof {
                    if self@ == other@ {
                        assert(kp[i as int] == kq[i as int]);
                        assert(self@[ps@[i as int].0@] == ps@[i as int].1@);
                        assert(other@[qs@[i as int].0@] == qs@[i as int].1@);
                    }
                }
                return false;
            }
            i += 1;
        }
        proof {
            assert(kp =~= kq) by {
                assert forall|j: int| 0 <= j < kp.len() implies kp[j] == kq[j] by {
                    assert(ps@[j].0@ == qs@[j].0@);
                }
            }
            assert forall|n: Seq<char>| self@.dom().contains(n) implies other@.dom().contains(n) && self@[n] == other@[n] by {
                assert(kp.contains(n));
                let j = choose|j: int| 0 <= j < kp.len() && kp[j] == n;
                assert(ps@[j].0@ == n);
                assert(self@[ps@[j].0@] == ps@[j].1@);
                assert(qs@[j].0@ == n);
                assert(other@[qs@[j].0@] == qs@[j].1@);
                assert(kq.contains(n));
            }
            assert forall|n: Seq<char>| other@.dom().contains(n) implies self@.dom().contains(n) by {
                assert(kq.contains(n));
            }
            assert(self@ =~= other@);
        }
        true
    }

    /// All `(name, value)` pairs ordered by name.
    pub fn sorted_pairs(&self) -> (r: Vec<(Vec<char>, Vec<char>)>)
        ensures
            strictly_sorted(r@.map_values(|p: (Vec<char>, Vec<char>)| p.0@)),
            forall|n: Seq<char>| r@.map_values(|p: (Vec<char>, Vec<char>)| p.0@).contains(n) <==> self@.dom().contains(n),
            forall|i: int| 0 <= i < r@.len() ==> self@[(#[trigger] r@[i]).0@] == r@[i].1@,
    {
        proof {
            use_type_invariant(self);
        }
        let mut names: Vec<Vec<char>> = Vec::new();
        let mut i: usize = 0;
        while i < self.vars.len()
            invariant
                i <= self.vars@.len(),
                vv(names@) == self.vars@.take(i as int).map_values(|e: EnvVar| e.name@),
            decreases self.vars.len() - i,
        {
            let ghost before = names@;
            names.push(copy_chars(self.vars[i].name.as_slice()));
            assert(vv(names@) =~= vv(before).push(self.vars@[i as int].name@));
            assert(self.vars@.take(i + 1).map_values(|e: EnvVar| e.name@) =~= self.vars@.take(
                i as int,
            ).map_values(|e: EnvVar| e.name@).push(self.vars@[i as int].name@));
            i += 1;
        }
        let ghost all_names = vv(names@);
        assert(self.vars@.take(self.vars@.len() as int) == self.vars@);
        proof {
            assert(all_names.no_duplicates()) by {
                assert forall|a: int, b: int| 0 <= a < all_names.len() && 0 <= b < all_names.len() && a != b implies all_names[a] != all_names[b] by {
                    if a < b {
                        assert(self.vars@[a].name@ != self.vars@[b].name@);
                    } else {
                        assert(self.vars@[b].name@ != self.vars@[a].name@);
                    }
                }
            }
            assert forall|n: Seq<char>| all_names.contains(n) <==> self@.dom().contains(n) by {
                lemma_emap_dom(self.vars@, n);
                if all_names.contains(n) {
                    let a = choose|a: int| 0 <= a < all_names.len() && all_names[a] == n;
                    assert(self.vars@[a].name@ == n);
                }
                if self@.dom().contains(n) {
                    let a = choose|a: int| 0 <= a < self.vars@.len() && self.vars@[a].name@ == n;
                    assert(all_names[a] == n);
                }
            }
        }
        let sorted = sort_lex(names);
        proof {
            lemma_sorted_perm_strict(all_names, vv(sorted@));
        }
        let mut out: Vec<(Vec<char>, Vec<char>)> = Vec::new();
        let mut j: usize = 0;
        while j < sorted.len()
            invariant
                j <= sorted@.len(),
                out@.len() == j,
                forall|n: Seq<char>| vv(sorted@).contains(n) ==> self@.dom().contains(n),
                forall|a: int| 0 <= a < j ==> (#[trigger] out@[a]).0@ == sorted@[a]@ && self@[out@[a].0@] == out@[a].1@,
            decreases sorted.len() - j,
        {
            assert(vv(sorted@)[j as int] == sorted@[j as int]@);
            assert(vv(sorted@).contains(sorted@[j as int]@));
            match self.find(sorted[j].as_slice()) {
                Some(k) => {
                    out.push((copy_chars(sorted[j].as_slice()), copy_chars(self.vars[k].value.as_slice())));
                },
                None => {
                    assert(false);
                },
            }
            j += 1;
        }
        assert(out@.map_values(|p: (Vec<char>, Vec<char>)| p.0@) =~= vv(sorted@));
        out
    }
}

proof fn lemma_emap_len(es: Seq<EnvVar>)
    requires
        distinct_names(es),
    ensures
        emap(es).len() == es.len(),
        emap(es).dom().finite(),
    decreases es.len(),
{
    if es.len() > 0 {
        assert(distinct_names(es.drop_last()));
        lemma_emap_len(es.drop_last());
        lemma_emap_dom(es.drop_last(), es.last().name@);
        if emap(es.drop_last()).dom().contains(es.last().name@) {
            let i = choose|i: int| 0 <= i < es.drop_last().len() && es.drop_last()[i].name@ == es.last().name@;
            assert(es[i].name@ == es[es.len() - 1].name@);
        }
    }
}


/// For each name of `ks` in turn, `prefix`, the name, `sep`, its value in
/// `m` and `suffix`.
pub open spec fn pair_lines(
    m: Map<Seq<char>, Seq<char>>,
    ks: Seq<Seq<char>>,
    prefix: Seq<char>,
    sep: Seq<char>,
    suffix: Seq<char>,
) -> Seq<char>
    decreases ks.len(),
{
    if ks.len() == 0 {
        Seq::empty()
    } else {
        pair_lines(m, ks.drop_last(), prefix, sep, suffix) + prefix + ks.last() + sep + m[ks.last()] + suffix
    }
}

impl EnvVars {
    /// Every variable as `prefix NAME sep VALUE suffix`, ordered by name.
    pub fn render(&self, prefix: &str, sep: &str, suffix: &str) -> (r: String)
        ensures
            r@ == pair_lines(self@, sorted_set(self@.dom()), prefix@, sep@, suffix@),
    {
        let pairs = self.sorted_pairs();
        let ghost ks = pairs@.map_values(|p: (Vec<char>, Vec<char>)| p.0@);
        proof {
            lemma_sorted_set(self@.dom(), ks);
        }
        let mut out: Vec<char> = Vec::new();
        let mut i: usize = 0;
        while i < pairs.len()
            invariant
                i <= pairs@.len(),
                ks == pairs@.map_values(|p: (Vec<char>, Vec<char>)| p.0@),
                forall|j: int| 0 <= j < pairs@.len() ==> self@[(#[trigger] pairs@[j]).0@] == pairs@[j].1@,
                out@ == pair_lines(self@, ks.take(i as int), prefix@, sep@, suffix@),
            decreases pairs.len() - i,
        {
            let ghost before = out@;
            push_str(&mut out, prefix);
            crate::text::push_all(&mut out, pairs[i].0.as_slice());
            push_str(&mut out, sep);
            crate::text::push_all(&mut out, pairs[i].1.as_slice());
            push_str(&mut out, suffix);
            proof {
                let t = ks.take(i + 1);
                assert(t.drop_last() =~= ks.take(i as int));
                assert(t.last() == pairs@[i as int].0@);
                assert(self@[pairs@[i as int].0@] == pairs@[i as int].1@);
                assert(out@ =~= before + prefix@ + t.last() + sep@ + self@[t.last()] + suffix@);
            }
            i += 1;
        }
        assert(ks.take(pairs@.len() as int) =~= ks);
        string_of(out.as_slice())
    }
}

} // verus!
