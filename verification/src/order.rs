//! Lexicographic order on character sequences (the order of `str`
//! comparison: code point by code point, a proper prefix first) and a
//! verified stable insertion sort.
use vstd::prelude::*;

verus! {

/// `a` comes strictly before `b` in lexicographic order.
pub open spec fn lex_lt(a: Seq<char>, b: Seq<char>) -> bool
    decreases a.len(),
{
    if a.len() == 0 {
        b.len() > 0
    } else if b.len() == 0 {
        false
    } else if a[0] < b[0] {
        true
    } else if a[0] == b[0] {
        lex_lt(a.drop_first(), b.drop_first())
    } else {
        false
    }
}

/// `a` comes before or equals `b`.
pub open spec fn lex_le(a: Seq<char>, b: Seq<char>) -> bool {
    a == b || lex_lt(a, b)
}

/// Every element is lexicographically at most every later one.
pub open spec fn sorted(s: Seq<Seq<char>>) -> bool {
    forall|i: int, j: int| 0 <= i < j < s.len() ==> lex_le(#[trigger] s[i], #[trigger] s[j])
}

/// The strict order is irreflexive.
pub proof fn lemma_lex_irrefl(a: Seq<char>)
    ensures
        !lex_lt(a, a),
    decreases a.len(),
{
    if a.len() > 0 {
        lemma_lex_irrefl(a.drop_first());
    }
}

/// The strict order is asymmetric.
pub proof fn lemma_lex_asym(a: Seq<char>, b: Seq<char>)
    ensures
        !(lex_lt(a, b) && lex_lt(b, a)),
    decreases a.len(),
{
    if a.len() > 0 && b.len() > 0 && a[0] == b[0] {
        lemma_lex_asym(a.drop_first(), b.drop_first());
    }
}

/// The strict order is transitive.
pub proof fn lemma_lex_trans(a: Seq<char>, b: Seq<char>, c: Seq<char>)
    requires
        lex_lt(a, b),
        lex_lt(b, c),
    ensures
        lex_lt(a, c),
    decreases a.len(),
{
    if a.len() > 0 && b.len() > 0 && c.len() > 0 && a[0] == b[0] && b[0] == c[0] {
        lemma_lex_trans(a.drop_first(), b.drop_first(), c.drop_first());
    }
}

/// Any two different sequences are ordered one way or the other.
pub proof fn lemma_lex_total(a: Seq<char>, b: Seq<char>)
    ensures
        a == b || lex_lt(a, b) || lex_lt(b, a),
    decreases a.len(),
{
    if a.len() > 0 && b.len() > 0 && a[0] == b[0] {
        lemma_lex_total(a.drop_first(), b.drop_first());
        if a.drop_first() == b.drop_first() {
            assert(a =~= seq![a[0]] + a.drop_first());
            assert(b =~= seq![b[0]] + b.drop_first());
        }
    } else if a.len() == 0 && b.len() == 0 {
        assert(a =~= b);
    }
}

/// The non-strict order is transitive.
pub proof fn lemma_le_trans(a: Seq<char>, b: Seq<char>, c: Seq<char>)
    requires
        lex_le(a, b),
        lex_le(b, c),
    ensures
        lex_le(a, c),
{
    if a != b && b != c {
        lemma_lex_trans(a, b, c);
    }
}

/// `lex_le` as a relation.
pub open spec fn lex_order() -> spec_fn(Seq<char>, Seq<char>) -> bool {
    |a: Seq<char>, b: Seq<char>| lex_le(a, b)
}

/// `lex_le` is a total order.
pub proof fn lemma_lex_total_ordering()
    ensures
        vstd::relations::total_ordering(lex_order()),
{
    assert forall|x: Seq<char>, y: Seq<char>| #[trigger] lex_order()(x, y) && #[trigger] lex_order()(y, x) implies x == y by {
        lemma_lex_asym(x, y);
    }
    assert forall|x: Seq<char>, y: Seq<char>, z: Seq<char>| #[trigger] lex_order()(x, y) && #[trigger] lex_order()(y, z) implies lex_order()(x, z) by {
        lemma_le_trans(x, y, z);
    }
    assert forall|x: Seq<char>, y: Seq<char>| #[trigger] lex_order()(x, y) || #[trigger] lex_order()(y, x) by {
        lemma_lex_total(x, y);
    }
}

/// Sorting is determined by the elements: two sorted arrangements of the
/// same elements are equal.
pub proof fn lemma_sorted_unique(a: Seq<Seq<char>>, b: Seq<Seq<char>>)
    requires
        sorted(a),
        sorted(b),
        a.to_multiset() == b.to_multiset(),
    ensures
        a == b,
{
    lemma_lex_total_ordering();
    assert(vstd::relations::sorted_by(a, lex_order()));
    assert(vstd::relations::sorted_by(b, lex_order()));
    vstd::seq_lib::lemma_sorted_unique(a, b, lex_order());
}

/// The sorted arrangement of the elements of `s`.
pub open spec fn sort_seq(s: Seq<Seq<char>>) -> Seq<Seq<char>> {
    choose|t: Seq<Seq<char>>| sorted(t) && t.to_multiset() == s.to_multiset()
}

/// A sorted arrangement of the elements of `s` is `sort_seq(s)`.
pub proof fn lemma_sort_seq(s: Seq<Seq<char>>, t: Seq<Seq<char>>)
    requires
        sorted(t),
        t.to_multiset() == s.to_multiset(),
    ensures
        sort_seq(s) == t,
{
    let u = sort_seq(s);
    assert(sorted(u) && u.to_multiset() == s.to_multiset());
    lemma_sorted_unique(u, t);
}

/// Whether `a` comes strictly before `b`.
pub fn lex_less(a: &[char], b: &[char]) -> (r: bool)
    ensures
        r == lex_lt(a@, b@),
{
    let mut i: usize = 0;
    assert(a@.skip(0) == a@ && b@.skip(0) == b@);
    while i < a.len() && i < b.len()
        invariant
            i <= a@.len(),
            i <= b@.len(),
            lex_lt(a@, b@) == lex_lt(a@.skip(i as int), b@.skip(i as int)),
        decreases a.len() - i,
    {
        let ghost sa = a@.skip(i as int);
        let ghost sb = b@.skip(i as int);
        assert(sa[0] == a@[i as int]);
        assert(sb[0] == b@[i as int]);
        if a[i] < b[i] {
            return true;
        }
        if a[i] > b[i] {
            return false;
        }
        assert(sa.drop_first() == a@.skip(i + 1));
        assert(sb.drop_first() == b@.skip(i + 1));
        i += 1;
    }
    if i == a.len() {
        assert(a@.skip(i as int).len() == 0);
        i < b.len()
    } else {
        false
    }
}

proof fn lemma_vv_insert(v: Seq<Vec<char>>, i: int, x: Vec<char>)
    requires
        0 <= i <= v.len(),
    ensures
        v.insert(i, x).map_values(|e: Vec<char>| e@) == v.map_values(|e: Vec<char>| e@).insert(
            i,
            x@,
        ),
{
    assert(v.insert(i, x).map_values(|e: Vec<char>| e@) =~= v.map_values(|e: Vec<char>| e@).insert(
        i,
        x@,
    ));
}

proof fn lemma_vv_push(v: Seq<Vec<char>>, x: Vec<char>)
    ensures
        v.push(x).map_values(|e: Vec<char>| e@) == v.map_values(|e: Vec<char>| e@).push(x@),
{
    assert(v.push(x).map_values(|e: Vec<char>| e@) =~= v.map_values(|e: Vec<char>| e@).push(x@));
}

/// Sort character sequences in ascending lexicographic order. The result
/// is sorted and holds exactly the input's elements (`slice::sort`).
pub fn sort_lex(v: Vec<Vec<char>>) -> (r: Vec<Vec<char>>)
    ensures
        sorted(r@.map_values(|e: Vec<char>| e@)),
        r@.map_values(|e: Vec<char>| e@).to_multiset() == v@.map_values(
            |e: Vec<char>| e@,
        ).to_multiset(),
        r@.len() == v@.len(),
{
    broadcast use vstd::seq_lib::group_to_multiset_ensures;

    let ghost vin = v@.map_values(|e: Vec<char>| e@);
    let mut r: Vec<Vec<char>> = Vec::new();
    let mut src = v;
    let mut taken: Vec<Vec<char>> = Vec::new();
    // Move the input into `r`, one element at a time, each into its sorted place.
    let n = src.len();
    let mut k: usize = 0;
    let ghost orig = src@;
    while k < n
        invariant
            n == orig.len(),
            k <= n,
            src@ == orig.take(n - k),
            vin == orig.map_values(|e: Vec<char>| e@),
            sorted(r@.map_values(|e: Vec<char>| e@)),
            r@.map_values(|e: Vec<char>| e@).to_multiset() == orig.skip(n - k).map_values(
                |e: Vec<char>| e@,
            ).to_multiset(),
            r@.len() == k,
        decreases n - k,
    {
        let x = src.pop().unwrap();
        let ghost rv = r@.map_values(|e: Vec<char>| e@);
        // find the first position whose element is strictly after x
        let mut pos: usize = 0;
        while pos < r.len() && !lex_less(x.as_slice(), r[pos].as_slice())
            invariant
                pos <= r@.len(),
                rv == r@.map_values(|e: Vec<char>| e@),
                forall|j: int| 0 <= j < pos ==> !lex_lt(x@, #[trigger] rv[j]),
            decreases r.len() - pos,
        {
            pos += 1;
        }
        let ghost xv = x@;
        r.insert(pos, x);
        proof {
            lemma_vv_insert(r@.remove(pos as int), pos as int, r@[pos as int]);
            assert(r@.remove(pos as int) == old_r_seq(r@, pos as int));
            let nv = r@.map_values(|e: Vec<char>| e@);
            assert(nv == rv.insert(pos as int, xv)) by {
                assert(nv =~= rv.insert(pos as int, xv));
            }
            assert forall|i: int, j: int| 0 <= i < j < nv.len() implies lex_le(
                #[trigger] nv[i],
                #[trigger] nv[j],
            ) by {
                if i < pos && j < pos {
                    assert(nv[i] == rv[i] && nv[j] == rv[j]);
                } else if i < pos && j == pos {
                    assert(!lex_lt(xv, rv[i]));
                    lemma_lex_total(xv, rv[i]);
                } else if i < pos && j > pos {
                    assert(nv[j] == rv[j - 1]);
                    assert(nv[i] == rv[i]);
                } else if i == pos {
                    assert(nv[j] == rv[j - 1]);
                    assert(lex_lt(xv, rv[pos as int]));
                    if j - 1 > pos {
                        assert(lex_le(rv[pos as int], rv[j - 1]));
                        lemma_le_trans(xv, rv[pos as int], rv[j - 1]);
                    }
                } else {
                    assert(nv[i] == rv[i - 1] && nv[j] == rv[j - 1]);
                }
            }
            let s_new = orig.skip(n - (k + 1)).map_values(|e: Vec<char>| e@);
            let s_old = orig.skip(n - k).map_values(|e: Vec<char>| e@);
            assert(s_new =~= s_old.insert(0, xv)) by {
                assert(orig[n - k - 1] == x);
            }
            vstd::seq_lib::to_multiset_insert(s_old, 0, xv);
            vstd::seq_lib::to_multiset_insert(rv, pos as int, xv);
        }
        k += 1;
    }
    proof {
        assert(orig.skip(0) == orig);
    }
    r
}

/// A strictly increasing sequence.
pub open spec fn strictly_sorted(s: Seq<Seq<char>>) -> bool {
    forall|i: int, j: int| 0 <= i < j < s.len() ==> lex_lt(#[trigger] s[i], #[trigger] s[j])
}

/// A sorted permutation of a duplicate-free sequence is strictly sorted,
/// and holds the same elements.
pub proof fn lemma_sorted_perm_strict(a: Seq<Seq<char>>, b: Seq<Seq<char>>)
    requires
        a.no_duplicates(),
        b.to_multiset() == a.to_multiset(),
        sorted(b),
    ensures
        strictly_sorted(b),
        forall|x: Seq<char>| b.contains(x) <==> a.contains(x),
{
    broadcast use vstd::seq_lib::group_to_multiset_ensures;

    a.lemma_multiset_has_no_duplicates();
    b.lemma_multiset_has_no_duplicates_conv();
    assert forall|i: int, j: int| 0 <= i < j < b.len() implies lex_lt(
        #[trigger] b[i],
        #[trigger] b[j],
    ) by {
        assert(lex_le(b[i], b[j]));
    }
    assert forall|x: Seq<char>| b.contains(x) <==> a.contains(x) by {
        vstd::seq_lib::to_multiset_contains(a, x);
        vstd::seq_lib::to_multiset_contains(b, x);
    }
}

spec fn old_r_seq(s: Seq<Vec<char>>, pos: int) -> Seq<Vec<char>> {
    s.remove(pos)
}

/// Reverse a sequence of character vectors.
pub fn reverse_vecs(v: Vec<Vec<char>>) -> (r: Vec<Vec<char>>)
    ensures
        r@.map_values(|e: Vec<char>| e@) == v@.map_values(|e: Vec<char>| e@).reverse(),
{
    let mut src = v;
    let ghost orig = src@;
    let mut r: Vec<Vec<char>> = Vec::new();
    while src.len() > 0
        invariant
            src@.len() <= orig.len(),
            src@ == orig.take(src@.len() as int),
            r@.map_values(|e: Vec<char>| e@) == orig.skip(src@.len() as int).map_values(
                |e: Vec<char>| e@,
            ).reverse(),
        decreases src.len(),
    {
        let ghost len = src@.len();
        let x = src.pop().unwrap();
        let ghost before = r@;
        r.push(x);
        proof {
            lemma_vv_push(before, x);
            assert(orig.skip(len - 1).map_values(|e: Vec<char>| e@).reverse() =~= orig.skip(
                len as int,
            ).map_values(|e: Vec<char>| e@).reverse().push(x@)) by {
                assert(orig[len - 1] == x);
            }
        }
    }
    assert(orig.skip(0) == orig);
    r
}


/// The strictly increasing arrangement of the names in `s`.
pub open spec fn sorted_set(s: Set<Seq<char>>) -> Seq<Seq<char>> {
    choose|t: Seq<Seq<char>>| strictly_sorted(t) && forall|x: Seq<char>| t.contains(x) <==> s.contains(x)
}

/// Two strictly increasing sequences with the same elements are equal.
pub proof fn lemma_strict_unique(a: Seq<Seq<char>>, b: Seq<Seq<char>>)
    requires
        strictly_sorted(a),
        strictly_sorted(b),
        forall|x: Seq<char>| a.contains(x) <==> b.contains(x),
    ensures
        a == b,
    decreases a.len(),
{
    if a.len() == 0 {
        if b.len() > 0 {
            assert(b.contains(b[0]));
        }
        assert(a =~= b);
    } else {
        assert(a.contains(a[0]));
        assert(b.contains(a[0]));
        assert(b.len() > 0);
        assert(b.contains(b[0]));
        assert(a.contains(b[0]));
        let i = choose|i: int| 0 <= i < a.len() && a[i] == b[0];
        let j = choose|j: int| 0 <= j < b.len() && b[j] == a[0];
        if i > 0 && j > 0 {
            assert(lex_lt(a[0], a[i]));
            assert(lex_lt(b[0], b[j]));
            lemma_lex_asym(a[0], b[0]);
        }
        assert(a[0] == b[0]);
        let a1 = a.drop_first();
        let b1 = b.drop_first();
        assert forall|x: Seq<char>| a1.contains(x) <==> b1.contains(x) by {
            if a1.contains(x) {
                let k = choose|k: int| 0 <= k < a1.len() && a1[k] == x;
                assert(lex_lt(a[0], a[k + 1]));
                lemma_lex_irrefl(x);
                assert(b.contains(x));
                let m = choose|m: int| 0 <= m < b.len() && b[m] == x;
                assert(m != 0);
                assert(b1[m - 1] == x);
            }
            if b1.contains(x) {
                let k = choose|k: int| 0 <= k < b1.len() && b1[k] == x;
                assert(lex_lt(b[0], b[k + 1]));
                lemma_lex_irrefl(x);
                assert(a.contains(x));
                let m = choose|m: int| 0 <= m < a.len() && a[m] == x;
                assert(m != 0);
                assert(a1[m - 1] == x);
            }
        }
        assert(strictly_sorted(a1)) by {
            assert forall|p: int, q: int| 0 <= p < q < a1.len() implies lex_lt(#[trigger] a1[p], #[trigger] a1[q]) by {
                assert(lex_lt(a[p + 1], a[q + 1]));
            }
        }
        assert(strictly_sorted(b1)) by {
            assert forall|p: int, q: int| 0 <= p < q < b1.len() implies lex_lt(#[trigger] b1[p], #[trigger] b1[q]) by {
                assert(lex_lt(b[p + 1], b[q + 1]));
            }
        }
        lemma_strict_unique(a1, b1);
        assert(a =~= b) by {
            assert forall|k: int| 0 <= k < a.len() implies a[k] == b[k] by {
                if k > 0 {
                    assert(a[k] == a1[k - 1]);
                    assert(b[k] == b1[k - 1]);
                }
            }
        }
    }
}

/// A strictly increasing sequence of the names in `s` is `sorted_set(s)`.
pub proof fn lemma_sorted_set(s: Set<Seq<char>>, t: Seq<Seq<char>>)
    requires
        strictly_sorted(t),
        forall|x: Seq<char>| t.contains(x) <==> s.contains(x),
    ensures
        sorted_set(s) == t,
{
    let u = sorted_set(s);
    assert(strictly_sorted(u) && forall|x: Seq<char>| u.contains(x) <==> s.contains(x));
    lemma_strict_unique(u, t);
}


/// Every sequence of lines has a sorted arrangement: `sort_seq(s)` is
/// sorted and holds exactly the elements of `s`, as often as `s` does.
pub proof fn law_sort_seq(s: Seq<Seq<char>>)
    ensures
        sorted(sort_seq(s)),
        sort_seq(s).to_multiset() == s.to_multiset(),
{
    lemma_lex_total_ordering();
    s.lemma_sort_by_ensures(lex_order());
    let t = s.sort_by(lex_order());
    assert(sorted(t)) by {
        assert forall|i: int, j: int| 0 <= i < j < t.len() implies lex_le(#[trigger] t[i], #[trigger] t[j]) by {
            assert(lex_order()(t[i], t[j]));
        }
    }
    lemma_sort_seq(s, t);
}

} // verus!
