//! Sequence facts used by the repository's lookup rules.
use vstd::prelude::*;

verus! {

/// `i` is the first position of `s` whose element satisfies `p`.
pub open spec fn is_first_match<T>(s: Seq<T>, p: spec_fn(T) -> bool, i: int) -> bool {
    &&& 0 <= i < s.len()
    &&& p(s[i])
    &&& forall|j: int| 0 <= j < i ==> !p(#[trigger] s[j])
}

/// The first position of `s` whose element satisfies `p`, if any.
pub open spec fn first_match<T>(s: Seq<T>, p: spec_fn(T) -> bool) -> Option<int> {
    if exists|i: int| 0 <= i < s.len() && #[trigger] p(s[i]) {
        Some(choose|i: int| #[trigger] is_first_match(s, p, i))
    } else {
        None
    }
}

pub proof fn lemma_first_match_is<T>(s: Seq<T>, p: spec_fn(T) -> bool, i: int)
    requires
        is_first_match(s, p, i),
    ensures
        first_match(s, p) == Some(i),
{
    assert(p(s[i]));
    let k = choose|k: int| #[trigger] is_first_match(s, p, k);
    assert(is_first_match(s, p, k));
    if k < i {
        assert(!p(s[k]));
    } else if i < k {
        assert(!p(s[i]));
    }
}

pub proof fn lemma_first_match_none<T>(s: Seq<T>, p: spec_fn(T) -> bool)
    requires
        forall|j: int| 0 <= j < s.len() ==> !p(#[trigger] s[j]),
    ensures
        first_match(s, p) is None,
{
}

pub proof fn lemma_first_match_some<T>(s: Seq<T>, p: spec_fn(T) -> bool)
    requires
        first_match(s, p) is Some,
    ensures
        is_first_match(s, p, first_match(s, p)->0),
{
    let w = choose|i: int| 0 <= i < s.len() && #[trigger] p(s[i]);
    lemma_exists_first(s, p, w);
}

proof fn lemma_exists_first<T>(s: Seq<T>, p: spec_fn(T) -> bool, w: int)
    requires
        0 <= w < s.len(),
        p(s[w]),
    ensures
        exists|i: int| #[trigger] is_first_match(s, p, i),
    decreases w,
{
    if forall|j: int| 0 <= j < w ==> !p(#[trigger] s[j]) {
        assert(is_first_match(s, p, w));
    } else {
        let j = choose|j: int| 0 <= j < w && #[trigger] p(s[j]);
        lemma_exists_first(s, p, j);
    }
}

/// Replacing the first match by another element that matches keeps it the
/// first match.
pub proof fn lemma_first_match_update<T>(s: Seq<T>, p: spec_fn(T) -> bool, i: int, v: T)
    requires
        first_match(s, p) == Some(i),
        p(v),
    ensures
        first_match(s.update(i, v), p) == Some(i),
{
    lemma_first_match_some(s, p);
    let t = s.update(i, v);
    assert forall|j: int| 0 <= j < i implies !p(#[trigger] t[j]) by {
        assert(t[j] == s[j]);
    }
    assert(is_first_match(t, p, i));
    lemma_first_match_is(t, p, i);
}

/// Replace position `i`, or append when `i` is `None`.
pub open spec fn replace_or_push<T>(s: Seq<T>, i: Option<int>, v: T) -> Seq<T> {
    match i {
        Some(i) => s.update(i, v),
        None => s.push(v),
    }
}

/// Filtering a prefix one element longer.
pub proof fn lemma_filter_step<A>(s: Seq<A>, pred: spec_fn(A) -> bool, i: int)
    requires
        0 <= i < s.len(),
    ensures
        s.take(i + 1).filter(pred) == (if pred(s[i]) {
            s.take(i).filter(pred).push(s[i])
        } else {
            s.take(i).filter(pred)
        }),
{
    reveal(Seq::filter);
    assert(s.take(i + 1).drop_last() =~= s.take(i));
    assert(s.take(i + 1).last() == s[i]);
}

/// Filtering nothing gives nothing; the whole sequence is its longest prefix.
pub proof fn lemma_filter_ends<A>(s: Seq<A>, pred: spec_fn(A) -> bool)
    ensures
        s.take(0).filter(pred) == Seq::<A>::empty(),
        s.take(s.len() as int) == s,
{
    reveal(Seq::filter);
    assert(s.take(0) =~= Seq::<A>::empty());
    assert(s.take(s.len() as int) =~= s);
}

/// No element comes after one that `lt` puts after it.
pub open spec fn sorted_by<T>(s: Seq<T>, lt: spec_fn(T, T) -> bool) -> bool {
    forall|i: int, j: int| 0 <= i < j < s.len() ==> !lt(#[trigger] s[j], #[trigger] s[i])
}

/// `lt` is a strict order: transitive and asymmetric.
pub open spec fn strict_order<T>(lt: spec_fn(T, T) -> bool) -> bool {
    &&& forall|a: T, b: T, c: T| #[trigger] lt(a, b) && #[trigger] lt(b, c) ==> lt(a, c)
    &&& forall|a: T, b: T| #[trigger] lt(a, b) ==> !lt(b, a)
}

/// A stable insertion sort by a strict order whose test is `less`.
pub fn sort_by_order<T, F: Fn(&T, &T) -> bool>(v: Vec<T>, less: F, Ghost(lt): Ghost<spec_fn(T, T) -> bool>) -> (r: Vec<T>)
    requires
        forall|a: &T, b: &T| less.requires((a, b)),
        forall|a: &T, b: &T, res: bool| less.ensures((a, b), res) ==> res == lt(*a, *b),
        strict_order(lt),
    ensures
        sorted_by(r@, lt),
        r@.to_multiset() == v@.to_multiset(),
{
    let ghost orig = v@;
    let mut rest = v;
    let mut out: Vec<T> = Vec::new();
    let ghost mut taken: int = 0;
    proof {
        assert(orig.take(0) =~= Seq::<T>::empty());
        assert(orig.skip(0) =~= orig);
    }
    while rest.len() > 0
        invariant
            0 <= taken <= orig.len(),
            rest@ == orig.skip(taken),
            sorted_by(out@, lt),
            out@.to_multiset() == orig.take(taken).to_multiset(),
            forall|a: &T, b: &T| less.requires((a, b)),
            forall|a: &T, b: &T, res: bool| less.ensures((a, b), res) ==> res == lt(*a, *b),
            strict_order(lt),
        decreases rest.len(),
    {
        let x = rest.remove(0);
        proof {
            assert(x == orig[taken]);
            assert(orig.take(taken + 1) =~= orig.take(taken).push(x));
            assert(rest@ =~= orig.skip(taken + 1));
            vstd::seq_lib::to_multiset_build(orig.take(taken), x);
        }
        let mut p: usize = 0;
        while p < out.len() && !less(&x, &out[p])
            invariant
                p <= out@.len(),
                forall|k: int| 0 <= k < p ==> !lt(x, #[trigger] out@[k]),
                forall|a: &T, b: &T| less.requires((a, b)),
                forall|a: &T, b: &T, res: bool| less.ensures((a, b), res) ==> res == lt(*a, *b),
            decreases out.len() - p,
        {
            p = p + 1;
        }
        let ghost before = out@;
        proof {
            if p < before.len() {
                assert(lt(x, before[p as int]));
            }
        }
        out.insert(p, x);
        proof {
            assert(out@ =~= before.insert(p as int, x));
            assert forall|i: int, j: int| 0 <= i < j < out@.len() implies
                !lt(#[trigger] out@[j], #[trigger] out@[i]) by {
                let s = out@;
                if j < p {
                    assert(s[i] == before[i] && s[j] == before[j]);
                } else if j == p {
                    assert(s[i] == before[i]);
                    assert(s[j] == x);
                    assert(!lt(x, before[i]));
                } else if i == p {
                    assert(s[j] == before[j - 1]);
                    assert(s[i] == x);
                    assert(lt(x, before[p as int]));
                    if lt(before[j - 1], x) {
                        if j - 1 > p {
                            assert(!lt(before[j - 1], before[p as int]));
                            assert(lt(before[j - 1], before[p as int]));
                        } else {
                            assert(!lt(before[p as int], x));
                        }
                    }
                } else if i < p {
                    assert(s[i] == before[i] && s[j] == before[j - 1]);
                } else {
                    assert(s[i] == before[i - 1] && s[j] == before[j - 1]);
                }
            }
            vstd::seq_lib::to_multiset_insert(before, p as int, x);
            taken = taken + 1;
        }
    }
    proof {
        assert(orig.take(taken) =~= orig);
    }
    out
}

/// No two positions of `s` hold elements with the same key.
pub open spec fn keys_unique<T>(s: Seq<T>, key: spec_fn(T) -> Seq<char>) -> bool {
    forall|i: int, j: int|
        #![trigger s[i], s[j]]
        0 <= i < s.len() && 0 <= j < s.len() && i != j ==> key(s[i]) != key(s[j])
}

/// Appending an element whose key `p` would have found, where `p` finds
/// nothing, keeps the keys unique.
pub proof fn lemma_keys_unique_push<T>(s: Seq<T>, p: spec_fn(T) -> bool, key: spec_fn(T) -> Seq<char>, v: T)
    requires
        keys_unique(s, key),
        first_match(s, p) is None,
        forall|j: int| 0 <= j < s.len() && key(#[trigger] s[j]) == key(v) ==> p(s[j]),
    ensures
        keys_unique(s.push(v), key),
{
    let t = s.push(v);
    assert forall|i: int, j: int|
        #![trigger t[i], t[j]]
        0 <= i < t.len() && 0 <= j < t.len() && i != j implies key(t[i]) != key(t[j]) by {
        if i < s.len() && j < s.len() {
            assert(t[i] == s[i] && t[j] == s[j]);
        } else if i < s.len() {
            assert(t[i] == s[i] && t[j] == v);
            if key(s[i]) == key(v) {
                assert(p(s[i]));
            }
        } else {
            assert(t[j] == s[j] && t[i] == v);
            if key(s[j]) == key(v) {
                assert(p(s[j]));
            }
        }
    }
}

/// Replacing an element by one with the same key keeps the keys unique.
pub proof fn lemma_keys_unique_update<T>(s: Seq<T>, key: spec_fn(T) -> Seq<char>, i: int, v: T)
    requires
        keys_unique(s, key),
        0 <= i < s.len(),
        key(v) == key(s[i]),
    ensures
        keys_unique(s.update(i, v), key),
{
    let t = s.update(i, v);
    assert forall|a: int, b: int|
        #![trigger t[a], t[b]]
        0 <= a < t.len() && 0 <= b < t.len() && a != b implies key(t[a]) != key(t[b]) by {
        assert(key(t[a]) == key(s[a]));
        assert(key(t[b]) == key(s[b]));
    }
}

/// Removing an element keeps the keys unique, and no element left has its
/// key.
pub proof fn lemma_keys_unique_remove<T>(s: Seq<T>, key: spec_fn(T) -> Seq<char>, i: int)
    requires
        keys_unique(s, key),
        0 <= i < s.len(),
    ensures
        keys_unique(s.remove(i), key),
        forall|j: int| 0 <= j < s.remove(i).len() ==> key(#[trigger] s.remove(i)[j]) != key(s[i]),
{
    let t = s.remove(i);
    assert(t.len() == s.len() - 1);
    assert forall|j: int| 0 <= j < t.len() implies #[trigger] t[j] == (if j < i { s[j] } else { s[j + 1] }) by {}
    assert forall|a: int, b: int|
        #![trigger t[a], t[b]]
        0 <= a < t.len() && 0 <= b < t.len() && a != b implies key(t[a]) != key(t[b]) by {
        let a2 = if a < i { a } else { a + 1 };
        let b2 = if b < i { b } else { b + 1 };
        assert(t[a] == s[a2] && t[b] == s[b2]);
    }
    assert forall|j: int| 0 <= j < t.len() implies key(#[trigger] t[j]) != key(s[i]) by {
        let j2 = if j < i { j } else { j + 1 };
        assert(t[j] == s[j2]);
    }
}

/// Appending an element whose key no element has keeps the keys unique.
pub proof fn lemma_keys_unique_push_fresh<T>(s: Seq<T>, key: spec_fn(T) -> Seq<char>, v: T)
    requires
        keys_unique(s, key),
        forall|j: int| 0 <= j < s.len() ==> key(#[trigger] s[j]) != key(v),
    ensures
        keys_unique(s.push(v), key),
{
    let t = s.push(v);
    assert forall|i: int, j: int|
        #![trigger t[i], t[j]]
        0 <= i < t.len() && 0 <= j < t.len() && i != j implies key(t[i]) != key(t[j]) by {
        if i < s.len() {
            assert(t[i] == s[i]);
        }
        if j < s.len() {
            assert(t[j] == s[j]);
        }
    }
}

/// A filtered sequence keeps unique keys.
pub proof fn lemma_keys_unique_filter<T>(s: Seq<T>, key: spec_fn(T) -> Seq<char>, pred: spec_fn(T) -> bool)
    requires
        keys_unique(s, key),
    ensures
        keys_unique(s.filter(pred), key),
    decreases s.len(),
{
    if s.len() > 0 {
        let d = s.drop_last();
        let last = s.last();
        assert forall|i: int, j: int|
            #![trigger d[i], d[j]]
            0 <= i < d.len() && 0 <= j < d.len() && i != j implies key(d[i]) != key(d[j]) by {
            assert(d[i] == s[i] && d[j] == s[j]);
        }
        lemma_keys_unique_filter(d, key, pred);
        assert(d.push(last) =~= s);
        d.lemma_filter_push(last, pred);
        if pred(last) {
            let f = d.filter(pred);
            assert forall|j: int| 0 <= j < f.len() implies key(#[trigger] f[j]) != key(last) by {
                assert(f.contains(f[j]));
                d.lemma_filter_contains_rev(pred, f[j]);
                let k = choose|k: int| 0 <= k < d.len() && d[k] == f[j];
                assert(d[k] == s[k] && s[s.len() - 1] == last);
            }
            lemma_keys_unique_push_fresh(f, key, last);
        }
    }
}

/// `rel` holds of every two elements in their order.
pub open spec fn pairwise<T>(s: Seq<T>, rel: spec_fn(T, T) -> bool) -> bool {
    forall|i: int, j: int| 0 <= i < j < s.len() ==> rel(#[trigger] s[i], #[trigger] s[j])
}

/// A filtered sequence keeps what holds of every two elements in order.
pub proof fn lemma_pairwise_filter<T>(s: Seq<T>, rel: spec_fn(T, T) -> bool, pred: spec_fn(T) -> bool)
    requires
        pairwise(s, rel),
    ensures
        pairwise(s.filter(pred), rel),
    decreases s.len(),
{
    if s.len() > 0 {
        let d = s.drop_last();
        let last = s.last();
        assert forall|i: int, j: int| 0 <= i < j < d.len() implies rel(#[trigger] d[i], #[trigger] d[j]) by {
            assert(d[i] == s[i] && d[j] == s[j]);
        }
        lemma_pairwise_filter(d, rel, pred);
        assert(d.push(last) =~= s);
        d.lemma_filter_push(last, pred);
        if pred(last) {
            let f = d.filter(pred);
            let g = f.push(last);
            assert forall|i: int, j: int| 0 <= i < j < g.len() implies rel(#[trigger] g[i], #[trigger] g[j]) by {
                assert(g[i] == f[i]);
                if j < f.len() {
                    assert(g[j] == f[j]);
                } else {
                    assert(f.contains(f[i]));
                    d.lemma_filter_contains_rev(pred, f[i]);
                    let k = choose|k: int| 0 <= k < d.len() && d[k] == f[i];
                    assert(d[k] == s[k] && s[s.len() - 1] == last && g[j] == last);
                }
            }
        }
    }
}

/// Unique keys carry over to any sequence with the same elements.
pub proof fn lemma_keys_unique_permutation<T>(s: Seq<T>, t: Seq<T>, key: spec_fn(T) -> Seq<char>)
    requires
        keys_unique(s, key),
        s.to_multiset() == t.to_multiset(),
    ensures
        keys_unique(t, key),
{
    assert(s.no_duplicates()) by {
        assert forall|i: int, j: int| 0 <= i < s.len() && 0 <= j < s.len() && i != j implies s[i] != s[j] by {
            assert(key(s[i]) != key(s[j]));
        }
    }
    s.lemma_multiset_has_no_duplicates();
    s.to_multiset_ensures();
    t.to_multiset_ensures();
    t.lemma_multiset_has_no_duplicates_conv();
    assert forall|i: int, j: int|
        #![trigger t[i], t[j]]
        0 <= i < t.len() && 0 <= j < t.len() && i != j implies key(t[i]) != key(t[j]) by {
        assert(t.contains(t[i]) && t.contains(t[j]));
        assert(t.to_multiset().count(t[i]) > 0 && t.to_multiset().count(t[j]) > 0);
        assert(s.to_multiset().count(t[i]) > 0 && s.to_multiset().count(t[j]) > 0);
        assert(s.contains(t[i]) && s.contains(t[j]));
        let p = choose|p: int| 0 <= p < s.len() && s[p] == t[i];
        let q = choose|q: int| 0 <= q < s.len() && s[q] == t[j];
        assert(t[i] != t[j]);
    }
}

/// Sequences with the same elements keep the same elements when each is
/// mapped by `f`.
pub proof fn lemma_permutation_map<A, B>(a: Seq<A>, b: Seq<A>, f: spec_fn(A) -> B)
    requires
        a.to_multiset() == b.to_multiset(),
    ensures
        a.map_values(f).to_multiset() == b.map_values(f).to_multiset(),
    decreases a.len(),
{
    broadcast use vstd::multiset::group_multiset_axioms;
    a.to_multiset_ensures();
    b.to_multiset_ensures();
    if a.len() == 0 {
        assert(b.len() == 0);
        assert(a.map_values(f) =~= b.map_values(f));
    } else {
        let d = a.drop_last();
        let x = a.last();
        assert(d.push(x) =~= a);
        d.to_multiset_ensures();
        assert(a.to_multiset() == d.to_multiset().insert(x));
        assert(a.contains(x) && a.to_multiset().count(x) > 0);
        assert(b.contains(x));
        let j = choose|j: int| 0 <= j < b.len() && b[j] == x;
        let c = b.remove(j);
        assert(c.to_multiset() == b.to_multiset().remove(x));
        assert(c.to_multiset() =~= d.to_multiset());
        lemma_permutation_map(d, c, f);
        let fa = a.map_values(f);
        let fb = b.map_values(f);
        let fd = d.map_values(f);
        let fc = c.map_values(f);
        assert(fd.push(f(x)) =~= fa);
        fd.to_multiset_ensures();
        assert(fa.to_multiset() == fd.to_multiset().insert(f(x)));
        assert(fb.remove(j) =~= fc);
        fb.to_multiset_ensures();
        assert(fb[j] == f(x));
        assert(fc.to_multiset() == fb.to_multiset().remove(f(x)));
        assert(fb.contains(f(x)));
        assert(fb.to_multiset().count(f(x)) > 0);
        assert(fb.to_multiset().remove(f(x)).insert(f(x)) =~= fb.to_multiset());
    }
}

} // verus!
