//! Stable sorting by a numeric key, largest key first (as `sort_by_key` with `Reverse`).
use vstd::prelude::*;

verus! {

/// Inserts `x` after the last element whose key is at least `x`'s key, scanning from the
/// end.
pub open spec fn insert_desc<T>(s: Seq<(T, u64)>, x: (T, u64)) -> Seq<(T, u64)>
    decreases s.len(),
{
    if s.len() == 0 {
        seq![x]
    } else if s.last().1 >= x.1 {
        s.push(x)
    } else {
        insert_desc(s.drop_last(), x).push(s.last())
    }
}

/// The stable sort of `s` by decreasing key.
pub open spec fn sort_desc<T>(s: Seq<(T, u64)>) -> Seq<(T, u64)>
    decreases s.len(),
{
    if s.len() == 0 {
        Seq::empty()
    } else {
        insert_desc(sort_desc(s.drop_last()), s.last())
    }
}

/// Keys do not increase along the sequence.
pub open spec fn sorted_desc<T>(s: Seq<(T, u64)>) -> bool {
    forall|i: int, j: int| 0 <= i <= j < s.len() ==> s[i].1 >= s[j].1
}

proof fn lemma_insert_desc_at<T>(s: Seq<(T, u64)>, x: (T, u64), p: int)
    requires
        0 <= p <= s.len(),
        forall|j: int| p <= j < s.len() ==> s[j].1 < x.1,
        p == 0 || s[p - 1].1 >= x.1,
    ensures
        insert_desc(s, x) == s.take(p).push(x) + s.skip(p),
    decreases s.len(),
{
    if s.len() == 0 {
        assert(s.take(p).push(x) + s.skip(p) =~= seq![x]);
    } else if p == s.len() {
        assert(s.take(p) =~= s);
        assert(s.skip(p) =~= Seq::<(T, u64)>::empty());
        assert(s.take(p).push(x) + s.skip(p) =~= s.push(x));
    } else {
        let d = s.drop_last();
        lemma_insert_desc_at(d, x, p);
        assert(d.take(p) =~= s.take(p));
        assert(d.skip(p).push(s.last()) =~= s.skip(p));
        assert((d.take(p).push(x) + d.skip(p)).push(s.last()) =~= s.take(p).push(x) + s.skip(p));
    }
}

/// Sorts pairs by decreasing key; pairs with equal keys keep their order.
pub fn stable_sort_desc<T>(v: Vec<(T, u64)>) -> (r: Vec<(T, u64)>)
    ensures
        r@ == sort_desc(v@),
{
    let mut input = v;
    let ghost orig = input@;
    let mut out: Vec<(T, u64)> = Vec::new();
    let mut taken: usize = 0;
    let ghost n = orig.len();
    assert(n == input.len());
    // consume from the back into a reversed list so that the front element comes first
    let mut rev: Vec<(T, u64)> = Vec::new();
    while input.len() > 0
        invariant
            input@ + rev@.reverse() == orig,
        decreases input@.len(),
    {
        let x = input.pop().unwrap();
        proof {
            assert(input@.push(x) + rev@.reverse() == orig);
        }
        rev.push(x);
        proof {
            assert(rev@.reverse() =~= seq![x] + rev@.drop_last().reverse());
            assert(input@ + rev@.reverse() =~= input@.push(x) + rev@.drop_last().reverse());
        }
    }
    proof {
        assert(rev@.reverse() =~= orig);
    }
    while rev.len() > 0
        invariant
            taken + rev@.len() == n,
            n <= usize::MAX,
            rev@.reverse() == orig.skip(taken as int),
            out@ == sort_desc(orig.take(taken as int)),
            n == orig.len(),
        decreases rev@.len(),
    {
        let x = rev.pop().unwrap();
        proof {
            assert(x == orig[taken as int]) by {
                assert(orig.skip(taken as int)[0] == orig[taken as int]);
                assert(rev@.push(x).reverse()[0] == x);
            }
            assert(rev@.reverse() =~= orig.skip(taken + 1)) by {
                assert(rev@.push(x).reverse() == orig.skip(taken as int));
                assert forall|i: int| 0 <= i < rev@.len() implies rev@.reverse()[i] == orig.skip(
                    taken + 1,
                )[i] by {
                    assert(rev@.push(x).reverse()[i + 1] == rev@.reverse()[i]);
                }
            }
        }
        let k = x.1;
        let mut p: usize = out.len();
        while p > 0 && out[p - 1].1 < k
            invariant
                0 <= p <= out@.len(),
                forall|j: int| p <= j < out@.len() ==> out@[j].1 < k,
            decreases p,
        {
            p -= 1;
        }
        proof {
            lemma_insert_desc_at(out@, x, p as int);
            assert(orig.take(taken + 1).drop_last() =~= orig.take(taken as int));
        }
        out.insert(p, x);
        taken += 1;
    }
    proof {
        assert(orig.take(n as int) =~= orig);
    }
    out
}

/// The stable descending sort orders keys from largest to smallest.
pub proof fn lemma_sort_desc_sorted<T>(s: Seq<(T, u64)>)
    ensures
        sorted_desc(sort_desc(s)),
        sort_desc(s).len() == s.len(),
    decreases s.len(),
{
    if s.len() > 0 {
        lemma_sort_desc_sorted(s.drop_last());
        lemma_insert_desc_sorted(sort_desc(s.drop_last()), s.last());
    }
}

proof fn lemma_insert_desc_sorted<T>(s: Seq<(T, u64)>, x: (T, u64))
    requires
        sorted_desc(s),
    ensures
        sorted_desc(insert_desc(s, x)),
        insert_desc(s, x).len() == s.len() + 1,
        forall|i: int|
            0 <= i < insert_desc(s, x).len() ==> insert_desc(s, x)[i].1 == x.1 || exists|j: int|
                0 <= j < s.len() && s[j].1 == insert_desc(s, x)[i].1,
    decreases s.len(),
{
    if s.len() > 0 && s.last().1 < x.1 {
        let d = s.drop_last();
        lemma_insert_desc_sorted(d, x);
        let r = insert_desc(d, x);
        assert forall|i: int| 0 <= i < r.len() implies r[i].1 >= s.last().1 by {
            if r[i].1 != x.1 {
                let j = choose|j: int| 0 <= j < d.len() && d[j].1 == r[i].1;
                assert(s[j] == d[j]);
            }
        }
        let rr = r.push(s.last());
        assert forall|i: int| 0 <= i < rr.len() implies rr[i].1 == x.1 || exists|j: int|
            0 <= j < s.len() && s[j].1 == rr[i].1 by {
            if i == rr.len() - 1 {
                assert(s[s.len() - 1].1 == rr[i].1);
            } else if r[i].1 != x.1 {
                let j = choose|j: int| 0 <= j < d.len() && d[j].1 == r[i].1;
                assert(s[j] == d[j]);
            }
        }
    } else if s.len() > 0 {
        let rr = s.push(x);
        assert forall|i: int| 0 <= i < rr.len() implies rr[i].1 == x.1 || exists|j: int|
            0 <= j < s.len() && s[j].1 == rr[i].1 by {
            if i < s.len() {
                assert(s[i].1 == rr[i].1);
            }
        }
    }
}

} // verus!

verus! {

/// Sorting commutes with a map that keeps the keys.
pub proof fn lemma_sort_desc_map<T, U>(s: Seq<(T, u64)>, f: spec_fn((T, u64)) -> (U, u64))
    requires
        forall|x: (T, u64)| #[trigger] f(x).1 == x.1,
    ensures
        sort_desc(s).map_values(f) == sort_desc(s.map_values(f)),
    decreases s.len(),
{
    if s.len() > 0 {
        lemma_sort_desc_map(s.drop_last(), f);
        assert(s.map_values(f).drop_last() =~= s.drop_last().map_values(f));
        lemma_insert_desc_map(sort_desc(s.drop_last()), s.last(), f);
    } else {
        assert(sort_desc(s).map_values(f) =~= sort_desc(s.map_values(f)));
    }
}

proof fn lemma_insert_desc_map<T, U>(
    s: Seq<(T, u64)>,
    x: (T, u64),
    f: spec_fn((T, u64)) -> (U, u64),
)
    requires
        forall|x: (T, u64)| #[trigger] f(x).1 == x.1,
    ensures
        insert_desc(s, x).map_values(f) == insert_desc(s.map_values(f), f(x)),
    decreases s.len(),
{
    if s.len() == 0 {
        assert(insert_desc(s, x).map_values(f) =~= seq![f(x)]);
    } else {
        assert(f(s.last()).1 == s.last().1);
        assert(f(x).1 == x.1);
        assert(s.map_values(f).last() == f(s.last()));
        if s.last().1 >= x.1 {
            assert(s.push(x).map_values(f) =~= s.map_values(f).push(f(x)));
        } else {
            lemma_insert_desc_map(s.drop_last(), x, f);
            assert(s.map_values(f).drop_last() =~= s.drop_last().map_values(f));
            assert(insert_desc(s.drop_last(), x).push(s.last()).map_values(f) =~= insert_desc(
                s.drop_last(),
                x,
            ).map_values(f).push(f(s.last())));
        }
    }
}

/// Every element of the sorted sequence is an element of the input.
pub proof fn lemma_sort_desc_elems<T>(s: Seq<(T, u64)>)
    ensures
        forall|i: int| 0 <= i < sort_desc(s).len() ==> s.contains(#[trigger] sort_desc(s)[i]),
    decreases s.len(),
{
    if s.len() > 0 {
        lemma_sort_desc_elems(s.drop_last());
        lemma_sort_desc_sorted(s.drop_last());
        lemma_insert_desc_elems(sort_desc(s.drop_last()), s.last());
        assert forall|i: int| 0 <= i < sort_desc(s).len() implies s.contains(
            #[trigger] sort_desc(s)[i],
        ) by {
            let e = sort_desc(s)[i];
            if e == s.last() {
                assert(s[s.len() - 1] == e);
            } else {
                assert(sort_desc(s.drop_last()).contains(e));
                let k = choose|k: int| 0 <= k < sort_desc(s.drop_last()).len() && sort_desc(
                    s.drop_last(),
                )[k] == e;
                assert(s.drop_last().contains(sort_desc(s.drop_last())[k]));
                let m = choose|m: int| 0 <= m < s.drop_last().len() && s.drop_last()[m] == e;
                assert(s[m] == e);
            }
        }
    }
}

proof fn lemma_insert_desc_elems<T>(s: Seq<(T, u64)>, x: (T, u64))
    ensures
        forall|i: int|
            0 <= i < insert_desc(s, x).len() ==> #[trigger] insert_desc(s, x)[i] == x || s.contains(
                insert_desc(s, x)[i],
            ),
        insert_desc(s, x).len() == s.len() + 1,
    decreases s.len(),
{
    if s.len() > 0 {
        if s.last().1 >= x.1 {
            assert forall|i: int| 0 <= i < s.push(x).len() implies #[trigger] s.push(x)[i] == x
                || s.contains(s.push(x)[i]) by {
                if i < s.len() {
                    assert(s[i] == s.push(x)[i]);
                }
            }
        } else {
            lemma_insert_desc_elems(s.drop_last(), x);
            let r = insert_desc(s.drop_last(), x).push(s.last());
            assert forall|i: int| 0 <= i < r.len() implies #[trigger] r[i] == x || s.contains(
                r[i],
            ) by {
                if i == r.len() - 1 {
                    assert(s[s.len() - 1] == r[i]);
                } else {
                    let e = r[i];
                    if e != x {
                        assert(s.drop_last().contains(e));
                        let m = choose|m: int| 0 <= m < s.drop_last().len() && s.drop_last()[m]
                            == e;
                        assert(s[m] == e);
                    }
                }
            }
        }
    }
}


/// Drops the keys of a list of keyed items, keeping their order.
pub fn strip_keys<T>(v: Vec<(T, u64)>) -> (r: Vec<T>)
    ensures
        r@ == v@.map_values(|p: (T, u64)| p.0),
{
    let ghost orig = v@;
    let mut input = v;
    let mut rev: Vec<T> = Vec::new();
    while input.len() > 0
        invariant
            orig.len() == input@.len() + rev@.len(),
            input@ == orig.take(input@.len() as int),
            forall|j: int| 0 <= j < rev@.len() ==> #[trigger] rev@[j] == orig[orig.len() - 1 - j].0,
        decreases input@.len(),
    {
        let x = input.pop().unwrap();
        proof {
            assert(orig[input@.len() as int] == x);
            assert(input@ =~= orig.take(input@.len() as int));
        }
        rev.push(x.0);
    }
    let mut out: Vec<T> = Vec::new();
    while rev.len() > 0
        invariant
            orig.len() == out@.len() + rev@.len(),
            forall|j: int| 0 <= j < rev@.len() ==> #[trigger] rev@[j] == orig[orig.len() - 1 - j].0,
            forall|j: int| 0 <= j < out@.len() ==> #[trigger] out@[j] == orig[j].0,
        decreases rev@.len(),
    {
        let x = rev.pop().unwrap();
        out.push(x);
    }
    assert(out@ =~= orig.map_values(|p: (T, u64)| p.0));
    out
}


/// The elements in reverse order.
pub fn reversed<T>(v: Vec<T>) -> (r: Vec<T>)
    ensures
        r@.len() == v@.len(),
        forall|j: int| 0 <= j < r@.len() ==> #[trigger] r@[j] == v@[v@.len() - 1 - j],
{
    let ghost orig = v@;
    let mut input = v;
    let mut out: Vec<T> = Vec::new();
    while input.len() > 0
        invariant
            orig.len() == input@.len() + out@.len(),
            input@ == orig.take(input@.len() as int),
            forall|j: int| 0 <= j < out@.len() ==> #[trigger] out@[j] == orig[orig.len() - 1 - j],
        decreases input@.len(),
    {
        let x = input.pop().unwrap();
        proof {
            assert(orig[input@.len() as int] == x);
            assert(input@ =~= orig.take(input@.len() as int));
        }
        out.push(x);
    }
    out
}

} // verus!

verus! {

proof fn lemma_insert_desc_multiset<T>(s: Seq<(T, u64)>, x: (T, u64))
    ensures
        insert_desc(s, x).to_multiset() =~= s.to_multiset().insert(x),
    decreases s.len(),
{
    broadcast use vstd::seq_lib::group_to_multiset_ensures;
    broadcast use vstd::multiset::group_multiset_axioms;

    if s.len() == 0 {
        assert(seq![x] =~= s.push(x));
    } else if s.last().1 >= x.1 {
    } else {
        let d = s.drop_last();
        lemma_insert_desc_multiset(d, x);
        assert(d.push(s.last()) =~= s);
    }
}

/// The stable descending sort only reorders: it keeps every element, as often as it
/// occurs.
pub proof fn lemma_sort_desc_permutes<T>(s: Seq<(T, u64)>)
    ensures
        sort_desc(s).to_multiset() =~= s.to_multiset(),
    decreases s.len(),
{
    broadcast use vstd::seq_lib::group_to_multiset_ensures;

    if s.len() > 0 {
        lemma_sort_desc_permutes(s.drop_last());
        lemma_insert_desc_multiset(sort_desc(s.drop_last()), s.last());
        assert(s.drop_last().push(s.last()) =~= s);
    }
}

} // verus!

