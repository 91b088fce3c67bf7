//! Stable sorting by a strict "comes before" order, as `sort_by` sorts.

use vstd::prelude::*;

verus! {

/// `s`, already sorted, with `b` put after every element it does not come
/// before.
pub open spec fn insert_sorted<T>(s: Seq<T>, b: T, before: spec_fn(T, T) -> bool) -> Seq<T>
    decreases s.len(),
{
    if s.len() == 0 {
        seq![b]
    } else if before(b, s.last()) {
        insert_sorted(s.drop_last(), b, before).push(s.last())
    } else {
        s.push(b)
    }
}

/// The stable sort of `s`: equal elements keep their order.
pub open spec fn stable_sorted<T>(s: Seq<T>, before: spec_fn(T, T) -> bool) -> Seq<T>
    decreases s.len(),
{
    if s.len() == 0 {
        Seq::empty()
    } else {
        insert_sorted(stable_sorted(s.drop_last(), before), s.last(), before)
    }
}

proof fn lemma_insert_sorted_at<T>(s: Seq<T>, b: T, before: spec_fn(T, T) -> bool, j: int)
    requires
        0 <= j <= s.len(),
        forall|k: int| j <= k < s.len() ==> before(b, #[trigger] s[k]),
        j > 0 ==> !before(b, s[j - 1]),
    ensures
        insert_sorted(s, b, before) == s.take(j).push(b) + s.skip(j),
    decreases s.len(),
{
    if s.len() == 0 {
        assert(s.take(j).push(b) + s.skip(j) =~= seq![b]);
    } else if j == s.len() {
        assert(s.take(j).push(b) + s.skip(j) =~= s.push(b));
    } else {
        let t = s.drop_last();
        assert(before(b, s[s.len() - 1]));
        assert forall|k: int| j <= k < t.len() implies before(b, #[trigger] t[k]) by {
            assert(t[k] == s[k]);
        }
        if j > 0 {
            assert(t[j - 1] == s[j - 1]);
        }
        lemma_insert_sorted_at(t, b, before, j);
        assert(insert_sorted(t, b, before).push(s.last()) =~= s.take(j).push(b) + s.skip(j));
    }
}

/// Sorts `v` stably by `comes_before`, which computes `before`.
pub fn stable_sort<T, F: Fn(&T, &T) -> bool>(v: Vec<T>, comes_before: F, Ghost(before): Ghost<spec_fn(T, T) -> bool>) -> (r: Vec<T>)
    requires
        forall|a: &T, b: &T| #[trigger] comes_before.requires((a, b)),
        forall|a: &T, b: &T, x: bool| #[trigger] comes_before.ensures((a, b), x) ==> x == before(*a, *b),
    ensures
        r@ == stable_sorted(v@, before),
{
    let ghost input = v@;
    let mut rest = v;
    let total = rest.len();
    let mut out: Vec<T> = Vec::new();
    let mut n: usize = 0;
    proof {
        assert(input.take(0) =~= Seq::<T>::empty());
        assert(rest@ =~= input.skip(0));
    }
    while rest.len() > 0
        invariant
            n + rest@.len() == input.len(),
            input.len() == total,
            rest@ == input.skip(n as int),
            out@ == stable_sorted(input.take(n as int), before),
            forall|a: &T, b: &T| #[trigger] comes_before.requires((a, b)),
            forall|a: &T, b: &T, x: bool| #[trigger] comes_before.ensures((a, b), x) ==> x == before(*a, *b),
        decreases rest.len(),
    {
        let b = rest.remove(0);
        proof {
            assert(b == input[n as int]);
            assert(rest@ =~= input.skip(n + 1));
            assert(input.take(n + 1).drop_last() =~= input.take(n as int));
            assert(input.take(n + 1).last() == b);
        }
        let ghost s = out@;
        let mut j: usize = out.len();
        while j > 0
            invariant
                j <= out.len(),
                s == out@,
                forall|k: int| j <= k < s.len() ==> before(b, #[trigger] s[k]),
                forall|a: &T, c: &T| #[trigger] comes_before.requires((a, c)),
                forall|a: &T, c: &T, x: bool| #[trigger] comes_before.ensures((a, c), x) ==> x == before(*a, *c),
            ensures
                j <= out.len(),
                s == out@,
                forall|k: int| j <= k < s.len() ==> before(b, #[trigger] s[k]),
                j > 0 ==> !before(b, s[j - 1]),
            decreases j,
        {
            if !comes_before(&b, &out[j - 1]) {
                break;
            }
            j = j - 1;
        }
        proof {
            lemma_insert_sorted_at(s, b, before, j as int);
        }
        out.insert(j, b);
        proof {
            assert(out@ =~= s.take(j as int).push(b) + s.skip(j as int));
        }
        n = n + 1;
    }
    proof {
        assert(input.take(n as int) =~= input);
    }
    out
}

/// Sorting commutes with a map that keeps the order.
pub proof fn lemma_stable_sorted_map<T, U>(
    s: Seq<T>,
    f: spec_fn(T) -> U,
    before: spec_fn(T, T) -> bool,
    before_u: spec_fn(U, U) -> bool,
)
    requires
        forall|a: T, b: T| #[trigger] before(a, b) == before_u(f(a), f(b)),
    ensures
        stable_sorted(s, before).map_values(f) == stable_sorted(s.map_values(f), before_u),
    decreases s.len(),
{
    if s.len() > 0 {
        lemma_stable_sorted_map(s.drop_last(), f, before, before_u);
        assert(s.map_values(f).drop_last() =~= s.drop_last().map_values(f));
        lemma_insert_sorted_map(stable_sorted(s.drop_last(), before), s.last(), f, before, before_u);
    } else {
        assert(s.map_values(f) =~= Seq::<U>::empty());
        assert(stable_sorted(s, before).map_values(f) =~= Seq::<U>::empty());
    }
}

proof fn lemma_insert_sorted_map<T, U>(
    s: Seq<T>,
    b: T,
    f: spec_fn(T) -> U,
    before: spec_fn(T, T) -> bool,
    before_u: spec_fn(U, U) -> bool,
)
    requires
        forall|a: T, c: T| #[trigger] before(a, c) == before_u(f(a), f(c)),
    ensures
        insert_sorted(s, b, before).map_values(f) == insert_sorted(s.map_values(f), f(b), before_u),
    decreases s.len(),
{
    if s.len() == 0 {
        assert(insert_sorted(s, b, before).map_values(f) =~= seq![f(b)]);
    } else {
        assert(before(b, s.last()) == before_u(f(b), f(s.last())));
        assert(s.map_values(f).last() == f(s.last()));
        assert(s.map_values(f).drop_last() =~= s.drop_last().map_values(f));
        if before(b, s.last()) {
            lemma_insert_sorted_map(s.drop_last(), b, f, before, before_u);
            assert(insert_sorted(s, b, before).map_values(f) =~= insert_sorted(s.drop_last(), b, before).map_values(
                f,
            ).push(f(s.last())));
        } else {
            assert(insert_sorted(s, b, before).map_values(f) =~= s.map_values(f).push(f(b)));
        }
    }
}

proof fn lemma_insert_sorted_multiset<T>(s: Seq<T>, b: T, before: spec_fn(T, T) -> bool)
    ensures
        insert_sorted(s, b, before).to_multiset() =~= s.to_multiset().insert(b),
    decreases s.len(),
{
    broadcast use vstd::multiset::group_multiset_axioms;

    if s.len() == 0 {
        vstd::seq_lib::to_multiset_build(s, b);
        assert(seq![b] =~= s.push(b));
    } else if before(b, s.last()) {
        let dl = s.drop_last();
        lemma_insert_sorted_multiset(dl, b, before);
        vstd::seq_lib::to_multiset_build(insert_sorted(dl, b, before), s.last());
        vstd::seq_lib::to_multiset_build(dl, s.last());
        assert(dl.push(s.last()) =~= s);
    } else {
        vstd::seq_lib::to_multiset_build(s, b);
    }
}

/// Sorting only reorders: the sorted list holds the same elements, as
/// often.
pub proof fn lemma_stable_sorted_permutes<T>(s: Seq<T>, before: spec_fn(T, T) -> bool)
    ensures
        stable_sorted(s, before).to_multiset() =~= s.to_multiset(),
    decreases s.len(),
{
    broadcast use vstd::multiset::group_multiset_axioms;

    if s.len() > 0 {
        let dl = s.drop_last();
        lemma_stable_sorted_permutes(dl, before);
        lemma_insert_sorted_multiset(stable_sorted(dl, before), s.last(), before);
        vstd::seq_lib::to_multiset_build(dl, s.last());
        assert(dl.push(s.last()) =~= s);
    } else {
        assert(stable_sorted(s, before) =~= s);
    }
}

/// No element of `s` comes before an earlier one.
pub open spec fn in_order<T>(s: Seq<T>, before: spec_fn(T, T) -> bool) -> bool {
    forall|i: int, j: int| 0 <= i < j < s.len() ==> !before(#[trigger] s[j], #[trigger] s[i])
}

/// `before` is a strict weak order: asymmetric, and when `a` comes before
/// `c`, any `b` comes after `a` or before `c`.
pub open spec fn strict_weak_order<T>(before: spec_fn(T, T) -> bool) -> bool {
    &&& forall|a: T, b: T| #[trigger] before(a, b) ==> !before(b, a)
    &&& forall|a: T, b: T, c: T| #![trigger before(a, b), before(b, c)] #![trigger before(a, c), before(a, b)]
        #![trigger before(a, c), before(b, c)] before(a, c) ==> before(a, b) || before(b, c)
}

proof fn lemma_insert_sorted_in_order<T>(s: Seq<T>, b: T, before: spec_fn(T, T) -> bool)
    requires
        strict_weak_order(before),
        in_order(s, before),
    ensures
        in_order(insert_sorted(s, b, before), before),
        insert_sorted(s, b, before).len() == s.len() + 1,
        forall|k: int|
            0 <= k < s.len() + 1 ==> #[trigger] insert_sorted(s, b, before)[k] == b || exists|m: int|
                0 <= m < s.len() && insert_sorted(s, b, before)[k] == s[m],
    decreases s.len(),
{
    let t = insert_sorted(s, b, before);
    if s.len() == 0 {
        assert(t =~= seq![b]);
    } else if before(b, s.last()) {
        let dl = s.drop_last();
        assert forall|i: int, j: int| 0 <= i < j < dl.len() implies !before(#[trigger] dl[j], #[trigger] dl[i]) by {
            assert(dl[i] == s[i] && dl[j] == s[j]);
        }
        lemma_insert_sorted_in_order(dl, b, before);
        let u = insert_sorted(dl, b, before);
        assert(t == u.push(s.last()));
        let x = s.last();
        assert forall|i: int, j: int| 0 <= i < j < t.len() implies !before(#[trigger] t[j], #[trigger] t[i]) by {
            if j == t.len() - 1 {
                assert(t[j] == x);
                assert(t[i] == u[i]);
                if u[i] == b {
                    assert(!before(x, b));
                } else {
                    let m = choose|m: int| 0 <= m < dl.len() && u[i] == dl[m];
                    assert(s[m] == dl[m]);
                    assert(s[s.len() - 1] == x);
                }
            } else {
                assert(t[i] == u[i] && t[j] == u[j]);
            }
        }
        assert forall|k: int| 0 <= k < s.len() + 1 implies #[trigger] t[k] == b || exists|m: int|
            0 <= m < s.len() && t[k] == s[m] by {
            if k == s.len() {
                assert(t[k] == s[s.len() - 1]);
            } else {
                assert(t[k] == u[k]);
                if u[k] != b {
                    let m = choose|m: int| 0 <= m < dl.len() && u[k] == dl[m];
                    assert(s[m] == dl[m]);
                }
            }
        }
    } else {
        assert(t == s.push(b));
        let x = s.last();
        assert forall|i: int, j: int| 0 <= i < j < t.len() implies !before(#[trigger] t[j], #[trigger] t[i]) by {
            if j == t.len() - 1 {
                assert(t[j] == b);
                assert(t[i] == s[i]);
                if i < s.len() - 1 {
                    assert(s[s.len() - 1] == x);
                    assert(!before(x, s[i]));
                    if before(b, s[i]) {
                        assert(before(b, x) || before(x, s[i]));
                    }
                }
            } else {
                assert(t[i] == s[i] && t[j] == s[j]);
            }
        }
        assert forall|k: int| 0 <= k < s.len() + 1 implies #[trigger] t[k] == b || exists|m: int|
            0 <= m < s.len() && t[k] == s[m] by {
            if k < s.len() {
                assert(t[k] == s[k]);
            }
        }
    }
}

/// The stable sort by a strict weak order is in order: no element comes
/// before an earlier one.
pub proof fn lemma_stable_sorted_in_order<T>(s: Seq<T>, before: spec_fn(T, T) -> bool)
    requires
        strict_weak_order(before),
    ensures
        in_order(stable_sorted(s, before), before),
        stable_sorted(s, before).len() == s.len(),
    decreases s.len(),
{
    if s.len() > 0 {
        lemma_stable_sorted_in_order(s.drop_last(), before);
        lemma_insert_sorted_in_order(stable_sorted(s.drop_last(), before), s.last(), before);
    }
}

} // verus!
