//! Maps keyed by strings and kept in key order, as `BTreeMap<String, V>`
//! keeps them.

use vstd::prelude::*;

use crate::text::{chars_of, chars_eq};

verus! {

/// Lexicographic order on character sequences by code point; this is the
/// order `String`'s `Ord` gives, since UTF-8 preserves code point order.
pub open spec fn seq_lt(a: Seq<char>, b: Seq<char>) -> bool
    decreases a.len(),
{
    if a.len() == 0 {
        b.len() > 0
    } else if b.len() == 0 {
        false
    } else if a[0] != b[0] {
        a[0] < b[0]
    } else {
        seq_lt(a.drop_first(), b.drop_first())
    }
}

proof fn lemma_seq_lt_common_prefix(a: Seq<char>, b: Seq<char>, i: int)
    requires
        0 <= i <= a.len(),
        i <= b.len(),
        forall|j: int| 0 <= j < i ==> a[j] == b[j],
    ensures
        seq_lt(a, b) == seq_lt(a.skip(i), b.skip(i)),
    decreases i,
{
    if i > 0 {
        assert(a[0] == b[0]);
        lemma_seq_lt_common_prefix(a.drop_first(), b.drop_first(), i - 1);
        assert(a.drop_first().skip(i - 1) =~= a.skip(i));
        assert(b.drop_first().skip(i - 1) =~= b.skip(i));
    } else {
        assert(a.skip(0) =~= a);
        assert(b.skip(0) =~= b);
    }
}

/// Whether `a` comes strictly before `b` in key order.
pub fn chars_lt(a: &Vec<char>, b: &Vec<char>) -> (r: bool)
    ensures
        r == seq_lt(a@, b@),
{
    let mut i: usize = 0;
    while i < a.len() && i < b.len() && a[i] == b[i]
        invariant
            i <= a.len(),
            i <= b.len(),
            forall|j: int| 0 <= j < i ==> a@[j] == b@[j],
        decreases a.len() - i,
    {
        i = i + 1;
    }
    proof {
        lemma_seq_lt_common_prefix(a@, b@, i as int);
        let sa = a@.skip(i as int);
        let sb = b@.skip(i as int);
        if sa.len() > 0 && sb.len() > 0 {
            assert(sa[0] == a@[i as int]);
            assert(sb[0] == b@[i as int]);
        }
    }
    if i == a.len() {
        i < b.len()
    } else if i == b.len() {
        false
    } else {
        a[i] < b[i]
    }
}

proof fn lemma_seq_lt_irreflexive(a: Seq<char>)
    ensures
        !seq_lt(a, a),
    decreases a.len(),
{
    if a.len() > 0 {
        lemma_seq_lt_irreflexive(a.drop_first());
    }
}

/// Key order is a strict total order: one of `a < b`, `a == b`, `b < a`.
pub proof fn lemma_seq_lt_trichotomy(a: Seq<char>, b: Seq<char>)
    ensures
        seq_lt(a, b) || a == b || seq_lt(b, a),
        !(seq_lt(a, b) && seq_lt(b, a)),
        seq_lt(a, b) ==> a != b,
    decreases a.len(),
{
    if a.len() > 0 && b.len() > 0 && a[0] == b[0] {
        lemma_seq_lt_trichotomy(a.drop_first(), b.drop_first());
        if a.drop_first() == b.drop_first() {
            assert forall|j: int| 0 <= j < a.len() implies a[j] == b[j] by {
                if j > 0 {
                    assert(a[j] == a.drop_first()[j - 1]);
                    assert(b[j] == b.drop_first()[j - 1]);
                }
            }
            assert(a =~= b);
        }
    } else if a.len() == 0 && b.len() == 0 {
        assert(a =~= b);
    }
    if seq_lt(a, b) {
        if a == b {
            lemma_seq_lt_irreflexive(a);
        }
    }
}

/// Key order is transitive.
pub proof fn lemma_seq_lt_transitive(a: Seq<char>, b: Seq<char>, c: Seq<char>)
    requires
        seq_lt(a, b),
        seq_lt(b, c),
    ensures
        seq_lt(a, c),
    decreases a.len(),
{
    if a.len() > 0 && b.len() > 0 && c.len() > 0 && a[0] == b[0] && b[0] == c[0] {
        lemma_seq_lt_transitive(a.drop_first(), b.drop_first(), c.drop_first());
    }
}

/// An entry list by the characters of its keys and the views of its values.
pub open spec fn entry_views<V: View>(s: Seq<(String, V)>) -> Seq<(Seq<char>, V::V)> {
    s.map_values(|e: (String, V)| (e.0@, e.1@))
}

/// Keys strictly increasing: sorted and without repeats.
pub open spec fn strictly_sorted<W>(s: Seq<(Seq<char>, W)>) -> bool {
    forall|i: int, j: int| 0 <= i < j < s.len() ==> seq_lt(#[trigger] s[i].0, #[trigger] s[j].0)
}

/// The entry list after setting `k` to `v`: an entry with key `k` is
/// replaced in place, otherwise the new entry goes before the first larger
/// key, as `BTreeMap::insert` orders it.
pub open spec fn sorted_insert<W>(s: Seq<(Seq<char>, W)>, k: Seq<char>, v: W) -> Seq<(Seq<char>, W)>
    decreases s.len(),
{
    if s.len() == 0 {
        seq![(k, v)]
    } else if s[0].0 == k {
        seq![(k, v)].add(s.drop_first())
    } else if seq_lt(k, s[0].0) {
        seq![(k, v)].add(s)
    } else {
        seq![s[0]].add(sorted_insert(s.drop_first(), k, v))
    }
}

/// Builds the map of the entries in turn, a later entry replacing an earlier
/// one with the same key, as collecting into a `BTreeMap` does.
pub open spec fn sorted_from<W>(s: Seq<(Seq<char>, W)>) -> Seq<(Seq<char>, W)>
    decreases s.len(),
{
    if s.len() == 0 {
        Seq::empty()
    } else {
        sorted_insert(sorted_from(s.drop_last()), s.last().0, s.last().1)
    }
}

proof fn lemma_sorted_insert_split<W>(s: Seq<(Seq<char>, W)>, k: Seq<char>, v: W, i: int)
    requires
        0 <= i <= s.len(),
        forall|j: int| 0 <= j < i ==> seq_lt(#[trigger] s[j].0, k),
    ensures
        sorted_insert(s, k, v) == s.take(i).add(sorted_insert(s.skip(i), k, v)),
    decreases i,
{
    if i > 0 {
        let t = s.drop_first();
        assert(seq_lt(s[0].0, k));
        lemma_seq_lt_trichotomy(s[0].0, k);
        assert forall|j: int| 0 <= j < i - 1 implies seq_lt(#[trigger] t[j].0, k) by {
            assert(t[j] == s[j + 1]);
        }
        lemma_sorted_insert_split(t, k, v, i - 1);
        assert(t.skip(i - 1) =~= s.skip(i));
        assert(s.take(i) =~= seq![s[0]].add(t.take(i - 1)));
        assert(seq![s[0]].add(t.take(i - 1).add(sorted_insert(s.skip(i), k, v))) =~= s.take(i).add(
            sorted_insert(s.skip(i), k, v),
        ));
    } else {
        assert(s.take(0).add(sorted_insert(s.skip(0), k, v)) =~= sorted_insert(s, k, v)) by {
            assert(s.skip(0) =~= s);
        }
    }
}

/// Inserting into a strictly sorted list keeps it strictly sorted, and adds
/// no key but `k`.
pub proof fn lemma_sorted_insert_sorted<W>(s: Seq<(Seq<char>, W)>, k: Seq<char>, v: W)
    requires
        strictly_sorted(s),
    ensures
        strictly_sorted(sorted_insert(s, k, v)),
        forall|j: int|
            0 <= j < sorted_insert(s, k, v).len() ==> (#[trigger] sorted_insert(s, k, v)[j]).0 == k
                || exists|m: int| 0 <= m < s.len() && s[m].0 == sorted_insert(s, k, v)[j].0,
    decreases s.len(),
{
    let r = sorted_insert(s, k, v);
    if s.len() == 0 {
    } else if s[0].0 == k {
        assert forall|i: int, j: int| 0 <= i < j < r.len() implies seq_lt(
            #[trigger] r[i].0,
            #[trigger] r[j].0,
        ) by {
            if i == 0 {
                assert(r[j] == s[j]);
                assert(seq_lt(s[0].0, s[j].0));
            } else {
                assert(r[i] == s[i]);
                assert(r[j] == s[j]);
            }
        }
        assert forall|j: int| 0 <= j < r.len() implies (#[trigger] r[j]).0 == k || exists|m: int|
            0 <= m < s.len() && s[m].0 == r[j].0 by {
            if j > 0 {
                assert(r[j] == s[j]);
            }
        }
    } else if seq_lt(k, s[0].0) {
        assert forall|i: int, j: int| 0 <= i < j < r.len() implies seq_lt(
            #[trigger] r[i].0,
            #[trigger] r[j].0,
        ) by {
            if i == 0 {
                assert(r[j] == s[j - 1]);
                if j - 1 > 0 {
                    assert(seq_lt(s[0].0, s[j - 1].0));
                    lemma_seq_lt_transitive(k, s[0].0, s[j - 1].0);
                }
            } else {
                assert(r[i] == s[i - 1]);
                assert(r[j] == s[j - 1]);
            }
        }
        assert forall|j: int| 0 <= j < r.len() implies (#[trigger] r[j]).0 == k || exists|m: int|
            0 <= m < s.len() && s[m].0 == r[j].0 by {
            if j > 0 {
                assert(r[j] == s[j - 1]);
            }
        }
    } else {
        let t = s.drop_first();
        assert forall|i: int, j: int| 0 <= i < j < t.len() implies seq_lt(
            #[trigger] t[i].0,
            #[trigger] t[j].0,
        ) by {
            assert(t[i] == s[i + 1]);
            assert(t[j] == s[j + 1]);
        }
        lemma_sorted_insert_sorted(t, k, v);
        let rt = sorted_insert(t, k, v);
        lemma_seq_lt_trichotomy(k, s[0].0);
        assert forall|i: int, j: int| 0 <= i < j < r.len() implies seq_lt(
            #[trigger] r[i].0,
            #[trigger] r[j].0,
        ) by {
            if i == 0 {
                assert(r[j] == rt[j - 1]);
                if rt[j - 1].0 == k {
                } else {
                    let m = choose|m: int| 0 <= m < t.len() && t[m].0 == rt[j - 1].0;
                    assert(t[m] == s[m + 1]);
                }
            } else {
                assert(r[i] == rt[i - 1]);
                assert(r[j] == rt[j - 1]);
            }
        }
        assert forall|j: int| 0 <= j < r.len() implies (#[trigger] r[j]).0 == k || exists|m: int|
            0 <= m < s.len() && s[m].0 == r[j].0 by {
            if j > 0 {
                assert(r[j] == rt[j - 1]);
                if rt[j - 1].0 != k {
                    let m = choose|m: int| 0 <= m < t.len() && t[m].0 == rt[j - 1].0;
                    assert(t[m] == s[m + 1]);
                }
            } else {
                assert(r[0] == s[0]);
            }
        }
    }
}

/// Where `sorted_insert` puts its entry: at the position `i` of the first
/// key not below `k`, in place of the entry there when that key is `k`.
pub proof fn lemma_sorted_insert_position<W>(s: Seq<(Seq<char>, W)>, k: Seq<char>, v: W) -> (i: int)
    ensures
        0 <= i <= s.len(),
        forall|j: int| 0 <= j < i ==> seq_lt(#[trigger] s[j].0, k),
        i < s.len() && s[i].0 == k ==> sorted_insert(s, k, v) == s.take(i).push((k, v)) + s.skip(i + 1),
        !(i < s.len() && s[i].0 == k) ==> sorted_insert(s, k, v) == s.take(i).push((k, v)) + s.skip(i),
        i < s.len() && s[i].0 != k ==> seq_lt(k, s[i].0),
    decreases s.len(),
{
    if s.len() == 0 {
        assert(sorted_insert(s, k, v) =~= s.take(0).push((k, v)) + s.skip(0));
        0
    } else if s[0].0 == k {
        assert(sorted_insert(s, k, v) =~= s.take(0).push((k, v)) + s.skip(1));
        0
    } else if seq_lt(k, s[0].0) {
        assert(sorted_insert(s, k, v) =~= s.take(0).push((k, v)) + s.skip(0));
        0
    } else {
        let t = s.drop_first();
        let i2 = lemma_sorted_insert_position(t, k, v);
        lemma_seq_lt_trichotomy(k, s[0].0);
        let i = i2 + 1;
        assert forall|j: int| 0 <= j < i implies seq_lt(#[trigger] s[j].0, k) by {
            if j > 0 {
                assert(s[j] == t[j - 1]);
            }
        }
        if i2 < t.len() && t[i2].0 == k {
            assert(sorted_insert(s, k, v) =~= s.take(i).push((k, v)) + s.skip(i + 1));
        } else {
            assert(sorted_insert(s, k, v) =~= s.take(i).push((k, v)) + s.skip(i));
        }
        i
    }
}

/// `sorted_from` gives a strictly sorted list.
pub proof fn lemma_sorted_from_sorted<W>(s: Seq<(Seq<char>, W)>)
    ensures
        strictly_sorted(sorted_from(s)),
    decreases s.len(),
{
    if s.len() > 0 {
        lemma_sorted_from_sorted(s.drop_last());
        lemma_sorted_insert_sorted(sorted_from(s.drop_last()), s.last().0, s.last().1);
    }
}

proof fn lemma_sorted_insert_largest<W>(s: Seq<(Seq<char>, W)>, k: Seq<char>, v: W)
    requires
        forall|i: int| 0 <= i < s.len() ==> seq_lt(#[trigger] s[i].0, k),
    ensures
        sorted_insert(s, k, v) == s.push((k, v)),
    decreases s.len(),
{
    if s.len() > 0 {
        lemma_seq_lt_trichotomy(s[0].0, k);
        let t = s.drop_first();
        assert forall|i: int| 0 <= i < t.len() implies seq_lt(#[trigger] t[i].0, k) by {
            assert(t[i] == s[i + 1]);
        }
        lemma_sorted_insert_largest(t, k, v);
        assert(seq![s[0]].add(t.push((k, v))) =~= s.push((k, v)));
    }
}

/// A list already in strict key order is what `sorted_from` builds of it.
pub proof fn lemma_sorted_from_unchanged<W>(s: Seq<(Seq<char>, W)>)
    requires
        strictly_sorted(s),
    ensures
        sorted_from(s) == s,
    decreases s.len(),
{
    if s.len() > 0 {
        let t = s.drop_last();
        assert forall|i: int, j: int| 0 <= i < j < t.len() implies seq_lt(#[trigger] t[i].0, #[trigger] t[j].0) by {
            assert(t[i] == s[i] && t[j] == s[j]);
        }
        lemma_sorted_from_unchanged(t);
        assert forall|i: int| 0 <= i < t.len() implies seq_lt(#[trigger] t[i].0, s.last().0) by {
            assert(t[i] == s[i]);
        }
        lemma_sorted_insert_largest(t, s.last().0, s.last().1);
        assert(t.push((s.last().0, s.last().1)) =~= s);
    }
}

/// Sets `k` to `v` in a key-ordered entry list.
pub fn ordered_insert<V: View>(entries: &mut Vec<(String, V)>, k: String, v: V)
    ensures
        entry_views(final(entries)@) == sorted_insert(entry_views(old(entries)@), k@, v@),
{
    let ghost ov = entry_views(entries@);
    let kc = chars_of(k.as_str());
    let mut i: usize = 0;
    let mut found = false;
    let mut before = false;
    while i < entries.len()
        invariant_except_break
            !found,
            !before,
        invariant
            i <= entries.len(),
            kc@ == k@,
            ov == entry_views(entries@),
            forall|j: int| 0 <= j < i ==> seq_lt(#[trigger] ov[j].0, k@),
        ensures
            found ==> i < entries.len() && ov[i as int].0 == k@,
            before ==> i < entries.len() && seq_lt(k@, ov[i as int].0),
            !(found && before),
            !found && !before ==> i == entries.len(),
            forall|j: int| 0 <= j < i ==> seq_lt(#[trigger] ov[j].0, k@),
        decreases entries.len() - i,
    {
        let ec = chars_of(entries[i].0.as_str());
        proof {
            assert(ov[i as int].0 == entries@[i as int].0@);
        }
        if chars_eq(&ec, &kc) {
            found = true;
            break;
        }
        if chars_lt(&kc, &ec) {
            before = true;
            break;
        }
        proof {
            lemma_seq_lt_trichotomy(k@, ov[i as int].0);
        }
        i = i + 1;
    }
    proof {
        lemma_sorted_insert_split(ov, k@, v@, i as int);
    }
    let ghost old_entries = entries@;
    if found {
        entries.set(i, (k, v));
        proof {
            let rest = ov.skip(i as int);
            assert(rest[0] == ov[i as int]);
            assert(entry_views(entries@) =~= ov.take(i as int).add(seq![(k@, v@)].add(rest.drop_first())));
        }
    } else if before {
        entries.insert(i, (k, v));
        proof {
            let rest = ov.skip(i as int);
            assert(rest[0] == ov[i as int]);
            lemma_seq_lt_trichotomy(k@, rest[0].0);
            assert(entry_views(entries@) =~= ov.take(i as int).add(seq![(k@, v@)].add(rest)));
        }
    } else {
        entries.push((k, v));
        proof {
            assert(ov.skip(i as int) =~= Seq::<(Seq<char>, V::V)>::empty());
            assert(entry_views(entries@) =~= ov.take(i as int).add(seq![(k@, v@)]));
        }
    }
}

} // verus!
