//! Ordering of text keys and a stable sort by such keys.

use vstd::prelude::*;

verus! {

/// Lexicographic order of character sequences by code point, which is the order
/// of `String`'s `Ord` (UTF-8 byte order agrees with code point order).
pub open spec fn key_lt(a: Seq<char>, b: Seq<char>) -> bool
    decreases a.len(),
{
    if a.len() == 0 {
        b.len() > 0
    } else if b.len() == 0 {
        false
    } else if a[0] != b[0] {
        (a[0] as u32) < (b[0] as u32)
    } else {
        key_lt(a.drop_first(), b.drop_first())
    }
}

/// `key_lt` compares what follows a common prefix.
proof fn lemma_key_lt_skip(a: Seq<char>, b: Seq<char>, i: int)
    requires
        0 <= i <= a.len(),
        i <= b.len(),
        a.take(i) == b.take(i),
    ensures
        key_lt(a, b) == key_lt(a.skip(i), b.skip(i)),
    decreases i,
{
    if i > 0 {
        assert(a[0] == a.take(i)[0]);
        assert(b[0] == b.take(i)[0]);
        assert(a.drop_first().take(i - 1) =~= a.take(i).drop_first());
        assert(b.drop_first().take(i - 1) =~= b.take(i).drop_first());
        lemma_key_lt_skip(a.drop_first(), b.drop_first(), i - 1);
        assert(a.drop_first().skip(i - 1) =~= a.skip(i));
        assert(b.drop_first().skip(i - 1) =~= b.skip(i));
    } else {
        assert(a.skip(0) =~= a);
        assert(b.skip(0) =~= b);
    }
}

/// Whether `a` comes strictly before `b`.
pub fn chars_less(a: &Vec<char>, b: &Vec<char>) -> (r: bool)
    ensures
        r == key_lt(a@, b@),
{
    let mut i: usize = 0;
    while i < a.len() && i < b.len()
        invariant
            i <= a.len(),
            i <= b.len(),
            a@.take(i as int) == b@.take(i as int),
        decreases a.len() - i,
    {
        if a[i] != b[i] {
            proof {
                lemma_key_lt_skip(a@, b@, i as int);
                assert(a@.skip(i as int)[0] == a@[i as int]);
                assert(b@.skip(i as int)[0] == b@[i as int]);
            }
            let x: u32 = a[i] as u32;
            let y: u32 = b[i] as u32;
            return x < y;
        }
        assert(a@.take(i + 1) =~= a@.take(i as int).push(a@[i as int]));
        assert(b@.take(i + 1) =~= b@.take(i as int).push(b@[i as int]));
        i = i + 1;
    }
    proof {
        lemma_key_lt_skip(a@, b@, i as int);
    }
    i == a.len() && i < b.len()
}

/// Places `x` before the first element whose key is not smaller than its own.
pub open spec fn insert_ordered<T>(s: Seq<(Seq<char>, T)>, x: (Seq<char>, T)) -> Seq<(Seq<char>, T)>
    decreases s.len(),
{
    if s.len() == 0 {
        seq![x]
    } else if !key_lt(s[0].0, x.0) {
        seq![x] + s
    } else {
        seq![s[0]] + insert_ordered(s.drop_first(), x)
    }
}

/// Stable sort by key: elements with equal keys keep their relative order.
pub open spec fn sort_by_key<T>(s: Seq<(Seq<char>, T)>) -> Seq<(Seq<char>, T)>
    decreases s.len(),
{
    if s.len() == 0 {
        s
    } else {
        insert_ordered(sort_by_key(s.drop_first()), s[0])
    }
}

/// The keys of a keyed vector as character sequences.
pub open spec fn keyed_view<T>(s: Seq<(Vec<char>, T)>) -> Seq<(Seq<char>, T)> {
    s.map_values(|e: (Vec<char>, T)| (e.0@, e.1))
}

proof fn lemma_insert_at<T>(s: Seq<(Seq<char>, T)>, x: (Seq<char>, T), k: int)
    requires
        0 <= k <= s.len(),
        forall|j: int| 0 <= j < k ==> key_lt(#[trigger] s[j].0, x.0),
        k < s.len() ==> !key_lt(s[k].0, x.0),
    ensures
        insert_ordered(s, x) == s.insert(k, x),
    decreases k,
{
    if k == 0 {
        assert(s.insert(0, x) =~= seq![x] + s);
    } else {
        assert(key_lt(s[0].0, x.0));
        let t = s.drop_first();
        assert forall|j: int| 0 <= j < k - 1 implies key_lt(#[trigger] t[j].0, x.0) by {
            assert(t[j] == s[j + 1]);
        }
        lemma_insert_at(t, x, k - 1);
        assert(s.insert(k, x) =~= seq![s[0]] + t.insert(k - 1, x));
    }
}

/// Relabelling the elements (keeping keys) commutes with insertion.
proof fn lemma_insert_map<T, U>(s: Seq<(Seq<char>, T)>, x: (Seq<char>, T), f: spec_fn(T) -> U)
    ensures
        insert_ordered(s, x).map_values(|e: (Seq<char>, T)| (e.0, f(e.1))) == insert_ordered(
            s.map_values(|e: (Seq<char>, T)| (e.0, f(e.1))),
            (x.0, f(x.1)),
        ),
    decreases s.len(),
{
    let g = |e: (Seq<char>, T)| (e.0, f(e.1));
    if s.len() == 0 {
        assert(seq![x].map_values(g) =~= seq![(x.0, f(x.1))]);
    } else if !key_lt(s[0].0, x.0) {
        assert((seq![x] + s).map_values(g) =~= seq![(x.0, f(x.1))] + s.map_values(g));
    } else {
        lemma_insert_map(s.drop_first(), x, f);
        assert(s.map_values(g).drop_first() =~= s.drop_first().map_values(g));
        assert((seq![s[0]] + insert_ordered(s.drop_first(), x)).map_values(g) =~= seq![g(s[0])]
            + insert_ordered(s.drop_first(), x).map_values(g));
    }
}

/// Relabelling the elements (keeping keys) commutes with sorting.
pub proof fn lemma_sort_map<T, U>(s: Seq<(Seq<char>, T)>, f: spec_fn(T) -> U)
    ensures
        sort_by_key(s).map_values(|e: (Seq<char>, T)| (e.0, f(e.1))) == sort_by_key(
            s.map_values(|e: (Seq<char>, T)| (e.0, f(e.1))),
        ),
    decreases s.len(),
{
    let g = |e: (Seq<char>, T)| (e.0, f(e.1));
    if s.len() == 0 {
        assert(s.map_values(g) =~= Seq::<(Seq<char>, U)>::empty());
    } else {
        lemma_sort_map(s.drop_first(), f);
        lemma_insert_map(sort_by_key(s.drop_first()), s[0], f);
        assert(s.map_values(g).drop_first() =~= s.drop_first().map_values(g));
    }
}

/// Stable sort of keyed elements by their keys.
pub fn sort_keyed<T>(items: Vec<(Vec<char>, T)>) -> (sorted: Vec<(Vec<char>, T)>)
    ensures
        keyed_view(sorted@) == sort_by_key(keyed_view(items@)),
        sorted.len() == items.len(),
{
    let ghost all = keyed_view(items@);
    let mut rest = items;
    let mut sorted: Vec<(Vec<char>, T)> = Vec::new();
    assert(all.skip(all.len() as int) =~= Seq::<(Seq<char>, T)>::empty());
    while rest.len() > 0
        invariant
            rest.len() <= all.len(),
            keyed_view(rest@) == all.take(rest.len() as int),
            keyed_view(sorted@) == sort_by_key(all.skip(rest.len() as int)),
            sorted.len() + rest.len() == all.len(),
            all.len() == items@.len(),
        decreases rest.len(),
    {
        let ghost before = rest.len();
        let ghost old_rest = rest@;
        let x = rest.pop().unwrap();
        let ghost xv = (x.0@, x.1);
        assert(old_rest =~= rest@.push(x));
        assert(keyed_view(rest@) =~= all.take(rest.len() as int)) by {
            assert(keyed_view(rest@) =~= keyed_view(old_rest).drop_last());
        }
        assert(xv == all[rest.len() as int]) by {
            assert(keyed_view(old_rest)[rest.len() as int] == xv);
            assert(all.take(before as int)[rest.len() as int] == all[rest.len() as int]);
        }
        let mut k: usize = 0;
        while k < sorted.len() && chars_less(&sorted[k].0, &x.0)
            invariant
                k <= sorted.len(),
                forall|j: int| 0 <= j < k ==> key_lt(#[trigger] keyed_view(sorted@)[j].0, xv.0),
                xv.0 == x.0@,
            decreases sorted.len() - k,
        {
            k = k + 1;
        }
        let ghost old_sorted = keyed_view(sorted@);
        proof {
            lemma_insert_at(old_sorted, xv, k as int);
        }
        sorted.insert(k, x);
        assert(keyed_view(sorted@) =~= old_sorted.insert(k as int, xv));
        assert(all.skip(rest.len() as int).drop_first() =~= all.skip(before as int));
        assert(all.skip(rest.len() as int)[0] == xv);
    }
    assert(all.skip(0) =~= all);
    sorted
}

/// Sorting keeps the number of elements.
pub proof fn lemma_sort_len<T>(s: Seq<(Seq<char>, T)>)
    ensures
        sort_by_key(s).len() == s.len(),
    decreases s.len(),
{
    if s.len() > 0 {
        lemma_sort_len(s.drop_first());
        lemma_insert_len(sort_by_key(s.drop_first()), s[0]);
    }
}

proof fn lemma_insert_len<T>(s: Seq<(Seq<char>, T)>, x: (Seq<char>, T))
    ensures
        insert_ordered(s, x).len() == s.len() + 1,
    decreases s.len(),
{
    if s.len() > 0 && key_lt(s[0].0, x.0) {
        lemma_insert_len(s.drop_first(), x);
    }
}

/// `a` comes before `b` or equals it.
pub open spec fn key_le(a: Seq<char>, b: Seq<char>) -> bool {
    !key_lt(b, a)
}

/// The keys never decrease along the sequence.
pub open spec fn is_sorted_by_key<T>(s: Seq<(Seq<char>, T)>) -> bool {
    forall|i: int, j: int| 0 <= i < j < s.len() ==> key_le(#[trigger] s[i].0, #[trigger] s[j].0)
}

proof fn lemma_key_lt_irreflexive(a: Seq<char>)
    ensures
        !key_lt(a, a),
    decreases a.len(),
{
    if a.len() > 0 {
        lemma_key_lt_irreflexive(a.drop_first());
    }
}

proof fn lemma_key_lt_transitive(a: Seq<char>, b: Seq<char>, c: Seq<char>)
    requires
        key_lt(a, b),
        key_lt(b, c),
    ensures
        key_lt(a, c),
    decreases a.len(),
{
    if a.len() > 0 && b.len() > 0 && c.len() > 0 && a[0] == b[0] && b[0] == c[0] {
        lemma_key_lt_transitive(a.drop_first(), b.drop_first(), c.drop_first());
    }
}

proof fn lemma_key_lt_total(a: Seq<char>, b: Seq<char>)
    requires
        a != b,
    ensures
        key_lt(a, b) || key_lt(b, a),
    decreases a.len(),
{
    if a.len() == 0 {
        if b.len() == 0 {
            assert(a =~= b);
        }
    } else if b.len() > 0 && a[0] == b[0] {
        if a.drop_first() == b.drop_first() {
            assert(a.drop_first().len() == a.len() - 1);
            assert(b.drop_first().len() == b.len() - 1);
            assert(a.len() == b.len());
            assert(a =~= b) by {
                assert forall|i: int| 0 <= i < a.len() implies a[i] == b[i] by {
                    if i > 0 {
                        assert(a[i] == a.drop_first()[i - 1]);
                        assert(b[i] == b.drop_first()[i - 1]);
                    }
                }
            }
        }
        lemma_key_lt_total(a.drop_first(), b.drop_first());
    } else if b.len() > 0 {
        let (p, q) = (a[0], b[0]);
        vstd::utf8::char_u32_cast(p, p as u32);
        vstd::utf8::char_u32_cast(q, q as u32);
        assert((p as u32) != (q as u32));
    }
}

/// Ordering by `key_le` is transitive.
proof fn lemma_key_le_transitive(a: Seq<char>, b: Seq<char>, c: Seq<char>)
    requires
        key_le(a, b),
        key_le(b, c),
    ensures
        key_le(a, c),
{
    if key_lt(c, a) {
        if a == b {
        } else {
            lemma_key_lt_total(a, b);
            lemma_key_lt_transitive(c, a, b);
        }
    }
}

/// Where `insert_ordered` places its element.
proof fn lemma_insert_position<T>(s: Seq<(Seq<char>, T)>, x: (Seq<char>, T)) -> (k: int)
    ensures
        0 <= k <= s.len(),
        forall|j: int| 0 <= j < k ==> key_lt(#[trigger] s[j].0, x.0),
        k < s.len() ==> !key_lt(s[k].0, x.0),
        insert_ordered(s, x) == s.insert(k, x),
    decreases s.len(),
{
    if s.len() == 0 || !key_lt(s[0].0, x.0) {
        lemma_insert_at(s, x, 0);
        0
    } else {
        let k = lemma_insert_position(s.drop_first(), x);
        assert forall|j: int| 0 <= j < k + 1 implies key_lt(#[trigger] s[j].0, x.0) by {
            if j > 0 {
                assert(s[j] == s.drop_first()[j - 1]);
            }
        }
        if k + 1 < s.len() {
            assert(s[k + 1] == s.drop_first()[k]);
        }
        lemma_insert_at(s, x, k + 1);
        k + 1
    }
}

/// Sorting orders the elements by key and only reorders them.
pub proof fn law_sort_orders_and_keeps_elements<T>(s: Seq<(Seq<char>, T)>)
    ensures
        is_sorted_by_key(sort_by_key(s)),
        sort_by_key(s).to_multiset() == s.to_multiset(),
    decreases s.len(),
{
    broadcast use vstd::seq_lib::group_to_multiset_ensures;

    if s.len() > 0 {
        let rest = s.drop_first();
        law_sort_orders_and_keeps_elements(rest);
        let r = sort_by_key(rest);
        let x = s[0];
        let k = lemma_insert_position(r, x);
        let out = r.insert(k, x);
        assert(s =~= rest.insert(0, x));
        assert forall|i: int, j: int| 0 <= i < j < out.len() implies key_le(#[trigger] out[i].0, #[trigger] out[j].0) by {
            if j < k {
                assert(out[i] == r[i] && out[j] == r[j]);
            } else if j == k {
                assert(out[j] == x && out[i] == r[i]);
                if key_lt(x.0, r[i].0) {
                    lemma_key_lt_transitive(r[i].0, x.0, r[i].0);
                    lemma_key_lt_irreflexive(r[i].0);
                }
            } else if i == k {
                assert(out[i] == x && out[j] == r[j - 1]);
                assert(key_le(x.0, r[k].0)) by {
                    if key_lt(r[k].0, x.0) {
                    } else if x.0 == r[k].0 {
                        lemma_key_lt_irreflexive(x.0);
                    } else {
                        lemma_key_lt_total(x.0, r[k].0);
                        if key_lt(r[k].0, x.0) {
                        } else {
                            assert(key_lt(x.0, r[k].0));
                            lemma_key_lt_irreflexive(x.0);
                            if key_lt(r[k].0, x.0) {
                                lemma_key_lt_transitive(x.0, r[k].0, x.0);
                            }
                        }
                    }
                }
                if j - 1 > k {
                    lemma_key_le_transitive(x.0, r[k].0, r[j - 1].0);
                }
            } else if i < k {
                assert(out[i] == r[i] && out[j] == r[j - 1]);
            } else {
                assert(out[i] == r[i - 1] && out[j] == r[j - 1]);
            }
        }
    }
}

/// Sorting is stable: tag the elements with increasing numbers (their
/// positions, say), and of two elements with equal keys the one tagged lower
/// still comes first. `lemma_sort_map` carries this to any elements.
pub proof fn law_sort_is_stable(s: Seq<(Seq<char>, int)>)
    requires
        forall|i: int, j: int| 0 <= i < j < s.len() ==> (#[trigger] s[i]).1 < (#[trigger] s[j]).1,
    ensures
        forall|a: int, b: int|
            0 <= a < b < sort_by_key(s).len() && (#[trigger] sort_by_key(s)[a]).0 == (#[trigger] sort_by_key(s)[b]).0
            ==> sort_by_key(s)[a].1 < sort_by_key(s)[b].1,
    decreases s.len(),
{
    broadcast use vstd::seq_lib::group_to_multiset_ensures;

    if s.len() > 0 {
        let rest = s.drop_first();
        assert forall|i: int, j: int| 0 <= i < j < rest.len() implies (#[trigger] rest[i]).1 < (#[trigger] rest[j]).1 by {
            assert(rest[i] == s[i + 1] && rest[j] == s[j + 1]);
        }
        law_sort_is_stable(rest);
        law_sort_orders_and_keeps_elements(rest);
        let r = sort_by_key(rest);
        let x = s[0];
        let k = lemma_insert_position(r, x);
        let out = r.insert(k, x);
        assert forall|m: int| 0 <= m < r.len() implies x.1 < (#[trigger] r[m]).1 by {
            assert(r.to_multiset().count(r[m]) > 0);
            assert(rest.contains(r[m]));
            let i = choose|i: int| 0 <= i < rest.len() && rest[i] == r[m];
            assert(rest[i] == s[i + 1]);
        }
        assert forall|a: int, b: int|
            0 <= a < b < out.len() && (#[trigger] out[a]).0 == (#[trigger] out[b]).0 implies out[a].1 < out[b].1 by {
            if b < k {
                assert(out[a] == r[a] && out[b] == r[b]);
            } else if b == k {
                assert(out[a] == r[a] && out[b] == x);
                assert(key_lt(r[a].0, x.0));
                lemma_key_lt_irreflexive(x.0);
            } else if a == k {
                assert(out[a] == x && out[b] == r[b - 1]);
            } else if a < k {
                assert(out[a] == r[a] && out[b] == r[b - 1]);
            } else {
                assert(out[a] == r[a - 1] && out[b] == r[b - 1]);
            }
        }
    }
}

} // verus!
