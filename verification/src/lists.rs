//! List operations the client performs on its lists of quizzes and questions:
//! stable sorting by a string key (what `sort_by` on a key's `cmp` does) and
//! keeping the elements that satisfy a test (what `retain` does).
use vstd::prelude::*;

use crate::text::{chars_of, lex_le, lex_le_chars, lemma_lex_le_reflexive, lemma_lex_le_total, lemma_lex_le_transitive};

verus! {

/// The keys of `s` never decrease from left to right.
pub open spec fn sorted_by<T>(s: Seq<T>, key: spec_fn(T) -> Seq<char>) -> bool {
    forall|i: int, j: int| 0 <= i < j < s.len() ==> lex_le(key(s[i]), key(s[j]))
}

/// The predicate "has key `k`".
pub open spec fn has_key<T>(key: spec_fn(T) -> Seq<char>, k: Seq<char>) -> spec_fn(T) -> bool {
    |t: T| key(t) == k
}

/// `r` is `s` sorted stably by `key`: the keys of `r` are in order, and for
/// every key the elements that carry it appear in `r` exactly as they appear
/// in `s`, in the same order.
pub open spec fn is_stable_sort<T>(r: Seq<T>, s: Seq<T>, key: spec_fn(T) -> Seq<char>) -> bool {
    &&& sorted_by(r, key)
    &&& forall|k: Seq<char>| #[trigger] r.filter(has_key(key, k)) == s.filter(has_key(key, k))
}

/// How often `x` occurs in `s` filtered by `p`: as often as in `s` when `x`
/// satisfies `p`, else never.
proof fn lemma_filter_count<T>(s: Seq<T>, p: spec_fn(T) -> bool, x: T)
    ensures
        s.filter(p).to_multiset().count(x) == if p(x) {
            s.to_multiset().count(x)
        } else {
            0
        },
    decreases s.len(),
{
    broadcast use vstd::seq_lib::group_to_multiset_ensures;

    if s.len() == 0 {
        assert(s.filter(p) =~= Seq::<T>::empty());
    } else {
        let init = s.drop_last();
        lemma_filter_count(init, p, x);
        assert(s =~= init.push(s.last()));
        init.lemma_filter_push(s.last(), p);
    }
}

/// A stable sort only rearranges: every element occurs in the sorted
/// sequence exactly as often as in the unsorted one.
pub proof fn lemma_stable_sort_permutes<T>(r: Seq<T>, s: Seq<T>, key: spec_fn(T) -> Seq<char>)
    requires
        is_stable_sort(r, s, key),
    ensures
        r.to_multiset() == s.to_multiset(),
{
    assert forall|x: T| r.to_multiset().count(x) == s.to_multiset().count(x) by {
        let k = key(x);
        lemma_filter_count(r, has_key(key, k), x);
        lemma_filter_count(s, has_key(key, k), x);
        assert(r.filter(has_key(key, k)) == s.filter(has_key(key, k)));
    }
    assert(r.to_multiset() =~= s.to_multiset());
}

/// Removing every element with the id of `new` and then adding `new` with a
/// stable sort: the result is sorted, holds `new`, holds every element of
/// another id that was there, and holds no other element with the id of `new`.
pub(crate) proof fn lemma_remove_then_add<T, I>(
    before: Seq<T>,
    removed: Seq<T>,
    after: Seq<T>,
    new: T,
    id: spec_fn(T) -> I,
    key: spec_fn(T) -> Seq<char>,
)
    requires
        removed == before.filter(|q: T| id(q) != id(new)),
        is_stable_sort(after, removed.push(new), key),
    ensures
        sorted_by(after, key),
        after.contains(new),
        forall|q: T| #[trigger] before.contains(q) && id(q) != id(new) ==> after.contains(q),
        forall|q: T| #[trigger] after.contains(q) && id(q) == id(new) ==> q == new,
{
    broadcast use vstd::seq_lib::group_to_multiset_ensures;

    let pred = |q: T| id(q) != id(new);
    let src = removed.push(new);
    lemma_stable_sort_permutes(after, src, key);
    assert(src.contains(new)) by {
        assert(src[removed.len() as int] == new);
    }
    assert(src.to_multiset().count(new) > 0);
    assert(after.to_multiset().count(new) > 0);
    assert forall|q: T| #[trigger] before.contains(q) && id(q) != id(new) implies after.contains(q) by {
        let i = choose|i: int| 0 <= i < before.len() && before[i] == q;
        before.lemma_filter_contains(pred, i);
        let j = choose|j: int| 0 <= j < removed.len() && removed[j] == q;
        assert(src[j] == q);
        assert(src.to_multiset().count(q) > 0);
        assert(after.to_multiset().count(q) > 0);
    }
    assert forall|q: T| #[trigger] after.contains(q) && id(q) == id(new) implies q == new by {
        assert(after.to_multiset().count(q) > 0);
        assert(src.to_multiset().count(q) > 0);
        let j = choose|j: int| 0 <= j < src.len() && src[j] == q;
        if j < removed.len() {
            assert(removed[j] == q);
            before.lemma_filter_pred(pred, j);
        }
    }
}

/// Inserting an element after every element with a smaller or equal key and
/// before every element with a greater key keeps a sorted sequence sorted.
proof fn lemma_sorted_insert<T>(s: Seq<T>, x: T, p: int, key: spec_fn(T) -> Seq<char>)
    requires
        sorted_by(s, key),
        0 <= p <= s.len(),
        p > 0 ==> lex_le(key(s[p - 1]), key(x)),
        forall|q: int| p <= q < s.len() ==> !lex_le(#[trigger] key(s[q]), key(x)),
    ensures
        sorted_by(s.insert(p, x), key),
{
    let r = s.insert(p, x);
    assert forall|i: int, j: int| 0 <= i < j < r.len() implies lex_le(key(r[i]), key(r[j])) by {
        if i < p && j < p {
            assert(r[i] == s[i] && r[j] == s[j]);
        } else if i > p && j > p {
            assert(r[i] == s[i - 1] && r[j] == s[j - 1]);
        } else if i < p && j > p {
            assert(r[i] == s[i] && r[j] == s[j - 1]);
        } else if i == p {
            assert(r[j] == s[j - 1]);
            lemma_lex_le_total(key(s[j - 1]), key(x));
        } else {
            assert(j == p && i < p);
            assert(r[i] == s[i]);
            if i < p - 1 {
                lemma_lex_le_transitive(key(s[i]), key(s[p - 1]), key(x));
            }
        }
    }
}

/// Filtering a sequence with `x` inserted at `p` gives the same as filtering
/// it with `x` appended, when no element from `p` on shares the key of `x`.
proof fn lemma_filter_insert<T>(
    s: Seq<T>,
    x: T,
    p: int,
    key: spec_fn(T) -> Seq<char>,
    k: Seq<char>,
)
    requires
        0 <= p <= s.len(),
        forall|q: int| p <= q < s.len() ==> #[trigger] key(s[q]) != key(x),
    ensures
        s.insert(p, x).filter(has_key(key, k)) == s.push(x).filter(has_key(key, k)),
{
    broadcast use Seq::filter_distributes_over_add;

    let pred = has_key(key, k);
    let a = s.take(p);
    let b = s.skip(p);
    assert(s.insert(p, x) =~= a + seq![x] + b);
    assert(s.push(x) =~= a + b + seq![x]);
    reveal_with_fuel(Seq::filter, 2);
    assert(seq![x].drop_last() =~= Seq::<T>::empty());
    if key(x) == k {
        assert forall|q: int| 0 <= q < b.len() implies !pred(#[trigger] b[q]) by {
            assert(b[q] == s[p + q]);
        }
        assert(b.all(|y: T| !pred(y)));
        b.lemma_all_neg_filter_empty(pred);
        assert(b.filter(pred) =~= Seq::<T>::empty());
        assert(a.filter(pred) + seq![x].filter(pred) + b.filter(pred) =~= a.filter(pred)
            + b.filter(pred) + seq![x].filter(pred));
    } else {
        assert(seq![x].filter(pred) =~= Seq::<T>::empty());
        assert(a.filter(pred) + seq![x].filter(pred) + b.filter(pred) =~= a.filter(pred)
            + b.filter(pred) + seq![x].filter(pred));
    }
}

/// Sorts `items` stably by their keys; `keys[i]` is the key of `items[i]`.
pub(crate) fn stable_sort_by_keys<T>(
    items: &mut Vec<T>,
    keys: &mut Vec<Vec<char>>,
    Ghost(key): Ghost<spec_fn(T) -> Seq<char>>,
)
    requires
        old(items).len() == old(keys).len(),
        forall|i: int| 0 <= i < old(items).len() ==> (#[trigger] old(keys)@[i])@ == key(old(items)@[i]),
    ensures
        is_stable_sort(final(items)@, old(items)@, key),
{
    let ghost orig = items@;
    let n = items.len();
    let mut i: usize = 0;
    assert(orig.skip(0) =~= orig);
    while i < n
        invariant
            items.len() == n,
            keys.len() == n,
            orig.len() == n,
            i <= n,
            forall|q: int| 0 <= q < n ==> (#[trigger] keys@[q])@ == key(items@[q]),
            items@.skip(i as int) == orig.skip(i as int),
            sorted_by(items@.take(i as int), key),
            forall|k: Seq<char>| #[trigger]
                items@.take(i as int).filter(has_key(key, k)) == orig.take(i as int).filter(
                    has_key(key, k),
                ),
        decreases n - i,
    {
        let ghost before = items@;
        let ghost prefix = items@.take(i as int);
        assert(before[i as int] == orig.skip(i as int)[0]);
        let x = items.remove(i);
        let kx = keys.remove(i);
        assert(items@.take(i as int) =~= prefix);
        let mut p: usize = i;
        while p > 0 && !lex_le_chars(&keys[p - 1], &kx)
            invariant
                p <= i,
                i < n,
                items.len() == n - 1,
                keys.len() == n - 1,
                items@.take(i as int) == prefix,
                kx@ == key(x),
                forall|q: int| 0 <= q < n - 1 ==> (#[trigger] keys@[q])@ == key(items@[q]),
                forall|q: int| p <= q < i ==> !lex_le(#[trigger] key(prefix[q]), key(x)),
            decreases p,
        {
            assert(prefix[p - 1] == items@[p - 1]);
            p = p - 1;
        }
        proof {
            if p > 0 {
                assert(prefix[p - 1] == items@[p - 1]);
            }
            assert forall|q: int| p <= q < prefix.len() implies #[trigger] key(prefix[q]) != key(
                x,
            ) by {
                lemma_lex_le_reflexive(key(x));
            }
            lemma_sorted_insert(prefix, x, p as int, key);
            assert forall|k: Seq<char>| #[trigger]
                prefix.insert(p as int, x).filter(has_key(key, k)) == orig.take(i + 1).filter(
                    has_key(key, k),
                ) by {
                lemma_filter_insert(prefix, x, p as int, key, k);
                assert(orig.take(i + 1) =~= orig.take(i as int).push(x));
                let pred = has_key(key, k);
                assert(before.take(i as int) == prefix);
                assert(prefix.filter(pred) == orig.take(i as int).filter(pred));
                prefix.lemma_filter_push(x, pred);
                orig.take(i as int).lemma_filter_push(x, pred);
                assert(prefix.push(x).filter(pred) == orig.take(i as int).push(x).filter(pred));
            }
        }
        items.insert(p, x);
        keys.insert(p, kx);
        proof {
            assert(items@.take(i + 1) =~= prefix.insert(p as int, x));
            assert(items@.skip(i + 1) =~= before.skip(i + 1));
            assert(before.skip(i + 1) =~= orig.skip(i + 1)) by {
                assert forall|q: int| 0 <= q < before.skip(i + 1).len() implies #[trigger] before.skip(
                    i + 1,
                )[q] == orig.skip(i + 1)[q] by {
                    assert(before.skip(i + 1)[q] == before.skip(i as int)[q + 1]);
                    assert(orig.skip(i + 1)[q] == orig.skip(i as int)[q + 1]);
                }
            }
            assert forall|q: int| 0 <= q < n implies (#[trigger] keys@[q])@ == key(items@[q]) by {
                if q < p {
                } else if q > p {
                } else {
                }
            }
        }
        i = i + 1;
    }
    assert(items@.take(n as int) =~= items@);
    assert(orig.take(n as int) =~= orig);
}

/// Each item paired with the key at its position.
pub open spec fn keyed<T>(items: Seq<T>, keys: Seq<String>) -> Seq<(T, String)> {
    Seq::new(items.len(), |i: int| (items[i], keys[i]))
}

/// The items of a sequence of (item, key) pairs, in order.
pub open spec fn unkeyed<T>(pairs: Seq<(T, String)>) -> Seq<T> {
    pairs.map_values(|p: (T, String)| p.0)
}

/// The key of an (item, key) pair.
pub open spec fn pair_key<T>() -> spec_fn((T, String)) -> Seq<char> {
    |p: (T, String)| p.1@
}

/// Every pair carries the key that `key` gives its item.
pub open spec fn keys_agree<T>(q: Seq<(T, String)>, key: spec_fn(T) -> Seq<char>) -> bool {
    forall|i: int| 0 <= i < q.len() ==> (#[trigger] q[i]).1@ == key(q[i].0)
}

/// Sorts `items` stably by the given keys, `keys[i]` being the key of
/// `items[i]`: the items come out in the order of the stable sort, by key,
/// of the items paired with their keys.
pub fn sort_by_given_keys<T>(items: &mut Vec<T>, keys: Vec<String>)
    requires
        old(items).len() == keys.len(),
    ensures
        exists|r: Seq<(T, String)>|
            #![trigger unkeyed(r)]
            is_stable_sort(r, keyed(old(items)@, keys@), pair_key()) && final(items)@ == unkeyed(r),
{
    let ghost orig = items@;
    let ghost ks = keys@;
    let n = items.len();
    let mut rest_keys = keys;
    let mut pairs: Vec<(T, String)> = Vec::new();
    let mut i: usize = 0;
    assert(orig.skip(0) =~= orig);
    assert(ks.skip(0) =~= ks);
    while i < n
        invariant
            n == orig.len(),
            n == ks.len(),
            i <= n,
            items@ == orig.skip(i as int),
            rest_keys@ == ks.skip(i as int),
            pairs@ == keyed(orig, ks).take(i as int),
        decreases n - i,
    {
        let x = items.remove(0);
        let k = rest_keys.remove(0);
        assert(x == orig[i as int]);
        assert(k == ks[i as int]);
        assert(items@ =~= orig.skip(i + 1));
        assert(rest_keys@ =~= ks.skip(i + 1));
        pairs.push((x, k));
        assert(pairs@ =~= keyed(orig, ks).take(i + 1));
        i = i + 1;
    }
    assert(pairs@ =~= keyed(orig, ks));
    let mut pkeys: Vec<Vec<char>> = Vec::new();
    let mut j: usize = 0;
    while j < n
        invariant
            n == pairs.len(),
            j <= n,
            pkeys.len() == j,
            forall|q: int| 0 <= q < j ==> (#[trigger] pkeys@[q])@ == pairs@[q].1@,
        decreases n - j,
    {
        pkeys.push(chars_of(pairs[j].1.as_str()));
        j = j + 1;
    }
    let ghost before = pairs@;
    stable_sort_by_keys(&mut pairs, &mut pkeys, Ghost(pair_key()));
    let ghost sorted = pairs@;
    proof {
        lemma_stable_sort_permutes(sorted, before, pair_key());
        assert(sorted.len() == before.len()) by {
            broadcast use vstd::seq_lib::group_to_multiset_ensures;

            assert(sorted.to_multiset().len() == before.to_multiset().len());
        }
    }
    let m = pairs.len();
    let mut k: usize = 0;
    assert(sorted.skip(0) =~= sorted);
    assert(items@ =~= unkeyed(sorted).take(0));
    while k < m
        invariant
            m == sorted.len(),
            k <= m,
            pairs@ == sorted.skip(k as int),
            items@ == unkeyed(sorted).take(k as int),
        decreases m - k,
    {
        let p = pairs.remove(0);
        assert(p == sorted[k as int]);
        assert(pairs@ =~= sorted.skip(k + 1));
        items.push(p.0);
        assert(items@ =~= unkeyed(sorted).take(k + 1));
        k = k + 1;
    }
    assert(items@ =~= unkeyed(sorted));
}

/// Filtering by key and dropping the keys commute, when every pair carries
/// the key of its item.
proof fn lemma_unkeyed_filter<T>(q: Seq<(T, String)>, key: spec_fn(T) -> Seq<char>, k: Seq<char>)
    requires
        keys_agree(q, key),
    ensures
        unkeyed(q).filter(has_key(key, k)) == unkeyed(q.filter(has_key(pair_key(), k))),
    decreases q.len(),
{
    if q.len() == 0 {
        assert(q.filter(has_key(pair_key(), k)) =~= Seq::<(T, String)>::empty());
        assert(unkeyed(q).filter(has_key(key, k)) =~= Seq::<T>::empty());
    } else {
        let init = q.drop_last();
        let x = q.last();
        assert(keys_agree(init, key)) by {
            assert forall|i: int| 0 <= i < init.len() implies (#[trigger] init[i]).1@ == key(init[i].0) by {
                assert(init[i] == q[i]);
            }
        }
        lemma_unkeyed_filter(init, key, k);
        assert(q =~= init.push(x));
        assert(unkeyed(q) =~= unkeyed(init).push(x.0));
        init.lemma_filter_push(x, has_key(pair_key(), k));
        unkeyed(init).lemma_filter_push(x.0, has_key(key, k));
        assert(x.1@ == key(x.0)) by {
            assert(q[q.len() - 1] == x);
        }
        if x.1@ == k {
            assert(unkeyed(init.filter(has_key(pair_key(), k)).push(x)) =~= unkeyed(
                init.filter(has_key(pair_key(), k)),
            ).push(x.0));
        }
    }
}

/// When each key is the key that `key` gives its item, sorting by the given
/// keys is a stable sort of the items by `key`.
pub proof fn lemma_sort_by_given_keys<T>(
    items: Seq<T>,
    keys: Seq<String>,
    r: Seq<(T, String)>,
    key: spec_fn(T) -> Seq<char>,
)
    requires
        keys.len() == items.len(),
        forall|i: int| 0 <= i < items.len() ==> (#[trigger] keys[i])@ == key(items[i]),
        is_stable_sort(r, keyed(items, keys), pair_key()),
    ensures
        is_stable_sort(unkeyed(r), items, key),
{
    broadcast use vstd::seq_lib::group_to_multiset_ensures;

    let s = keyed(items, keys);
    assert(keys_agree(s, key));
    lemma_stable_sort_permutes(r, s, pair_key());
    assert(keys_agree(r, key)) by {
        assert forall|i: int| 0 <= i < r.len() implies (#[trigger] r[i]).1@ == key(r[i].0) by {
            assert(r.to_multiset().count(r[i]) > 0);
            assert(s.to_multiset().count(r[i]) > 0);
            let j = choose|j: int| 0 <= j < s.len() && s[j] == r[i];
        }
    }
    let u = unkeyed(r);
    assert forall|i: int, j: int| 0 <= i < j < u.len() implies lex_le(key(u[i]), key(u[j])) by {
        assert(lex_le(pair_key::<T>()(r[i]), pair_key::<T>()(r[j])));
    }
    assert(unkeyed(s) =~= items);
    assert forall|k: Seq<char>| #[trigger] u.filter(has_key(key, k)) == items.filter(has_key(key, k)) by {
        lemma_unkeyed_filter(r, key, k);
        lemma_unkeyed_filter(s, key, k);
        assert(r.filter(has_key(pair_key(), k)) == s.filter(has_key(pair_key(), k)));
    }
}

/// Keeps, in order, the elements of `items` whose flag in `keep` is set;
/// `keep[i]` tells whether `items[i]` satisfies `pred`.
pub(crate) fn keep_where<T>(items: Vec<T>, keep: &Vec<bool>, Ghost(pred): Ghost<spec_fn(T) -> bool>) -> (r: Vec<T>)
    requires
        items.len() == keep.len(),
        forall|i: int| 0 <= i < items.len() ==> #[trigger] keep@[i] == pred(items@[i]),
    ensures
        r@ == items@.filter(pred),
{
    let ghost orig = items@;
    let n = items.len();
    let mut rest = items;
    let mut out: Vec<T> = Vec::new();
    let mut i: usize = 0;
    assert(orig.skip(0) =~= orig);
    reveal_with_fuel(Seq::filter, 1);
    assert(orig.take(0) =~= Seq::<T>::empty());
    while i < n
        invariant
            n == orig.len(),
            n == keep.len(),
            i <= n,
            forall|q: int| 0 <= q < n ==> #[trigger] keep@[q] == pred(orig[q]),
            rest@ == orig.skip(i as int),
            out@ == orig.take(i as int).filter(pred),
        decreases n - i,
    {
        let x = rest.remove(0);
        assert(x == orig[i as int]);
        proof {
            assert(orig.take(i + 1) =~= orig.take(i as int).push(x));
            orig.take(i as int).lemma_filter_push(x, pred);
            assert(rest@ =~= orig.skip(i + 1));
        }
        if keep[i] {
            out.push(x);
        }
        i = i + 1;
    }
    assert(orig.take(n as int) =~= orig);
    out
}

} // verus!
