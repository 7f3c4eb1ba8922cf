//! Lexicographic keys and the stable order of a sequence of keys.

use crate::text::texts;
use vstd::prelude::*;

verus! {

/// `a` comes strictly before `b` in lexicographic order.
pub open spec fn key_less(a: Seq<u64>, b: Seq<u64>) -> bool
    decreases a.len(),
{
    if b.len() == 0 {
        false
    } else if a.len() == 0 {
        true
    } else if a[0] != b[0] {
        a[0] < b[0]
    } else {
        key_less(a.drop_first(), b.drop_first())
    }
}

/// `i` put into `order` before the first index whose key is greater.
pub open spec fn placed(order: Seq<int>, keys: Seq<Seq<u64>>, i: int) -> Seq<int>
    decreases order.len(),
{
    if order.len() == 0 {
        seq![i]
    } else if key_less(keys[i], keys[order[0]]) {
        seq![i] + order
    } else {
        seq![order[0]] + placed(order.drop_first(), keys, i)
    }
}

/// The indices below `n` by ascending key; of equal keys the smaller index first.
pub open spec fn stable_order(keys: Seq<Seq<u64>>, n: int) -> Seq<int>
    decreases n,
{
    if n <= 0 {
        Seq::empty()
    } else {
        placed(stable_order(keys, n - 1), keys, n - 1)
    }
}

/// The keys that a sequence of key vectors holds.
pub open spec fn key_seqs(v: Seq<Vec<u64>>) -> Seq<Seq<u64>> {
    Seq::new(v.len(), |i: int| v[i]@)
}

/// The indices of an exec order.
pub open spec fn indices(v: Seq<usize>) -> Seq<int> {
    Seq::new(v.len(), |i: int| v[i] as int)
}

fn less(a: &Vec<u64>, b: &Vec<u64>) -> (r: bool)
    ensures
        r == key_less(a@, b@),
{
    let mut i: usize = 0;
    proof {
        assert(a@.skip(0) =~= a@);
        assert(b@.skip(0) =~= b@);
    }
    while i < a.len() && i < b.len()
        invariant
            i <= a@.len(),
            i <= b@.len(),
            key_less(a@, b@) == key_less(a@.skip(i as int), b@.skip(i as int)),
        decreases a@.len() - i,
    {
        if a[i] != b[i] {
            return a[i] < b[i];
        }
        proof {
            assert(a@.skip(i as int).drop_first() =~= a@.skip(i as int + 1));
            assert(b@.skip(i as int).drop_first() =~= b@.skip(i as int + 1));
        }
        i = i + 1;
    }
    i < b.len()
}

proof fn lemma_placed(order: Seq<int>, keys: Seq<Seq<u64>>, i: int, p: int)
    requires
        0 <= p <= order.len(),
        forall|q: int| 0 <= q < p ==> !key_less(keys[i], keys[#[trigger] order[q]]),
        p < order.len() ==> key_less(keys[i], keys[order[p]]),
    ensures
        placed(order, keys, i) == order.insert(p, i),
    decreases order.len(),
{
    if order.len() == 0 {
        assert(order.insert(p, i) =~= seq![i]);
    } else if p == 0 {
        assert(order.insert(0, i) =~= seq![i] + order);
    } else {
        let rest = order.drop_first();
        assert(!key_less(keys[i], keys[order[0]]));
        assert forall|q: int| 0 <= q < p - 1 implies !key_less(keys[i], keys[#[trigger] rest[q]]) by {
            assert(rest[q] == order[q + 1]);
        }
        if p < order.len() {
            assert(rest[p - 1] == order[p]);
        }
        lemma_placed(rest, keys, i, p - 1);
        assert(order.insert(p, i) =~= seq![order[0]] + rest.insert(p - 1, i));
    }
}

proof fn lemma_placed_range(order: Seq<int>, keys: Seq<Seq<u64>>, i: int, n: int)
    requires
        forall|q: int| 0 <= q < order.len() ==> 0 <= #[trigger] order[q] < n,
        0 <= i < n,
    ensures
        placed(order, keys, i).len() == order.len() + 1,
        forall|q: int| 0 <= q < placed(order, keys, i).len() ==> 0 <= #[trigger] placed(order, keys, i)[q] < n,
    decreases order.len(),
{
    if order.len() > 0 && !key_less(keys[i], keys[order[0]]) {
        lemma_placed_range(order.drop_first(), keys, i, n);
    }
}

/// The order holds `n` indices, each of them below `n`.
pub proof fn stable_order_range(keys: Seq<Seq<u64>>, n: int)
    requires
        0 <= n,
    ensures
        stable_order(keys, n).len() == n,
        forall|q: int| 0 <= q < n ==> 0 <= #[trigger] stable_order(keys, n)[q] < n,
    decreases n,
{
    if n > 0 {
        stable_order_range(keys, n - 1);
        lemma_placed_range(stable_order(keys, n - 1), keys, n - 1, n);
    }
}

proof fn lemma_placed_multiset(order: Seq<int>, keys: Seq<Seq<u64>>, i: int)
    ensures
        placed(order, keys, i).to_multiset() == order.to_multiset().insert(i),
    decreases order.len(),
{
    broadcast use vstd::seq_lib::group_to_multiset_ensures;

    if order.len() == 0 {
        assert(seq![i] =~= Seq::<int>::empty().push(i));
        assert(order =~= Seq::<int>::empty());
    } else if key_less(keys[i], keys[order[0]]) {
        assert(seq![i] + order =~= order.insert(0, i));
    } else {
        let rest = order.drop_first();
        lemma_placed_multiset(rest, keys, i);
        let tail = placed(rest, keys, i);
        assert(seq![order[0]] + tail =~= tail.insert(0, order[0]));
        assert(order =~= rest.insert(0, order[0]));
        assert(tail.insert(0, order[0]).to_multiset() =~= tail.to_multiset().insert(order[0]));
        assert(rest.insert(0, order[0]).to_multiset() =~= rest.to_multiset().insert(order[0]));
        assert(placed(order, keys, i).to_multiset() =~= order.to_multiset().insert(i));
    }
}

/// The indices below `n`, one of each.
pub open spec fn first_indices(n: int) -> Seq<int> {
    Seq::new(n as nat, |i: int| i)
}

/// The order is a permutation of the indices: nothing is lost and nothing doubled.
pub proof fn stable_order_is_permutation(keys: Seq<Seq<u64>>, n: int)
    requires
        0 <= n,
    ensures
        stable_order(keys, n).to_multiset() == first_indices(n).to_multiset(),
    decreases n,
{
    broadcast use vstd::seq_lib::group_to_multiset_ensures;

    if n > 0 {
        stable_order_is_permutation(keys, n - 1);
        lemma_placed_multiset(stable_order(keys, n - 1), keys, n - 1);
        assert(first_indices(n) =~= first_indices(n - 1).push(n - 1));
    } else {
        assert(stable_order(keys, n) =~= first_indices(n));
    }
}

proof fn lemma_key_less_total(a: Seq<u64>, b: Seq<u64>, c: Seq<u64>)
    requires
        !key_less(b, a),
        !key_less(c, b),
    ensures
        !key_less(c, a),
    decreases a.len(),
{
    if c.len() > 0 && a.len() > 0 && b.len() > 0 && a[0] == b[0] && b[0] == c[0] {
        lemma_key_less_total(a.drop_first(), b.drop_first(), c.drop_first());
    }
}

proof fn lemma_key_less_asymmetric(a: Seq<u64>, b: Seq<u64>)
    requires
        key_less(a, b),
    ensures
        !key_less(b, a),
    decreases a.len(),
{
    if a.len() > 0 && b.len() > 0 && a[0] == b[0] {
        lemma_key_less_asymmetric(a.drop_first(), b.drop_first());
    }
}

/// No key of the order is greater than one that comes after it.
pub open spec fn ascending(order: Seq<int>, keys: Seq<Seq<u64>>) -> bool {
    forall|p: int, q: int|
        0 <= p <= q < order.len() ==> !key_less(keys[#[trigger] order[q]], keys[#[trigger] order[p]])
}

proof fn lemma_key_less_irreflexive(a: Seq<u64>)
    ensures
        !key_less(a, a),
    decreases a.len(),
{
    if a.len() > 0 {
        lemma_key_less_irreflexive(a.drop_first());
    }
}

proof fn lemma_placed_members(order: Seq<int>, keys: Seq<Seq<u64>>, i: int)
    ensures
        forall|q: int|
            0 <= q < placed(order, keys, i).len() ==> #[trigger] placed(order, keys, i)[q] == i
                || order.contains(placed(order, keys, i)[q]),
    decreases order.len(),
{
    if order.len() > 0 {
        let rest = order.drop_first();
        if key_less(keys[i], keys[order[0]]) {
            assert forall|q: int| 0 <= q < placed(order, keys, i).len() implies #[trigger] placed(
                order,
                keys,
                i,
            )[q] == i || order.contains(placed(order, keys, i)[q]) by {
                if q > 0 {
                    assert(placed(order, keys, i)[q] == order[q - 1]);
                }
            }
        } else {
            lemma_placed_members(rest, keys, i);
            assert forall|q: int| 0 <= q < placed(order, keys, i).len() implies #[trigger] placed(
                order,
                keys,
                i,
            )[q] == i || order.contains(placed(order, keys, i)[q]) by {
                if q == 0 {
                    assert(placed(order, keys, i)[q] == order[0]);
                } else {
                    let x = placed(rest, keys, i)[q - 1];
                    assert(placed(order, keys, i)[q] == x);
                    if x != i {
                        let w = choose|w: int| 0 <= w < rest.len() && rest[w] == x;
                        assert(order[w + 1] == x);
                    }
                }
            }
        }
    }
}

proof fn lemma_placed_ascending(order: Seq<int>, keys: Seq<Seq<u64>>, i: int)
    requires
        ascending(order, keys),
    ensures
        ascending(placed(order, keys, i), keys),
    decreases order.len(),
{
    if order.len() == 0 {
        lemma_key_less_irreflexive(keys[i]);
    } else if key_less(keys[i], keys[order[0]]) {
        let out = placed(order, keys, i);
        assert forall|p: int, q: int| 0 <= p <= q < out.len() implies !key_less(
            keys[#[trigger] out[q]],
            keys[#[trigger] out[p]],
        ) by {
            lemma_key_less_irreflexive(keys[i]);
            lemma_key_less_asymmetric(keys[i], keys[order[0]]);
            if p > 0 {
                assert(out[p] == order[p - 1] && out[q] == order[q - 1]);
            } else if q > 0 {
                assert(out[q] == order[q - 1]);
                assert(!key_less(keys[order[q - 1]], keys[order[0]]));
                lemma_key_less_total(keys[i], keys[order[0]], keys[order[q - 1]]);
            }
        }
    } else {
        let rest = order.drop_first();
        assert(ascending(rest, keys)) by {
            assert forall|p: int, q: int| 0 <= p <= q < rest.len() implies !key_less(
                keys[#[trigger] rest[q]],
                keys[#[trigger] rest[p]],
            ) by {
                assert(rest[p] == order[p + 1] && rest[q] == order[q + 1]);
            }
        }
        lemma_placed_ascending(rest, keys, i);
        lemma_placed_members(rest, keys, i);
        let tail = placed(rest, keys, i);
        let out = placed(order, keys, i);
        assert forall|p: int, q: int| 0 <= p <= q < out.len() implies !key_less(
            keys[#[trigger] out[q]],
            keys[#[trigger] out[p]],
        ) by {
            lemma_key_less_irreflexive(keys[order[0]]);
            if p > 0 {
                assert(out[p] == tail[p - 1] && out[q] == tail[q - 1]);
            } else if q > 0 {
                assert(out[q] == tail[q - 1]);
                if tail[q - 1] != i {
                    let w = choose|w: int| 0 <= w < rest.len() && rest[w] == tail[q - 1];
                    assert(order[w + 1] == tail[q - 1]);
                    assert(!key_less(keys[order[w + 1]], keys[order[0]]));
                }
            }
        }
    }
}

/// The keys of the order ascend.
pub proof fn stable_order_ascends(keys: Seq<Seq<u64>>, n: int)
    requires
        0 <= n,
    ensures
        ascending(stable_order(keys, n), keys),
    decreases n,
{
    if n > 0 {
        stable_order_ascends(keys, n - 1);
        lemma_placed_ascending(stable_order(keys, n - 1), keys, n - 1);
    }
}

/// The indices of `keys` by ascending key, equal keys in their given order.
pub fn order_of(keys: &Vec<Vec<u64>>) -> (r: Vec<usize>)
    ensures
        indices(r@) == stable_order(key_seqs(keys@), keys@.len() as int),
        r@.len() == keys@.len(),
        forall|q: int| 0 <= q < r@.len() ==> #[trigger] r@[q] < keys@.len(),
{
    let mut order: Vec<usize> = Vec::new();
    let mut i: usize = 0;
    proof {
        assert(indices(order@) =~= stable_order(key_seqs(keys@), 0));
    }
    while i < keys.len()
        invariant
            i <= keys@.len(),
            order@.len() == i,
            indices(order@) == stable_order(key_seqs(keys@), i as int),
            forall|q: int| 0 <= q < order@.len() ==> #[trigger] order@[q] < i,
        decreases keys@.len() - i,
    {
        let mut p: usize = 0;
        while p < order.len() && !less(&keys[i], &keys[order[p]])
            invariant
                i < keys@.len(),
                p <= order@.len(),
                forall|q: int| 0 <= q < order@.len() ==> #[trigger] order@[q] < i,
                forall|q: int|
                    0 <= q < p ==> !key_less(
                        key_seqs(keys@)[i as int],
                        key_seqs(keys@)[#[trigger] indices(order@)[q]],
                    ),
            decreases order@.len() - p,
        {
            p = p + 1;
        }
        proof {
            lemma_placed(indices(order@), key_seqs(keys@), i as int, p as int);
        }
        let ghost before = order@;
        order.insert(p, i);
        proof {
            assert(indices(order@) =~= indices(before).insert(p as int, i as int));
            assert forall|q: int| 0 <= q < order@.len() implies #[trigger] order@[q] < i + 1 by {
                if q < p {
                    assert(order@[q] == before[q]);
                } else if q > p {
                    assert(order@[q] == before[q - 1]);
                }
            }
        }
        i = i + 1;
    }
    order
}

/// A text as a key: one number per character, so that texts order by character.
pub open spec fn text_key(s: Seq<char>) -> Seq<u64> {
    Seq::new(s.len(), |i: int| s[i] as u64)
}

pub fn key_of_text(s: &Vec<char>) -> (r: Vec<u64>)
    ensures
        r@ == text_key(s@),
{
    let mut r: Vec<u64> = Vec::new();
    push_text_key(&mut r, s);
    proof {
        assert(r@ =~= text_key(s@));
    }
    r
}

/// Appends the key of a text.
pub fn push_text_key(key: &mut Vec<u64>, s: &Vec<char>)
    ensures
        final(key)@ == old(key)@ + text_key(s@),
{
    let ghost start = key@;
    let mut i: usize = 0;
    while i < s.len()
        invariant
            i <= s@.len(),
            key@.len() == start.len() + i,
            forall|k: int| 0 <= k < start.len() ==> key@[k] == start[k],
            forall|k: int| 0 <= k < i ==> key@[start.len() + k] == #[trigger] text_key(s@)[k],
        decreases s@.len() - i,
    {
        key.push(s[i] as u64);
        proof {
            assert(text_key(s@)[i as int] == s@[i as int] as u64);
        }
        i = i + 1;
    }
    proof {
        assert(key@ =~= start + text_key(s@));
    }
}

pub open spec fn text_keys(v: Seq<Seq<char>>) -> Seq<Seq<u64>> {
    Seq::new(v.len(), |i: int| text_key(v[i]))
}

/// The texts in ascending order.
pub open spec fn sorted(v: Seq<Seq<char>>) -> Seq<Seq<char>> {
    let order = stable_order(text_keys(v), v.len() as int);
    Seq::new(v.len(), |i: int| v[order[i]])
}

/// Without an element that equals the one just before it.
pub open spec fn dedup(v: Seq<Seq<char>>) -> Seq<Seq<char>>
    decreases v.len(),
{
    if v.len() <= 1 {
        v
    } else if v.last() == v[v.len() - 2] {
        dedup(v.drop_last())
    } else {
        dedup(v.drop_last()).push(v.last())
    }
}

/// The texts in ascending order, each of them once.
pub open spec fn sorted_set(v: Seq<Seq<char>>) -> Seq<Seq<char>> {
    dedup(sorted(v))
}

pub fn sort_texts(v: &Vec<Vec<char>>) -> (r: Vec<Vec<char>>)
    ensures
        texts(r@) == sorted(texts(v@)),
{
    let mut keys: Vec<Vec<u64>> = Vec::new();
    let mut i: usize = 0;
    while i < v.len()
        invariant
            i <= v@.len(),
            keys@.len() == i,
            forall|k: int| 0 <= k < i ==> (#[trigger] keys@[k])@ == text_key(v@[k]@),
        decreases v@.len() - i,
    {
        keys.push(key_of_text(&v[i]));
        i = i + 1;
    }
    let order = order_of(&keys);
    proof {
        assert(key_seqs(keys@) =~= text_keys(texts(v@)));
    }
    let mut r: Vec<Vec<char>> = Vec::new();
    let mut j: usize = 0;
    while j < order.len()
        invariant
            j <= order@.len(),
            order@.len() == v@.len(),
            forall|q: int| 0 <= q < order@.len() ==> #[trigger] order@[q] < v@.len(),
            r@.len() == j,
            forall|k: int| 0 <= k < j ==> (#[trigger] r@[k])@ == v@[order@[k] as int]@,
        decreases order@.len() - j,
    {
        r.push(crate::text::copy_chars(&v[order[j]]));
        j = j + 1;
    }
    proof {
        let ord = stable_order(text_keys(texts(v@)), v@.len() as int);
        assert(indices(order@) == ord);
        assert forall|k: int| 0 <= k < r@.len() implies texts(r@)[k] == sorted(texts(v@))[k] by {
            assert(indices(order@)[k] == order@[k] as int);
            assert(r@[k]@ == v@[order@[k] as int]@);
        }
        assert(texts(r@) =~= sorted(texts(v@)));
    }
    r
}

pub fn dedup_texts(v: &Vec<Vec<char>>) -> (r: Vec<Vec<char>>)
    ensures
        texts(r@) == dedup(texts(v@)),
{
    let mut r: Vec<Vec<char>> = Vec::new();
    let mut i: usize = 0;
    proof {
        assert(texts(r@) =~= dedup(texts(v@).take(0)));
    }
    while i < v.len()
        invariant
            i <= v@.len(),
            texts(r@) == dedup(texts(v@).take(i as int)),
        decreases v@.len() - i,
    {
        let ghost next = texts(v@).take(i as int + 1);
        proof {
            assert(next.drop_last() =~= texts(v@).take(i as int));
            assert(next.last() == v@[i as int]@);
            if i > 0 {
                assert(next[next.len() - 2] == v@[i as int - 1]@);
            }
        }
        let repeated = i > 0 && crate::text::same_chars(&v[i], &v[i - 1]);
        if !repeated {
            let ghost before = r@;
            r.push(crate::text::copy_chars(&v[i]));
            proof {
                assert(texts(r@) =~= texts(before).push(v@[i as int]@));
                if i == 0 {
                    assert(texts(v@).take(0) =~= Seq::<Seq<char>>::empty());
                    assert(next =~= seq![v@[0]@]);
                    assert(texts(r@) =~= next);
                }
            }
        }
        i = i + 1;
    }
    proof {
        assert(texts(v@).take(v@.len() as int) =~= texts(v@));
    }
    r
}

pub fn sort_set(v: &Vec<Vec<char>>) -> (r: Vec<Vec<char>>)
    ensures
        texts(r@) == sorted_set(texts(v@)),
{
    let s = sort_texts(v);
    dedup_texts(&s)
}

/// `a` comes strictly before `b`, character by character.
pub open spec fn text_less(a: Seq<char>, b: Seq<char>) -> bool {
    key_less(text_key(a), text_key(b))
}

/// Each text comes strictly before those after it, so that none occurs twice.
pub open spec fn strictly_ascending(v: Seq<Seq<char>>) -> bool {
    forall|i: int, j: int| 0 <= i < j < v.len() ==> text_less(#[trigger] v[i], #[trigger] v[j])
}

/// No text comes strictly before one that stands in front of it.
spec fn weakly_ascending(v: Seq<Seq<char>>) -> bool {
    forall|i: int, j: int| 0 <= i <= j < v.len() ==> !text_less(#[trigger] v[j], #[trigger] v[i])
}

/// Every text of the one list stands in the other.
pub open spec fn same_texts(a: Seq<Seq<char>>, b: Seq<Seq<char>>) -> bool {
    forall|t: Seq<char>| #[trigger] a.contains(t) <==> b.contains(t)
}

proof fn lemma_key_less_transitive(a: Seq<u64>, b: Seq<u64>, c: Seq<u64>)
    requires
        key_less(a, b),
        key_less(b, c),
    ensures
        key_less(a, c),
    decreases a.len(),
{
    if a.len() > 0 && a[0] == b[0] && b[0] == c[0] {
        lemma_key_less_transitive(a.drop_first(), b.drop_first(), c.drop_first());
    }
}

proof fn lemma_key_less_connected(a: Seq<u64>, b: Seq<u64>)
    requires
        !key_less(a, b),
        !key_less(b, a),
    ensures
        a == b,
    decreases a.len(),
{
    if a.len() > 0 && b.len() > 0 {
        lemma_key_less_connected(a.drop_first(), b.drop_first());
        assert(a =~= seq![a[0]] + a.drop_first());
        assert(b =~= seq![b[0]] + b.drop_first());
    } else {
        assert(a =~= b);
    }
}

proof fn lemma_same_code(a: char, b: char)
    requires
        a as u64 == b as u64,
    ensures
        a == b,
{
}

/// Of two texts that differ one comes before the other.
pub proof fn texts_are_ordered(a: Seq<char>, b: Seq<char>)
    ensures
        a == b || text_less(a, b) || text_less(b, a),
        !(text_less(a, b) && text_less(b, a)),
        !text_less(a, a),
{
    if !text_less(a, b) && !text_less(b, a) {
        lemma_key_less_connected(text_key(a), text_key(b));
        assert(a.len() == text_key(a).len() && b.len() == text_key(b).len());
        assert forall|i: int| 0 <= i < a.len() implies a[i] == b[i] by {
            assert(text_key(a)[i] == text_key(b)[i]);
            lemma_same_code(a[i], b[i]);
        }
        assert(a =~= b);
    }
    if text_less(a, b) {
        lemma_key_less_asymmetric(text_key(a), text_key(b));
    }
    lemma_key_less_irreflexive(text_key(a));
}

proof fn lemma_sorted(v: Seq<Seq<char>>)
    ensures
        weakly_ascending(sorted(v)),
        same_texts(sorted(v), v),
{
    let keys = text_keys(v);
    let n = v.len() as int;
    let order = stable_order(keys, n);
    stable_order_range(keys, n);
    stable_order_ascends(keys, n);
    stable_order_is_permutation(keys, n);
    let s = sorted(v);
    assert forall|i: int, j: int| 0 <= i <= j < s.len() implies !text_less(
        #[trigger] s[j],
        #[trigger] s[i],
    ) by {
        assert(!key_less(keys[order[j]], keys[order[i]]));
    }
    assert forall|t: Seq<char>| #[trigger] s.contains(t) <==> v.contains(t) by {
        if s.contains(t) {
            let i = choose|i: int| 0 <= i < s.len() && s[i] == t;
            assert(v[order[i]] == t);
        }
        if v.contains(t) {
            let k = choose|k: int| 0 <= k < v.len() && v[k] == t;
            broadcast use vstd::seq_lib::group_to_multiset_ensures;

            assert(first_indices(n)[k] == k);
            assert(first_indices(n).contains(k));
            assert(first_indices(n).to_multiset().count(k) > 0);
            assert(order.contains(k));
            let i = choose|i: int| 0 <= i < order.len() && order[i] == k;
            assert(s[i] == t);
        }
    }
}

proof fn lemma_dedup(v: Seq<Seq<char>>)
    requires
        weakly_ascending(v),
    ensures
        strictly_ascending(dedup(v)),
        same_texts(dedup(v), v),
        v.len() > 0 ==> dedup(v).len() > 0 && dedup(v).last() == v.last(),
    decreases v.len(),
{
    if v.len() > 1 {
        let rest = v.drop_last();
        assert(weakly_ascending(rest));
        lemma_dedup(rest);
        let d = dedup(rest);
        let last = v.last();
        assert(rest.last() == v[v.len() - 2]);
        assert forall|t: Seq<char>| #[trigger] v.contains(t) <==> (rest.contains(t) || t == last) by {
            if v.contains(t) {
                let k = choose|k: int| 0 <= k < v.len() && v[k] == t;
                if k < v.len() - 1 {
                    assert(rest[k] == t);
                }
            }
            if rest.contains(t) {
                let k = choose|k: int| 0 <= k < rest.len() && rest[k] == t;
                assert(v[k] == t);
            }
            assert(v[v.len() - 1] == last);
        }
        if last == rest.last() {
            assert(rest[rest.len() - 1] == last);
            assert(same_texts(d, v));
        } else {
            let out = d.push(last);
            assert(!text_less(v[v.len() - 1], v[v.len() - 2]));
            texts_are_ordered(last, rest.last());
            assert forall|i: int, j: int| 0 <= i < j < out.len() implies text_less(
                #[trigger] out[i],
                #[trigger] out[j],
            ) by {
                if j < d.len() {
                    assert(out[i] == d[i] && out[j] == d[j]);
                } else if i < d.len() - 1 {
                    assert(text_less(d[i], d[d.len() - 1]));
                    lemma_key_less_transitive(
                        text_key(d[i]),
                        text_key(d.last()),
                        text_key(last),
                    );
                }
            }
            assert forall|t: Seq<char>| #[trigger] out.contains(t) <==> v.contains(t) by {
                if out.contains(t) {
                    let k = choose|k: int| 0 <= k < out.len() && out[k] == t;
                    if k < d.len() {
                        assert(d[k] == t);
                        assert(d.contains(t));
                    }
                }
                if d.contains(t) {
                    let k = choose|k: int| 0 <= k < d.len() && d[k] == t;
                    assert(out[k] == t);
                }
                assert(out[d.len() as int] == last);
            }
        }
    }
}

/// A sorted set holds the texts that it was made of, in strictly ascending order.
pub proof fn sorted_set_holds_each_text_once(v: Seq<Seq<char>>)
    ensures
        strictly_ascending(sorted_set(v)),
        same_texts(sorted_set(v), v),
{
    lemma_sorted(v);
    lemma_dedup(sorted(v));
    assert forall|t: Seq<char>| #[trigger] sorted_set(v).contains(t) <==> v.contains(t) by {
        assert(dedup(sorted(v)).contains(t) <==> sorted(v).contains(t));
    }
}

/// The last of an ascending list is the one that nothing else comes after.
proof fn lemma_same_last(a: Seq<Seq<char>>, b: Seq<Seq<char>>)
    requires
        strictly_ascending(a),
        strictly_ascending(b),
        same_texts(a, b),
        a.len() > 0,
        b.len() > 0,
    ensures
        a.last() == b.last(),
{
    assert(a[a.len() - 1] == a.last() && a.contains(a.last()));
    assert(b[b.len() - 1] == b.last() && b.contains(b.last()));
    assert(a.contains(b.last()));
    let i = choose|i: int| 0 <= i < b.len() && b[i] == a.last();
    let j = choose|j: int| 0 <= j < a.len() && a[j] == b.last();
    texts_are_ordered(a.last(), b.last());
    if a.last() != b.last() {
        assert(i < b.len() - 1);
        assert(text_less(b[i], b[b.len() - 1]));
        assert(j < a.len() - 1);
        assert(text_less(a[j], a[a.len() - 1]));
    }
}

proof fn lemma_same_ascending(a: Seq<Seq<char>>, b: Seq<Seq<char>>)
    requires
        strictly_ascending(a),
        strictly_ascending(b),
        same_texts(a, b),
    ensures
        a == b,
    decreases a.len(),
{
    if a.len() == 0 {
        if b.len() > 0 {
            assert(b.contains(b[0]));
            assert(a.contains(b[0]));
        }
        assert(a =~= b);
    } else if b.len() == 0 {
        assert(a.contains(a[0]));
    } else {
        lemma_same_last(a, b);
        let x = a.drop_last();
        let y = b.drop_last();
        assert(strictly_ascending(x));
        assert(strictly_ascending(y));
        assert forall|t: Seq<char>| #[trigger] x.contains(t) <==> y.contains(t) by {
            texts_are_ordered(a.last(), a.last());
            if x.contains(t) {
                let k = choose|k: int| 0 <= k < x.len() && x[k] == t;
                assert(a[k] == t);
                assert(text_less(a[k], a[a.len() - 1]));
                assert(a.contains(t));
                let m = choose|m: int| 0 <= m < b.len() && b[m] == t;
                assert(y[m] == t);
            }
            if y.contains(t) {
                let k = choose|k: int| 0 <= k < y.len() && y[k] == t;
                assert(b[k] == t);
                assert(text_less(b[k], b[b.len() - 1]));
                assert(b.contains(t));
                assert(a.contains(t));
                let m = choose|m: int| 0 <= m < a.len() && a[m] == t;
                assert(x[m] == t);
            }
        }
        lemma_same_ascending(x, y);
        assert(a =~= x.push(a.last()));
        assert(b =~= y.push(b.last()));
    }
}

/// Two lists have one sorted set if and only if they hold the same texts.
pub proof fn sorted_sets_agree(a: Seq<Seq<char>>, b: Seq<Seq<char>>)
    ensures
        sorted_set(a) == sorted_set(b) <==> same_texts(a, b),
{
    sorted_set_holds_each_text_once(a);
    sorted_set_holds_each_text_once(b);
    if same_texts(a, b) {
        assert forall|t: Seq<char>| #[trigger] sorted_set(a).contains(t) <==> sorted_set(b).contains(
            t,
        ) by {
            assert(a.contains(t) <==> b.contains(t));
        }
        lemma_same_ascending(sorted_set(a), sorted_set(b));
    }
    if sorted_set(a) == sorted_set(b) {
        assert forall|t: Seq<char>| #[trigger] a.contains(t) <==> b.contains(t) by {
            assert(sorted_set(a).contains(t) <==> a.contains(t));
            assert(sorted_set(b).contains(t) <==> b.contains(t));
        }
    }
}

/// Keys compare at the first place at which they differ; one that ends there comes
/// before one that goes on.
pub proof fn keys_compare_at_their_first_difference(a: Seq<u64>, b: Seq<u64>, p: int)
    requires
        0 <= p <= a.len(),
        p <= b.len(),
        forall|k: int| 0 <= k < p ==> a[k] == b[k],
    ensures
        p < a.len() && p < b.len() && a[p] != b[p] ==> key_less(a, b) == (a[p] < b[p]),
        p == a.len() ==> key_less(a, b) == (p < b.len()),
        p == b.len() ==> !key_less(a, b),
    decreases a.len(),
{
    if p > 0 {
        let a2 = a.drop_first();
        let b2 = b.drop_first();
        assert(a[0] == b[0]);
        assert forall|k: int| 0 <= k < p - 1 implies a2[k] == b2[k] by {
            assert(a2[k] == a[k + 1] && b2[k] == b[k + 1]);
        }
        keys_compare_at_their_first_difference(a2, b2, p - 1);
    }
}

proof fn lemma_codes_order(a: char, b: char)
    requires
        a != b,
    ensures
        a as u64 != b as u64,
        ((a as u64) < (b as u64)) == ((a as u32) < (b as u32)),
{
}

/// Texts compare at the first character in which they differ; one that ends there
/// comes before one that goes on.
pub proof fn texts_compare_at_their_first_difference(a: Seq<char>, b: Seq<char>, p: int)
    requires
        0 <= p <= a.len(),
        p <= b.len(),
        forall|k: int| 0 <= k < p ==> a[k] == b[k],
    ensures
        p < a.len() && p < b.len() && a[p] != b[p] ==> text_less(a, b) == ((a[p] as u32) < (
        b[p] as u32)),
        p == a.len() ==> text_less(a, b) == (p < b.len()),
        p == b.len() ==> !text_less(a, b),
{
    assert forall|k: int| 0 <= k < p implies text_key(a)[k] == text_key(b)[k] by {
        assert(a[k] == b[k]);
    }
    if p < a.len() && p < b.len() && a[p] != b[p] {
        lemma_codes_order(a[p], b[p]);
    }
    keys_compare_at_their_first_difference(text_key(a), text_key(b), p);
}

spec fn keeps_equals(order: Seq<int>, keys: Seq<Seq<u64>>) -> bool {
    forall|p: int, q: int|
        0 <= p < q < order.len() && keys[#[trigger] order[p]] == keys[#[trigger] order[q]]
            ==> order[p] < order[q]
}

proof fn lemma_placed_keeps_equals(order: Seq<int>, keys: Seq<Seq<u64>>, i: int)
    requires
        keeps_equals(order, keys),
        ascending(order, keys),
        forall|q: int| 0 <= q < order.len() ==> #[trigger] order[q] < i,
    ensures
        keeps_equals(placed(order, keys, i), keys),
    decreases order.len(),
{
    let out = placed(order, keys, i);
    if order.len() > 0 {
        let rest = order.drop_first();
        if key_less(keys[i], keys[order[0]]) {
            assert forall|p: int, q: int|
                0 <= p < q < out.len() && keys[#[trigger] out[p]] == keys[
                #[trigger] out[q]] implies out[p] < out[q] by {
                assert(out[q] == order[q - 1]);
                if p == 0 {
                    assert(!key_less(keys[order[q - 1]], keys[order[0]]));
                } else {
                    assert(out[p] == order[p - 1]);
                }
            }
        } else {
            assert forall|p: int, q: int|
                0 <= p < q < rest.len() && keys[#[trigger] rest[p]] == keys[
                #[trigger] rest[q]] implies rest[p] < rest[q] by {
                assert(rest[p] == order[p + 1] && rest[q] == order[q + 1]);
            }
            assert(ascending(rest, keys)) by {
                assert forall|p: int, q: int| 0 <= p <= q < rest.len() implies !key_less(
                    keys[#[trigger] rest[q]],
                    keys[#[trigger] rest[p]],
                ) by {
                    assert(rest[p] == order[p + 1] && rest[q] == order[q + 1]);
                }
            }
            assert forall|q: int| 0 <= q < rest.len() implies #[trigger] rest[q] < i by {
                assert(rest[q] == order[q + 1]);
            }
            lemma_placed_keeps_equals(rest, keys, i);
            lemma_placed_members(rest, keys, i);
            let tail = placed(rest, keys, i);
            assert forall|p: int, q: int|
                0 <= p < q < out.len() && keys[#[trigger] out[p]] == keys[
                #[trigger] out[q]] implies out[p] < out[q] by {
                assert(out[q] == tail[q - 1]);
                if p > 0 {
                    assert(out[p] == tail[p - 1]);
                } else if tail[q - 1] != i {
                    assert(rest.contains(tail[q - 1]));
                    let r = choose|r: int| 0 <= r < rest.len() && rest[r] == tail[q - 1];
                    assert(order[r + 1] == tail[q - 1]);
                } else {
                    assert(order[0] < i);
                }
            }
        }
    }
}

/// The order is stable: of two indices with the same key the smaller one comes
/// first.
pub proof fn stable_order_keeps_equals_in_place(keys: Seq<Seq<u64>>, n: int)
    requires
        0 <= n,
    ensures
        forall|p: int, q: int|
            0 <= p < q < n && keys[#[trigger] stable_order(keys, n)[p]] == keys[
            #[trigger] stable_order(keys, n)[q]] ==> stable_order(keys, n)[p] < stable_order(
                keys,
                n,
            )[q],
    decreases n,
{
    stable_order_range(keys, n);
    lemma_stable(keys, n);
}

proof fn lemma_stable(keys: Seq<Seq<u64>>, n: int)
    requires
        0 <= n,
    ensures
        keeps_equals(stable_order(keys, n), keys),
    decreases n,
{
    if n > 0 {
        lemma_stable(keys, n - 1);
        stable_order_range(keys, n - 1);
        stable_order_ascends(keys, n - 1);
        lemma_placed_keeps_equals(stable_order(keys, n - 1), keys, n - 1);
    }
}

} // verus!
