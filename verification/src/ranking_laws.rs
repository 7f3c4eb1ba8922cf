//! How the prepared order of candidates relates to what they are.

use crate::identity::{bare_host, source_identity};
use crate::order::{
    first_indices, key_less, keys_compare_at_their_first_difference, stable_order,
    stable_order_ascends, stable_order_is_permutation, stable_order_range,
};
use crate::ranking::{
    base_authority, by_publisher, deduplicated, digit_marks, distance,
    diversification_leads_with_distinct_publishers, freshness, has_address, haystack, latest_year,
    owned, owner_label, padded, prepared, providers_for, rank_key, rank_keys, ranked,
    relevance_score, targets_relationship,
};
use crate::relevance::{covered, mentioned, ranking_terms};
use crate::spacing::{class_marks, class_runs};
use crate::text::{
    ascii_lowercase, contains, contains_any, decimal, digit_char, digits_value, ends_with, holds,
    runs, split, unsigned_value,
};
use crate::text_laws::{contained_texts_are_stretches, lists_hold_their_texts};
use crate::types::{WebCandidate, WebProvider};
use crate::weburl::{candidate_url_valid, host_text, normalized_url_text};
use vstd::prelude::*;

verus! {

/// The host of a public body or a university.
pub open spec fn official_host(host: Seq<char>) -> bool {
    ||| ".gov"@.is_suffix_of(host)
    ||| ".gov.sk"@.is_suffix_of(host)
    ||| ".europa.eu"@.is_suffix_of(host)
    ||| ".int"@.is_suffix_of(host)
    ||| ".edu"@.is_suffix_of(host)
    ||| ".ac.uk"@.is_suffix_of(host)
}

/// Candidates go by where they stand: one that belongs to the organisation asked
/// about comes before one that does not; of those that do not, one at a public body
/// or a university comes before an encyclopedia's, and that before any other.
pub proof fn authority_comes_first(a: WebCandidate, b: WebCandidate, terms: Seq<Seq<char>>)
    requires
        ({
            let host_a = bare_host(a.requested_url);
            let host_b = bare_host(b.requested_url);
            ||| owned(a, terms) && !owned(b, terms)
            ||| !owned(a, terms) && !owned(b, terms) && official_host(host_a) && !official_host(
                host_b,
            )
            ||| !owned(a, terms) && !owned(b, terms) && a.provider is Wikipedia
                && !(b.provider is Wikipedia) && !official_host(host_b)
        }),
    ensures
        rank_key(a, terms)[0] < rank_key(b, terms)[0],
        key_less(rank_key(a, terms), rank_key(b, terms)),
{
    lemma_official(bare_host(a.requested_url));
    lemma_official(bare_host(b.requested_url));
    keys_compare_at_their_first_difference(rank_key(a, terms), rank_key(b, terms), 0);
}

proof fn lemma_official(host: Seq<char>)
    ensures
        ends_with(host, ".gov"@) == ".gov"@.is_suffix_of(host),
        ends_with(host, ".gov.sk"@) == ".gov.sk"@.is_suffix_of(host),
        ends_with(host, ".europa.eu"@) == ".europa.eu"@.is_suffix_of(host),
        ends_with(host, ".int"@) == ".int"@.is_suffix_of(host),
        ends_with(host, ".edu"@) == ".edu"@.is_suffix_of(host),
        ends_with(host, ".ac.uk"@) == ".ac.uk"@.is_suffix_of(host),
{
    contained_texts_are_stretches(host, ".gov"@);
    contained_texts_are_stretches(host, ".gov.sk"@);
    contained_texts_are_stretches(host, ".europa.eu"@);
    contained_texts_are_stretches(host, ".int"@);
    contained_texts_are_stretches(host, ".edu"@);
    contained_texts_are_stretches(host, ".ac.uk"@);
}

/// Where two candidates stand alike, the one that mentions more of the terms comes
/// first; where they mention as many, the one with the later year; and where the year
/// is the same, the one that its provider ranks higher.
pub proof fn ties_are_broken_in_order(a: WebCandidate, b: WebCandidate, terms: Seq<Seq<char>>)
    requires
        terms.len() <= 65535,
        owned(a, terms) == owned(b, terms),
        !owned(a, terms) ==> distance(a, terms) == distance(b, terms),
        ({
            let found_a = terms.filter(|t: Seq<char>| contains(haystack(a), t)).len();
            let found_b = terms.filter(|t: Seq<char>| contains(haystack(b), t)).len();
            ||| found_a > found_b
            ||| found_a == found_b && freshness(a) > freshness(b)
            ||| found_a == found_b && freshness(a) == freshness(b) && a.rank < b.rank
        }),
    ensures
        key_less(rank_key(a, terms), rank_key(b, terms)),
{
    let key_a = rank_key(a, terms);
    let key_b = rank_key(b, terms);
    mentions_are_counted(terms, haystack(a));
    mentions_are_counted(terms, haystack(b));
    let found_a = terms.filter(|t: Seq<char>| contains(haystack(a), t)).len();
    let found_b = terms.filter(|t: Seq<char>| contains(haystack(b), t)).len();
    terms.lemma_filter_len(|t: Seq<char>| contains(haystack(a), t));
    terms.lemma_filter_len(|t: Seq<char>| contains(haystack(b), t));
    years_are_of_this_century(a);
    years_are_of_this_century(b);
    assert(key_a[0] == key_b[0]);
    if found_a > found_b {
        keys_compare_at_their_first_difference(key_a, key_b, 1);
    } else if freshness(a) > freshness(b) {
        keys_compare_at_their_first_difference(key_a, key_b, 2);
    } else {
        lemma_padded(a.rank);
        lemma_padded(b.rank);
        let p = lemma_first_digit(a.rank, b.rank);
        assert(padded(a.rank)[p] as u64 != padded(b.rank)[p] as u64);
        assert forall|k: int| 0 <= k < 3 + p implies key_a[k] == key_b[k] by {
            if k >= 3 {
                assert(padded(a.rank)[k - 3] == padded(b.rank)[k - 3]);
            }
        }
        keys_compare_at_their_first_difference(key_a, key_b, 3 + p);
    }
}

proof fn lemma_digit_codes(d: nat)
    requires
        d < 10,
    ensures
        digit_char(d) as u64 == 48 + d,
{
}

#[verifier::opaque]
spec fn digit_at(n: u16, p: int) -> nat {
    if p == 0 {
        (n / 10000) as nat
    } else if p == 1 {
        (n / 1000 % 10) as nat
    } else if p == 2 {
        (n / 100 % 10) as nat
    } else if p == 3 {
        (n / 10 % 10) as nat
    } else {
        (n % 10) as nat
    }
}

proof fn lemma_padded(n: u16)
    ensures
        padded(n).len() == 5,
        forall|p: int| 0 <= p < 5 ==> #[trigger] padded(n)[p] == digit_char(digit_at(n, p)),
{
    reveal(digit_at);
    reveal_with_fuel(decimal, 6);
    let m = n as nat;
    assert(m / 10 / 10 == m / 100);
    assert(m / 100 / 10 == m / 1000);
    assert(m / 1000 / 10 == m / 10000);
    assert(digit_char(0) == '0');
    if m < 10 {
    } else if m < 100 {
    } else if m < 1000 {
    } else if m < 10000 {
    } else {
    }
    assert forall|p: int| 0 <= p < 5 implies #[trigger] padded(n)[p] == digit_char(
        digit_at(n, p),
    ) by {
        assert(p == 0 || p == 1 || p == 2 || p == 3 || p == 4);
    }
}

proof fn lemma_digit_sum(n: u16)
    ensures
        n == 10000 * digit_at(n, 0) + 1000 * digit_at(n, 1) + 100 * digit_at(n, 2) + 10 * digit_at(
            n,
            3,
        ) + digit_at(n, 4),
        digit_at(n, 0) < 10,
        digit_at(n, 1) < 10,
        digit_at(n, 2) < 10,
        digit_at(n, 3) < 10,
        digit_at(n, 4) < 10,
{
    reveal(digit_at);
    let a: int = n as int;
    let b: int = a / 10;
    let c: int = b / 10;
    let d: int = c / 10;
    let e: int = d / 10;
    assert(a / 100 == c);
    assert(a / 1000 == d);
    assert(a / 10000 == e);
    assert(a == 10 * b + a % 10);
    assert(b == 10 * c + b % 10);
    assert(c == 10 * d + c % 10);
    assert(d == 10 * e + d % 10);
    assert(e < 10);
}

proof fn lemma_lower_digit(a: u16, b: u16, p: int)
    requires
        a < b,
        0 <= p < 5,
        forall|k: int| 0 <= k < p ==> #[trigger] digit_at(a, k) == digit_at(b, k),
        p == 4 || digit_at(a, p) != digit_at(b, p),
    ensures
        digit_at(a, p) < digit_at(b, p) < 10,
{
    lemma_digit_sum(a);
    lemma_digit_sum(b);
    assert(p > 0 ==> digit_at(a, 0) == digit_at(b, 0));
    assert(p > 1 ==> digit_at(a, 1) == digit_at(b, 1));
    assert(p > 2 ==> digit_at(a, 2) == digit_at(b, 2));
    assert(p > 3 ==> digit_at(a, 3) == digit_at(b, 3));
    assert(p == 0 || p == 1 || p == 2 || p == 3 || p == 4);
}

#[verifier::spinoff_prover]
proof fn lemma_first_digit(a: u16, b: u16) -> (p: int)
    requires
        a < b,
    ensures
        0 <= p < 5,
        forall|k: int| 0 <= k < p ==> #[trigger] padded(a)[k] == padded(b)[k],
        (padded(a)[p] as u64) < (padded(b)[p] as u64),
{
    lemma_padded(a);
    lemma_padded(b);
    let p: int = if digit_at(a, 0) != digit_at(b, 0) {
        0
    } else if digit_at(a, 1) != digit_at(b, 1) {
        1
    } else if digit_at(a, 2) != digit_at(b, 2) {
        2
    } else if digit_at(a, 3) != digit_at(b, 3) {
        3
    } else {
        4
    };
    assert forall|k: int| 0 <= k < p implies #[trigger] digit_at(a, k) == digit_at(b, k) by {
        assert(k == 0 || k == 1 || k == 2 || k == 3);
    }
    lemma_lower_digit(a, b, p);
    lemma_digit_codes(digit_at(a, p));
    lemma_digit_codes(digit_at(b, p));
    assert(padded(a)[p] == digit_char(digit_at(a, p)));
    assert(padded(b)[p] == digit_char(digit_at(b, p)));
    assert forall|k: int| 0 <= k < p implies #[trigger] padded(a)[k] == padded(b)[k] by {
        assert(digit_at(a, k) == digit_at(b, k));
    }
    p
}

/// The terms that a text mentions, and those among other terms, are counted once
/// each.
pub proof fn mentions_are_counted(terms: Seq<Seq<char>>, text: Seq<char>)
    ensures
        mentioned(terms, text) == terms.filter(|t: Seq<char>| contains(text, t)).len(),
    decreases terms.len(),
{
    reveal(Seq::filter);
    if terms.len() > 0 {
        mentions_are_counted(terms.drop_last(), text);
    }
}

pub proof fn shared_terms_are_counted(terms: Seq<Seq<char>>, others: Seq<Seq<char>>)
    ensures
        covered(terms, others) == terms.filter(|t: Seq<char>| others.contains(t)).len(),
    decreases terms.len(),
{
    reveal(Seq::filter);
    if terms.len() > 0 {
        shared_terms_are_counted(terms.drop_last(), others);
        lists_hold_their_texts(others, terms.last());
    }
}

proof fn lemma_latest(parts: Seq<Seq<char>>)
    ensures
        latest_year(parts) == 0 || 2000 <= latest_year(parts) <= 2100 && exists|i: int|
            0 <= i < parts.len() && (#[trigger] parts[i]).len() == 4 && unsigned_value(parts[i])
                == Some(latest_year(parts) as nat),
        forall|i: int|
            0 <= i < parts.len() && (#[trigger] parts[i]).len() == 4 && (unsigned_value(
                parts[i],
            ) matches Some(v) && 2000 <= v <= 2100) ==> digits_value(parts[i]) <= latest_year(
                parts,
            ),
    decreases parts.len(),
{
    if parts.len() > 0 {
        let rest = parts.drop_last();
        lemma_latest(rest);
        assert forall|i: int|
            0 <= i < parts.len() && (#[trigger] parts[i]).len() == 4 && (unsigned_value(
                parts[i],
            ) matches Some(v) && 2000 <= v <= 2100) implies digits_value(parts[i]) <= latest_year(
            parts,
        ) by {
            if i < rest.len() {
                assert(rest[i] == parts[i]);
            } else {
                assert(parts[i] == parts.last());
            }
        }
        if latest_year(parts) == latest_year(rest) {
            if latest_year(rest) != 0 {
                let i = choose|i: int|
                    0 <= i < rest.len() && (#[trigger] rest[i]).len() == 4 && unsigned_value(rest[i])
                        == Some(latest_year(rest) as nat);
                assert(parts[i] == rest[i]);
            }
        } else {
            assert(parts[parts.len() - 1] == parts.last());
        }
    }
}

/// A candidate's year is the greatest number from 2000 to 2100 that stands as four
/// digits by themselves in its title or its path, and zero where none does.
pub proof fn the_latest_year_counts(candidate: WebCandidate)
    ensures
        ({
            let text = candidate.title@ + " "@ + candidate.requested_url.path@;
            let numbers = class_runs(text, |c: char| 48 <= c as u32 <= 57);
            &&& freshness(candidate) == 0 || 2000 <= freshness(candidate) <= 2100 && exists|i: int|
                0 <= i < numbers.len() && (#[trigger] numbers[i]).len() == 4 && unsigned_value(
                    numbers[i],
                ) == Some(freshness(candidate) as nat)
            &&& forall|i: int|
                0 <= i < numbers.len() && (#[trigger] numbers[i]).len() == 4 && (unsigned_value(
                    numbers[i],
                ) matches Some(v) && 2000 <= v <= 2100) ==> digits_value(numbers[i]) <= freshness(
                    candidate,
                )
        }),
{
    let text = candidate.title@ + " "@ + candidate.requested_url.path@;
    let class = |c: char| 48 <= c as u32 <= 57;
    assert(digit_marks(text) =~= class_marks(text, class));
    lemma_latest(class_runs(text, class));
}

proof fn years_are_of_this_century(candidate: WebCandidate)
    ensures
        freshness(candidate) <= 2100,
{
    let text = candidate.title@ + " "@ + candidate.requested_url.path@;
    lemma_latest(runs(text, digit_marks(text)));
}

spec fn ascends(list: Seq<WebCandidate>, terms: Seq<Seq<char>>) -> bool {
    forall|i: int, j: int|
        0 <= i <= j < list.len() ==> !key_less(
            rank_key(#[trigger] list[j], terms),
            rank_key(#[trigger] list[i], terms),
        )
}

proof fn lemma_ranked_ascends(candidates: Seq<WebCandidate>, terms: Seq<Seq<char>>)
    ensures
        ascends(ranked(candidates, terms), terms),
{
    let keys = rank_keys(candidates, terms);
    let n = candidates.len() as int;
    stable_order_range(keys, n);
    stable_order_ascends(keys, n);
    let order = stable_order(keys, n);
    let list = ranked(candidates, terms);
    assert forall|i: int, j: int| 0 <= i <= j < list.len() implies !key_less(
        rank_key(#[trigger] list[j], terms),
        rank_key(#[trigger] list[i], terms),
    ) by {
        assert(keys[order[i]] == rank_key(list[i], terms));
        assert(keys[order[j]] == rank_key(list[j], terms));
    }
}

proof fn lemma_leaders_ascend(list: Seq<WebCandidate>, terms: Seq<Seq<char>>)
    requires
        ascends(list, terms),
    ensures
        ascends(by_publisher(list).0, terms),
        forall|i: int|
            0 <= i < by_publisher(list).0.len() ==> exists|k: int|
                0 <= k < list.len() && list[k] == #[trigger] by_publisher(list).0[i],
    decreases list.len(),
{
    if list.len() > 0 {
        let rest = list.drop_last();
        assert forall|i: int, j: int| 0 <= i <= j < rest.len() implies !key_less(
            rank_key(#[trigger] rest[j], terms),
            rank_key(#[trigger] rest[i], terms),
        ) by {
            assert(rest[i] == list[i] && rest[j] == list[j]);
        }
        lemma_leaders_ascend(rest, terms);
        let before = by_publisher(rest).0;
        let after = by_publisher(list).0;
        assert forall|i: int| 0 <= i < after.len() implies exists|k: int|
            0 <= k < list.len() && list[k] == #[trigger] after[i] by {
            if i < before.len() {
                assert(after[i] == before[i]);
                let k = choose|k: int| 0 <= k < rest.len() && rest[k] == before[i];
                assert(list[k] == after[i]);
            } else {
                assert(list[list.len() - 1] == after[i]);
            }
        }
        assert forall|i: int, j: int| 0 <= i <= j < after.len() implies !key_less(
            rank_key(#[trigger] after[j], terms),
            rank_key(#[trigger] after[i], terms),
        ) by {
            assert(after[i] == if i < before.len() {
                before[i]
            } else {
                list.last()
            });
            if j < before.len() {
                assert(after[j] == before[j]);
                assert(after[i] == before[i]);
            } else {
                assert(after[j] == list[list.len() - 1]);
                let k = choose|k: int| 0 <= k < list.len() && list[k] == after[i];
                assert(!key_less(rank_key(list[list.len() - 1], terms), rank_key(list[k], terms)));
            }
        }
    }
}

/// In the prepared order a candidate that leads its publisher precedes every
/// candidate with a greater key: whatever their providers rank them, one that belongs
/// to the organisation asked about comes before the others, and of those that do not
/// belong to it the one at a public body or a university comes before an
/// encyclopedia's and that before any other.
pub proof fn prepared_candidates_go_by_authority(
    query: Seq<char>,
    candidates: Seq<WebCandidate>,
    i: int,
    j: int,
)
    requires
        0 <= i < prepared(query, candidates).len(),
        0 <= j < prepared(query, candidates).len(),
        forall|k: int|
            0 <= k < i ==> source_identity((#[trigger] prepared(query, candidates)[k]).requested_url)
                != source_identity(prepared(query, candidates)[i].requested_url),
        ({
            let terms = ranking_terms(query);
            let a = prepared(query, candidates)[i];
            let b = prepared(query, candidates)[j];
            let host_a = bare_host(a.requested_url);
            let host_b = bare_host(b.requested_url);
            ||| owned(a, terms) && !owned(b, terms)
            ||| !owned(a, terms) && !owned(b, terms) && official_host(host_a) && !official_host(
                host_b,
            )
            ||| !owned(a, terms) && !owned(b, terms) && a.provider is Wikipedia
                && !(b.provider is Wikipedia) && !official_host(host_b)
        }),
    ensures
        i < j,
{
    let terms = ranking_terms(query);
    let list = prepared(query, candidates);
    authority_comes_first(list[i], list[j], terms);
    leaders_go_by_key(query, candidates, i, j);
}

/// In the prepared order a candidate that leads its publisher precedes every
/// candidate with a greater key.
pub proof fn leaders_go_by_key(
    query: Seq<char>,
    candidates: Seq<WebCandidate>,
    i: int,
    j: int,
)
    requires
        0 <= i < prepared(query, candidates).len(),
        0 <= j < prepared(query, candidates).len(),
        forall|k: int|
            0 <= k < i ==> source_identity((#[trigger] prepared(query, candidates)[k]).requested_url)
                != source_identity(prepared(query, candidates)[i].requested_url),
        key_less(
            rank_key(prepared(query, candidates)[i], ranking_terms(query)),
            rank_key(prepared(query, candidates)[j], ranking_terms(query)),
        ),
    ensures
        i < j,
{
    let terms = ranking_terms(query);
    let sorted = ranked(deduplicated(candidates), terms);
    lemma_ranked_ascends(deduplicated(candidates), terms);
    lemma_leaders_ascend(sorted, terms);
    diversification_leads_with_distinct_publishers(sorted);
    let (first, repeats) = by_publisher(sorted);
    let list = prepared(query, candidates);
    if i >= first.len() {
        assert(list[i] == repeats[i - first.len()]);
        let identity = source_identity(list[i].requested_url);
        let w = choose|w: int|
            0 <= w < first.len() && source_identity((#[trigger] first[w]).requested_url)
                == identity;
        assert(list[w] == first[w]);
        assert(false);
    }
    if j <= i {
        assert(list[i] == first[i] && list[j] == first[j]);
        assert(!key_less(rank_key(first[i], terms), rank_key(first[j], terms)));
    }
}

proof fn lemma_each_index_occurs(keys: Seq<Seq<u64>>, n: int, i: int)
    requires
        0 <= i < n,
    ensures
        stable_order(keys, n).contains(i),
{
    broadcast use vstd::seq_lib::group_to_multiset_ensures;

    stable_order_is_permutation(keys, n);
    assert(first_indices(n)[i] == i);
    assert(first_indices(n).contains(i));
    assert(first_indices(n).to_multiset().count(i) > 0);
    assert(stable_order(keys, n).to_multiset().count(i) > 0);
}

/// Preparing keeps the candidates: what is in the prepared list is what was left
/// without repeated addresses, and as many.
pub proof fn preparing_keeps_the_candidates(
    query: Seq<char>,
    candidates: Seq<WebCandidate>,
    c: WebCandidate,
)
    ensures
        prepared(query, candidates).len() == deduplicated(candidates).len(),
        prepared(query, candidates).contains(c) <==> deduplicated(candidates).contains(c),
{
    broadcast use vstd::seq_lib::group_to_multiset_ensures;

    let terms = ranking_terms(query);
    let kept = deduplicated(candidates);
    let keys = rank_keys(kept, terms);
    let n = kept.len() as int;
    let order = stable_order(keys, n);
    let sorted = ranked(kept, terms);
    stable_order_range(keys, n);
    crate::ranking::diversification_keeps_candidates(sorted);
    assert(prepared(query, candidates).len() == prepared(
        query,
        candidates,
    ).to_multiset().len());
    assert(sorted.len() == sorted.to_multiset().len());
    assert(prepared(query, candidates).contains(c) <==> prepared(
        query,
        candidates,
    ).to_multiset().count(c) > 0);
    assert(sorted.contains(c) <==> sorted.to_multiset().count(c) > 0);
    if kept.contains(c) {
        let i = choose|i: int| 0 <= i < kept.len() && kept[i] == c;
        lemma_each_index_occurs(keys, n, i);
        let p = choose|p: int| 0 <= p < order.len() && order[p] == i;
        assert(sorted[p] == c);
    }
    if sorted.contains(c) {
        let p = choose|p: int| 0 <= p < sorted.len() && sorted[p] == c;
        assert(kept[order[p]] == c);
    }
}

/// Of the candidates with one canonical address the first valid one is kept, and none
/// other.
pub proof fn the_first_of_an_address_is_kept(candidates: Seq<WebCandidate>, i: int)
    requires
        0 <= i < candidates.len(),
    ensures
        (candidate_url_valid(candidates[i].requested_url) && forall|k: int|
            0 <= k < i && candidate_url_valid((#[trigger] candidates[k]).requested_url)
                ==> normalized_url_text(candidates[k].requested_url) != normalized_url_text(
                candidates[i].requested_url,
            )) ==> deduplicated(candidates).contains(candidates[i]),
        forall|k: int|
            0 <= k < deduplicated(candidates).len() ==> candidates.contains(
                #[trigger] deduplicated(candidates)[k],
            ),
    decreases candidates.len(),
{
    let rest = candidates.drop_last();
    let before = deduplicated(rest);
    let after = deduplicated(candidates);
    lemma_kept_were_given(candidates);
    if candidate_url_valid(candidates[i].requested_url) && forall|k: int|
        0 <= k < i && candidate_url_valid((#[trigger] candidates[k]).requested_url)
            ==> normalized_url_text(candidates[k].requested_url) != normalized_url_text(
            candidates[i].requested_url,
        ) {
        if i < rest.len() {
            assert forall|k: int|
                0 <= k < i && candidate_url_valid(
                    (#[trigger] rest[k]).requested_url,
                ) implies normalized_url_text(rest[k].requested_url) != normalized_url_text(
                rest[i].requested_url,
            ) by {
                assert(rest[k] == candidates[k]);
            }
            the_first_of_an_address_is_kept(rest, i);
            let w = choose|w: int| 0 <= w < before.len() && before[w] == rest[i];
            assert(after[w] == candidates[i]);
        } else {
            let address = normalized_url_text(candidates[i].requested_url);
            if has_address(before, address) {
                let w = choose|w: int|
                    0 <= w < before.len() && normalized_url_text(
                        (#[trigger] before[w]).requested_url,
                    ) == address;
                lemma_kept_were_given(rest);
                assert(rest.contains(before[w]));
                let m = choose|m: int| 0 <= m < rest.len() && rest[m] == before[w];
                assert(candidates[m] == before[w]);
                crate::ranking::deduplication_keeps_each_address_once(rest);
                assert(false);
            }
            assert(after[before.len() as int] == candidates[i]);
        }
    }
}

proof fn lemma_kept_were_given(candidates: Seq<WebCandidate>)
    ensures
        forall|k: int|
            0 <= k < deduplicated(candidates).len() ==> candidates.contains(
                #[trigger] deduplicated(candidates)[k],
            ),
    decreases candidates.len(),
{
    if candidates.len() > 0 {
        let rest = candidates.drop_last();
        lemma_kept_were_given(rest);
        let before = deduplicated(rest);
        let after = deduplicated(candidates);
        assert forall|k: int| 0 <= k < after.len() implies candidates.contains(
            #[trigger] after[k],
        ) by {
            if k < before.len() {
                assert(after[k] == before[k]);
                assert(rest.contains(before[k]));
                let m = choose|m: int| 0 <= m < rest.len() && rest[m] == before[k];
                assert(candidates[m] == after[k]);
            } else {
                assert(candidates[candidates.len() - 1] == after[k]);
            }
        }
    }
}

/// A profile page is one whose title says so, and it is looked for only where the
/// question asks who somebody is or for a president.
pub proof fn profiles_are_for_questions_about_people(query: Seq<char>, candidate: WebCandidate)
    ensures
        targets_relationship(query, candidate) <==> {
            let q = ascii_lowercase(query);
            let title = ascii_lowercase(candidate.title@);
            &&& contains(q, "who"@) || contains(q, "president"@)
            &&& contains(title, "biography"@) || contains(title, "profile"@) || contains(
                title,
                "office holder"@,
            ) || contains(title, "curriculum vitae"@)
        },
{
    let title = ascii_lowercase(candidate.title@);
    let terms = crate::ranking::profile_terms();
    assert(terms.len() == 4);
    assert(terms[0] == "biography" && terms[1] == "profile" && terms[2] == "office holder"
        && terms[3] == "curriculum vitae");
    if contains_any(title, terms) {
        let i = choose|i: int| 0 <= i < terms.len() && contains(title, (#[trigger] terms[i])@);
        assert(i == 0 || i == 1 || i == 2 || i == 3);
    }
}

/// A search result is authoritative for what it is: a page that the user named and a
/// government page speak for themselves, an encyclopedia is a reference, and the rest
/// is neither.
pub proof fn authority_goes_by_provider_and_host(
    provider: WebProvider,
    candidate: WebCandidate,
)
    ensures
        ({
            let url = candidate.requested_url;
            let host = host_text(url);
            let government = ".gov"@.is_suffix_of(host) || ".gov.sk"@.is_suffix_of(host);
            &&& provider is Direct ==> base_authority(provider, url) is FirstParty
            &&& provider is Wikipedia ==> base_authority(provider, url) is AuthoritativeReference
            &&& !(provider is Direct) && !(provider is Wikipedia) && government ==> base_authority(
                provider,
                url,
            ) is FirstParty
            &&& !(provider is Direct) && !(provider is Wikipedia) && !government ==> base_authority(
                provider,
                url,
            ) is Other
        }),
{
    lemma_official(host_text(candidate.requested_url));
}

/// With a Tavily credential that provider takes the encyclopedia's place; the other
/// provider is asked second in any case.
pub proof fn two_providers_are_asked(configured: bool)
    ensures
        providers_for(configured).len() == 2,
        providers_for(configured)[1] is DuckDuckGo,
        configured ==> providers_for(configured)[0] is Tavily,
        !configured ==> providers_for(configured)[0] is Wikipedia,
{
}

/// A candidate belongs to the organisation asked about where a term of four letters or
/// more is the label of its host before the last, or two different terms together
/// are, and where a public body has a term among its labels.
pub proof fn the_organisation_asked_about_owns_its_host(
    candidate: WebCandidate,
    terms: Seq<Seq<char>>,
    i: int,
    j: int,
)
    requires
        0 <= i < terms.len(),
        0 <= j < terms.len(),
    ensures
        ({
            let host = bare_host(candidate.requested_url);
            let labels = split(host, '.');
            let label = labels[if labels.len() >= 2 {
                labels.len() - 2
            } else {
                0
            }];
            &&& terms[i] == label && label.len() >= 4 ==> owned(candidate, terms)
            &&& i != j && terms[i] + terms[j] == label && label.len() >= 4 ==> owned(
                candidate,
                terms,
            )
            &&& (".gov"@.is_suffix_of(host) || ".gov.sk"@.is_suffix_of(host)
                || ".europa.eu"@.is_suffix_of(host) || ".int"@.is_suffix_of(host))
                && labels.contains(terms[i]) ==> owned(candidate, terms)
            &&& labels.last() == "sk"@ && (label == "prezident"@ || label == "president"@)
                && terms[i] == "slovak"@ && terms[j] == "president"@ ==> owned(candidate, terms)
        }),
{
    let host = bare_host(candidate.requested_url);
    let labels = split(host, '.');
    lemma_official(host);
    crate::text_laws::pieces_joined_make_the_text(host, '.');
    assert(holds(terms, terms[i]));
    assert(holds(terms, terms[j]));
    assert(terms[i] + terms[j] == terms[i] + terms[j]);
    if labels.contains(terms[i]) {
        let k = choose|k: int| 0 <= k < labels.len() && labels[k] == terms[i];
        assert(holds(terms, labels[k]));
    }
}

/// A candidate belongs to no organisation of which the question names nothing: with
/// no term among the labels of its host, and none that with another makes the label
/// before the last, it is owned only as the presidency of the Slovak Republic, where
/// that is asked for.
pub proof fn unnamed_hosts_are_not_owned(candidate: WebCandidate, terms: Seq<Seq<char>>)
    requires
        ({
            let labels = split(bare_host(candidate.requested_url), '.');
            let label = labels[if labels.len() >= 2 {
                labels.len() - 2
            } else {
                0
            }];
            &&& forall|i: int| 0 <= i < terms.len() ==> !labels.contains(#[trigger] terms[i])
            &&& forall|i: int, j: int|
                0 <= i < terms.len() && 0 <= j < terms.len() && i != j ==> #[trigger] (terms[i]
                    + terms[j]) != label
            &&& labels.last() != "sk"@ || !terms.contains("slovak"@) || !terms.contains(
                "president"@,
            ) || label != "prezident"@ && label != "president"@
        }),
    ensures
        !owned(candidate, terms),
{
    let host = bare_host(candidate.requested_url);
    let labels = split(host, '.');
    crate::text_laws::pieces_joined_make_the_text(host, '.');
    let label = owner_label(host);
    assert(labels.contains(label));
    lists_hold_their_texts(terms, "slovak"@);
    lists_hold_their_texts(terms, "president"@);
    if holds(terms, label) {
        let i = choose|i: int| 0 <= i < terms.len() && #[trigger] terms[i] == label;
        assert(!labels.contains(terms[i]));
    }
    if crate::ranking::label_named(labels, terms) {
        let k = choose|k: int| 0 <= k < labels.len() && holds(terms, #[trigger] labels[k]);
        let i = choose|i: int| 0 <= i < terms.len() && #[trigger] terms[i] == labels[k];
        assert(!labels.contains(terms[i]));
    }
}

/// A label of fewer than four letters names no organisation.
pub proof fn short_labels_name_nobody(candidate: WebCandidate, terms: Seq<Seq<char>>)
    requires
        ({
            let host = bare_host(candidate.requested_url);
            let labels = split(host, '.');
            let label = labels[if labels.len() >= 2 {
                labels.len() - 2
            } else {
                0
            }];
            label.len() < 4 && !(".gov"@.is_suffix_of(host) || ".gov.sk"@.is_suffix_of(host)
                || ".europa.eu"@.is_suffix_of(host) || ".int"@.is_suffix_of(host))
        }),
    ensures
        !owned(candidate, terms),
{
    reveal_strlit("prezident");
    reveal_strlit("president");
    let host = bare_host(candidate.requested_url);
    lemma_official(host);
    crate::text_laws::pieces_joined_make_the_text(host, '.');
}

/// The relevance of a candidate grows with the terms that its title, host and path
/// mention: all of them are ten thousand, none of them is nothing.
pub proof fn relevance_is_the_share_of_terms(query: Seq<char>, candidate: WebCandidate)
    ensures
        ({
            let terms = ranking_terms(query);
            let text = ascii_lowercase(candidate.title@) + " "@ + ascii_lowercase(
                host_text(candidate.requested_url),
            ) + " "@ + ascii_lowercase(candidate.requested_url.path@);
            let found = terms.filter(|t: Seq<char>| contains(text, t)).len();
            &&& terms.len() > 0 && found == terms.len() ==> relevance_score(query, candidate)
                == 10000
            &&& found == 0 ==> relevance_score(query, candidate) == 0
            &&& terms.len() > 0 ==> relevance_score(query, candidate) * terms.len() <= found
                * 10000
            &&& terms.len() > 0 ==> found * 10000 < (relevance_score(query, candidate) + 1)
                * terms.len()
        }),
{
    let terms = ranking_terms(query);
    let text = ascii_lowercase(candidate.title@) + " "@ + ascii_lowercase(
        host_text(candidate.requested_url),
    ) + " "@ + ascii_lowercase(candidate.requested_url.path@);
    mentions_are_counted(terms, text);
    terms.lemma_filter_len(|t: Seq<char>| contains(text, t));
    let found = mentioned(terms, text);
    shares_are_rounded_down(found, terms.len());
}

/// A share is the part of the whole in hundredths of a percent, rounded down.
pub proof fn shares_are_rounded_down(part: nat, whole: nat)
    requires
        part <= whole,
    ensures
        whole > 0 ==> crate::relevance::basis_points(part, whole) * whole <= part * 10000 < (
        crate::relevance::basis_points(part, whole) + 1) * whole,
        whole == 0 ==> crate::relevance::basis_points(part, whole) == 0,
        part == whole && whole > 0 ==> crate::relevance::basis_points(part, whole) == 10000,
        part == 0 ==> crate::relevance::basis_points(part, whole) == 0,
{
    if whole > 0 {
        if part < whole {
            let q = part * 10000 / whole;
            assert(q * whole <= part * 10000 < (q + 1) * whole && q < 10000) by (nonlinear_arith)
                requires
                    whole > 0,
                    part < whole,
                    q == part * 10000 / whole,
            ;
            if part == 0 {
                assert(0nat * 10000 / whole == 0) by (nonlinear_arith)
                    requires
                        whole > 0,
                ;
            }
        } else {
            assert(10000 * whole == part * 10000 && part * 10000 < 10001 * whole);
        }
    }
}

} // verus!
