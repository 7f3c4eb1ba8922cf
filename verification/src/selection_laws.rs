//! Which passages of a page are kept, and in which order.

use crate::order::{
    key_less, keys_compare_at_their_first_difference, stable_order, stable_order_ascends,
    stable_order_range,
};
use crate::relevance::{asks_office_holder, relevance};
use crate::selection::{
    context_headings, contextual_text, count_marks, count_numbers, coverage, coverage_keys,
    covering_places, description_key, description_keys, direct_places, direct_selection, fact_key,
    fact_keys, fact_places, fact_quality, first_places, front_matter, greatest_coverage, is_heading,
    is_ranked_for, is_selected_for, is_unreadable, merged, naming_headings, office_of,
    passage_texts, places_without, ranked_authority, selected_contribution, statement_at,
    under_heading,
};
use crate::text::{has_digit, words};
use crate::types::{
    ClaimEvidenceRelevance, EvidenceContribution, EvidenceIntent, EvidencePassage,
    ExtractionLowQualityReason, OperationResult, WebCandidate, WebFetchEvidence,
};
use vstd::prelude::*;

verus! {

/// A heading is a text of at most 120 characters without a digit and without the end of
/// a sentence.
pub proof fn headings_are_short_and_plain(text: Seq<char>)
    ensures
        is_heading(text) <==> text.len() <= 120 && !text.contains('.') && !text.contains('!')
            && !text.contains('?') && text.filter(|c: char| 48 <= c as u32 <= 57).len() == 0,
{
    crate::text_laws::characters_are_picked_in_order(text, '.');
    crate::text_laws::characters_are_picked_in_order(text, '!');
    crate::text_laws::characters_are_picked_in_order(text, '?');
}

/// Ends of sentences and words with digits are counted one by one.
pub proof fn marks_and_numbers_are_counted(text: Seq<char>, parts: Seq<Seq<char>>)
    ensures
        count_marks(text) == text.filter(|c: char| c == '.' || c == '!' || c == '?').len(),
        count_numbers(parts) == parts.filter(|w: Seq<char>| has_digit(w)).len(),
    decreases text.len() + parts.len(),
{
    reveal(Seq::filter);
    if text.len() > 0 {
        marks_and_numbers_are_counted(text.drop_last(), Seq::empty());
    }
    if parts.len() > 0 {
        marks_and_numbers_are_counted(Seq::empty(), parts.drop_last());
    }
}

/// Of two passages of a named page the one with more ends of sentences comes first;
/// with as many, the one with fewer numbers; and then the one with more words.
pub proof fn prose_comes_first(a: Seq<char>, b: Seq<char>)
    requires
        count_marks(a) <= 255,
        count_marks(b) <= 255,
        count_numbers(words(a)) <= 255,
        count_numbers(words(b)) <= 255,
        words(a).len() <= 65535,
        words(b).len() <= 65535,
    ensures
        count_marks(a) > count_marks(b) ==> key_less(description_key(a), description_key(b)),
        count_marks(a) == count_marks(b) && count_numbers(words(a)) < count_numbers(words(b))
            ==> key_less(description_key(a), description_key(b)),
        count_marks(a) == count_marks(b) && count_numbers(words(a)) == count_numbers(words(b))
            && words(a).len() > words(b).len() ==> key_less(
            description_key(a),
            description_key(b),
        ),
{
    let x = description_key(a);
    let y = description_key(b);
    keys_compare_at_their_first_difference(x, y, 0);
    if x[0] == y[0] {
        keys_compare_at_their_first_difference(x, y, 1);
        if x[1] == y[1] {
            keys_compare_at_their_first_difference(x, y, 2);
        }
    }
}

proof fn lemma_front(contents: Seq<Seq<char>>, n: int)
    requires
        0 <= n <= contents.len(),
    ensures
        front_matter(contents, n).len() <= 2,
        forall|k: int|
            0 <= k < front_matter(contents, n).len() ==> 0 <= #[trigger] front_matter(
                contents,
                n,
            )[k] < n && is_heading(contents[front_matter(contents, n)[k]])
                && contents[front_matter(contents, n)[k]].len() >= 3,
        forall|j: int, k: int|
            0 <= j < k < front_matter(contents, n).len() ==> #[trigger] front_matter(
                contents,
                n,
            )[j] < #[trigger] front_matter(contents, n)[k],
        front_matter(contents, n).len() < 2 ==> forall|i: int|
            0 <= i < n && is_heading(#[trigger] contents[i]) && contents[i].len() >= 3
                ==> front_matter(contents, n).contains(i),
    decreases n,
{
    if n > 0 {
        lemma_front(contents, n - 1);
        let before = front_matter(contents, n - 1);
        let after = front_matter(contents, n);
        if after.len() < 2 {
            assert forall|i: int|
                0 <= i < n && is_heading(#[trigger] contents[i]) && contents[i].len()
                    >= 3 implies after.contains(i) by {
                if i < n - 1 {
                    let k = choose|k: int| 0 <= k < before.len() && before[k] == i;
                    assert(after[k] == i);
                } else {
                    assert(after[before.len() as int] == i);
                }
            }
        }
    }
}

/// The headings of three letters or more that open a page are kept in front, two at most
/// and in their order, and none is passed over for a later one.
pub proof fn opening_headings_are_kept(contents: Seq<Seq<char>>)
    ensures
        ({
            let front = front_matter(contents, contents.len() as int);
            &&& front.len() <= 2
            &&& forall|k: int|
                0 <= k < front.len() ==> 0 <= #[trigger] front[k] < contents.len() && is_heading(
                    contents[front[k]],
                ) && contents[front[k]].len() >= 3
            &&& forall|j: int, k: int|
                0 <= j < k < front.len() ==> #[trigger] front[j] < #[trigger] front[k]
            &&& front.len() < 2 ==> forall|i: int|
                0 <= i < contents.len() && is_heading(#[trigger] contents[i]) && contents[i].len()
                    >= 3 ==> front.contains(i)
            &&& front.is_prefix_of(direct_places(contents))
        }),
{
    lemma_front(contents, contents.len() as int);
    let front = front_matter(contents, contents.len() as int);
    assert(direct_places(contents).subrange(0, front.len() as int) =~= front);
}

/// Six passages or fewer are all kept as they are; of more, six at most are kept, each of
/// them a passage of the page.
pub proof fn few_passages_are_all_kept(passages: Seq<EvidencePassage>)
    ensures
        passages.len() <= 6 ==> direct_selection(passages) == passages,
        direct_selection(passages).len() <= 6,
        forall|k: int|
            0 <= k < direct_selection(passages).len() ==> passages.contains(
                #[trigger] direct_selection(passages)[k],
            ),
{
    crate::selection::direct_selections_are_bounded(passages);
    if passages.len() > 6 {
        let contents = passage_texts(passages);
        let n = contents.len() as int;
        let order = stable_order(description_keys(contents), n);
        let front = front_matter(contents, n);
        lemma_front(contents, n);
        stable_order_range(description_keys(contents), n);
        lemma_rest_given(order, front);
        let places = direct_places(contents);
        let rest = places_without(order, front);
        assert forall|k: int| 0 <= k < direct_selection(passages).len() implies passages.contains(
            #[trigger] direct_selection(passages)[k],
        ) by {
            assert(direct_selection(passages)[k] == passages[places[k]]);
            if k < front.len() {
                assert(places[k] == front[k]);
            } else {
                assert(places[k] == rest[k - front.len()]);
                assert(order.contains(rest[k - front.len()]));
                let q = choose|q: int| 0 <= q < order.len() && order[q] == rest[k - front.len()];
                assert(0 <= order[q] < n);
            }
            assert(passages[places[k]] == direct_selection(passages)[k]);
        }
    } else {
        assert forall|k: int| 0 <= k < direct_selection(passages).len() implies passages.contains(
            #[trigger] direct_selection(passages)[k],
        ) by {
            assert(passages[k] == direct_selection(passages)[k]);
        }
    }
}

proof fn lemma_rest_given(order: Seq<int>, taken: Seq<int>)
    ensures
        forall|k: int|
            0 <= k < places_without(order, taken).len() ==> order.contains(
                #[trigger] places_without(order, taken)[k],
            ) && !taken.contains(places_without(order, taken)[k]),
        places_without(order, taken) == order.filter(|i: int| !taken.contains(i)),
    decreases order.len(),
{
    reveal(Seq::filter);
    if order.len() > 0 {
        let rest = order.drop_last();
        lemma_rest_given(rest, taken);
        let before = places_without(rest, taken);
        let after = places_without(order, taken);
        assert forall|k: int| 0 <= k < after.len() implies order.contains(#[trigger] after[k])
            && !taken.contains(after[k]) by {
            if k < before.len() {
                assert(after[k] == before[k]);
                let i = choose|i: int| 0 <= i < rest.len() && rest[i] == before[k];
                assert(order[i] == after[k]);
            } else {
                assert(order[order.len() - 1] == after[k]);
            }
        }
    }
}

/// Of two passages of a search result the one that covers more of the question comes
/// first, and of those that cover as much the one with the number or date asked for.
pub proof fn covering_passages_come_first(a: ClaimEvidenceRelevance, b: ClaimEvidenceRelevance)
    ensures
        a.query_coverage_basis_points > b.query_coverage_basis_points ==> key_less(
            fact_key(a),
            fact_key(b),
        ),
        a.query_coverage_basis_points == b.query_coverage_basis_points
            && a.numeric_or_date_relevant && !b.numeric_or_date_relevant ==> key_less(
            fact_key(a),
            fact_key(b),
        ),
        a.query_coverage_basis_points == b.query_coverage_basis_points
            && a.numeric_or_date_relevant == b.numeric_or_date_relevant ==> fact_key(a) == fact_key(
            b,
        ),
{
    keys_compare_at_their_first_difference(fact_key(a), fact_key(b), 0);
    if fact_key(a)[0] == fact_key(b)[0] {
        keys_compare_at_their_first_difference(fact_key(a), fact_key(b), 1);
    }
}

proof fn lemma_covering(query: Seq<char>, contents: Seq<Seq<char>>, order: Seq<int>)
    ensures
        covering_places(query, contents, order) == order.filter(
            |i: int| coverage(query, contents[i]) > 0,
        ),
    decreases order.len(),
{
    reveal(Seq::filter);
    if order.len() > 0 {
        lemma_covering(query, contents, order.drop_last());
    }
}

proof fn lemma_filter_keeps_order(
    order: Seq<int>,
    keys: Seq<Seq<u64>>,
    pred: spec_fn(int) -> bool,
)
    requires
        crate::order::ascending(order, keys),
    ensures
        crate::order::ascending(order.filter(pred), keys),
        forall|k: int|
            0 <= k < order.filter(pred).len() ==> order.contains(#[trigger] order.filter(pred)[k])
                && pred(order.filter(pred)[k]),
    decreases order.len(),
{
    reveal(Seq::filter);
    if order.len() > 0 {
        let rest = order.drop_last();
        assert forall|p: int, q: int| 0 <= p <= q < rest.len() implies !key_less(
            keys[#[trigger] rest[q]],
            keys[#[trigger] rest[p]],
        ) by {
            assert(rest[p] == order[p] && rest[q] == order[q]);
        }
        lemma_filter_keeps_order(rest, keys, pred);
        let before = rest.filter(pred);
        let after = order.filter(pred);
        assert forall|k: int| 0 <= k < after.len() implies order.contains(#[trigger] after[k])
            && pred(after[k]) by {
            if k < before.len() {
                assert(after[k] == before[k]);
                let i = choose|i: int| 0 <= i < rest.len() && rest[i] == before[k];
                assert(order[i] == after[k]);
            } else {
                assert(order[order.len() - 1] == after[k]);
            }
        }
        assert forall|p: int, q: int| 0 <= p <= q < after.len() implies !key_less(
            keys[#[trigger] after[q]],
            keys[#[trigger] after[p]],
        ) by {
            assert(order.contains(after[p]));
            let i = choose|i: int| 0 <= i < order.len() && order[i] == after[p];
            if q < before.len() {
                assert(after[q] == before[q] && after[p] == before[p]);
            } else {
                assert(after[q] == order[order.len() - 1]);
                assert(!key_less(keys[order[order.len() - 1]], keys[order[i]]));
            }
        }
    }
}

/// The passages that are kept of a search result are six at most, each covers some of
/// the question, and none covers less than one behind it.
pub proof fn kept_passages_cover_the_question(query: Seq<char>, contents: Seq<Seq<char>>)
    ensures
        ({
            let places = fact_places(query, contents);
            &&& places.len() <= 6
            &&& forall|k: int|
                0 <= k < places.len() ==> 0 <= #[trigger] places[k] < contents.len() && coverage(
                    query,
                    contents[places[k]],
                ) > 0
            &&& forall|j: int, k: int|
                0 <= j < k < places.len() ==> coverage(query, contents[#[trigger] places[j]])
                    >= coverage(query, contents[#[trigger] places[k]])
        }),
{
    let n = contents.len() as int;
    let keys = fact_keys(query, contents);
    let order = stable_order(keys, n);
    stable_order_range(keys, n);
    stable_order_ascends(keys, n);
    lemma_covering(query, contents, order);
    let pred = |i: int| coverage(query, contents[i]) > 0;
    lemma_filter_keeps_order(order, keys, pred);
    let list = covering_places(query, contents, order);
    assert(list == order.filter(pred));
    let places = fact_places(query, contents);
    assert forall|k: int| 0 <= k < places.len() implies 0 <= #[trigger] places[k] < contents.len()
        && coverage(query, contents[places[k]]) > 0 by {
        assert(places[k] == list[k]);
        assert(order.contains(list[k]));
        let q = choose|q: int| 0 <= q < order.len() && order[q] == list[k];
        assert(0 <= order[q] < n);
    }
    assert forall|j: int, k: int| 0 <= j < k < places.len() implies coverage(
        query,
        contents[#[trigger] places[j]],
    ) >= coverage(query, contents[#[trigger] places[k]]) by {
        assert(places[j] == list[j] && places[k] == list[k]);
        assert(!key_less(keys[list[k]], keys[list[j]]));
        covering_passages_come_first(
            relevance(query, contents[list[k]]),
            relevance(query, contents[list[j]]),
        );
        assert(keys[list[k]] == fact_key(relevance(query, contents[list[k]])));
        assert(keys[list[j]] == fact_key(relevance(query, contents[list[j]])));
    }
}

/// The coverage of a page is the greatest of its passages.
pub proof fn the_greatest_coverage_counts(query: Seq<char>, contents: Seq<Seq<char>>)
    ensures
        forall|i: int|
            0 <= i < contents.len() ==> coverage(query, #[trigger] contents[i])
                <= greatest_coverage(query, contents),
        greatest_coverage(query, contents) == 0 || exists|i: int|
            0 <= i < contents.len() && coverage(query, #[trigger] contents[i])
                == greatest_coverage(query, contents),
    decreases contents.len(),
{
    if contents.len() > 0 {
        let rest = contents.drop_last();
        the_greatest_coverage_counts(query, rest);
        assert forall|i: int| 0 <= i < rest.len() implies #[trigger] contents[i] == rest[i] by {}
        assert(contents[contents.len() - 1] == contents.last());
        if greatest_coverage(query, contents) != 0 && greatest_coverage(query, contents)
            == greatest_coverage(query, rest) {
            let i = choose|i: int|
                0 <= i < rest.len() && coverage(query, #[trigger] rest[i]) == greatest_coverage(
                    query,
                    rest,
                );
            assert(contents[i] == rest[i]);
        }
    }
}

/// A page that covers nothing of the question is of low quality, and so is one without
/// a passage that bears on it; any other is not.
pub proof fn pages_without_an_answer_are_of_low_quality(query: Seq<char>, contents: Seq<Seq<char>>)
    ensures
        (forall|i: int| 0 <= i < contents.len() ==> coverage(query, #[trigger] contents[i]) == 0)
            ==> fact_quality(query, contents) == Some(
            ExtractionLowQualityReason::LowQueryCoverage,
        ),
        fact_quality(query, contents) is None ==> exists|i: int|
            0 <= i < contents.len() && relevance(query, #[trigger] contents[i]).eligible,
        (exists|i: int| 0 <= i < contents.len() && coverage(query, #[trigger] contents[i]) > 0) && (
        forall|i: int| 0 <= i < contents.len() ==> !relevance(query, #[trigger] contents[i]).eligible)
            ==> fact_quality(query, contents) == Some(
            ExtractionLowQualityReason::NoClaimRelevantPassage,
        ),
        (exists|i: int|
            0 <= i < contents.len() && relevance(query, #[trigger] contents[i]).eligible
                && coverage(query, contents[i]) > 0) ==> fact_quality(query, contents) is None,
{
    the_greatest_coverage_counts(query, contents);
}

/// A passage that answers by itself is kept as it stands, and so is one without a digit
/// where no office is asked for.
pub proof fn answers_are_kept_as_they_stand(
    query: Seq<char>,
    contents: Seq<Seq<char>>,
    official: bool,
    i: int,
)
    requires
        0 <= i < contents.len(),
    ensures
        relevance(query, contents[i]).eligible ==> contextual_text(query, contents, official, i)
            == contents[i],
        !has_digit(contents[i]) && (!official || !asks_office_holder(query)) ==> contextual_text(
            query,
            contents,
            official,
            i,
        ) == contents[i],
        contextual_text(query, contents, official, i) != contents[i] ==> relevance(
            query,
            contextual_text(query, contents, official, i),
        ).eligible,
{
    let headings = context_headings(query, contents);
    lemma_under_eligible(query, headings, contents[i]);
    lemma_under_eligible(query, headings, statement_at(query, contents, i));
    lemma_office_eligible(query, headings, contents[i].skip(13));
}

proof fn lemma_under_eligible(query: Seq<char>, headings: Seq<Seq<char>>, statement: Seq<char>)
    ensures
        under_heading(query, headings, statement) matches Some(text) ==> relevance(
            query,
            text,
        ).eligible && text.len() <= 1200 && exists|k: int|
            0 <= k < headings.len() && text == #[trigger] headings[k] + ": "@ + statement,
    decreases headings.len(),
{
    if headings.len() > 0 {
        let rest = headings.drop_last();
        lemma_under_eligible(query, rest, statement);
        match under_heading(query, rest, statement) {
            Some(text) => {
                let k = choose|k: int|
                    0 <= k < rest.len() && text == #[trigger] rest[k] + ": "@ + statement;
                assert(headings[k] == rest[k]);
            },
            None => {
                assert(headings[headings.len() - 1] == headings.last());
            },
        }
    }
}

proof fn lemma_office_eligible(query: Seq<char>, headings: Seq<Seq<char>>, person: Seq<char>)
    ensures
        crate::selection::office_of(query, headings, person) matches Some(text) ==> relevance(
            query,
            text,
        ).eligible && exists|k: int|
            0 <= k < headings.len() && text == person + " is "@ + #[trigger] headings[k] + "."@,
    decreases headings.len(),
{
    if headings.len() > 0 {
        let rest = headings.drop_last();
        lemma_office_eligible(query, rest, person);
        match crate::selection::office_of(query, rest, person) {
            Some(text) => {
                let k = choose|k: int|
                    0 <= k < rest.len() && text == person + " is "@ + #[trigger] rest[k] + "."@;
                assert(headings[k] == rest[k]);
            },
            None => {
                assert(headings[headings.len() - 1] == headings.last());
            },
        }
    }
}

/// A page of the organisation asked about speaks for itself; any other keeps the
/// authority that it had.
pub proof fn authority_is_raised_for_the_owner(
    query: Seq<char>,
    candidate: WebCandidate,
    evidence: WebFetchEvidence,
)
    ensures
        query.len() == 0 ==> ranked_authority(query, candidate, evidence) == evidence.authority,
        evidence.authority is FirstParty ==> ranked_authority(query, candidate, evidence)
            is FirstParty,
        ranked_authority(query, candidate, evidence) is FirstParty || ranked_authority(
            query,
            candidate,
            evidence,
        ) == evidence.authority,
        query.len() > 0 && crate::ranking::owned(
            WebCandidate { requested_url: evidence.final_url, ..candidate },
            crate::relevance::ranking_terms(query),
        ) ==> ranked_authority(query, candidate, evidence) is FirstParty,
{
}

/// Selecting changes the passages and, for a question, the coverage and the reason of
/// low quality; whatever else a page says of itself stays.
pub proof fn selection_changes_passages_alone(
    intent: EvidenceIntent,
    before: WebFetchEvidence,
    after: WebFetchEvidence,
)
    requires
        is_selected_for(intent, before, after),
    ensures
        after.evidence_id == before.evidence_id,
        after.candidate_id == before.candidate_id,
        after.requested_url == before.requested_url,
        after.final_url == before.final_url,
        after.redirect_chain == before.redirect_chain,
        after.http_status == before.http_status,
        after.content_type == before.content_type,
        after.bytes_read == before.bytes_read,
        after.characters_extracted == before.characters_extracted,
        after.extraction == before.extraction,
        after.page_owner_identity_bound == before.page_owner_identity_bound,
        after.authority == before.authority,
        after.source_identity == before.source_identity,
        after.links == before.links,
        after.quality.boilerplate_ratio_basis_points
            == before.quality.boilerplate_ratio_basis_points,
        after.quality.useful_text_length == before.quality.useful_text_length,
        before.quality.low_quality_reason == Some(ExtractionLowQualityReason::TooLittleUsefulText)
            || before.quality.low_quality_reason == Some(
            ExtractionLowQualityReason::MostlyBoilerplate,
        ) ==> after.passages@.len() == 0,
        intent is WebFact ==> after.passages@.len() <= 6,
        intent is WebDirectPage ==> after.passages@.len() <= 6,
{
    if !is_unreadable(before.quality) {
        match intent {
            EvidenceIntent::WebDirectPage { .. } => {
                crate::selection::direct_selections_are_bounded(before.passages@);
            },
            EvidenceIntent::WebFact { query, .. } => {
                let contents = crate::selection::contextual_texts(
                    query@,
                    passage_texts(before.passages@),
                    before.authority is FirstParty,
                );
                kept_passages_cover_the_question(query@, contents);
            },
            _ => {},
        }
    }
}

/// A kept passage of a search result is a passage of the page under its own identifier.
pub proof fn kept_passages_keep_their_identifier(
    query: Seq<char>,
    before: WebFetchEvidence,
    after: WebFetchEvidence,
    k: int,
)
    requires
        is_ranked_for(query, before, after),
        0 <= k < after.passages@.len(),
    ensures
        exists|i: int|
            0 <= i < before.passages@.len() && after.passages@[k].passage_id == (
            #[trigger] before.passages@[i]).passage_id && after.passages@[k].truncated
                == before.passages@[i].truncated && after.passages@[k].text@ == contextual_text(
                query,
                passage_texts(before.passages@),
                before.authority is FirstParty,
                i,
            ),
{
    let contents = crate::selection::contextual_texts(
        query,
        passage_texts(before.passages@),
        before.authority is FirstParty,
    );
    kept_passages_cover_the_question(query, contents);
    let places = fact_places(query, contents);
    let i = places[k];
    assert(after.passages@[k].passage_id == before.passages@[i].passage_id);
}

/// A retried operation counts the attempts, the time and the unreadable items of both,
/// and says what the retry brought under the key of the first.
pub proof fn retries_add_up<T>(first: OperationResult<T>, retry: OperationResult<T>)
    ensures
        merged(first, retry).key == first.key,
        merged(first, retry).execution == retry.execution,
        merged(first, retry).contribution == retry.contribution,
        merged(first, retry).value == retry.value,
        first.attempts + retry.attempts <= 255 ==> merged(first, retry).attempts == first.attempts
            + retry.attempts,
        first.attempts + retry.attempts > 255 ==> merged(first, retry).attempts == 255,
        first.duration_ms + retry.duration_ms <= u64::MAX ==> merged(first, retry).duration_ms
            == first.duration_ms + retry.duration_ms,
        first.duration_ms + retry.duration_ms > u64::MAX ==> merged(first, retry).duration_ms
            == u64::MAX,
        first.invalid_items + retry.invalid_items <= 255 ==> merged(first, retry).invalid_items
            == first.invalid_items + retry.invalid_items,
        first.invalid_items + retry.invalid_items > 255 ==> merged(first, retry).invalid_items
            == 255,
{
}

/// A page that could not be read, or that leaves nothing for a question, contributes
/// nothing; any other contributes what it did.
pub proof fn empty_selections_are_irrelevant(
    intent: EvidenceIntent,
    contribution: EvidenceContribution,
    before: WebFetchEvidence,
    after: WebFetchEvidence,
)
    ensures
        intent is WebFact && after.passages@.len() == 0 ==> selected_contribution(
            intent,
            contribution,
            before,
            after,
        ) is Irrelevant,
        before.quality.low_quality_reason is None && after.passages@.len() > 0
            ==> selected_contribution(intent, contribution, before, after) == contribution,
{
}

/// The headings under which a statement may stand are those of the page that name
/// something of the question, in their order.
pub proof fn naming_headings_stand_in_page_order(query: Seq<char>, contents: Seq<Seq<char>>)
    ensures
        naming_headings(query, contents) == contents.filter(
            |c: Seq<char>| is_heading(c) && coverage(query, c) > 0,
        ),
    decreases contents.len(),
{
    reveal(Seq::filter);
    let names = |c: Seq<char>| is_heading(c) && coverage(query, c) > 0;
    if contents.len() > 0 {
        naming_headings_stand_in_page_order(query, contents.drop_last());
    } else {
        assert(contents.filter(names) =~= naming_headings(query, contents));
    }
}

/// Those that name more of the question come first.
pub proof fn headings_that_name_most_come_first(
    query: Seq<char>,
    contents: Seq<Seq<char>>,
    i: int,
    j: int,
)
    requires
        0 <= i < j < naming_headings(query, contents).len(),
    ensures
        context_headings(query, contents).len() == naming_headings(query, contents).len(),
        coverage(query, context_headings(query, contents)[i]) >= coverage(
            query,
            context_headings(query, contents)[j],
        ),
        naming_headings(query, contents).contains(context_headings(query, contents)[i]),
{
    let list = naming_headings(query, contents);
    let keys = coverage_keys(query, list);
    let order = stable_order(keys, list.len() as int);
    stable_order_range(keys, list.len() as int);
    stable_order_ascends(keys, list.len() as int);
    let a = keys[order[i]];
    let b = keys[order[j]];
    if coverage(query, list[order[i]]) < coverage(query, list[order[j]]) {
        keys_compare_at_their_first_difference(b, a, 0);
    }
    assert(list[order[i]] == context_headings(query, contents)[i]);
}

/// A named page keeps its first headings and then the best of its other passages, six
/// in all, or every one of them where there are fewer.
pub proof fn six_passages_are_kept_of_a_page(contents: Seq<Seq<char>>)
    ensures
        ({
            let front = front_matter(contents, contents.len() as int);
            let others = places_without(
                stable_order(description_keys(contents), contents.len() as int),
                front,
            );
            let kept = direct_places(contents);
            &&& front.is_prefix_of(kept)
            &&& front.len() <= 6 ==> kept.skip(front.len() as int).is_prefix_of(others)
            &&& front.len() <= 6 ==> kept.len() == 6 || kept.len() == front.len() + others.len()
            &&& front.len() <= 6 ==> kept.len() <= 6
        }),
{
    let front = front_matter(contents, contents.len() as int);
    let others = places_without(
        stable_order(description_keys(contents), contents.len() as int),
        front,
    );
    let kept = direct_places(contents);
    if front.len() <= 6 {
        let rest = first_places(others, 6 - front.len());
        assert(kept.skip(front.len() as int) =~= rest);
    }
}

/// A question keeps the passages that share a term with it, in the order of what they
/// share: six, or all of them where there are fewer.
pub proof fn six_passages_are_kept_for_a_question(query: Seq<char>, contents: Seq<Seq<char>>)
    ensures
        ({
            let sharing = covering_places(
                query,
                contents,
                stable_order(fact_keys(query, contents), contents.len() as int),
            );
            let kept = fact_places(query, contents);
            &&& kept.is_prefix_of(sharing)
            &&& sharing.len() <= 6 ==> kept == sharing
            &&& sharing.len() >= 6 ==> kept.len() == 6
        }),
{
}

/// A statement stands by itself; only for the holder of an office does it follow the
/// heading right before it, where that names nothing of the question.
pub proof fn statements_follow_their_heading(query: Seq<char>, contents: Seq<Seq<char>>, i: int)
    requires
        0 <= i < contents.len(),
    ensures
        ({
            let led = i > 0 && is_heading(contents[i - 1]) && coverage(query, contents[i - 1]) == 0;
            &&& asks_office_holder(query) && led ==> statement_at(query, contents, i) == contents[i
                - 1] + ": "@ + contents[i]
            &&& !asks_office_holder(query) || !led ==> statement_at(query, contents, i)
                == contents[i]
        }),
{
}

/// What a passage is read as: itself where it answers; with a figure in it, its
/// statement under a heading that makes it answer, or the passage under one, where
/// there is one; and on an official page the title of a biography as its person's
/// office.
pub proof fn passages_are_read_in_context(
    query: Seq<char>,
    contents: Seq<Seq<char>>,
    official: bool,
    i: int,
    person: Seq<char>,
)
    requires
        0 <= i < contents.len(),
    ensures
        ({
            let text = contents[i];
            let headings = context_headings(query, contents);
            let read = contextual_text(query, contents, official, i);
            let plain = under_heading(query, headings, text);
            let stated = under_heading(query, headings, statement_at(query, contents, i));
            &&& relevance(query, text).eligible ==> read == text
            &&& !relevance(query, text).eligible && has_digit(text) ==> {
                &&& plain is None ==> read == text
                &&& plain is Some && stated is Some ==> read == stated->0
                &&& plain is Some && stated is None ==> read == plain->0
            }
            &&& !relevance(query, text).eligible && !has_digit(text) && text == "Biography of "@
                + person ==> {
                let office = office_of(query, headings, person);
                &&& official && asks_office_holder(query) && is_heading(text) && office is Some
                    ==> read == office->0
                &&& !official || !asks_office_holder(query) || !is_heading(text) || office is None
                    ==> read == text
            }
        }),
{
    reveal_strlit("Biography of ");
    if contents[i] == "Biography of "@ + person {
        assert(contents[i].skip(13) =~= person);
        crate::text_laws::contained_texts_are_stretches(contents[i], "Biography of "@);
        assert("Biography of "@.is_prefix_of(contents[i])) by {
            assert(contents[i].subrange(0, 13) =~= "Biography of "@);
        }
    }
}

/// Under the first heading that makes it answer a statement is read behind it, and a
/// person as its holder.
pub proof fn the_first_fitting_heading_is_taken(
    query: Seq<char>,
    headings: Seq<Seq<char>>,
    more: Seq<char>,
    text: Seq<char>,
)
    ensures
        under_heading(query, Seq::empty(), text) is None,
        office_of(query, Seq::empty(), text) is None,
        under_heading(query, headings, text) is Some ==> under_heading(
            query,
            headings.push(more),
            text,
        ) == under_heading(query, headings, text),
        under_heading(query, headings, text) is None ==> {
            let read = more + ": "@ + text;
            under_heading(query, headings.push(more), text) == if read.len() <= 1200 && relevance(
                query,
                read,
            ).eligible {
                Some(read)
            } else {
                None
            }
        },
        office_of(query, headings, text) is Some ==> office_of(query, headings.push(more), text)
            == office_of(query, headings, text),
        office_of(query, headings, text) is None ==> {
            let read = text + " is "@ + more + "."@;
            office_of(query, headings.push(more), text) == if relevance(query, read).eligible {
                Some(read)
            } else {
                None
            }
        },
{
    assert(headings.push(more).drop_last() =~= headings);
}

} // verus!
