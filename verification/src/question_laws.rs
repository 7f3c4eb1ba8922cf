//! What a question asks for and which text answers it, said of the words in them.

use crate::json::{field_index, lookup, parsed_json, Json};
use crate::jsonld::{
    field_address, first_text, is_bound, item_claims, measurement_claim, object_claims, role_claim,
    scalar_text, script_claims, trimmed_text, value_claims,
};
use crate::numeric::{
    claim_number_from, counts_as_claim, date_headings, definition_headings, figure_headings,
    figure_year, figures, figures_in, has_scope, heading_index, in_number, names_date, non_years,
    number_end, outside_figure, quantity_terms, row_claim, scope_terms, sole_figure, sole_year,
    value_claim, years_of,
};
use crate::order::{same_texts, sorted_set_holds_each_text_once};
use crate::ranking_laws::{shared_terms_are_counted, shares_are_rounded_down};
use crate::relevance::{
    ascii_words, asks_number, asks_number_or_date, asks_office_holder, covered,
    holder_question_terms, holder_relation_terms, number_or_date_terms, number_terms, ranking_terms,
    relevance, salient, spaced, states_office_holder, stem, stop_words,
};
use crate::text::{
    ascii_lowercase, contains, contains_any, decimal, digits_of, digits_value, has_digit, holds,
    is_digit, is_one_of, trim,
};
use crate::text_laws::stripping_leaves_the_core;
use crate::weburl::{normalized_url_text, parsed_url, WebUrl};
use vstd::prelude::*;

verus! {

proof fn lemma_stop_words(s: Seq<char>)
    ensures
        is_one_of(s, stop_words()) <==> s == "a"@
            || s == "an"@
            || s == "and"@
            || s == "are"@
            || s == "cite"@
            || s == "cited"@
            || s == "claim"@
            || s == "current"@
            || s == "each"@
            || s == "fetched"@
            || s == "first"@
            || s == "for"@
            || s == "from"@
            || s == "how"@
            || s == "independent"@
            || s == "is"@
            || s == "latest"@
            || s == "of"@
            || s == "on"@
            || s == "official"@
            || s == "party"@
            || s == "preserve"@
            || s == "reliable"@
            || s == "source"@
            || s == "the"@
            || s == "today"@
            || s == "use"@
            || s == "using"@
            || s == "verify"@
            || s == "what"@
            || s == "website"@
            || s == "which"@
            || s == "who"@
            || s == "with"@,
{
    let terms = stop_words();
    assert(terms.len() == 34);
    assert(terms[0] == "a");
    assert(terms[1] == "an");
    assert(terms[2] == "and");
    assert(terms[3] == "are");
    assert(terms[4] == "cite");
    assert(terms[5] == "cited");
    assert(terms[6] == "claim");
    assert(terms[7] == "current");
    assert(terms[8] == "each");
    assert(terms[9] == "fetched");
    assert(terms[10] == "first");
    assert(terms[11] == "for");
    assert(terms[12] == "from");
    assert(terms[13] == "how");
    assert(terms[14] == "independent");
    assert(terms[15] == "is");
    assert(terms[16] == "latest");
    assert(terms[17] == "of");
    assert(terms[18] == "on");
    assert(terms[19] == "official");
    assert(terms[20] == "party");
    assert(terms[21] == "preserve");
    assert(terms[22] == "reliable");
    assert(terms[23] == "source");
    assert(terms[24] == "the");
    assert(terms[25] == "today");
    assert(terms[26] == "use");
    assert(terms[27] == "using");
    assert(terms[28] == "verify");
    assert(terms[29] == "what");
    assert(terms[30] == "website");
    assert(terms[31] == "which");
    assert(terms[32] == "who");
    assert(terms[33] == "with");
    if is_one_of(s, terms) {
        let i = choose|i: int| 0 <= i < terms.len() && (#[trigger] terms[i])@ == s;
        assert(i == 0 || i == 1 || i == 2 || i == 3 || i == 4 || i == 5 || i == 6 || i == 7 || i == 8 || i == 9 || i == 10 || i == 11 || i == 12 || i == 13 || i == 14 || i == 15 || i == 16 || i == 17 || i == 18 || i == 19 || i == 20 || i == 21 || i == 22 || i == 23 || i == 24 || i == 25 || i == 26 || i == 27 || i == 28 || i == 29 || i == 30 || i == 31 || i == 32 || i == 33);
    }
}

proof fn lemma_number_terms(s: Seq<char>)
    ensures
        contains_any(s, number_terms()) <==> contains(s, "population"@)
            || contains(s, "price"@)
            || contains(s, "cost"@)
            || contains(s, "rate"@)
            || contains(s, "percent"@)
            || contains(s, "number"@)
            || contains(s, "value"@)
            || contains(s, "figure"@)
            || contains(s, "height"@)
            || contains(s, "elevation"@)
            || contains(s, "how many"@)
            || contains(s, "how much"@),
{
    let terms = number_terms();
    assert(terms.len() == 12);
    assert(terms[0] == "population");
    assert(terms[1] == "price");
    assert(terms[2] == "cost");
    assert(terms[3] == "rate");
    assert(terms[4] == "percent");
    assert(terms[5] == "number");
    assert(terms[6] == "value");
    assert(terms[7] == "figure");
    assert(terms[8] == "height");
    assert(terms[9] == "elevation");
    assert(terms[10] == "how many");
    assert(terms[11] == "how much");
    if contains_any(s, terms) {
        let i = choose|i: int| 0 <= i < terms.len() && contains(s, (#[trigger] terms[i])@);
        assert(i == 0 || i == 1 || i == 2 || i == 3 || i == 4 || i == 5 || i == 6 || i == 7 || i == 8 || i == 9 || i == 10 || i == 11);
    }
}

proof fn lemma_number_or_date_terms(s: Seq<char>)
    ensures
        contains_any(s, number_or_date_terms()) <==> contains(s, "population"@)
            || contains(s, "price"@)
            || contains(s, "cost"@)
            || contains(s, "rate"@)
            || contains(s, "percent"@)
            || contains(s, "number"@)
            || contains(s, "value"@)
            || contains(s, "figure"@)
            || contains(s, "height"@)
            || contains(s, "elevation"@)
            || contains(s, "how many"@)
            || contains(s, "how much"@)
            || contains(s, "date"@)
            || contains(s, "year"@),
{
    let terms = number_or_date_terms();
    assert(terms.len() == 14);
    assert(terms[0] == "population");
    assert(terms[1] == "price");
    assert(terms[2] == "cost");
    assert(terms[3] == "rate");
    assert(terms[4] == "percent");
    assert(terms[5] == "number");
    assert(terms[6] == "value");
    assert(terms[7] == "figure");
    assert(terms[8] == "height");
    assert(terms[9] == "elevation");
    assert(terms[10] == "how many");
    assert(terms[11] == "how much");
    assert(terms[12] == "date");
    assert(terms[13] == "year");
    if contains_any(s, terms) {
        let i = choose|i: int| 0 <= i < terms.len() && contains(s, (#[trigger] terms[i])@);
        assert(i == 0 || i == 1 || i == 2 || i == 3 || i == 4 || i == 5 || i == 6 || i == 7 || i == 8 || i == 9 || i == 10 || i == 11 || i == 12 || i == 13);
    }
}

proof fn lemma_holder_question_terms(s: Seq<char>)
    ensures
        contains_any(s, holder_question_terms()) <==> contains(s, " who "@)
            || contains(s, " name "@)
            || contains(s, " current "@)
            || contains(s, " office holder "@)
            || contains(s, " serves as "@),
{
    let terms = holder_question_terms();
    assert(terms.len() == 5);
    assert(terms[0] == " who ");
    assert(terms[1] == " name ");
    assert(terms[2] == " current ");
    assert(terms[3] == " office holder ");
    assert(terms[4] == " serves as ");
    if contains_any(s, terms) {
        let i = choose|i: int| 0 <= i < terms.len() && contains(s, (#[trigger] terms[i])@);
        assert(i == 0 || i == 1 || i == 2 || i == 3 || i == 4);
    }
}

proof fn lemma_holder_relation_terms(s: Seq<char>)
    ensures
        contains_any(s, holder_relation_terms()) <==> contains(s, " is "@)
            || contains(s, " serves as "@)
            || contains(s, " was elected "@)
            || contains(s, " elected president "@)
            || contains(s, " assumed office "@)
            || contains(s, " took office "@)
            || contains(s, " became president "@),
{
    let terms = holder_relation_terms();
    assert(terms.len() == 7);
    assert(terms[0] == " is ");
    assert(terms[1] == " serves as ");
    assert(terms[2] == " was elected ");
    assert(terms[3] == " elected president ");
    assert(terms[4] == " assumed office ");
    assert(terms[5] == " took office ");
    assert(terms[6] == " became president ");
    if contains_any(s, terms) {
        let i = choose|i: int| 0 <= i < terms.len() && contains(s, (#[trigger] terms[i])@);
        assert(i == 0 || i == 1 || i == 2 || i == 3 || i == 4 || i == 5 || i == 6);
    }
}

proof fn lemma_scope_terms(s: Seq<char>)
    ensures
        contains_any(s, scope_terms()) <==> contains(s, "city proper"@)
            || contains(s, "municipal"@)
            || contains(s, "metropolitan"@)
            || contains(s, "urban area"@)
            || contains(s, "census"@)
            || contains(s, "estimate"@)
            || contains(s, "official"@)
            || contains(s, "summit"@)
            || contains(s, "above sea level"@)
            || contains(s, "geoid"@)
            || contains(s, "measured"@),
{
    let terms = scope_terms();
    assert(terms.len() == 11);
    assert(terms[0] == "city proper");
    assert(terms[1] == "municipal");
    assert(terms[2] == "metropolitan");
    assert(terms[3] == "urban area");
    assert(terms[4] == "census");
    assert(terms[5] == "estimate");
    assert(terms[6] == "official");
    assert(terms[7] == "summit");
    assert(terms[8] == "above sea level");
    assert(terms[9] == "geoid");
    assert(terms[10] == "measured");
    if contains_any(s, terms) {
        let i = choose|i: int| 0 <= i < terms.len() && contains(s, (#[trigger] terms[i])@);
        assert(i == 0 || i == 1 || i == 2 || i == 3 || i == 4 || i == 5 || i == 6 || i == 7 || i == 8 || i == 9 || i == 10);
    }
}

proof fn lemma_quantity_terms(s: Seq<char>)
    ensures
        contains_any(s, quantity_terms()) <==> contains(s, "population"@)
            || contains(s, "height"@)
            || contains(s, "elevation"@)
            || contains(s, "rate"@)
            || contains(s, "percent"@)
            || contains(s, "number"@),
{
    let terms = quantity_terms();
    assert(terms.len() == 6);
    assert(terms[0] == "population");
    assert(terms[1] == "height");
    assert(terms[2] == "elevation");
    assert(terms[3] == "rate");
    assert(terms[4] == "percent");
    assert(terms[5] == "number");
    if contains_any(s, terms) {
        let i = choose|i: int| 0 <= i < terms.len() && contains(s, (#[trigger] terms[i])@);
        assert(i == 0 || i == 1 || i == 2 || i == 3 || i == 4 || i == 5);
    }
}

proof fn lemma_figure_headings(s: Seq<char>)
    ensures
        contains_any(s, figure_headings()) <==> contains(s, "figure"@)
            || contains(s, "value"@)
            || contains(s, "population"@)
            || contains(s, "height"@)
            || contains(s, "elevation"@)
            || contains(s, "rate"@)
            || contains(s, "percent"@)
            || contains(s, "number"@),
{
    let terms = figure_headings();
    assert(terms.len() == 8);
    assert(terms[0] == "figure");
    assert(terms[1] == "value");
    assert(terms[2] == "population");
    assert(terms[3] == "height");
    assert(terms[4] == "elevation");
    assert(terms[5] == "rate");
    assert(terms[6] == "percent");
    assert(terms[7] == "number");
    if contains_any(s, terms) {
        let i = choose|i: int| 0 <= i < terms.len() && contains(s, (#[trigger] terms[i])@);
        assert(i == 0 || i == 1 || i == 2 || i == 3 || i == 4 || i == 5 || i == 6 || i == 7);
    }
}

proof fn lemma_definition_headings(s: Seq<char>)
    ensures
        contains_any(s, definition_headings()) <==> contains(s, "definition"@)
            || contains(s, "scope"@)
            || contains(s, "type"@)
            || contains(s, "area"@),
{
    let terms = definition_headings();
    assert(terms.len() == 4);
    assert(terms[0] == "definition");
    assert(terms[1] == "scope");
    assert(terms[2] == "type");
    assert(terms[3] == "area");
    if contains_any(s, terms) {
        let i = choose|i: int| 0 <= i < terms.len() && contains(s, (#[trigger] terms[i])@);
        assert(i == 0 || i == 1 || i == 2 || i == 3);
    }
}

proof fn lemma_date_headings(s: Seq<char>)
    ensures
        contains_any(s, date_headings()) <==> contains(s, "date"@)
            || contains(s, "year"@)
            || contains(s, "as of"@)
            || contains(s, "reference"@),
{
    let terms = date_headings();
    assert(terms.len() == 4);
    assert(terms[0] == "date");
    assert(terms[1] == "year");
    assert(terms[2] == "as of");
    assert(terms[3] == "reference");
    if contains_any(s, terms) {
        let i = choose|i: int| 0 <= i < terms.len() && contains(s, (#[trigger] terms[i])@);
        assert(i == 0 || i == 1 || i == 2 || i == 3);
    }
}

/// A word that carries meaning: three letters or more, and none of these.
pub open spec fn carries_meaning(word: Seq<char>) -> bool {
    &&& word.len() >= 3
    &&& word != "a"@
    &&& word != "an"@
    &&& word != "and"@
    &&& word != "are"@
    &&& word != "cite"@
    &&& word != "cited"@
    &&& word != "claim"@
    &&& word != "current"@
    &&& word != "each"@
    &&& word != "fetched"@
    &&& word != "first"@
    &&& word != "for"@
    &&& word != "from"@
    &&& word != "how"@
    &&& word != "independent"@
    &&& word != "is"@
    &&& word != "latest"@
    &&& word != "of"@
    &&& word != "on"@
    &&& word != "official"@
    &&& word != "party"@
    &&& word != "preserve"@
    &&& word != "reliable"@
    &&& word != "source"@
    &&& word != "the"@
    &&& word != "today"@
    &&& word != "use"@
    &&& word != "using"@
    &&& word != "verify"@
    &&& word != "what"@
    &&& word != "website"@
    &&& word != "which"@
    &&& word != "who"@
    &&& word != "with"@
}

/// The terms of a question are the stems of its words that carry meaning, and no others.
pub proof fn terms_are_the_meaningful_words(query: Seq<char>, term: Seq<char>)
    ensures
        ranking_terms(query).contains(term) <==> exists|i: int|
            0 <= i < ascii_words(ascii_lowercase(query)).len() && carries_meaning(
                #[trigger] ascii_words(ascii_lowercase(query))[i],
            ) && term == stem(ascii_words(ascii_lowercase(query))[i]),
{
    let parts = ascii_words(ascii_lowercase(query));
    sorted_set_holds_each_text_once(salient(parts));
    assert(same_texts(ranking_terms(query), salient(parts)));
    lemma_salient_members(parts, term);
    lemma_holds(ranking_terms(query), term);
    lemma_holds(salient(parts), term);
}

proof fn lemma_holds(list: Seq<Seq<char>>, term: Seq<char>)
    ensures
        holds(list, term) <==> list.contains(term),
{
    crate::text_laws::lists_hold_their_texts(list, term);
}

proof fn lemma_salient_members(parts: Seq<Seq<char>>, term: Seq<char>)
    ensures
        salient(parts).contains(term) <==> exists|i: int|
            0 <= i < parts.len() && carries_meaning(#[trigger] parts[i]) && term == stem(parts[i]),
    decreases parts.len(),
{
    if parts.len() > 0 {
        let rest = parts.drop_last();
        lemma_salient_members(rest, term);
        lemma_stop_words(parts.last());
        assert(parts[parts.len() - 1] == parts.last());
        let list = salient(parts);
        let before = salient(rest);
        if list.contains(term) {
            let k = choose|k: int| 0 <= k < list.len() && list[k] == term;
            if k < before.len() {
                assert(before[k] == term);
                let i = choose|i: int|
                    0 <= i < rest.len() && carries_meaning(#[trigger] rest[i]) && term == stem(
                        rest[i],
                    );
                assert(parts[i] == rest[i]);
            }
        }
        if exists|i: int|
            0 <= i < parts.len() && carries_meaning(#[trigger] parts[i]) && term == stem(
                parts[i],
            ) {
            let i = choose|i: int|
                0 <= i < parts.len() && carries_meaning(#[trigger] parts[i]) && term == stem(
                    parts[i],
                );
            if i < rest.len() {
                assert(rest[i] == parts[i]);
                let k = choose|k: int| 0 <= k < before.len() && before[k] == term;
                assert(list[k] == term);
            } else {
                assert(list[before.len() as int] == term);
            }
        }
    }
}

/// A word is taken by its stem: a longer plural without its last letter, the country by
/// its people and the office by its holder; any other word as it is.
pub proof fn words_are_taken_by_their_stem(word: Seq<char>)
    ensures
        word == "slovakia"@ || word == "slovak"@ ==> stem(word) == "slovak"@,
        word == "presidential"@ ==> stem(word) == "president"@,
        word != "slovakia"@ && word != "presidential"@ && word.len() >= 5 && word.last() == 's'
            ==> stem(word) == word.drop_last(),
        word != "slovakia"@ && word != "presidential"@ && (word.len() < 5 || word.last() != 's')
            ==> stem(word) == word,
{
    reveal_strlit("slovakia");
    reveal_strlit("slovak");
    reveal_strlit("presidential");
    reveal_strlit("president");
    assert("slovakia"@.len() == 8 && "slovak"@.len() == 6 && "presidential"@.len() == 12
        && "president"@.len() == 9);
    assert("slovak"@[5] == 'k' && "president"@[8] == 't');
    assert("president"@.last() == 't' && "slovak"@.last() == 'k');
}

/// A question asks for a number, or for a number or a date, exactly where it holds one
/// of these words.
pub proof fn numbers_are_asked_for_by_these_words(query: Seq<char>)
    ensures
        asks_number(query) <==> {
            let q = ascii_lowercase(query);
            ||| contains(q, "population"@)
            ||| contains(q, "price"@)
            ||| contains(q, "cost"@)
            ||| contains(q, "rate"@)
            ||| contains(q, "percent"@)
            ||| contains(q, "number"@)
            ||| contains(q, "value"@)
            ||| contains(q, "figure"@)
            ||| contains(q, "height"@)
            ||| contains(q, "elevation"@)
            ||| contains(q, "how many"@)
            ||| contains(q, "how much"@)
        },
        asks_number_or_date(query) <==> {
            let q = ascii_lowercase(query);
            ||| contains(q, "population"@)
            ||| contains(q, "price"@)
            ||| contains(q, "cost"@)
            ||| contains(q, "rate"@)
            ||| contains(q, "percent"@)
            ||| contains(q, "number"@)
            ||| contains(q, "value"@)
            ||| contains(q, "figure"@)
            ||| contains(q, "height"@)
            ||| contains(q, "elevation"@)
            ||| contains(q, "how many"@)
            ||| contains(q, "how much"@)
            ||| contains(q, "date"@)
            ||| contains(q, "year"@)
        },
        asks_number(query) ==> asks_number_or_date(query),
{
    lemma_number_terms(ascii_lowercase(query));
    lemma_number_or_date_terms(ascii_lowercase(query));
}

/// A question asks who holds the presidency, and a passage says so, exactly where they
/// name the office and hold one of these words.
pub proof fn office_holders_are_asked_for_by_these_words(query: Seq<char>, passage: Seq<char>)
    ensures
        asks_office_holder(query) <==> {
            let q = " "@ + ascii_lowercase(query) + " "@;
            contains(q, " president "@) && {
                ||| contains(q, " who "@)
                ||| contains(q, " name "@)
                ||| contains(q, " current "@)
                ||| contains(q, " office holder "@)
                ||| contains(q, " serves as "@)
            }
        },
        states_office_holder(passage) <==> {
            let p = " "@ + ascii_lowercase(passage) + " "@;
            contains(p, " president "@) && {
                ||| contains(p, " is "@)
                ||| contains(p, " serves as "@)
                ||| contains(p, " was elected "@)
                ||| contains(p, " elected president "@)
                ||| contains(p, " assumed office "@)
                ||| contains(p, " took office "@)
                ||| contains(p, " became president "@)
            }
        },
{
    lemma_holder_question_terms(spaced(query));
    lemma_holder_relation_terms(spaced(passage));
}

/// A passage bears on a question where it shares enough of its terms, two or all of
/// fewer, gives a number or a date where one is asked for, and says who holds the office
/// where that is asked.
pub proof fn passages_bear_on_questions(query: Seq<char>, passage: Seq<char>)
    ensures
        ({
            let terms = ranking_terms(query);
            let others = ranking_terms(passage);
            let shared = terms.filter(|t: Seq<char>| others.contains(t)).len();
            let r = relevance(query, passage);
            &&& r.eligible ==> shared >= 2 || shared == terms.len()
            &&& r.eligible && asks_number_or_date(query) ==> r.numeric_or_date_relevant
            &&& r.eligible && asks_office_holder(query) ==> states_office_holder(passage)
            &&& r.numeric_or_date_relevant ==> has_digit(passage) && asks_number_or_date(query)
            &&& !asks_number_or_date(query) && !asks_office_holder(query) && (shared >= 2 || shared
                == terms.len()) ==> r.eligible
            &&& asks_number_or_date(query) && !asks_number(query) && has_digit(passage)
                ==> r.numeric_or_date_relevant
            &&& r.numeric_or_date_relevant && (shared >= 2 || shared == terms.len()) && (
            asks_office_holder(query) ==> states_office_holder(passage)) ==> r.eligible
            &&& terms.len() > 0 && shared == terms.len() ==> r.query_coverage_basis_points == 10000
            &&& shared == 0 ==> r.query_coverage_basis_points == 0
            &&& terms.len() > 0 ==> r.query_coverage_basis_points * terms.len() <= shared * 10000
                < (r.query_coverage_basis_points + 1) * terms.len()
        }),
{
    let terms = ranking_terms(query);
    let others = ranking_terms(passage);
    shared_terms_are_counted(terms, others);
    terms.lemma_filter_len(|t: Seq<char>| others.contains(t));
    shares_are_rounded_down(covered(terms, others), terms.len());
    if !has_digit(passage) {
        lemma_no_digit_no_claim(passage, 0, crate::numeric::asks_population(query));
    }
    numbers_are_asked_for_by_these_words(query);
}

proof fn lemma_no_digit_no_claim(s: Seq<char>, i: int, population: bool)
    requires
        !has_digit(s),
    ensures
        !claim_number_from(s, i, population),
    decreases s.len() - i,
{
    if 0 <= i < s.len() {
        assert(!is_digit(s[i]));
        lemma_no_digit_no_claim(s, i + 1, population);
    }
}

proof fn lemma_number_end_at(s: Seq<char>, i: int, end: int)
    requires
        0 <= i <= end <= s.len(),
        forall|k: int| i <= k < end ==> in_number(#[trigger] s[k]),
        end < s.len() ==> !in_number(s[end]),
    ensures
        number_end(s, i) == end,
    decreases end - i,
{
    if i < end {
        assert(in_number(s[i]));
        lemma_number_end_at(s, i + 1, end);
    }
}

proof fn lemma_claim_skips(s: Seq<char>, i: int, start: int, population: bool)
    requires
        0 <= i <= start <= s.len(),
        forall|k: int| i <= k < start ==> !is_digit(#[trigger] s[k]),
    ensures
        claim_number_from(s, i, population) == claim_number_from(s, start, population),
    decreases start - i,
{
    if i < start {
        assert(!is_digit(s[i]));
        lemma_claim_skips(s, i + 1, start, population);
    }
}

/// A text with one number in it makes a numeric claim exactly where the number is no
/// reference in square brackets and no year, and for a population has three digits or
/// more.
pub proof fn one_number_makes_a_claim(
    pre: Seq<char>,
    number: Seq<char>,
    post: Seq<char>,
    population: bool,
)
    requires
        number.len() > 0,
        48 <= number[0] as u32 <= 57,
        forall|k: int|
            0 <= k < number.len() ==> 48 <= #[trigger] number[k] as u32 <= 57 || number[k] == ','
                || number[k] == '.' || number[k] == '\u{a0}',
        forall|k: int| 0 <= k < pre.len() ==> !(48 <= #[trigger] pre[k] as u32 <= 57),
        forall|k: int| 0 <= k < post.len() ==> !(48 <= #[trigger] post[k] as u32 <= 57),
        post.len() > 0 ==> post[0] != ',' && post[0] != '.' && post[0] != '\u{a0}',
    ensures
        ({
            let digits = number.filter(|c: char| 48 <= c as u32 <= 57);
            claim_number_from(pre + number + post, 0, population) <==> {
                &&& !(pre.len() > 0 && pre.last() == '[' && post.len() > 0 && post[0] == ']')
                &&& !(digits.len() == 4 && 1900 <= digits_value(digits) <= 2100)
                &&& !population || digits.len() >= 3
            }
        }),
{
    let s = pre + number + post;
    let start = pre.len() as int;
    let end = start + number.len();
    crate::text_laws::characters_are_picked_in_order(number, 'x');
    assert forall|k: int| 0 <= k < start implies !is_digit(#[trigger] s[k]) by {
        assert(s[k] == pre[k]);
    }
    lemma_claim_skips(s, 0, start, population);
    assert forall|k: int| start <= k < end implies in_number(#[trigger] s[k]) by {
        assert(s[k] == number[k - start]);
    }
    if end < s.len() {
        assert(s[end] == post[0]);
    }
    lemma_number_end_at(s, start, end);
    assert(s[start] == number[0]);
    assert(s.subrange(start, end) =~= number);
    assert forall|k: int| end <= k < s.len() implies !is_digit(#[trigger] s[k]) by {
        assert(s[k] == post[k - end]);
    }
    lemma_claim_skips(s, end, s.len() as int, population);
    if start > 0 {
        assert(s[start - 1] == pre.last());
    }
    assert(!claim_number_from(s, s.len() as int, population));
    assert(claim_number_from(s, start, population) == (counts_as_claim(s, start, end, population)
        || claim_number_from(s, end, population)));
    assert(digits_of(s.subrange(start, end)) == number.filter(|c: char| 48 <= c as u32 <= 57));
}

/// A figure is a word with a digit in it, without what stands around it that belongs to
/// no figure.
pub proof fn words_with_digits_are_figures(
    parts: Seq<Seq<char>>,
    pre: Seq<char>,
    core: Seq<char>,
    post: Seq<char>,
)
    requires
        core.len() > 0,
        exists|k: int| 0 <= k < core.len() && 48 <= #[trigger] core[k] as u32 <= 57,
        48 <= core[0] as u32 <= 57 || core[0] == ',' || core[0] == '.' || core[0] == '%',
        48 <= core.last() as u32 <= 57 || core.last() == ',' || core.last() == '.' || core.last()
            == '%',
        forall|k: int|
            0 <= k < pre.len() ==> !(48 <= #[trigger] pre[k] as u32 <= 57) && pre[k] != ','
                && pre[k] != '.' && pre[k] != '%',
        forall|k: int|
            0 <= k < post.len() ==> !(48 <= #[trigger] post[k] as u32 <= 57) && post[k] != ','
                && post[k] != '.' && post[k] != '%',
    ensures
        figures_in(parts.push(pre + core + post)) == figures_in(parts).push(core),
        figures_in(parts.push(pre + post)) == figures_in(parts),
{
    stripping_leaves_the_core(pre, core, post, outside_figure());
    let k = choose|k: int| 0 <= k < core.len() && 48 <= #[trigger] core[k] as u32 <= 57;
    assert(is_digit(core[k]));
    assert(parts.push(pre + core + post).drop_last() =~= parts);
    assert(parts.push(pre + post).drop_last() =~= parts);
    assert(!has_digit(Seq::<char>::empty()));
}

/// Years are left out of the figures: four digits from 1900 to 2100.
pub proof fn years_are_no_figures(list: Seq<Seq<char>>)
    ensures
        non_years(list) == list.filter(
            |f: Seq<char>|
                !(digits_of(f).len() == 4 && 1900 <= digits_value(digits_of(f)) <= 2100),
        ),
    decreases list.len(),
{
    reveal(Seq::filter);
    if list.len() > 0 {
        years_are_no_figures(list.drop_last());
    }
}

/// A text states one figure exactly where it holds one figure that is no year, and one
/// year exactly where it holds one figure that is a year.
pub proof fn a_sole_figure_stands_alone(value: Seq<char>)
    ensures
        ({
            let found = figures(value).filter(
                |f: Seq<char>|
                    !(digits_of(f).len() == 4 && 1900 <= digits_value(digits_of(f)) <= 2100),
            );
            &&& found.len() == 1 ==> sole_figure(value) == Some(found[0])
            &&& found.len() != 1 ==> sole_figure(value) is None
        }),
        sole_year(value) matches Some(year) ==> 1900 <= year <= 2100,
        sole_year(value) is Some <==> figures(value).filter(
            |f: Seq<char>| figure_year(f) is Some,
        ).len() == 1,
{
    years_are_no_figures(figures(value));
    lemma_years_counted(figures(value));
}

proof fn lemma_years_counted(list: Seq<Seq<char>>)
    ensures
        years_of(list).len() == list.filter(|f: Seq<char>| figure_year(f) is Some).len(),
        forall|i: int| 0 <= i < years_of(list).len() ==> 1900 <= #[trigger] years_of(list)[i]
            <= 2100,
    decreases list.len(),
{
    reveal(Seq::filter);
    if list.len() > 0 {
        lemma_years_counted(list.drop_last());
    }
}

/// A text names a date where it states one year, or has six digits or more and a
/// separator of dates.
pub proof fn dates_are_known_by_year_or_separator(value: Seq<char>)
    ensures
        names_date(value) <==> sole_year(value) is Some || (value.contains('-') || value.contains(
            '/',
        ) || value.contains('.')) && value.filter(|c: char| 48 <= c as u32 <= 57).len() >= 6,
{
    crate::text_laws::characters_are_picked_in_order(value, '-');
    crate::text_laws::characters_are_picked_in_order(value, '/');
    crate::text_laws::characters_are_picked_in_order(value, '.');
}

/// A labelled value makes a claim exactly where its label names a quantity and its scope
/// and the value states one figure and one year; the claim says which was what when.
pub proof fn labelled_values_make_claims(
    context: Seq<char>,
    label: Seq<char>,
    value: Seq<char>,
)
    ensures
        ({
            let l = ascii_lowercase(label);
            let quantity = {
                ||| contains(l, "population"@)
                ||| contains(l, "height"@)
                ||| contains(l, "elevation"@)
                ||| contains(l, "rate"@)
                ||| contains(l, "percent"@)
                ||| contains(l, "number"@)
            };
            let scope = {
                ||| contains(l, "city proper"@)
                ||| contains(l, "municipal"@)
                ||| contains(l, "metropolitan"@)
                ||| contains(l, "urban area"@)
                ||| contains(l, "census"@)
                ||| contains(l, "estimate"@)
                ||| contains(l, "official"@)
                ||| contains(l, "summit"@)
                ||| contains(l, "above sea level"@)
                ||| contains(l, "geoid"@)
                ||| contains(l, "measured"@)
            };
            match value_claim(context, label, value) {
                Some(text) => {
                    &&& quantity && scope
                    &&& sole_figure(value) is Some && sole_year(value) is Some
                    &&& text == context + " "@ + label + " was "@ + sole_figure(value)->0 + " in "@
                        + decimal(sole_year(value)->0) + "."@
                },
                None => !(quantity && scope && sole_figure(value) is Some && sole_year(
                    value,
                ) is Some),
            }
        }),
{
    lemma_quantity_terms(ascii_lowercase(label));
    lemma_scope_terms(ascii_lowercase(label));
}

proof fn lemma_first_heading(headers: Seq<Seq<char>>, terms: Seq<&str>)
    ensures
        heading_index(headers, terms) matches Some(i) ==> i < headers.len() && contains_any(
            ascii_lowercase(headers[i as int]),
            terms,
        ) && forall|k: int|
            0 <= k < i ==> !contains_any(ascii_lowercase(#[trigger] headers[k]), terms),
        heading_index(headers, terms) is None ==> forall|k: int|
            0 <= k < headers.len() ==> !contains_any(ascii_lowercase(#[trigger] headers[k]), terms),
    decreases headers.len(),
{
    if headers.len() > 0 {
        let rest = headers.drop_last();
        lemma_first_heading(rest, terms);
        assert forall|k: int| 0 <= k < rest.len() implies #[trigger] headers[k] == rest[k] by {}
        assert(headers[headers.len() - 1] == headers.last());
    }
}

/// A heading of a table column that names the figure, its definition, or its date.
pub open spec fn heads_figures(header: Seq<char>) -> bool {
    let h = ascii_lowercase(header);
    ||| contains(h, "figure"@)
    ||| contains(h, "value"@)
    ||| contains(h, "population"@)
    ||| contains(h, "height"@)
    ||| contains(h, "elevation"@)
    ||| contains(h, "rate"@)
    ||| contains(h, "percent"@)
    ||| contains(h, "number"@)
}

pub open spec fn heads_definitions(header: Seq<char>) -> bool {
    let h = ascii_lowercase(header);
    ||| contains(h, "definition"@)
    ||| contains(h, "scope"@)
    ||| contains(h, "type"@)
    ||| contains(h, "area"@)
}

pub open spec fn heads_dates(header: Seq<char>) -> bool {
    let h = ascii_lowercase(header);
    ||| contains(h, "date"@)
    ||| contains(h, "year"@)
    ||| contains(h, "as of"@)
    ||| contains(h, "reference"@)
}

/// A row of a table makes a claim of the first column of figures, defined by the first
/// column of definitions and dated by the first column of dates.
pub proof fn rows_make_claims(
    context: Seq<char>,
    headers: Seq<Seq<char>>,
    values: Seq<Seq<char>>,
    f: int,
    d: int,
    w: int,
)
    requires
        0 <= f < headers.len() && f < values.len(),
        0 <= d < headers.len() && d < values.len(),
        0 <= w < headers.len() && w < values.len(),
        heads_figures(headers[f]),
        heads_definitions(headers[d]),
        heads_dates(headers[w]),
        forall|k: int| 0 <= k < f ==> !heads_figures(#[trigger] headers[k]),
        forall|k: int| 0 <= k < d ==> !heads_definitions(#[trigger] headers[k]),
        forall|k: int| 0 <= k < w ==> !heads_dates(#[trigger] headers[k]),
    ensures
        sole_figure(values[f]) is Some && trim(values[d]).len() > 0 && names_date(values[w])
            ==> row_claim(context, headers, values) == Some(
            context + " "@ + values[d] + " was "@ + sole_figure(values[f])->0 + " in "@ + trim(
                values[w],
            ) + "."@,
        ),
        !(sole_figure(values[f]) is Some && trim(values[d]).len() > 0 && names_date(values[w]))
            ==> row_claim(context, headers, values) is None,
{
    lemma_first_heading(headers, figure_headings());
    lemma_first_heading(headers, definition_headings());
    lemma_first_heading(headers, date_headings());
    assert forall|k: int| 0 <= k < headers.len() implies #[trigger] heads_figures(headers[k])
        == contains_any(ascii_lowercase(headers[k]), figure_headings()) by {
        lemma_figure_headings(ascii_lowercase(headers[k]));
    }
    assert forall|k: int| 0 <= k < headers.len() implies #[trigger] heads_definitions(headers[k])
        == contains_any(ascii_lowercase(headers[k]), definition_headings()) by {
        lemma_definition_headings(ascii_lowercase(headers[k]));
    }
    assert forall|k: int| 0 <= k < headers.len() implies #[trigger] heads_dates(headers[k])
        == contains_any(ascii_lowercase(headers[k]), date_headings()) by {
        lemma_date_headings(ascii_lowercase(headers[k]));
    }
    assert(heads_figures(headers[f]));
    let i = heading_index(headers, figure_headings());
    assert(heads_figures(headers[i->0 as int]));
    let j = heading_index(headers, definition_headings());
    assert(heads_definitions(headers[j->0 as int]));
    let k = heading_index(headers, date_headings());
    assert(heads_dates(headers[k->0 as int]));
}

/// Only an object that names its page makes claims, by its address, its identifier or
/// the page it is the subject of.
pub proof fn unbound_objects_claim_nothing(object: Json, page: WebUrl)
    ensures
        !is_bound(object, page) ==> object_claims(object, page).len() == 0,
        is_bound(object, page) ==> object_claims(object, page) == role_claim(object)
            + measurement_claim(object),
        field_address(object, "url"@) is None && field_address(object, "@id"@) is None
            && field_address(object, "mainEntityOfPage"@) is None ==> !is_bound(object, page),
{
}

/// A name and a job title make the claim that the one is the other.
pub proof fn roles_are_claimed(object: Json)
    ensures
        match (trimmed_text(lookup(object, "name"@)), trimmed_text(lookup(object, "jobTitle"@))) {
            (Some(name), Some(role)) => role_claim(object) == seq![name + " is "@ + role + "."@],
            _ => role_claim(object).len() == 0,
        },
{
}

/// A measurement is claimed where it has a name, a value and a date, and its scope is
/// defined or named; the claim gives them in this order.
pub proof fn measurements_are_claimed(object: Json)
    ensures
        ({
            let name = trimmed_text(lookup(object, "name"@));
            let value = scalar_text(lookup(object, "value"@));
            let date = first_text(
                object,
                seq!["referenceDate", "observationDate", "measurementDate", "validFrom", "startDate"],
            );
            let definition = first_text(
                object,
                seq!["measurementTechnique", "description", "additionalType"],
            );
            let unit = trimmed_text(lookup(object, "unitText"@));
            let claims = measurement_claim(object);
            &&& name is None || value is None || date is None ==> claims.len() == 0
            &&& name is Some && definition is None && !has_scope(name->0) ==> claims.len() == 0
            &&& name is Some && value is Some && date is Some && (definition is Some || has_scope(
                name->0,
            )) ==> claims == seq![
                name->0 + (if definition is Some {
                    " ("@ + definition->0 + ")"@
                } else {
                    Seq::empty()
                }) + " was "@ + value->0 + (if unit is Some {
                    " "@ + unit->0
                } else {
                    Seq::empty()
                }) + " as of "@ + date->0 + "."@,
            ]
        }),
{
}

/// Of several keys the first one with a text gives it.
pub proof fn the_first_key_with_a_text_counts(object: Json, keys: Seq<&str>, key: &str)
    ensures
        first_text(object, keys) is Some ==> first_text(object, keys.push(key)) == first_text(
            object,
            keys,
        ),
        first_text(object, keys) is None ==> first_text(object, keys.push(key)) == trimmed_text(
            lookup(object, key@),
        ),
        first_text(object, Seq::empty()) is None,
{
    assert(keys.push(key).drop_last() =~= keys);
}

/// The claims of a list are those of its items in their order.
pub proof fn claims_come_in_order(items: Seq<Json>, item: Json, scripts: Seq<Seq<char>>, script: Seq<char>, page: WebUrl)
    ensures
        item_claims(items.push(item), page) == item_claims(items, page) + value_claims(item, page),
        item_claims(Seq::empty(), page).len() == 0,
        script_claims(scripts.push(script), page) == script_claims(scripts, page) + match parsed_json(
            script,
        ) {
            Some(value) => value_claims(value, page),
            None => Seq::empty(),
        },
{
    assert(items.push(item).drop_last() =~= items);
    assert(scripts.push(script).drop_last() =~= scripts);
}

/// An object names its page where its address, its identifier or the page it is the
/// subject of denotes the same page, whatever the others say; each of them is a text,
/// or an object with an identifier.
pub proof fn objects_name_their_page(object: Json, page: WebUrl, key: Seq<char>, address: Seq<char>)
    requires
        key == "url"@ || key == "@id"@ || key == "mainEntityOfPage"@,
        parsed_url(address) is Some,
        normalized_url_text(parsed_url(address)->0) == normalized_url_text(page),
    ensures
        trimmed_text(lookup(object, key)) == Some(address) ==> is_bound(object, page),
        trimmed_text(lookup(object, key)) is None && (lookup(object, key) matches Some(nested)
            && trimmed_text(lookup(nested, "@id"@)) == Some(address)) ==> is_bound(object, page),
{
    assert(trimmed_text(lookup(object, key)) == Some(address) ==> field_address(object, key) == Some(
        address,
    ));
}

/// A page that none of them denotes is not named.
pub proof fn other_pages_are_not_named(object: Json, page: WebUrl)
    requires
        forall|address: Seq<char>|
            #![trigger parsed_url(address)]
            field_address(object, "url"@) == Some(address) || field_address(object, "@id"@) == Some(
                address,
            ) || field_address(object, "mainEntityOfPage"@) == Some(address) ==> parsed_url(address)
                is None || normalized_url_text(parsed_url(address)->0) != normalized_url_text(page),
    ensures
        !is_bound(object, page),
{
}

/// The value of a measurement is a number, or a text with a digit in it.
pub proof fn measured_values_have_digits(text: String)
    ensures
        has_digit(text@) ==> scalar_text(Some(Json::Text(text))) == Some(trim(text@)),
        !has_digit(text@) ==> scalar_text(Some(Json::Text(text))) is None,
        scalar_text(None) is None,
{
}

/// The claims of an object are its own and then those of the graph that it holds.
pub proof fn graphs_are_claimed_after_their_object(object: Json, page: WebUrl)
    requires
        object is Object,
    ensures
        lookup(object, "@graph"@) matches Some(graph) ==> value_claims(object, page)
            == object_claims(object, page) + value_claims(graph, page),
        lookup(object, "@graph"@) is None ==> value_claims(object, page) == object_claims(
            object,
            page,
        ),
{
    let fields = object->Object_0@;
    lemma_field_place(fields, "@graph"@, 0);
    if lookup(object, "@graph"@) is None {
        assert(object_claims(object, page) + Seq::<Seq<char>>::empty() =~= object_claims(
            object,
            page,
        ));
    }
}

proof fn lemma_field_place(fields: Seq<(String, Json)>, key: Seq<char>, i: int)
    requires
        0 <= i,
    ensures
        field_index(fields, key, i) matches Some(at) ==> i <= at < fields.len(),
    decreases fields.len() - i,
{
    if i < fields.len() && fields[i].0@ != key {
        lemma_field_place(fields, key, i + 1);
    }
}

} // verus!
