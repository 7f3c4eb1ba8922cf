//! How far a passage or a candidate bears on a question.

use crate::numeric::{asks_population, claim_number_from, passage_contains_claim_number};
use crate::order::{
    same_texts, sort_set, sorted_set, sorted_set_holds_each_text_once, sorted_sets_agree,
    strictly_ascending,
};
use crate::spacing::{all_in, are_words, class_marks, class_runs, runs_are_words, runs_of_parts};
use crate::text::{
    any_digit, any_term, ascii_letter, ascii_lowercase, chars_of, contains, contains_any,
    contains_text, copy_chars, digit, equals, has, has_chars, has_digit, holds, is_ascii_letter,
    is_digit, is_one_of, lower_ascii, one_of, push_all, push_text, runs, runs_of, slice, string_of,
    texts,
};
use crate::types::ClaimEvidenceRelevance;
use vstd::prelude::*;

verus! {

/// Words that say nothing of what a question is about.
pub open spec fn stop_words() -> Seq<&'static str> {
    seq![
        "a", "an", "and", "are", "cite", "cited", "claim", "current", "each", "fetched", "first",
        "for", "from", "how", "independent", "is", "latest", "of", "on", "official", "party",
        "preserve", "reliable", "source", "the", "today", "use", "using", "verify", "what",
        "website", "which", "who", "with",
    ]
}

fn is_stop_word(word: &Vec<char>) -> (r: bool)
    ensures
        r == is_one_of(word@, stop_words()),
{
    let terms = [
        "a", "an", "and", "are", "cite", "cited", "claim", "current", "each", "fetched", "first",
        "for", "from", "how", "independent", "is", "latest", "of", "on", "official", "party",
        "preserve", "reliable", "source", "the", "today", "use", "using", "verify", "what",
        "website", "which", "who", "with",
    ];
    proof {
        assert(terms@ =~= stop_words());
    }
    one_of(word, &terms)
}

/// A word as a term: one form for a country and an office, and the singular
/// of a long enough plural.
pub open spec fn stem(word: Seq<char>) -> Seq<char> {
    let base = if word == "slovakia"@ || word == "slovak"@ {
        "slovak"@
    } else if word == "presidential"@ {
        "president"@
    } else {
        word
    };
    if base.len() >= 5 && base.last() == 's' {
        base.drop_last()
    } else {
        base
    }
}

fn stem_of(word: &Vec<char>) -> (r: Vec<char>)
    ensures
        r@ == stem(word@),
{
    let base = if equals(word, "slovakia") || equals(word, "slovak") {
        chars_of("slovak")
    } else if equals(word, "presidential") {
        chars_of("president")
    } else {
        copy_chars(word)
    };
    if base.len() >= 5 && base[base.len() - 1] == 's' {
        proof {
            assert(base@.drop_last() =~= base@.subrange(0, base@.len() - 1));
        }
        slice(&base, 0, base.len() - 1)
    } else {
        base
    }
}

/// The terms of the words, in order, without short words and stop words.
pub open spec fn salient(parts: Seq<Seq<char>>) -> Seq<Seq<char>>
    decreases parts.len(),
{
    if parts.len() == 0 {
        Seq::empty()
    } else if parts.last().len() >= 3 && !is_one_of(parts.last(), stop_words()) {
        salient(parts.drop_last()).push(stem(parts.last()))
    } else {
        salient(parts.drop_last())
    }
}

pub open spec fn ascii_word_marks(s: Seq<char>) -> Seq<bool> {
    Seq::new(s.len(), |i: int| is_ascii_letter(s[i]) || is_digit(s[i]))
}

/// The runs of ASCII letters and digits.
pub open spec fn ascii_words(s: Seq<char>) -> Seq<Seq<char>> {
    runs(s, ascii_word_marks(s))
}

pub fn ascii_words_of(s: &Vec<char>) -> (r: Vec<Vec<char>>)
    ensures
        texts(r@) == ascii_words(s@),
{
    let mut marks: Vec<bool> = Vec::new();
    let mut i: usize = 0;
    while i < s.len()
        invariant
            i <= s@.len(),
            marks@.len() == i,
            forall|k: int| 0 <= k < i ==> marks@[k] == (is_ascii_letter(s@[k]) || is_digit(s@[k])),
        decreases s@.len() - i,
    {
        marks.push(ascii_letter(s[i]) || digit(s[i]));
        i = i + 1;
    }
    proof {
        assert(marks@ =~= ascii_word_marks(s@));
    }
    runs_of(s, &marks)
}

/// The terms of a text in ascending order, each once.
pub open spec fn ranking_terms(query: Seq<char>) -> Seq<Seq<char>> {
    sorted_set(salient(ascii_words(ascii_lowercase(query))))
}

pub fn ranking_term_chars(query: &str) -> (r: Vec<Vec<char>>)
    ensures
        texts(r@) == ranking_terms(query@),
{
    let chars = chars_of(query);
    let lowered = lower_ascii(&chars);
    let parts = ascii_words_of(&lowered);
    let ghost model = texts(parts@);
    let mut terms: Vec<Vec<char>> = Vec::new();
    let mut i: usize = 0;
    proof {
        assert(texts(terms@) =~= salient(model.take(0)));
    }
    while i < parts.len()
        invariant
            i <= parts@.len(),
            model == texts(parts@),
            texts(terms@) == salient(model.take(i as int)),
        decreases parts@.len() - i,
    {
        proof {
            let next = model.take(i as int + 1);
            assert(next.drop_last() =~= model.take(i as int));
            assert(next.last() == parts@[i as int]@);
        }
        if parts[i].len() >= 3 && !is_stop_word(&parts[i]) {
            let ghost before = terms@;
            terms.push(stem_of(&parts[i]));
            proof {
                assert(texts(terms@) =~= texts(before).push(stem(parts@[i as int]@)));
            }
        }
        i = i + 1;
    }
    proof {
        assert(model.take(parts@.len() as int) =~= model);
    }
    sort_set(&terms)
}

/// The terms by which candidates and passages are held against a question.
pub fn normalized_ranking_terms(query: &str) -> (r: Vec<String>)
    ensures
        crate::text::strings(r@) == ranking_terms(query@),
{
    let terms = ranking_term_chars(query);
    let mut out: Vec<String> = Vec::new();
    let mut i: usize = 0;
    while i < terms.len()
        invariant
            i <= terms@.len(),
            out@.len() == i,
            forall|k: int| 0 <= k < i ==> (#[trigger] out@[k])@ == terms@[k]@,
        decreases terms@.len() - i,
    {
        out.push(string_of(&terms[i]));
        i = i + 1;
    }
    proof {
        assert(crate::text::strings(out@) =~= texts(terms@));
    }
    out
}

/// A lower-case letter of ASCII or a digit.
pub open spec fn term_char() -> spec_fn(char) -> bool {
    |c: char| 97 <= c as u32 <= 122 || is_digit(c)
}

/// A letter of ASCII or a digit.
pub open spec fn word_char() -> spec_fn(char) -> bool {
    |c: char| is_ascii_letter(c) || is_digit(c)
}

/// A word that makes a term.
spec fn is_salient(word: Seq<char>) -> bool {
    word.len() >= 3 && !is_one_of(word, stop_words())
}

proof fn lemma_salient(parts: Seq<Seq<char>>)
    ensures
        forall|t: Seq<char>| #[trigger]
            salient(parts).contains(t) <==> exists|i: int|
                0 <= i < parts.len() && is_salient(#[trigger] parts[i]) && stem(parts[i]) == t,
    decreases parts.len(),
{
    if parts.len() > 0 {
        let rest = parts.drop_last();
        lemma_salient(rest);
        let before = salient(rest);
        let out = salient(parts);
        assert forall|t: Seq<char>| #[trigger] out.contains(t) <==> exists|i: int|
            0 <= i < parts.len() && is_salient(#[trigger] parts[i]) && stem(parts[i]) == t by {
            if out.contains(t) {
                let k = choose|k: int| 0 <= k < out.len() && out[k] == t;
                if k < before.len() {
                    assert(before[k] == t);
                    assert(before.contains(t));
                    let i = choose|i: int|
                        0 <= i < rest.len() && is_salient(#[trigger] rest[i]) && stem(rest[i]) == t;
                    assert(parts[i] == rest[i]);
                } else {
                    assert(is_salient(parts[parts.len() - 1]));
                }
            }
            if exists|i: int|
                0 <= i < parts.len() && is_salient(#[trigger] parts[i]) && stem(parts[i]) == t {
                let i = choose|i: int|
                    0 <= i < parts.len() && is_salient(#[trigger] parts[i]) && stem(parts[i]) == t;
                if i < rest.len() {
                    assert(rest[i] == parts[i]);
                    assert(before.contains(t));
                    let k = choose|k: int| 0 <= k < before.len() && before[k] == t;
                    assert(out[k] == t);
                } else {
                    assert(out[before.len() as int] == t);
                }
            }
        }
    }
}

proof fn lemma_same_salient(a: Seq<Seq<char>>, b: Seq<Seq<char>>)
    requires
        same_texts(a, b),
    ensures
        same_texts(salient(a), salient(b)),
{
    lemma_salient(a);
    lemma_salient(b);
    assert forall|t: Seq<char>| #[trigger] salient(a).contains(t) <==> salient(b).contains(t) by {
        if salient(a).contains(t) {
            let i = choose|i: int|
                0 <= i < a.len() && is_salient(#[trigger] a[i]) && stem(a[i]) == t;
            assert(a.contains(a[i]));
            let k = choose|k: int| 0 <= k < b.len() && b[k] == a[i];
            assert(is_salient(b[k]) && stem(b[k]) == t);
        }
        if salient(b).contains(t) {
            let i = choose|i: int|
                0 <= i < b.len() && is_salient(#[trigger] b[i]) && stem(b[i]) == t;
            assert(b.contains(b[i]));
            assert(a.contains(b[i]));
            let k = choose|k: int| 0 <= k < a.len() && a[k] == b[i];
            assert(is_salient(a[k]) && stem(a[k]) == t);
        }
    }
}

proof fn lemma_stem(word: Seq<char>)
    requires
        word.len() >= 3,
        all_in(word, term_char()),
    ensures
        stem(word).len() >= 3,
        all_in(stem(word), term_char()),
{
    reveal_strlit("slovak");
    reveal_strlit("president");
    assert(all_in("slovak"@, term_char()));
    assert(all_in("president"@, term_char()));
}

/// The words of a text in lower case are its runs of letters and digits, and hold
/// no capitals.
pub proof fn lower_words_are_runs(query: Seq<char>)
    ensures
        ascii_words(ascii_lowercase(query)) == class_runs(ascii_lowercase(query), word_char()),
        are_words(ascii_words(ascii_lowercase(query)), term_char()),
{
    let low = ascii_lowercase(query);
    assert(ascii_word_marks(low) =~= class_marks(low, word_char()));
    let small = |c: char| !(65 <= c as u32 <= 90);
    assert(all_in(low, small));
    runs_are_words(low, word_char(), small);
    let parts = ascii_words(low);
    assert forall|i: int| 0 <= i < parts.len() implies (#[trigger] parts[i]).len() > 0 && all_in(
        parts[i],
        term_char(),
    ) by {
        assert(all_in(parts[i], word_char()) && all_in(parts[i], small));
        assert forall|j: int| 0 <= j < parts[i].len() implies term_char()(#[trigger] parts[i][j]) by {
            assert(word_char()(parts[i][j]) && small(parts[i][j]));
        }
    }
}

/// The terms of a question ascend, none of them occurs twice, and each has at
/// least three lower-case letters of ASCII or digits.
pub proof fn ranking_terms_are_a_set(query: Seq<char>)
    ensures
        strictly_ascending(ranking_terms(query)),
        forall|i: int|
            0 <= i < ranking_terms(query).len() ==> (#[trigger] ranking_terms(query)[i]).len() >= 3
                && all_in(ranking_terms(query)[i], term_char()),
{
    let parts = ascii_words(ascii_lowercase(query));
    let list = salient(parts);
    let terms = ranking_terms(query);
    sorted_set_holds_each_text_once(list);
    lemma_salient(parts);
    lower_words_are_runs(query);
    assert forall|i: int| 0 <= i < terms.len() implies (#[trigger] terms[i]).len() >= 3 && all_in(
        terms[i],
        term_char(),
    ) by {
        assert(terms.contains(terms[i]));
        assert(list.contains(terms[i]));
        let k = choose|k: int|
            0 <= k < parts.len() && is_salient(#[trigger] parts[k]) && stem(parts[k]) == terms[i];
        lemma_stem(parts[k]);
    }
}

/// Questions with the same words have the same terms: neither capitals nor the
/// order of the words nor their repetition matter.
pub proof fn ranking_terms_go_by_the_words(first: Seq<char>, second: Seq<char>)
    ensures
        same_texts(ascii_words(ascii_lowercase(first)), ascii_words(ascii_lowercase(second)))
            ==> ranking_terms(first) == ranking_terms(second),
        ranking_terms(ascii_lowercase(first)) == ranking_terms(first),
        ranking_terms(first + " "@ + second) == ranking_terms(second + " "@ + first),
        ranking_terms(first + " "@ + first) == ranking_terms(first),
{
    let a = ascii_lowercase(first);
    let b = ascii_lowercase(second);
    let x = ascii_words(a);
    let y = ascii_words(b);
    if same_texts(x, y) {
        lemma_same_salient(x, y);
        sorted_sets_agree(salient(x), salient(y));
    }
    assert(ascii_lowercase(a) =~= a);
    reveal_strlit(" ");
    lower_words_are_runs(first);
    lower_words_are_runs(second);
    lower_words_are_runs(first + " "@ + second);
    lower_words_are_runs(second + " "@ + first);
    lower_words_are_runs(first + " "@ + first);
    assert(ascii_lowercase(first + " "@ + second) =~= a + " "@ + b);
    assert(ascii_lowercase(second + " "@ + first) =~= b + " "@ + a);
    assert(ascii_lowercase(first + " "@ + first) =~= a + " "@ + a);
    runs_of_parts(a, " "@, b, word_char());
    runs_of_parts(b, " "@, a, word_char());
    runs_of_parts(a, " "@, a, word_char());
    assert forall|t: Seq<char>| #[trigger] (x + y).contains(t) <==> (y + x).contains(t) by {
        lemma_contains_both(x, y, t);
        lemma_contains_both(y, x, t);
    }
    assert forall|t: Seq<char>| #[trigger] (x + x).contains(t) <==> x.contains(t) by {
        lemma_contains_both(x, x, t);
    }
    lemma_same_salient(x + y, y + x);
    lemma_same_salient(x + x, x);
    sorted_sets_agree(salient(x + y), salient(y + x));
    sorted_sets_agree(salient(x + x), salient(x));
}

proof fn lemma_contains_both(a: Seq<Seq<char>>, b: Seq<Seq<char>>, t: Seq<char>)
    ensures
        (a + b).contains(t) <==> a.contains(t) || b.contains(t),
{
    if (a + b).contains(t) {
        let k = choose|k: int| 0 <= k < (a + b).len() && (a + b)[k] == t;
        if k < a.len() {
            assert(a[k] == t);
        } else {
            assert(b[k - a.len()] == t);
        }
    }
    if a.contains(t) {
        let k = choose|k: int| 0 <= k < a.len() && a[k] == t;
        assert((a + b)[k] == t);
    }
    if b.contains(t) {
        let k = choose|k: int| 0 <= k < b.len() && b[k] == t;
        assert((a + b)[a.len() + k] == t);
    }
}

/// How many of the terms are among the others.
pub open spec fn covered(terms: Seq<Seq<char>>, others: Seq<Seq<char>>) -> nat
    decreases terms.len(),
{
    if terms.len() == 0 {
        0
    } else {
        covered(terms.drop_last(), others) + if holds(others, terms.last()) {
            1nat
        } else {
            0nat
        }
    }
}

pub fn count_covered(terms: &Vec<Vec<char>>, others: &Vec<Vec<char>>) -> (r: usize)
    ensures
        r == covered(texts(terms@), texts(others@)),
        r <= terms@.len(),
{
    let ghost model = texts(terms@);
    let mut n: usize = 0;
    let mut i: usize = 0;
    proof {
        assert(model.take(0) =~= Seq::empty());
    }
    while i < terms.len()
        invariant
            i <= terms@.len(),
            model == texts(terms@),
            n <= i,
            n == covered(model.take(i as int), texts(others@)),
        decreases terms@.len() - i,
    {
        proof {
            let next = model.take(i as int + 1);
            assert(next.drop_last() =~= model.take(i as int));
            assert(next.last() == terms@[i as int]@);
        }
        if contains_text(others, &terms[i]) {
            n = n + 1;
        }
        i = i + 1;
    }
    proof {
        assert(model.take(terms@.len() as int) =~= model);
    }
    n
}

/// How many of the terms stand in the text.
pub open spec fn mentioned(terms: Seq<Seq<char>>, text: Seq<char>) -> nat
    decreases terms.len(),
{
    if terms.len() == 0 {
        0
    } else {
        mentioned(terms.drop_last(), text) + if contains(text, terms.last()) {
            1nat
        } else {
            0nat
        }
    }
}

pub fn count_mentioned(terms: &Vec<Vec<char>>, text: &Vec<char>) -> (r: usize)
    ensures
        r == mentioned(texts(terms@), text@),
        r <= terms@.len(),
{
    let ghost model = texts(terms@);
    let mut n: usize = 0;
    let mut i: usize = 0;
    proof {
        assert(model.take(0) =~= Seq::empty());
    }
    while i < terms.len()
        invariant
            i <= terms@.len(),
            model == texts(terms@),
            n <= i,
            n == mentioned(model.take(i as int), text@),
        decreases terms@.len() - i,
    {
        proof {
            let next = model.take(i as int + 1);
            assert(next.drop_last() =~= model.take(i as int));
            assert(next.last() == terms@[i as int]@);
        }
        if has_chars(text, &terms[i]) {
            n = n + 1;
        }
        i = i + 1;
    }
    proof {
        assert(model.take(terms@.len() as int) =~= model);
    }
    n
}

/// A share in hundredths of a percent, rounded down; zero of nothing.
pub open spec fn basis_points(part: nat, whole: nat) -> u16 {
    if whole == 0 {
        0
    } else if part >= whole {
        10000
    } else {
        (part * 10000 / whole) as u16
    }
}

/// A share as `basis_points` gives it, for a part that is not over the whole.
pub fn share(part: usize, whole: usize) -> (r: u16)
    requires
        part <= whole,
    ensures
        r == basis_points(part as nat, whole as nat),
        r <= 10000,
{
    if whole == 0 {
        return 0;
    }
    if part >= whole {
        return 10000;
    }
    let scaled: u128 = part as u128 * 10000;
    let quotient: u128 = scaled / whole as u128;
    proof {
        assert(quotient <= 10000) by (nonlinear_arith)
            requires
                part < whole,
                scaled == part * 10000,
                quotient == scaled / whole as u128,
        ;
        assert(part as nat * 10000 / whole as nat == quotient);
    }
    quotient as u16
}

/// Questions that only a number answers.
pub open spec fn number_terms() -> Seq<&'static str> {
    seq![
        "population", "price", "cost", "rate", "percent", "number", "value", "figure", "height",
        "elevation", "how many", "how much",
    ]
}

pub open spec fn asks_number(query: Seq<char>) -> bool {
    contains_any(ascii_lowercase(query), number_terms())
}

pub fn query_requires_claim_number(query: &str) -> (r: bool)
    ensures
        r == asks_number(query@),
{
    let chars = chars_of(query);
    let lowered = lower_ascii(&chars);
    let terms = [
        "population", "price", "cost", "rate", "percent", "number", "value", "figure", "height",
        "elevation", "how many", "how much",
    ];
    proof {
        assert(terms@ =~= number_terms());
    }
    any_term(&lowered, &terms)
}

/// Questions that a number or a date answers.
pub open spec fn number_or_date_terms() -> Seq<&'static str> {
    seq![
        "population", "price", "cost", "rate", "percent", "number", "value", "figure", "height",
        "elevation", "how many", "how much", "date", "year",
    ]
}

pub open spec fn asks_number_or_date(query: Seq<char>) -> bool {
    contains_any(ascii_lowercase(query), number_or_date_terms())
}

pub fn query_requires_numeric_or_date_evidence(query: &str) -> (r: bool)
    ensures
        r == asks_number_or_date(query@),
{
    let chars = chars_of(query);
    let lowered = lower_ascii(&chars);
    let terms = [
        "population", "price", "cost", "rate", "percent", "number", "value", "figure", "height",
        "elevation", "how many", "how much", "date", "year",
    ];
    proof {
        assert(terms@ =~= number_or_date_terms());
    }
    any_term(&lowered, &terms)
}

pub open spec fn spaced(text: Seq<char>) -> Seq<char> {
    " "@ + ascii_lowercase(text) + " "@
}

fn spaced_chars(text: &str) -> (r: Vec<char>)
    ensures
        r@ == spaced(text@),
{
    let chars = chars_of(text);
    let lowered = lower_ascii(&chars);
    let mut out: Vec<char> = chars_of(" ");
    push_all(&mut out, &lowered);
    push_text(&mut out, " ");
    proof {
        assert(out@ =~= spaced(text@));
    }
    out
}

pub open spec fn holder_question_terms() -> Seq<&'static str> {
    seq![" who ", " name ", " current ", " office holder ", " serves as "]
}

/// The question asks who holds the office of president.
pub open spec fn asks_office_holder(query: Seq<char>) -> bool {
    contains(spaced(query), " president "@) && contains_any(spaced(query), holder_question_terms())
}

pub open spec fn holder_relation_terms() -> Seq<&'static str> {
    seq![
        " is ",
        " serves as ",
        " was elected ",
        " elected president ",
        " assumed office ",
        " took office ",
        " became president ",
    ]
}

/// The passage states a relation to the office of president.
pub open spec fn states_office_holder(passage: Seq<char>) -> bool {
    contains(spaced(passage), " president "@) && contains_any(
        spaced(passage),
        holder_relation_terms(),
    )
}

pub open spec fn relationship_agrees(query: Seq<char>, passage: Seq<char>) -> bool {
    asks_office_holder(query) ==> states_office_holder(passage)
}

pub fn query_asks_office_holder(query: &str) -> (r: bool)
    ensures
        r == asks_office_holder(query@),
{
    let q = spaced_chars(query);
    let question = [" who ", " name ", " current ", " office holder ", " serves as "];
    proof {
        assert(question@ =~= holder_question_terms());
    }
    has(&q, " president ") && any_term(&q, &question)
}

pub fn passage_agrees_with_requested_relationship(query: &str, passage: &str) -> (r: bool)
    ensures
        r == relationship_agrees(query@, passage@),
{
    let relation = [
        " is ",
        " serves as ",
        " was elected ",
        " elected president ",
        " assumed office ",
        " took office ",
        " became president ",
    ];
    proof {
        assert(relation@ =~= holder_relation_terms());
    }
    if query_asks_office_holder(query) {
        let p = spaced_chars(passage);
        return has(&p, " president ") && any_term(&p, &relation);
    }
    true
}

/// How far a passage bears on a question: the share of the question's terms
/// that it covers, whether it has the number or date asked for, and whether
/// it may support an answer.
pub open spec fn relevance(query: Seq<char>, passage: Seq<char>) -> ClaimEvidenceRelevance {
    let terms = ranking_terms(query);
    let count = covered(terms, ranking_terms(passage));
    let numeric = asks_number_or_date(query) && if asks_number(query) {
        claim_number_from(passage, 0, asks_population(query))
    } else {
        has_digit(passage)
    };
    ClaimEvidenceRelevance {
        query_coverage_basis_points: basis_points(count, terms.len()),
        numeric_or_date_relevant: numeric,
        eligible: count >= (if terms.len() <= 2 {
            terms.len()
        } else {
            2
        }) && (!asks_number_or_date(query) || numeric) && relationship_agrees(query, passage),
    }
}

pub fn assess_claim_relevance(query: &str, passage: &str) -> (r: ClaimEvidenceRelevance)
    ensures
        r == relevance(query@, passage@),
{
    let query_terms = ranking_term_chars(query);
    let passage_terms = ranking_term_chars(passage);
    let count = count_covered(&query_terms, &passage_terms);
    let coverage = share(count, query_terms.len());
    let required = query_requires_numeric_or_date_evidence(query);
    let numeric = required && if query_requires_claim_number(query) {
        passage_contains_claim_number(query, passage)
    } else {
        let chars = chars_of(passage);
        any_digit(&chars)
    };
    let minimum: usize = if query_terms.len() <= 2 {
        query_terms.len()
    } else {
        2
    };
    proof {
        assert(texts(query_terms@).len() == query_terms@.len());
    }
    ClaimEvidenceRelevance {
        query_coverage_basis_points: coverage,
        numeric_or_date_relevant: numeric,
        eligible: count >= minimum && (!required || numeric)
            && passage_agrees_with_requested_relationship(query, passage),
    }
}

/// A passage supports an answer only where it covers two terms of the question,
/// or all of fewer; to a question for a number or date it has one; and to a
/// question for an office holder it states the relation.
pub proof fn eligible_passages_bear_on_the_question(query: Seq<char>, passage: Seq<char>)
    requires
        relevance(query, passage).eligible,
    ensures
        covered(ranking_terms(query), ranking_terms(passage)) >= (if ranking_terms(query).len() <= 2 {
            ranking_terms(query).len()
        } else {
            2
        }),
        asks_number(query) ==> claim_number_from(passage, 0, asks_population(query)),
        asks_number_or_date(query) ==> relevance(query, passage).numeric_or_date_relevant,
        asks_office_holder(query) ==> states_office_holder(passage),
{
    if asks_number(query) {
        let lowered = ascii_lowercase(query);
        let w = choose|w: int|
            0 <= w < number_terms().len() && contains(lowered, #[trigger] number_terms()[w]@);
        assert(number_or_date_terms()[w] == number_terms()[w]);
    }
}

} // verus!
