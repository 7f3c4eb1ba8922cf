//! When pages disagree, and what follows for the evidence of a turn.

use crate::conflicts::{
    any_first_party, any_usable, are_conflicts, clash, contract_met, disagree, disjoint,
    is_first_clash, is_usable, negates, negation_terms, no_clash_before, outside_scalar, page_text,
    scalars, scalars_in, two_publishers,
};
use crate::text::{
    ascii_lowercase, contains, contains_any, has_digit, holds, is_digit, join, strip, words,
};
use crate::text_laws::stripping_leaves_the_core;
use crate::types::{EvidenceConflict, EvidenceIntent, OperationResult, WebFetchEvidence};
use vstd::prelude::*;

verus! {

/// What the passages of a page say in order, in lower case, with a space between two.
pub open spec fn said(page: WebFetchEvidence) -> Seq<char> {
    ascii_lowercase(join(Seq::new(page.passages@.len(), |i: int| page.passages@[i].text@), " "@))
}

/// A text that denies something.
pub open spec fn denies(text: Seq<char>) -> bool {
    ||| contains(text, " no "@)
    ||| contains(text, " not "@)
    ||| contains(text, " never "@)
    ||| contains(text, "false"@)
    ||| contains(text, "cannot"@)
    ||| contains(text, "can't"@)
}

proof fn lemma_denies(s: Seq<char>)
    ensures
        contains_any(s, negation_terms()) <==> contains(s, " no "@)
            || contains(s, " not "@)
            || contains(s, " never "@)
            || contains(s, "false"@)
            || contains(s, "cannot"@)
            || contains(s, "can't"@),
{
    let terms = negation_terms();
    assert(terms.len() == 6);
    assert(terms[0] == " no ");
    assert(terms[1] == " not ");
    assert(terms[2] == " never ");
    assert(terms[3] == "false");
    assert(terms[4] == "cannot");
    assert(terms[5] == "can't");
    if contains_any(s, terms) {
        let i = choose|i: int| 0 <= i < terms.len() && contains(s, (#[trigger] terms[i])@);
        assert(i == 0 || i == 1 || i == 2 || i == 3 || i == 4 || i == 5);
    }
}

/// A text negates exactly where it holds one of the words of denial.
pub proof fn negations_are_these_words(text: Seq<char>)
    ensures
        negates(text) <==> denies(text),
{
    lemma_denies(text);
}

proof fn lemma_said(page: WebFetchEvidence)
    ensures
        page_text(page) == said(page),
{
    assert(crate::selection::passage_texts(page.passages@) =~= Seq::new(
        page.passages@.len(),
        |i: int| page.passages@[i].text@,
    ));
}

/// Two pages of different publishers of which exactly one denies something always
/// disagree.
pub proof fn a_denial_and_a_statement_disagree(left: WebFetchEvidence, right: WebFetchEvidence)
    requires
        left.source_identity@ != right.source_identity@,
        denies(said(left)) != denies(said(right)),
    ensures
        disagree(left, right),
        disagree(right, left),
{
    lemma_said(left);
    lemma_said(right);
    lemma_denies(said(left));
    lemma_denies(said(right));
}

/// Pages that say the same never disagree, whoever publishes them, and neither do
/// two pages of one publisher, whatever they say.
pub proof fn equal_pages_and_publishers_agree(left: WebFetchEvidence, right: WebFetchEvidence)
    requires
        said(left) == said(right) || left.source_identity@ == right.source_identity@,
    ensures
        !disagree(left, right),
{
    lemma_said(left);
    lemma_said(right);
    let list = scalars(said(left));
    if list.len() > 0 {
        assert(holds(list, list[0]));
    }
}

/// Disagreement has no direction.
pub proof fn disagreement_is_mutual(left: WebFetchEvidence, right: WebFetchEvidence)
    ensures
        disagree(left, right) == disagree(right, left),
{
    lemma_disjoint(scalars(page_text(left)), scalars(page_text(right)));
    lemma_disjoint(scalars(page_text(right)), scalars(page_text(left)));
}

proof fn lemma_disjoint(a: Seq<Seq<char>>, b: Seq<Seq<char>>)
    ensures
        disjoint(a, b) ==> disjoint(b, a),
{
    if disjoint(a, b) {
        assert forall|i: int| 0 <= i < b.len() implies !holds(a, #[trigger] b[i]) by {
            if holds(a, b[i]) {
                let k = choose|k: int| 0 <= k < a.len() && #[trigger] a[k] == b[i];
                assert(holds(b, a[k]));
            }
        }
    }
}

/// Pages that both deny or both do not disagree exactly where they have different
/// publishers, each names a figure, and they name none in common.
pub proof fn figures_decide_where_denials_agree(left: WebFetchEvidence, right: WebFetchEvidence)
    requires
        denies(said(left)) == denies(said(right)),
    ensures
        disagree(left, right) <==> left.source_identity@ != right.source_identity@ && scalars(
            said(left),
        ).len() > 0 && scalars(said(right)).len() > 0 && forall|figure: Seq<char>|
            #![trigger scalars(said(left)).contains(figure)]
            !(scalars(said(left)).contains(figure) && scalars(said(right)).contains(figure)),
{
    lemma_said(left);
    lemma_said(right);
    lemma_denies(said(left));
    lemma_denies(said(right));
    let a = scalars(said(left));
    let b = scalars(said(right));
    if disjoint(a, b) {
        assert forall|figure: Seq<char>|
            #![trigger a.contains(figure)]
            !(a.contains(figure) && b.contains(figure)) by {
            if a.contains(figure) && b.contains(figure) {
                let i = choose|i: int| 0 <= i < a.len() && a[i] == figure;
                let k = choose|k: int| 0 <= k < b.len() && b[k] == figure;
                assert(holds(b, a[i]));
            }
        }
    } else {
        let i = choose|i: int| 0 <= i < a.len() && holds(b, #[trigger] a[i]);
        let k = choose|k: int| 0 <= k < b.len() && #[trigger] b[k] == a[i];
        assert(a.contains(a[i]));
        assert(b.contains(b[k]));
    }
}

/// A character of a figure or an amount.
pub open spec fn of_figure(c: char) -> bool {
    48 <= c as u32 <= 57 || c == '.' || c == ',' || c == '%' || c == '$' || c == '€'
}

/// A word with a digit in it gives a figure: the word without what stands around it
/// that belongs to no figure.
pub proof fn words_with_digits_give_figures(
    text: Seq<char>,
    n: int,
    pre: Seq<char>,
    core: Seq<char>,
    post: Seq<char>,
)
    requires
        0 <= n < words(text).len(),
        words(text)[n] == pre + core + post,
        core.len() > 0,
        of_figure(core[0]),
        of_figure(core.last()),
        exists|k: int| 0 <= k < core.len() && 48 <= #[trigger] core[k] as u32 <= 57,
        forall|k: int| 0 <= k < pre.len() ==> !of_figure(#[trigger] pre[k]),
        forall|k: int| 0 <= k < post.len() ==> !of_figure(#[trigger] post[k]),
    ensures
        scalars(text).contains(core),
{
    stripping_leaves_the_core(pre, core, post, outside_scalar());
    let k = choose|k: int| 0 <= k < core.len() && 48 <= #[trigger] core[k] as u32 <= 57;
    assert(is_digit(core[k]));
    lemma_figure_found(words(text), n);
}

proof fn lemma_figure_found(parts: Seq<Seq<char>>, n: int)
    requires
        0 <= n < parts.len(),
        has_digit(strip(parts[n], outside_scalar())),
    ensures
        scalars_in(parts).contains(strip(parts[n], outside_scalar())),
    decreases parts.len(),
{
    let core = strip(parts[n], outside_scalar());
    let rest = parts.drop_last();
    if n < rest.len() {
        assert(rest[n] == parts[n]);
        lemma_figure_found(rest, n);
        let w = choose|w: int| 0 <= w < scalars_in(rest).len() && scalars_in(rest)[w] == core;
        assert(scalars_in(parts)[w] == core);
    } else {
        assert(scalars_in(parts)[scalars_in(rest).len() as int] == core);
    }
}

/// Every figure holds a digit and is what a word is without what surrounds it.
pub proof fn figures_come_from_words(text: Seq<char>, figure: Seq<char>)
    requires
        scalars(text).contains(figure),
    ensures
        exists|k: int| 0 <= k < figure.len() && 48 <= #[trigger] figure[k] as u32 <= 57,
        exists|n: int|
            0 <= n < words(text).len() && figure == strip(
                #[trigger] words(text)[n],
                |c: char| !of_figure(c),
            ),
{
    assert(outside_scalar() =~= (|c: char| !of_figure(c)));
    lemma_figure_origin(words(text), figure);
    let k = choose|k: int| 0 <= k < figure.len() && is_digit(#[trigger] figure[k]);
    assert(48 <= figure[k] as u32 <= 57);
}

proof fn lemma_figure_origin(parts: Seq<Seq<char>>, figure: Seq<char>)
    requires
        scalars_in(parts).contains(figure),
    ensures
        has_digit(figure),
        exists|n: int|
            0 <= n < parts.len() && figure == strip(#[trigger] parts[n], outside_scalar()),
    decreases parts.len(),
{
    if parts.len() > 0 {
        let rest = parts.drop_last();
        let list = scalars_in(parts);
        let w = choose|w: int| 0 <= w < list.len() && list[w] == figure;
        if w < scalars_in(rest).len() {
            assert(scalars_in(rest)[w] == figure);
            lemma_figure_origin(rest, figure);
            let n = choose|n: int|
                0 <= n < rest.len() && figure == strip(#[trigger] rest[n], outside_scalar());
            assert(parts[n] == rest[n]);
        } else {
            assert(parts[parts.len() - 1] == parts.last());
        }
    }
}

/// The pages at two places of a turn were both fetched with passages and disagree.
pub open spec fn disagreeing(
    results: Seq<OperationResult<WebFetchEvidence>>,
    i: int,
    j: int,
) -> bool {
    &&& 0 <= i < j < results.len()
    &&& results[i].execution is Succeeded
    &&& results[j].execution is Succeeded
    &&& results[i].value matches Some(left) && results[j].value matches Some(right)
        && left.passages@.len() > 0 && right.passages@.len() > 0 && disagree(left, right)
}

proof fn lemma_first_exists(results: Seq<OperationResult<WebFetchEvidence>>, i: int, j: int)
    requires
        clash(results, i, j),
    ensures
        exists|a: int, b: int| is_first_clash(results, a, b),
    decreases i, j,
{
    if no_clash_before(results, i, j) {
        assert(is_first_clash(results, i, j));
    } else {
        let (a, b) = choose|a: int, b: int|
            (a < i || (a == i && b < j)) && #[trigger] clash(results, a, b);
        lemma_first_exists(results, a, b);
    }
}

/// The conflicts of a turn: exactly one where two fetched pages disagree, and none
/// where no two do. The one names two pages that disagree, the earlier one first, and
/// no page before the first of them disagrees with any.
pub proof fn a_conflict_names_disagreeing_pages(
    results: Seq<OperationResult<WebFetchEvidence>>,
    conflicts: Seq<EvidenceConflict>,
)
    requires
        are_conflicts(results, conflicts),
    ensures
        (forall|i: int, j: int| !#[trigger] disagreeing(results, i, j)) ==> conflicts.len() == 0,
        (exists|i: int, j: int| #[trigger] disagreeing(results, i, j)) ==> conflicts.len() == 1
            && exists|i: int, j: int|
            #[trigger] disagreeing(results, i, j) && conflicts[0].evidence_ids@.len() == 2
                && conflicts[0].evidence_ids@[0] == results[i].value->0.evidence_id
                && conflicts[0].evidence_ids@[1] == results[j].value->0.evidence_id
                && conflicts[0].description@
                == "Independent fetched sources contain unresolved differing claims."@ && forall|
                a: int,
                b: int,
            | #[trigger] disagreeing(results, a, b) ==> i < a || i == a && j <= b,
{
    assert forall|i: int, j: int| #[trigger] disagreeing(results, i, j) == clash(results, i, j) by {}
    if exists|i: int, j: int| #[trigger] disagreeing(results, i, j) {
        let (i, j) = choose|i: int, j: int| #[trigger] disagreeing(results, i, j);
        assert(clash(results, i, j));
        lemma_first_exists(results, i, j);
        let (a, b) = choose|a: int, b: int| is_first_clash(results, a, b);
        assert(disagreeing(results, a, b));
        assert forall|c: int, d: int| #[trigger] disagreeing(results, c, d) implies a < c || a == c
            && b <= d by {
            assert(clash(results, c, d));
        }
    } else {
        assert forall|a: int, b: int| !is_first_clash(results, a, b) by {
            assert(!disagreeing(results, a, b));
        }
    }
}

/// A question of fact is answered by pages of two publishers where it asks for
/// corroboration, and else by a page of the one asked about; a named page by any page.
/// Nothing fetched answers nothing, and one more page never takes an answer back.
pub proof fn what_answers_an_intent(
    intent: EvidenceIntent,
    results: Seq<OperationResult<WebFetchEvidence>>,
    more: OperationResult<WebFetchEvidence>,
)
    ensures
        contract_met(intent, results) ==> results.len() > 0,
        contract_met(intent, results) ==> contract_met(intent, results.push(more)),
        contract_met(intent, results) ==> exists|i: int|
            0 <= i < results.len() && is_usable(#[trigger] results[i]),
        intent matches EvidenceIntent::WebFact { verification, .. } ==> (verification is Corroborated
            ==> (contract_met(intent, results) <==> exists|i: int, j: int|
            0 <= i < j < results.len() && is_usable(#[trigger] results[i]) && is_usable(
                #[trigger] results[j],
            ) && results[i].value->0.source_identity@ != results[j].value->0.source_identity@)),
        intent matches EvidenceIntent::WebFact { verification, .. } ==> (
        verification is SingleAuthoritative ==> (contract_met(intent, results) <==> exists|i: int|
            0 <= i < results.len() && is_usable(#[trigger] results[i])
                && results[i].value->0.authority is FirstParty)),
        intent is WebDirectPage && results.len() > 0 && is_usable(results[0]) ==> contract_met(
            intent,
            results,
        ),
{
    let list = results.push(more);
    assert forall|i: int| 0 <= i < results.len() implies #[trigger] results[i] == list[i] by {}
    if any_usable(results) {
        let i = choose|i: int| 0 <= i < results.len() && is_usable(#[trigger] results[i]);
        assert(is_usable(list[i]));
    }
    if any_first_party(results) {
        let i = choose|i: int|
            0 <= i < results.len() && is_usable(#[trigger] results[i])
                && results[i].value->0.authority is FirstParty;
        assert(is_usable(list[i]));
    }
    if two_publishers(results) {
        let (i, j) = choose|i: int, j: int|
            0 <= i < results.len() && 0 <= j < results.len() && is_usable(#[trigger] results[i])
                && is_usable(#[trigger] results[j]) && results[i].value->0.source_identity@
                != results[j].value->0.source_identity@;
        assert(is_usable(list[i]) && is_usable(list[j]));
        if i < j {
            assert(is_usable(results[i]) && is_usable(results[j]));
        } else {
            assert(is_usable(results[j]) && is_usable(results[i]));
        }
    }
}

/// Whatever answers, a page that was fetched and can be read is among it: for one
/// authoritative source one of a first party, and to corroborate two of different
/// publishers.
pub proof fn answers_rest_on_read_pages(
    intent: EvidenceIntent,
    results: Seq<OperationResult<WebFetchEvidence>>,
)
    requires
        contract_met(intent, results),
    ensures
        intent is WebDirectPage || intent is WebFact,
        exists|i: int|
            0 <= i < results.len() && was_read(#[trigger] results[i]) && (intent is WebFact
                && intent->WebFact_verification is SingleAuthoritative
                ==> results[i].value->0.authority is FirstParty),
        intent is WebFact && intent->WebFact_verification is Corroborated ==> exists|
            i: int,
            j: int,
        |
            0 <= i < results.len() && 0 <= j < results.len() && was_read(#[trigger] results[i])
                && was_read(#[trigger] results[j]) && results[i].value->0.source_identity@
                != results[j].value->0.source_identity@,
{
    assert forall|i: int|
        0 <= i < results.len() && crate::conflicts::is_usable(
            #[trigger] results[i],
        ) implies was_read(results[i]) by {}
}

/// A page that was fetched, is readable and says something worth reading.
pub open spec fn was_read(result: OperationResult<WebFetchEvidence>) -> bool {
    &&& result.execution is Succeeded
    &&& result.value is Some
    &&& result.value->0.extraction is Readable || result.value->0.extraction is ReadableTruncated
    &&& result.value->0.quality.low_quality_reason is None
    &&& result.value->0.passages@.len() > 0
}

} // verus!
