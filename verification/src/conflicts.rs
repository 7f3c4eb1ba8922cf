//! Whether fetched pages suffice, and whether independent pages disagree.

use crate::order::{
    same_texts, sort_set, sorted_set, sorted_set_holds_each_text_once, strictly_ascending,
};
use crate::selection::passage_texts;
use crate::text::{
    any_digit, any_term, ascii_lowercase, chars_of, contains_any, digit, has_digit, holds,
    is_digit, join, join_chars, lower_ascii, strings, strip, strip_marked, texts, words, words_of,
};
use crate::types::{
    EvidenceConflict, EvidenceId, EvidenceIntent, ExecutionStatus, OperationResult,
    SourceAuthority, VerificationLevel, WebFetchEvidence,
};
use crate::web_validator::{is_legible, legible};
use vstd::prelude::*;

verus! {

/// Neither a digit nor a character that stands inside a figure or an amount.
pub open spec fn outside_scalar() -> spec_fn(char) -> bool {
    |c: char| !is_digit(c) && c != '.' && c != ',' && c != '%' && c != '$' && c != '€'
}

pub open spec fn scalars_in(parts: Seq<Seq<char>>) -> Seq<Seq<char>>
    decreases parts.len(),
{
    if parts.len() == 0 {
        Seq::empty()
    } else {
        let core = strip(parts.last(), outside_scalar());
        if has_digit(core) {
            scalars_in(parts.drop_last()).push(core)
        } else {
            scalars_in(parts.drop_last())
        }
    }
}

/// The figures and amounts of a text.
pub open spec fn scalars(text: Seq<char>) -> Seq<Seq<char>> {
    scalars_in(words(text))
}

fn strip_scalar(word: &Vec<char>) -> (r: Vec<char>)
    ensures
        r@ == strip(word@, outside_scalar()),
{
    let mut marks: Vec<bool> = Vec::new();
    let mut i: usize = 0;
    while i < word.len()
        invariant
            i <= word@.len(),
            marks@.len() == i,
            forall|k: int| 0 <= k < i ==> #[trigger] marks@[k] == outside_scalar()(word@[k]),
        decreases word@.len() - i,
    {
        let c = word[i];
        marks.push(!digit(c) && c != '.' && c != ',' && c != '%' && c != '$' && c != '€');
        i = i + 1;
    }
    strip_marked(word, &marks, Ghost(outside_scalar()))
}

fn scalar_chars(text: &Vec<char>) -> (r: Vec<Vec<char>>)
    ensures
        texts(r@) == scalars(text@),
{
    let parts = words_of(text);
    let ghost model = texts(parts@);
    let mut out: Vec<Vec<char>> = Vec::new();
    let mut i: usize = 0;
    proof {
        assert(model.take(0) =~= Seq::empty());
        assert(texts(out@) =~= Seq::empty());
    }
    while i < parts.len()
        invariant
            i <= parts@.len(),
            model == texts(parts@),
            texts(out@) == scalars_in(model.take(i as int)),
        decreases parts@.len() - i,
    {
        proof {
            let next = model.take(i as int + 1);
            assert(next.drop_last() =~= model.take(i as int));
            assert(next.last() == parts@[i as int]@);
        }
        let core = strip_scalar(&parts[i]);
        if any_digit(&core) {
            let ghost before = out@;
            let ghost item = core@;
            out.push(core);
            proof {
                assert(texts(out@) =~= texts(before).push(item));
            }
        }
        i = i + 1;
    }
    proof {
        assert(model.take(model.len() as int) =~= model);
    }
    out
}

/// The words of a text that hold a digit, apart from what stands around them,
/// in ascending order and each of them once.
pub fn scalar_claim_tokens(text: &str) -> (r: Vec<String>)
    ensures
        strings(r@) == sorted_set(scalars(text@)),
        strictly_ascending(strings(r@)),
        same_texts(strings(r@), scalars(text@)),
{
    let chars = chars_of(text);
    let found = sort_set(&scalar_chars(&chars));
    proof {
        sorted_set_holds_each_text_once(scalars(text@));
    }
    crate::passages::strings_of(&found)
}

pub open spec fn negation_terms() -> Seq<&'static str> {
    seq![" no ", " not ", " never ", "false", "cannot", "can't"]
}

pub open spec fn negates(text: Seq<char>) -> bool {
    contains_any(text, negation_terms())
}

fn negated(text: &Vec<char>) -> (r: bool)
    ensures
        r == negates(text@),
{
    let terms = [" no ", " not ", " never ", "false", "cannot", "can't"];
    proof {
        assert(terms@ =~= negation_terms());
    }
    any_term(text, &terms)
}

pub fn contains_negation(text: &str) -> (r: bool)
    ensures
        r == negates(text@),
{
    let chars = chars_of(text);
    negated(&chars)
}

/// All that the page says, in lower case.
pub open spec fn page_text(evidence: WebFetchEvidence) -> Seq<char> {
    ascii_lowercase(join(passage_texts(evidence.passages@), " "@))
}

fn chars_of_page(evidence: &WebFetchEvidence) -> (r: Vec<char>)
    ensures
        r@ == page_text(*evidence),
{
    let mut parts: Vec<Vec<char>> = Vec::new();
    let mut i: usize = 0;
    while i < evidence.passages.len()
        invariant
            i <= evidence.passages@.len(),
            parts@.len() == i,
            forall|k: int| 0 <= k < i ==> (#[trigger] parts@[k])@ == evidence.passages@[k].text@,
        decreases evidence.passages@.len() - i,
    {
        parts.push(chars_of(evidence.passages[i].text.as_str()));
        i = i + 1;
    }
    proof {
        assert(texts(parts@) =~= passage_texts(evidence.passages@));
    }
    let joined = join_chars(&parts, " ");
    lower_ascii(&joined)
}

pub open spec fn disjoint(left: Seq<Seq<char>>, right: Seq<Seq<char>>) -> bool {
    forall|i: int| 0 <= i < left.len() ==> !holds(right, #[trigger] left[i])
}

fn are_disjoint(left: &Vec<Vec<char>>, right: &Vec<Vec<char>>) -> (r: bool)
    ensures
        r == disjoint(texts(left@), texts(right@)),
{
    let ghost model = texts(left@);
    let mut i: usize = 0;
    while i < left.len()
        invariant
            i <= left@.len(),
            model == texts(left@),
            forall|k: int| 0 <= k < i ==> !holds(texts(right@), #[trigger] model[k]),
        decreases left@.len() - i,
    {
        if crate::text::contains_text(right, &left[i]) {
            assert(holds(texts(right@), model[i as int]));
            return false;
        }
        i = i + 1;
    }
    true
}

/// Pages of two publishers that name no figure in common, or of which one
/// denies and one does not.
pub open spec fn disagree(left: WebFetchEvidence, right: WebFetchEvidence) -> bool {
    let a = page_text(left);
    let b = page_text(right);
    &&& left.source_identity@ != right.source_identity@
    &&& (scalars(a).len() > 0 && scalars(b).len() > 0 && disjoint(scalars(a), scalars(b)))
        || negates(a) != negates(b)
}

fn differ(left: &WebFetchEvidence, right: &WebFetchEvidence) -> (r: bool)
    ensures
        r == disagree(*left, *right),
{
    if left.source_identity.same(&right.source_identity) {
        return false;
    }
    let a = chars_of_page(left);
    let b = chars_of_page(right);
    let left_scalars = scalar_chars(&a);
    let right_scalars = scalar_chars(&b);
    proof {
        assert(texts(left_scalars@).len() == left_scalars@.len());
        assert(texts(right_scalars@).len() == right_scalars@.len());
    }
    (left_scalars.len() > 0 && right_scalars.len() > 0 && are_disjoint(
        &left_scalars,
        &right_scalars,
    )) || negated(&a) != negated(&b)
}

/// The fetch gave passages.
pub open spec fn gave_passages(result: OperationResult<WebFetchEvidence>) -> bool {
    result.execution is Succeeded && result.value is Some && result.value->0.passages@.len() > 0
}

fn has_passages(result: &OperationResult<WebFetchEvidence>) -> (r: bool)
    ensures
        r == gave_passages(*result),
{
    match (&result.execution, &result.value) {
        (ExecutionStatus::Succeeded, Some(evidence)) => evidence.passages.len() > 0,
        _ => false,
    }
}

pub open spec fn clash(results: Seq<OperationResult<WebFetchEvidence>>, i: int, j: int) -> bool {
    &&& 0 <= i < j < results.len()
    &&& gave_passages(results[i])
    &&& gave_passages(results[j])
    &&& disagree(results[i].value->0, results[j].value->0)
}

/// No two pages up to this pair disagree.
pub open spec fn no_clash_before(
    results: Seq<OperationResult<WebFetchEvidence>>,
    i: int,
    j: int,
) -> bool {
    forall|a: int, b: int| (a < i || (a == i && b < j)) ==> !#[trigger] clash(results, a, b)
}

/// The first pair of pages that disagree.
pub open spec fn is_first_clash(
    results: Seq<OperationResult<WebFetchEvidence>>,
    i: int,
    j: int,
) -> bool {
    clash(results, i, j) && no_clash_before(results, i, j)
}

pub open spec fn conflict_description() -> Seq<char> {
    "Independent fetched sources contain unresolved differing claims."@
}

pub open spec fn names_clash(
    conflict: EvidenceConflict,
    left: WebFetchEvidence,
    right: WebFetchEvidence,
) -> bool {
    &&& conflict.evidence_ids@ == seq![left.evidence_id, right.evidence_id]
    &&& conflict.description@ == conflict_description()
}

/// The conflicts of a turn: the first pair of pages that disagree, or none.
pub open spec fn are_conflicts(
    results: Seq<OperationResult<WebFetchEvidence>>,
    conflicts: Seq<EvidenceConflict>,
) -> bool {
    if exists|i: int, j: int| is_first_clash(results, i, j) {
        let (i, j) = choose|i: int, j: int| is_first_clash(results, i, j);
        conflicts.len() == 1 && names_clash(
            conflicts[0],
            results[i].value->0,
            results[j].value->0,
        )
    } else {
        conflicts.len() == 0
    }
}

pub fn detect_web_conflicts(results: &Vec<OperationResult<WebFetchEvidence>>) -> (r: Vec<
    EvidenceConflict,
>)
    ensures
        are_conflicts(results@, r@),
{
    let mut i: usize = 0;
    while i < results.len()
        invariant
            i <= results@.len(),
            no_clash_before(results@, i as int, 0),
        decreases results@.len() - i,
    {
        let mut j: usize = i + 1;
        proof {
            assert(no_clash_before(results@, i as int, j as int));
        }
        while j < results.len()
            invariant
                i < j <= results@.len(),
                no_clash_before(results@, i as int, j as int),
            decreases results@.len() - j,
        {
            if has_passages(&results[i]) && has_passages(&results[j]) {
                match (&results[i].value, &results[j].value) {
                    (Some(left), Some(right)) => {
                        if differ(left, right) {
                            let mut ids: Vec<EvidenceId> = Vec::new();
                            ids.push(left.evidence_id.clone());
                            ids.push(right.evidence_id.clone());
                            let mut out: Vec<EvidenceConflict> = Vec::new();
                            let description =
                                "Independent fetched sources contain unresolved differing claims.".to_owned();
                            proof {
                                assert(ids@ =~= seq![left.evidence_id, right.evidence_id]);
                            }
                            out.push(EvidenceConflict { evidence_ids: ids, description });
                            proof {
                                assert(is_first_clash(results@, i as int, j as int));
                                let (a, b) = choose|a: int, b: int| is_first_clash(results@, a, b);
                                if a < i || (a == i && b < j) {
                                    assert(!clash(results@, a, b));
                                }
                                if i < a || (i == a && j < b) {
                                    assert(!clash(results@, i as int, j as int));
                                }
                            }
                            return out;
                        }
                    },
                    _ => {},
                }
            }
            proof {
                assert(!clash(results@, i as int, j as int));
                assert forall|a: int, b: int| (a < i || (a == i && b < j + 1)) implies !#[trigger] clash(
                    results@,
                    a,
                    b,
                ) by {
                    if a == i && b == j {
                    }
                }
            }
            j = j + 1;
        }
        proof {
            assert forall|a: int, b: int| (a < i + 1 || (a == i + 1 && b < 0)) implies !#[trigger] clash(
                results@,
                a,
                b,
            ) by {
                if a == i && b >= j {
                }
            }
        }
        i = i + 1;
    }
    proof {
        assert forall|a: int, b: int| !is_first_clash(results@, a, b) by {
            if clash(results@, a, b) {
                assert(a < i);
            }
        }
    }
    Vec::new()
}

/// The fetch gave a page that may ground an answer.
pub open spec fn is_usable(result: OperationResult<WebFetchEvidence>) -> bool {
    result.execution is Succeeded && result.value is Some && legible(result.value->0)
}

fn usable(result: &OperationResult<WebFetchEvidence>) -> (r: bool)
    ensures
        r == is_usable(*result),
{
    match (&result.execution, &result.value) {
        (ExecutionStatus::Succeeded, Some(evidence)) => is_legible(evidence),
        _ => false,
    }
}

pub open spec fn any_usable(results: Seq<OperationResult<WebFetchEvidence>>) -> bool {
    exists|i: int| 0 <= i < results.len() && is_usable(#[trigger] results[i])
}

pub open spec fn any_first_party(results: Seq<OperationResult<WebFetchEvidence>>) -> bool {
    exists|i: int|
        0 <= i < results.len() && is_usable(#[trigger] results[i])
            && results[i].value->0.authority is FirstParty
}

pub open spec fn two_publishers(results: Seq<OperationResult<WebFetchEvidence>>) -> bool {
    exists|i: int, j: int|
        0 <= i < results.len() && 0 <= j < results.len() && is_usable(#[trigger] results[i])
            && is_usable(#[trigger] results[j]) && results[i].value->0.source_identity@
            != results[j].value->0.source_identity@
}

/// What was fetched is what the intent asks for: a page, a page of the one who
/// is asked about, or pages of two publishers.
pub open spec fn contract_met(
    intent: EvidenceIntent,
    results: Seq<OperationResult<WebFetchEvidence>>,
) -> bool {
    match intent {
        EvidenceIntent::WebDirectPage { .. } => any_usable(results),
        EvidenceIntent::WebFact { verification, .. } => match verification {
            VerificationLevel::SingleAuthoritative => any_first_party(results),
            VerificationLevel::Corroborated => two_publishers(results),
        },
        _ => false,
    }
}

fn find_usable(results: &Vec<OperationResult<WebFetchEvidence>>, first_party: bool) -> (r: bool)
    ensures
        r == (if first_party {
            any_first_party(results@)
        } else {
            any_usable(results@)
        }),
{
    let mut i: usize = 0;
    while i < results.len()
        invariant
            i <= results@.len(),
            forall|k: int|
                0 <= k < i ==> !(is_usable(#[trigger] results@[k]) && (!first_party
                    || results@[k].value->0.authority is FirstParty)),
        decreases results@.len() - i,
    {
        if usable(&results[i]) {
            if let Some(evidence) = &results[i].value {
                if !first_party || matches!(evidence.authority, SourceAuthority::FirstParty) {
                    assert(is_usable(results@[i as int]));
                    return true;
                }
            }
        }
        i = i + 1;
    }
    false
}

fn find_two(results: &Vec<OperationResult<WebFetchEvidence>>) -> (r: bool)
    ensures
        r == two_publishers(results@),
{
    let mut first: Option<usize> = None;
    let mut i: usize = 0;
    while i < results.len()
        invariant
            i <= results@.len(),
            match first {
                Some(f) => f < i && is_usable(results@[f as int]) && forall|k: int|
                    0 <= k < i && is_usable(#[trigger] results@[k])
                        ==> results@[k].value->0.source_identity@
                        == results@[f as int].value->0.source_identity@,
                None => forall|k: int| 0 <= k < i ==> !is_usable(#[trigger] results@[k]),
            },
        decreases results@.len() - i,
    {
        if usable(&results[i]) {
            match first {
                Some(f) => {
                    match (&results[f].value, &results[i].value) {
                        (Some(a), Some(b)) => {
                            if !a.source_identity.same(&b.source_identity) {
                                assert(is_usable(results@[f as int]) && is_usable(
                                    results@[i as int],
                                ));
                                return true;
                            }
                        },
                        _ => {},
                    }
                },
                None => {
                    first = Some(i);
                },
            }
        }
        i = i + 1;
    }
    false
}

pub fn web_contract_satisfied(
    intent: &EvidenceIntent,
    results: &Vec<OperationResult<WebFetchEvidence>>,
) -> (r: bool)
    ensures
        r == contract_met(*intent, results@),
{
    match intent {
        EvidenceIntent::WebDirectPage { .. } => find_usable(results, false),
        EvidenceIntent::WebFact { verification, .. } => match verification {
            VerificationLevel::SingleAuthoritative => find_usable(results, true),
            VerificationLevel::Corroborated => find_two(results),
        },
        _ => false,
    }
}

/// A conflict is between two publishers: one page does not disagree with
/// itself, nor with another page of its publisher.
pub proof fn one_publisher_does_not_disagree(left: WebFetchEvidence, right: WebFetchEvidence)
    requires
        left.source_identity@ == right.source_identity@,
    ensures
        !disagree(left, right),
{
}

} // verus!
