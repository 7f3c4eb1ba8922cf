//! What the outcome of a turn says of the results that it was made from.

use crate::text::{contains, contains_any, lowercase, trim};
use crate::types::{
    operational, EvidenceIntent, EvidencePassage, EvidencePlan, EvidenceRequirement,
    EvidenceResults, EvidenceShortfall, ExecutionStatus, FailureCode, MailBodyEvidence,
    MailHeaderEvidence, OperationResult, RecoveryKind, ShortfallReason, ValidationOutcome,
    WebCandidate, WebFetchEvidence,
};
use crate::validator::{
    accepted_bodies, allocated, any_status, body_causes, body_denied, body_duplicate, body_empty,
    body_items, body_unavailable, capped, collected_headers, count_bodies, distinct, header_for,
    header_items, instruction_like, instruction_markers, is_denied, is_failure, is_invalid_input,
    is_parse_failure, kept_bodies, monus, recovery_message, shortfalls_account_for_all, statuses,
    total_missing, validated,
};
use crate::web_validator::{eligible, kept_passages, searched, selection};
use vstd::prelude::*;

verus! {

proof fn lemma_markers(s: Seq<char>)
    ensures
        contains_any(s, instruction_markers()) <==> contains(s, "ignore previous instructions"@)
            || contains(s, "ignore all instructions"@)
            || contains(s, "system prompt"@)
            || contains(s, "<|system|>"@)
            || contains(s, "assistant: call"@)
            || contains(s, "execute this tool"@),
{
    let terms = instruction_markers();
    assert(terms.len() == 6);
    assert(terms[0] == "ignore previous instructions");
    assert(terms[1] == "ignore all instructions");
    assert(terms[2] == "system prompt");
    assert(terms[3] == "<|system|>");
    assert(terms[4] == "assistant: call");
    assert(terms[5] == "execute this tool");
    if contains_any(s, terms) {
        let i = choose|i: int| 0 <= i < terms.len() && contains(s, (#[trigger] terms[i])@);
        assert(i == 0 || i == 1 || i == 2 || i == 3 || i == 4 || i == 5);
    }
}

/// Content reads like an instruction exactly where its lower case holds one of these
/// phrases.
pub proof fn instructions_are_known_by_these_phrases(value: Seq<char>)
    ensures
        instruction_like(value) <==> {
            let text = lowercase(value);
            ||| contains(text, "ignore previous instructions"@)
            ||| contains(text, "ignore all instructions"@)
            ||| contains(text, "system prompt"@)
            ||| contains(text, "<|system|>"@)
            ||| contains(text, "assistant: call"@)
            ||| contains(text, "execute this tool"@)
        },
{
    lemma_markers(lowercase(value));
}

/// A usable result of the list holds the header.
pub open spec fn lists_header(
    list: Seq<OperationResult<Vec<MailHeaderEvidence>>>,
    header: MailHeaderEvidence,
) -> bool {
    exists|i: int|
        0 <= i < list.len() && (#[trigger] list[i]).value is Some
            && list[i].value->0@.contains(header) && (list[i].execution is Succeeded
            || list[i].execution == ExecutionStatus::Failed(FailureCode::ParseFailure)
            && list[i].contribution is Partial)
}

/// A list or a search of the turn returned the header.
pub open spec fn returned_header(results: EvidenceResults, header: MailHeaderEvidence) -> bool {
    lists_header(results.mail_list@, header) || lists_header(results.mail_search@, header)
}

/// A successful read of the turn returned the body.
pub open spec fn returned_body(results: EvidenceResults, body: MailBodyEvidence) -> bool {
    exists|i: int|
        0 <= i < results.mail_bodies@.len() && (#[trigger] results.mail_bodies@[i]).value == Some(
            body,
        ) && results.mail_bodies@[i].execution is Succeeded
}

/// A successful fetch of the turn returned the page.
pub open spec fn returned_page(results: EvidenceResults, page: WebFetchEvidence) -> bool {
    exists|i: int|
        0 <= i < results.web_fetches@.len() && (#[trigger] results.web_fetches@[i]).value == Some(
            page,
        ) && results.web_fetches@[i].execution is Succeeded
}

proof fn lemma_collected(
    list: Seq<OperationResult<Vec<MailHeaderEvidence>>>,
    header: MailHeaderEvidence,
)
    requires
        collected_headers(list).contains(header),
    ensures
        lists_header(list, header),
    decreases list.len(),
{
    if list.len() > 0 {
        let rest = list.drop_last();
        let before = collected_headers(rest);
        let k = choose|k: int| 0 <= k < collected_headers(list).len() && collected_headers(list)[k]
            == header;
        if k < before.len() {
            assert(before[k] == header);
            lemma_collected(rest, header);
            let i = choose|i: int|
                0 <= i < rest.len() && (#[trigger] rest[i]).value is Some
                    && rest[i].value->0@.contains(header) && (rest[i].execution is Succeeded
                    || rest[i].execution == ExecutionStatus::Failed(FailureCode::ParseFailure)
                    && rest[i].contribution is Partial);
            assert(list[i] == rest[i]);
        } else {
            let last = list[list.len() - 1];
            assert(last.value->0@[k - before.len()] == header);
        }
    }
}

proof fn lemma_distinct_given(headers: Seq<MailHeaderEvidence>, k: int)
    requires
        0 <= k < distinct(headers).len(),
    ensures
        headers.contains(distinct(headers)[k]),
    decreases headers.len(),
{
    let rest = headers.drop_last();
    if k < distinct(rest).len() {
        lemma_distinct_given(rest, k);
        let i = choose|i: int| 0 <= i < rest.len() && rest[i] == distinct(rest)[k];
        assert(headers[i] == distinct(headers)[k]);
    } else {
        assert(headers[headers.len() - 1] == distinct(headers)[k]);
    }
}

proof fn lemma_header_listed(list: Seq<OperationResult<Vec<MailHeaderEvidence>>>, k: int)
    requires
        0 <= k < distinct(collected_headers(list)).len(),
    ensures
        lists_header(list, distinct(collected_headers(list))[k]),
{
    lemma_distinct_given(collected_headers(list), k);
    lemma_collected(list, distinct(collected_headers(list))[k]);
}

proof fn lemma_header_for(headers: Seq<MailHeaderEvidence>, id: Seq<char>)
    requires
        header_for(headers, id) is Some,
    ensures
        header_for(headers, id)->0.evidence_id@ == id,
        headers.contains(header_for(headers, id)->0),
    decreases headers.len(),
{
    if headers.last().evidence_id@ == id {
        assert(headers[headers.len() - 1] == headers.last());
    } else {
        let rest = headers.drop_last();
        lemma_header_for(rest, id);
        let i = choose|i: int| 0 <= i < rest.len() && rest[i] == header_for(rest, id)->0;
        assert(headers[i] == rest[i]);
    }
}

proof fn lemma_accepted(
    results: Seq<OperationResult<MailBodyEvidence>>,
    headers: Seq<MailHeaderEvidence>,
    k: int,
)
    requires
        0 <= k < accepted_bodies(results, headers).len(),
    ensures
        header_for(headers, accepted_bodies(results, headers)[k].header_id@) is Some,
        accepted_bodies(results, headers)[k].body_state is Readable,
        trim(accepted_bodies(results, headers)[k].body@).len() > 0,
        exists|i: int|
            0 <= i < results.len() && (#[trigger] results[i]).value == Some(
                accepted_bodies(results, headers)[k],
            ) && results[i].execution is Succeeded,
    decreases results.len(),
{
    let rest = results.drop_last();
    let before = accepted_bodies(rest, headers);
    let body = accepted_bodies(results, headers)[k];
    if k < before.len() {
        lemma_accepted(rest, headers, k);
        assert(body == before[k]);
        let i = choose|i: int|
            0 <= i < rest.len() && (#[trigger] rest[i]).value == Some(before[k])
                && rest[i].execution is Succeeded;
        assert(results[i] == rest[i]);
    } else {
        assert(results[results.len() - 1].value == Some(body));
    }
}

proof fn lemma_kept(bodies: Seq<MailBodyEvidence>, allow: bool, k: int)
    requires
        0 <= k < kept_bodies(bodies, allow).len(),
    ensures
        bodies.contains(kept_bodies(bodies, allow)[k]),
        allow || !instruction_like(kept_bodies(bodies, allow)[k].body@),
    decreases bodies.len(),
{
    let rest = bodies.drop_last();
    let before = kept_bodies(rest, allow);
    if k < before.len() {
        lemma_kept(rest, allow, k);
        let i = choose|i: int| 0 <= i < rest.len() && rest[i] == before[k];
        assert(bodies[i] == rest[i]);
    } else {
        assert(bodies[bodies.len() - 1] == kept_bodies(bodies, allow)[k]);
    }
}

proof fn lemma_kept_passage(passages: Seq<EvidencePassage>, allow: bool, k: int)
    requires
        0 <= k < kept_passages(passages, allow).len(),
    ensures
        passages.contains(kept_passages(passages, allow)[k]),
        allow || !instruction_like(kept_passages(passages, allow)[k].text@),
    decreases passages.len(),
{
    let rest = passages.drop_last();
    let before = kept_passages(rest, allow);
    if k < before.len() {
        lemma_kept_passage(rest, allow, k);
        let i = choose|i: int| 0 <= i < rest.len() && rest[i] == before[k];
        assert(passages[i] == rest[i]);
    } else {
        assert(passages[passages.len() - 1] == kept_passages(passages, allow)[k]);
    }
}

/// The item of a bundle shows the header field by field.
proof fn lemma_header_item(
    list: Seq<OperationResult<Vec<MailHeaderEvidence>>>,
    n: int,
    k: int,
)
    requires
        0 <= n,
        0 <= k < header_items(distinct(collected_headers(list)), n).len(),
    ensures
        ({
            let item = header_items(distinct(collected_headers(list)), n)[k];
            let header = distinct(collected_headers(list))[k];
            &&& lists_header(list, header)
            &&& item.evidence_id == header.evidence_id
            &&& item.sender@ == header.sender@
            &&& item.subject@ == header.subject@
            &&& item.received_at == header.received_at
            &&& item.body is None
            &&& item.body_state is None
            &&& item.body_origin is None
        }),
{
    lemma_header_listed(list, k);
}

proof fn lemma_body_item(
    list: Seq<OperationResult<Vec<MailHeaderEvidence>>>,
    results: Seq<OperationResult<MailBodyEvidence>>,
    allow: bool,
    n: int,
    k: int,
) -> (found: (MailHeaderEvidence, MailBodyEvidence))
    requires
        0 <= n,
        ({
            let headers = distinct(collected_headers(list));
            0 <= k < body_items(
                kept_bodies(accepted_bodies(results, headers), allow),
                headers,
                n,
            ).len()
        }),
    ensures
        ({
            let headers = distinct(collected_headers(list));
            let item = body_items(
                kept_bodies(accepted_bodies(results, headers), allow),
                headers,
                n,
            )[k];
            let (header, body) = found;
            &&& lists_header(list, header)
            &&& item.evidence_id@ == header.evidence_id@
            &&& item.sender@ == header.sender@
            &&& item.subject@ == header.subject@
            &&& item.received_at == header.received_at
            &&& body.header_id@ == header.evidence_id@
            &&& item.body matches Some(text) && text@ == body.body@
            &&& item.body_state == Some(body.body_state)
            &&& item.body_origin == Some(body.body_origin)
            &&& body.body_state is Readable
            &&& trim(body.body@).len() > 0
            &&& allow || !instruction_like(body.body@)
            &&& exists|i: int|
                0 <= i < results.len() && (#[trigger] results[i]).value == Some(body)
                    && results[i].execution is Succeeded
        }),
{
    let headers = distinct(collected_headers(list));
    let accepted = accepted_bodies(results, headers);
    let kept = kept_bodies(accepted, allow);
    let body = kept[k];
    lemma_kept(accepted, allow, k);
    let m = choose|m: int| 0 <= m < accepted.len() && accepted[m] == body;
    lemma_accepted(results, headers, m);
    lemma_header_for(headers, body.header_id@);
    let header = header_for(headers, body.header_id@)->0;
    let h = choose|h: int| 0 <= h < headers.len() && headers[h] == header;
    lemma_header_listed(list, h);
    (header, body)
}

/// Every mail item of a bundle agrees field by field with a header that a list or a
/// search of the turn returned; one with a text shows a readable body of that message
/// that was read, and outside a quoted analysis no text that reads like an instruction.
pub proof fn mail_items_show_what_was_returned(
    outcome: ValidationOutcome,
    turn_id: Seq<char>,
    plan: EvidencePlan,
    results: EvidenceResults,
    k: int,
)
    requires
        validated(outcome, turn_id, plan, results),
        outcome is Bundle,
        0 <= k < outcome->Bundle_0.mail@.len(),
    ensures
        outcome->Bundle_0.mail@[k].body is Some <==> outcome->Bundle_0.mail@[k].body_state is Some,
        outcome->Bundle_0.mail@[k].body is Some <==> outcome->Bundle_0.mail@[k].body_origin is Some,
        exists|header: MailHeaderEvidence| #[trigger]
            returned_header(results, header) && outcome->Bundle_0.mail@[k].evidence_id@
                == header.evidence_id@ && outcome->Bundle_0.mail@[k].sender@ == header.sender@
                && outcome->Bundle_0.mail@[k].subject@ == header.subject@
                && outcome->Bundle_0.mail@[k].received_at == header.received_at,
        outcome->Bundle_0.mail@[k].body matches Some(text) ==> exists|body: MailBodyEvidence|
            #[trigger] returned_body(results, body) && body.header_id@
                == outcome->Bundle_0.mail@[k].evidence_id@ && text@ == body.body@
                && outcome->Bundle_0.mail@[k].body_state == Some(body.body_state)
                && outcome->Bundle_0.mail@[k].body_origin == Some(body.body_origin)
                && body.body_state is Readable && trim(text@).len() > 0 && (
            plan.intent is AnalyzeQuotedEvidence || !instruction_like(text@)),
{
    let intent = operational(plan.intent);
    let allow = plan.intent is AnalyzeQuotedEvidence;
    match intent {
        EvidenceIntent::MailLatestHeaders { count, .. } => {
            lemma_header_item(results.mail_list@, count as int, k);
            let header = distinct(collected_headers(results.mail_list@))[k];
            assert(returned_header(results, header));
        },
        EvidenceIntent::MailLatestContent { count, .. } => {
            let (header, body) = lemma_body_item(
                results.mail_list@,
                results.mail_bodies@,
                allow,
                count as int,
                k,
            );
            assert(returned_header(results, header));
            assert(returned_body(results, body));
        },
        EvidenceIntent::MailTargeted { needs_content, .. } => {
            if needs_content {
                let (header, body) = lemma_body_item(
                    results.mail_search@,
                    results.mail_bodies@,
                    allow,
                    1,
                    k,
                );
                assert(returned_header(results, header));
                assert(returned_body(results, body));
            } else {
                lemma_header_item(results.mail_search@, 1, k);
                let header = distinct(collected_headers(results.mail_search@))[k];
                assert(returned_header(results, header));
            }
        },
        _ => {},
    }
}

/// Every page of a bundle is one that was fetched, with the passages that may be used
/// and no other, and the citation of the same place names that page and its final
/// address.
pub proof fn web_items_show_what_was_fetched(
    outcome: ValidationOutcome,
    turn_id: Seq<char>,
    plan: EvidencePlan,
    results: EvidenceResults,
    k: int,
)
    requires
        validated(outcome, turn_id, plan, results),
        outcome is Bundle,
        0 <= k < outcome->Bundle_0.web@.len(),
    ensures
        outcome->Bundle_0.citation_allowlist@.len() == outcome->Bundle_0.web@.len(),
        outcome->Bundle_0.citation_allowlist@[k].evidence_id
            == outcome->Bundle_0.web@[k].evidence.evidence_id,
        outcome->Bundle_0.citation_allowlist@[k].url == outcome->Bundle_0.web@[k].evidence.final_url,
        exists|page: WebFetchEvidence| #[trigger]
            returned_page(results, page) && outcome->Bundle_0.web@[k].evidence.evidence_id
                == page.evidence_id && outcome->Bundle_0.web@[k].evidence.candidate_id
                == page.candidate_id && outcome->Bundle_0.web@[k].evidence.requested_url
                == page.requested_url && outcome->Bundle_0.web@[k].evidence.final_url
                == page.final_url && outcome->Bundle_0.web@[k].evidence.redirect_chain@
                == page.redirect_chain@ && outcome->Bundle_0.web@[k].evidence.http_status
                == page.http_status && outcome->Bundle_0.web@[k].evidence.content_type
                == page.content_type && outcome->Bundle_0.web@[k].evidence.bytes_read
                == page.bytes_read && outcome->Bundle_0.web@[k].evidence.characters_extracted
                == page.characters_extracted && outcome->Bundle_0.web@[k].evidence.extraction
                == page.extraction && outcome->Bundle_0.web@[k].evidence.quality == page.quality
                && outcome->Bundle_0.web@[k].evidence.page_owner_identity_bound
                == page.page_owner_identity_bound && outcome->Bundle_0.web@[k].evidence.authority
                == page.authority && outcome->Bundle_0.web@[k].evidence.source_identity
                == page.source_identity && outcome->Bundle_0.web@[k].evidence.links@ == page.links@
                && outcome->Bundle_0.web@[k].evidence.passages@.len() > 0 && (
            plan.intent is AnalyzeQuotedEvidence
                ==> outcome->Bundle_0.web@[k].evidence.passages@ == page.passages@) && forall|p: int|
                0 <= p < outcome->Bundle_0.web@[k].evidence.passages@.len()
                    ==> page.passages@.contains(
                    #[trigger] outcome->Bundle_0.web@[k].evidence.passages@[p],
                ) && (plan.intent is AnalyzeQuotedEvidence || !instruction_like(
                    outcome->Bundle_0.web@[k].evidence.passages@[p].text@,
                )),
{
    let intent = operational(plan.intent);
    let allow = plan.intent is AnalyzeQuotedEvidence;
    let fetches = results.web_fetches@;
    let candidates = searched(results.web_searches@);
    crate::web_validator::bundled_pages_are_fetched_and_independent(
        fetches,
        intent,
        candidates,
        allow,
    );
    let chosen = selection(fetches, intent, candidates, allow, fetches.len() as int).0;
    lemma_chosen_have_passages(fetches, intent, candidates, allow, fetches.len() as int);
    assert(intent is WebFact || intent is WebDirectPage);
    let item = outcome->Bundle_0.web@[k];
    let citation = outcome->Bundle_0.citation_allowlist@[k];
    let page = fetches[chosen[k]].value->0;
    assert(eligible(fetches[chosen[k]], intent, candidates, fetches));
    assert(fetches[chosen[k]].value == Some(page));
    assert(returned_page(results, page));
    assert forall|p: int| 0 <= p < item.evidence.passages@.len() implies page.passages@.contains(
        #[trigger] item.evidence.passages@[p],
    ) && (allow || !instruction_like(item.evidence.passages@[p].text@)) by {
        lemma_kept_passage(page.passages@, allow, p);
    }
    crate::web_validator::instruction_passages_stay_out(page.passages@);
}

proof fn lemma_chosen_have_passages(
    fetches: Seq<OperationResult<WebFetchEvidence>>,
    intent: EvidenceIntent,
    candidates: Seq<WebCandidate>,
    allow: bool,
    n: int,
)
    requires
        0 <= n <= fetches.len(),
    ensures
        forall|k: int|
            0 <= k < selection(fetches, intent, candidates, allow, n).0.len() ==> kept_passages(
                fetches[#[trigger] selection(
                    fetches,
                    intent,
                    candidates,
                    allow,
                    n,
                ).0[k]].value->0.passages@,
                allow,
            ).len() > 0,
    decreases n,
{
    if n > 0 {
        lemma_chosen_have_passages(fetches, intent, candidates, allow, n - 1);
    }
}

/// A bundle carries the turn and the intent that it was made for and the conflicts
/// that were found, counts what was asked for, is complete exactly where nothing is
/// missing, and shows no more mail or pages than were asked for. What it excludes it
/// excludes for one reason.
pub proof fn bundles_carry_the_turn(
    outcome: ValidationOutcome,
    turn_id: Seq<char>,
    plan: EvidencePlan,
    results: EvidenceResults,
)
    requires
        validated(outcome, turn_id, plan, results),
        outcome is Bundle,
    ensures
        outcome->Bundle_0.version == 1,
        outcome->Bundle_0.turn_id@ == turn_id,
        outcome->Bundle_0.intent == plan.intent,
        outcome->Bundle_0.conflicts == results.conflicts,
        outcome->Bundle_0.completeness is Complete <==> outcome->Bundle_0.missing@.len() == 0,
        outcome->Bundle_0.mail@.len() > 0 ==> outcome->Bundle_0.web@.len() == 0,
        forall|i: int|
            0 <= i < outcome->Bundle_0.exclusions@.len() ==> (
            #[trigger] outcome->Bundle_0.exclusions@[i]).reason@
                == "instruction-like content excluded from ordinary synthesis"@,
        plan.intent is AnalyzeQuotedEvidence ==> outcome->Bundle_0.exclusions@.len() == 0,
        operational(plan.intent) matches EvidenceIntent::MailLatestHeaders { count, .. } ==> {
            &&& outcome->Bundle_0.requested.mail_headers == count
            &&& outcome->Bundle_0.requested.mail_bodies == 0
            &&& outcome->Bundle_0.requested.web_sources == 0
            &&& outcome->Bundle_0.acquired.mail_headers == outcome->Bundle_0.mail@.len()
            &&& outcome->Bundle_0.acquired.mail_bodies == 0
            &&& outcome->Bundle_0.acquired.web_sources == 0
            &&& outcome->Bundle_0.mail@.len() <= count
            &&& outcome->Bundle_0.mail@.len() + total_missing(outcome->Bundle_0.missing@) == count
        },
        operational(plan.intent) matches EvidenceIntent::MailLatestContent {
            count,
            requested_count,
            ..
        } ==> {
            &&& outcome->Bundle_0.requested.mail_headers == requested_count
            &&& outcome->Bundle_0.requested.mail_bodies == requested_count
            &&& outcome->Bundle_0.requested.web_sources == 0
            &&& outcome->Bundle_0.acquired.mail_bodies == outcome->Bundle_0.mail@.len()
            &&& outcome->Bundle_0.acquired.web_sources == 0
            &&& outcome->Bundle_0.acquired.mail_headers <= count
            &&& outcome->Bundle_0.mail@.len() <= count
        },
        operational(plan.intent) is MailTargeted ==> {
            &&& outcome->Bundle_0.mail@.len() == 1
            &&& outcome->Bundle_0.requested.mail_headers == 1
            &&& outcome->Bundle_0.acquired.mail_headers == 1
        },
        operational(plan.intent) is WebFact || operational(plan.intent) is WebDirectPage ==> {
            &&& outcome->Bundle_0.mail@.len() == 0
            &&& outcome->Bundle_0.acquired.web_sources == outcome->Bundle_0.web@.len()
            &&& 1 <= outcome->Bundle_0.web@.len() <= outcome->Bundle_0.requested.web_sources
            &&& outcome->Bundle_0.web@.len() + total_missing(outcome->Bundle_0.missing@)
                == outcome->Bundle_0.requested.web_sources
        },
        operational(plan.intent) is WebDirectPage ==> outcome->Bundle_0.requested.web_sources == 1,
        operational(plan.intent) matches EvidenceIntent::WebFact { verification, .. }
            ==> outcome->Bundle_0.requested.web_sources == if verification is Corroborated {
            2u8
        } else {
            1u8
        },
{
    let intent = operational(plan.intent);
    let allow = plan.intent is AnalyzeQuotedEvidence;
    reveal_with_fuel(total_missing, 3);
    match intent {
        EvidenceIntent::MailLatestHeaders { count, .. } => {
            let n = distinct(collected_headers(results.mail_list@)).len();
            let acquired = crate::validator::least(capped(n), count);
            let malformed = crate::validator::malformed_count(
                results.mail_list@,
                results.mail_search@,
            );
            shortfalls_account_for_all(
                EvidenceRequirement::MailHeaders { count },
                seq![(malformed, ShortfallReason::Malformed)],
                monus(count, acquired),
            );
        },
        EvidenceIntent::MailLatestContent { .. } => {
            let headers = distinct(collected_headers(results.mail_list@));
            let accepted = accepted_bodies(results.mail_bodies@, headers);
            crate::validator::instruction_bodies_stay_out(accepted);
        },
        EvidenceIntent::MailTargeted { .. } => {
            let headers = distinct(collected_headers(results.mail_search@));
            let accepted = accepted_bodies(results.mail_bodies@, headers);
            crate::validator::instruction_bodies_stay_out(accepted);
        },
        _ => {
            let fetches = results.web_fetches@;
            let candidates = searched(results.web_searches@);
            lemma_nothing_excluded(fetches, intent, candidates, fetches.len() as int);
            let missing = outcome->Bundle_0.missing@;
            assert(missing.len() <= 1);
            if missing.len() == 1 {
                assert(missing.drop_first() =~= Seq::empty());
            }
        },
    }
}

proof fn lemma_nothing_excluded(
    fetches: Seq<OperationResult<WebFetchEvidence>>,
    intent: EvidenceIntent,
    candidates: Seq<WebCandidate>,
    n: int,
)
    requires
        0 <= n <= fetches.len(),
    ensures
        selection(fetches, intent, candidates, true, n).1.len() == 0,
    decreases n,
{
    if n > 0 {
        lemma_nothing_excluded(fetches, intent, candidates, n - 1);
        crate::web_validator::instruction_passages_stay_out(fetches[n - 1].value->0.passages@);
    }
}

/// A status among those of the mail operations of a turn.
pub open spec fn mail_status(results: EvidenceResults, status: ExecutionStatus) -> bool {
    ||| exists|i: int|
        0 <= i < results.mail_list@.len() && (#[trigger] results.mail_list@[i]).execution == status
    ||| exists|i: int|
        0 <= i < results.mail_search@.len() && (#[trigger] results.mail_search@[i]).execution
            == status
    ||| exists|i: int|
        0 <= i < results.mail_bodies@.len() && (#[trigger] results.mail_bodies@[i]).execution
            == status
}

proof fn lemma_mail_status(results: EvidenceResults, status: ExecutionStatus)
    ensures
        mail_status(results, status) <==> (statuses(results.mail_list@) + statuses(
            results.mail_search@,
        ) + statuses(results.mail_bodies@)).contains(status),
{
    let a = statuses(results.mail_list@);
    let b = statuses(results.mail_search@);
    let c = statuses(results.mail_bodies@);
    let all = a + b + c;
    if mail_status(results, status) {
        if exists|i: int|
            0 <= i < results.mail_list@.len() && (#[trigger] results.mail_list@[i]).execution
                == status {
            let i = choose|i: int|
                0 <= i < results.mail_list@.len() && (#[trigger] results.mail_list@[i]).execution
                    == status;
            assert(all[i] == status);
        } else if exists|i: int|
            0 <= i < results.mail_search@.len() && (#[trigger] results.mail_search@[i]).execution
                == status {
            let i = choose|i: int|
                0 <= i < results.mail_search@.len() && (
                #[trigger] results.mail_search@[i]).execution == status;
            assert(all[a.len() + i] == status);
        } else {
            let i = choose|i: int|
                0 <= i < results.mail_bodies@.len() && (
                #[trigger] results.mail_bodies@[i]).execution == status;
            assert(all[a.len() + b.len() + i] == status);
        }
    }
    if all.contains(status) {
        let i = choose|i: int| 0 <= i < all.len() && all[i] == status;
        if i < a.len() {
            assert(results.mail_list@[i].execution == status);
        } else if i < a.len() + b.len() {
            assert(results.mail_search@[i - a.len()].execution == status);
        } else {
            assert(results.mail_bodies@[i - a.len() - b.len()].execution == status);
        }
    }
}

/// Where no mail can be shown the gravest cause is named: a denial before an invalid
/// request, that before unreadable metadata, and that before any other failure; an
/// empty answer is named only where nothing failed.
pub proof fn the_gravest_cause_is_named(
    outcome: ValidationOutcome,
    turn_id: Seq<char>,
    plan: EvidencePlan,
    results: EvidenceResults,
)
    requires
        validated(outcome, turn_id, plan, results),
        outcome is Recovery,
        operational(plan.intent) is MailLatestHeaders || operational(
            plan.intent,
        ) is MailLatestContent,
    ensures
        ({
            let kind = outcome->Recovery_0.kind;
            let denied = mail_status(results, ExecutionStatus::Denied);
            let invalid = mail_status(results, ExecutionStatus::Failed(FailureCode::InvalidInput));
            let malformed = mail_status(
                results,
                ExecutionStatus::Failed(FailureCode::ParseFailure),
            );
            &&& denied <==> kind is Denied
            &&& !denied && invalid <==> kind is InvalidInput
            &&& !denied && !invalid && malformed <==> kind is Malformed
            &&& !denied && !invalid && !malformed && mail_status(results, ExecutionStatus::TimedOut)
                ==> kind is Unavailable
            &&& forall|code: FailureCode|
                kind is Empty || kind is NoUsableEvidence ==> !#[trigger] mail_status(
                    results,
                    ExecutionStatus::Failed(code),
                )
            &&& outcome->Recovery_0.message@ == recovery_message(kind)
            &&& outcome->Recovery_0.requested.web_sources == 0
        }),
{
    let all = statuses(results.mail_list@) + statuses(results.mail_search@) + statuses(
        results.mail_bodies@,
    );
    lemma_mail_status(results, ExecutionStatus::Denied);
    lemma_mail_status(results, ExecutionStatus::Failed(FailureCode::InvalidInput));
    lemma_mail_status(results, ExecutionStatus::Failed(FailureCode::ParseFailure));
    lemma_mail_status(results, ExecutionStatus::TimedOut);
    lemma_any(all, ExecutionStatus::Denied, is_denied());
    lemma_any(all, ExecutionStatus::Failed(FailureCode::InvalidInput), is_invalid_input());
    lemma_any(all, ExecutionStatus::Failed(FailureCode::ParseFailure), is_parse_failure());
    if all.contains(ExecutionStatus::TimedOut) {
        let i = choose|i: int| 0 <= i < all.len() && all[i] == ExecutionStatus::TimedOut;
        assert(is_failure()(all[i]));
    }
    let kind = outcome->Recovery_0.kind;
    assert forall|code: FailureCode|
        kind is Empty || kind is NoUsableEvidence implies !#[trigger] mail_status(
        results,
        ExecutionStatus::Failed(code),
    ) by {
        lemma_mail_status(results, ExecutionStatus::Failed(code));
        if all.contains(ExecutionStatus::Failed(code)) {
            let i = choose|i: int|
                0 <= i < all.len() && all[i] == ExecutionStatus::Failed(code);
            assert(is_failure()(all[i]));
        }
    }
}

proof fn lemma_any(
    all: Seq<ExecutionStatus>,
    status: ExecutionStatus,
    wanted: spec_fn(ExecutionStatus) -> bool,
)
    requires
        forall|s: ExecutionStatus| #[trigger] wanted(s) <==> s == status,
    ensures
        any_status(all, wanted) <==> all.contains(status),
{
    if all.contains(status) {
        let i = choose|i: int| 0 <= i < all.len() && all[i] == status;
        assert(wanted(all[i]));
    }
    if any_status(all, wanted) {
        let i = choose|i: int| 0 <= i < all.len() && wanted(#[trigger] all[i]);
        assert(all[i] == status);
    }
}

/// What is missing is charged to the first cause as far as that reaches, and only the
/// rest to those behind it; every shortfall names the requirement.
pub proof fn causes_are_charged_in_order(
    requirement: EvidenceRequirement,
    first: u8,
    reason: ShortfallReason,
    causes: Seq<(u8, ShortfallReason)>,
    remaining: u8,
)
    ensures
        ({
            let all = seq![(first, reason)] + causes;
            &&& first == 0 ==> allocated(requirement, all, remaining) == allocated(
                requirement,
                causes,
                remaining,
            )
            &&& 0 < first < remaining ==> allocated(requirement, all, remaining) == seq![
                EvidenceShortfall { requirement, missing_count: first, reason },
            ] + allocated(requirement, causes, (remaining - first) as u8)
            &&& 0 < remaining <= first ==> allocated(requirement, all, remaining) == seq![
                EvidenceShortfall { requirement, missing_count: remaining, reason },
            ]
            &&& remaining == 0 ==> allocated(requirement, all, remaining).len() == 0
            &&& remaining > 0 ==> allocated(requirement, Seq::empty(), remaining) == seq![
                EvidenceShortfall {
                    requirement,
                    missing_count: remaining,
                    reason: ShortfallReason::Empty,
                },
            ]
        }),
{
    let all = seq![(first, reason)] + causes;
    assert(all.drop_first() =~= causes);
    shortfalls_account_for_all(requirement, causes, 0);
    shortfalls_account_for_all(requirement, all, 0);
    let rest = allocated(requirement, causes, 0);
    assert(rest =~= Seq::empty());
    assert(Seq::<EvidenceShortfall>::empty() + allocated(requirement, causes, remaining)
        =~= allocated(requirement, causes, remaining));
}

/// The causes of missing bodies, in the order of their charge, each with what it
/// counts.
pub proof fn missing_bodies_have_these_causes(
    bodies: Seq<OperationResult<MailBodyEvidence>>,
    requested: u8,
    excluded: u8,
    batch: u8,
    malformed: u8,
)
    requires
        bodies.len() <= 255,
    ensures
        ({
            let causes = body_causes(bodies, requested, excluded, batch, malformed);
            &&& causes.len() == 7
            &&& causes[0].1 is BatchLimit
            &&& requested >= batch ==> causes[0].0 == requested - batch
            &&& requested < batch ==> causes[0].0 == 0
            &&& causes[1] == (malformed, ShortfallReason::Malformed)
            &&& causes[2].1 is Denied
            &&& causes[2].0 == bodies.filter(
                |r: OperationResult<MailBodyEvidence>| r.execution is Denied,
            ).len()
            &&& causes[3].1 is BodyUnavailable
            &&& causes[3].0 == bodies.filter(
                |r: OperationResult<MailBodyEvidence>|
                    r.value is Some && r.value->0.body_state is UnavailableLocally,
            ).len()
            &&& causes[4].1 is Empty
            &&& causes[4].0 == bodies.filter(
                |r: OperationResult<MailBodyEvidence>|
                    r.value is Some && (r.value->0.body_state is Empty || (
                    r.value->0.body_state is Readable && trim(r.value->0.body@).len() == 0)),
            ).len()
            &&& causes[5].1 is Duplicate
            &&& causes[5].0 == bodies.filter(
                |r: OperationResult<MailBodyEvidence>|
                    r.contribution is Duplicate && r.attempts == 0,
            ).len()
            &&& causes[6] == (excluded, ShortfallReason::ExcludedAsInstruction)
        }),
{
    lemma_counted(bodies, body_denied());
    lemma_counted(bodies, body_unavailable());
    lemma_counted(bodies, body_empty());
    lemma_counted(bodies, body_duplicate());
}

proof fn lemma_counted(
    bodies: Seq<OperationResult<MailBodyEvidence>>,
    condition: spec_fn(OperationResult<MailBodyEvidence>) -> bool,
)
    ensures
        count_bodies(bodies, condition) == bodies.filter(condition).len(),
        count_bodies(bodies, condition) <= bodies.len(),
    decreases bodies.len(),
{
    reveal(Seq::filter);
    if bodies.len() > 0 {
        lemma_counted(bodies.drop_last(), condition);
    }
}

/// What the user is told names the cause: each cause has its own words.
pub proof fn each_cause_has_its_own_words(kind: RecoveryKind)
    ensures
        kind is Denied ==> recovery_message(kind)
            == "Mail access was denied. You can approve access and retry when you are ready."@,
        kind is Empty ==> recovery_message(kind)
            == "The Mail query succeeded but returned no matching evidence. You can broaden the request or try again later."@,
        kind is InvalidInput ==> recovery_message(kind)
            == "The Mail request was invalid and was not executed. Check the search terms or message selection and try again."@,
        kind is Malformed ==> recovery_message(kind)
            == "Mail returned malformed message metadata that could not be used safely. Refresh Mail and try again."@,
        kind is Unavailable ==> recovery_message(kind)
            == "Mail or the requested message body is currently unavailable. You can retry after Mail finishes syncing."@,
        kind is NoUsableEvidence ==> recovery_message(kind)
            == "Mail returned no content safe for ordinary synthesis. You can explicitly ask me to analyze the instructions as quoted data."@,
{
}

} // verus!
