//! Laws of what a validated turn rests on: which headers, bodies and pages count,
//! how many are asked for, and what is said where none do.

use crate::order::sorted_set;
use crate::text::{join, trim};
use crate::types::{
    EvidenceIntent, EvidencePassage, EvidencePlan, EvidenceRequirement, EvidenceResults,
    ExecutionStatus, FailureCode, MailBodyEvidence, MailHeaderEvidence, OperationResult,
    ValidationOutcome, VerificationLevel, WebCandidate, WebFetchEvidence, WebSearchResult,
};
use crate::validator::{
    accepted_bodies, collected_headers, content_outcome, count_bodies, distinct, excluded_bodies,
    has_connector, header_for, headers_outcome, instruction_like, kept_bodies, malformed_count,
    targeted_outcome,
};
use crate::web_validator::{
    eligible, excluded_passages, fetched_links, found_url, kept_passages, searched, selection,
    shortfall_message, was_requested, web_outcome,
};
use crate::weburl::host_text;
use vstd::prelude::*;

verus! {

/// The candidates of the searches that succeeded are what pages are looked up in,
/// in their order; a search that did not succeed adds none.
pub proof fn searches_that_succeeded_are_looked_up(
    searches: Seq<OperationResult<WebSearchResult>>,
    search: OperationResult<WebSearchResult>,
)
    ensures
        searched(Seq::empty()).len() == 0,
        search.execution is Succeeded && search.value is Some ==> searched(searches.push(search))
            == searched(searches) + search.value->0.candidates@,
        !(search.execution is Succeeded && search.value is Some) ==> searched(
            searches.push(search),
        ) == searched(searches),
{
    assert(searches.push(search).drop_last() =~= searches);
}

/// Of the candidates of one name the last says where the page was to be found.
pub proof fn the_last_candidate_of_a_name_counts(
    candidates: Seq<WebCandidate>,
    id: Seq<char>,
    k: int,
)
    requires
        -1 <= k < candidates.len(),
        k >= 0 ==> candidates[k].candidate_id@ == id,
        forall|j: int| k < j < candidates.len() ==> (#[trigger] candidates[j]).candidate_id@ != id,
    ensures
        k >= 0 ==> found_url(candidates, id) == Some(candidates[k].requested_url),
        k < 0 ==> found_url(candidates, id) is None,
    decreases candidates.len(),
{
    if candidates.len() > 0 && k < candidates.len() - 1 {
        assert(candidates[candidates.len() - 1].candidate_id@ != id);
        the_last_candidate_of_a_name_counts(candidates.drop_last(), id, k);
    }
}

/// A page counts where it was fetched, contributes, was asked for and can be read,
/// and where one authoritative source is asked for, only a first party.
pub proof fn pages_count_where_they_were_asked_for_and_read(
    result: OperationResult<WebFetchEvidence>,
    intent: EvidenceIntent,
    candidates: Seq<WebCandidate>,
    fetches: Seq<OperationResult<WebFetchEvidence>>,
)
    ensures
        eligible(result, intent, candidates, fetches) ==> {
            let page = result.value->0;
            &&& result.value is Some
            &&& result.execution is Succeeded
            &&& result.contribution is Satisfied || result.contribution is Partial
            &&& page.extraction is Readable || page.extraction is ReadableTruncated
            &&& page.quality.low_quality_reason is None
            &&& intent is WebDirectPage || intent is WebFact
            &&& intent is WebDirectPage ==> page.requested_url.text@
                == intent->WebDirectPage_url.text@
            &&& intent is WebFact && intent->WebFact_verification
                == VerificationLevel::SingleAuthoritative ==> page.authority is FirstParty
            &&& exists|i: int|
                0 <= i < page.passages@.len() && trim((#[trigger] page.passages@[i]).text@).len()
                    > 0
        },
        result.value is Some && result.execution is Succeeded && (result.contribution is Satisfied
            || result.contribution is Partial) && result.value->0.extraction is Readable
            && result.value->0.quality.low_quality_reason is None && intent is WebDirectPage
            && result.value->0.requested_url.text@ == intent->WebDirectPage_url.text@ && (exists|
            i: int,
        |
            0 <= i < result.value->0.passages@.len() && trim(
                (#[trigger] result.value->0.passages@[i]).text@,
            ).len() > 0) ==> eligible(result, intent, candidates, fetches),
{
}

/// A page of a question was asked for where its candidate was found at that
/// address, or where a fetched page links to that address.
pub proof fn found_and_linked_pages_were_asked_for(
    evidence: WebFetchEvidence,
    intent: EvidenceIntent,
    candidates: Seq<WebCandidate>,
    fetches: Seq<OperationResult<WebFetchEvidence>>,
    i: int,
    j: int,
)
    requires
        intent is WebFact,
    ensures
        found_url(candidates, evidence.candidate_id@) is Some && found_url(
            candidates,
            evidence.candidate_id@,
        )->0.text@ == evidence.requested_url.text@ ==> was_requested(
            evidence,
            intent,
            candidates,
            fetches,
        ),
        0 <= i < fetches.len() && fetches[i].value is Some && 0 <= j
            < fetches[i].value->0.links@.len() && fetches[i].value->0.links@[j].url.text@
            == evidence.requested_url.text@ ==> was_requested(
            evidence,
            intent,
            candidates,
            fetches,
        ),
        found_url(candidates, evidence.candidate_id@) is None && (forall|a: int, b: int|
            0 <= a < fetches.len() && (#[trigger] fetches[a]).value is Some && 0 <= b
                < fetches[a].value->0.links@.len() ==> (
            #[trigger] fetches[a].value->0.links@[b]).url.text@ != evidence.requested_url.text@)
            ==> !was_requested(evidence, intent, candidates, fetches),
{
}

/// The passages of an ordinary answer are those that do not read like an
/// instruction, in their order; those that do are named as left out. A quoted
/// analysis keeps them all.
pub proof fn instruction_passages_are_left_out(passages: Seq<EvidencePassage>)
    ensures
        kept_passages(passages, false) == passages.filter(
            |p: EvidencePassage| !instruction_like(p.text@),
        ),
        excluded_passages(passages, false) == passages.filter(
            |p: EvidencePassage| instruction_like(p.text@),
        ).map_values(|p: EvidencePassage| p.passage_id),
        kept_passages(passages, true) == passages,
        excluded_passages(passages, true).len() == 0,
    decreases passages.len(),
{
    reveal(Seq::filter);
    let plain = |p: EvidencePassage| !instruction_like(p.text@);
    let marked = |p: EvidencePassage| instruction_like(p.text@);
    let id = |p: EvidencePassage| p.passage_id;
    if passages.len() > 0 {
        let rest = passages.drop_last();
        instruction_passages_are_left_out(rest);
        assert(kept_passages(passages, true) =~= passages);
        if marked(passages.last()) {
            assert(rest.filter(marked).push(passages.last()).map_values(id) =~= rest.filter(
                marked,
            ).map_values(id).push(passages.last().passage_id));
        }
    } else {
        assert(passages.filter(plain) =~= passages);
        assert(passages.filter(marked).map_values(id) =~= excluded_passages(passages, false));
    }
}

/// The pages are chosen in the order in which they were fetched. One that counts
/// and is not chosen has no passage left, no host, or the publisher of a page that
/// was chosen before it.
pub proof fn pages_are_chosen_in_order(
    fetches: Seq<OperationResult<WebFetchEvidence>>,
    intent: EvidenceIntent,
    candidates: Seq<WebCandidate>,
    allow: bool,
    n: int,
    i: int,
)
    requires
        0 <= i < n <= fetches.len(),
    ensures
        ({
            let chosen = selection(fetches, intent, candidates, allow, n).0;
            let page = fetches[i].value->0;
            &&& forall|j: int, k: int|
                0 <= j < k < chosen.len() ==> #[trigger] chosen[j] < #[trigger] chosen[k]
            &&& forall|k: int| 0 <= k < chosen.len() ==> 0 <= #[trigger] chosen[k] < n
            &&& chosen.contains(i) ==> eligible(fetches[i], intent, candidates, fetches)
                && kept_passages(page.passages@, allow).len() > 0 && page.final_url.host is Some
            &&& eligible(fetches[i], intent, candidates, fetches) && kept_passages(
                page.passages@,
                allow,
            ).len() > 0 && page.final_url.host is Some && !chosen.contains(i) ==> exists|k: int|
                0 <= k < chosen.len() && #[trigger] chosen[k] < i
                    && fetches[chosen[k]].value->0.source_identity@ == page.source_identity@
        }),
    decreases n,
{
    let before = selection(fetches, intent, candidates, allow, n - 1).0;
    let chosen = selection(fetches, intent, candidates, allow, n).0;
    if n > 1 {
        if i < n - 1 {
            pages_are_chosen_in_order(fetches, intent, candidates, allow, n - 1, i);
        } else {
            pages_are_chosen_in_order(fetches, intent, candidates, allow, n - 1, 0);
        }
    } else {
        assert(before.len() == 0);
    }
    assert(chosen == before || chosen == before.push(n - 1));
    if chosen == before.push(n - 1) {
        assert(chosen.last() == n - 1);
        if i < n - 1 && before.contains(i) {
            let k = choose|k: int| 0 <= k < before.len() && before[k] == i;
            assert(chosen[k] == i);
        }
        if i < n - 1 && chosen.contains(i) {
            let k = choose|k: int| 0 <= k < chosen.len() && chosen[k] == i;
            assert(before[k] == i);
        }
        if i == n - 1 {
            assert(chosen[chosen.len() - 1] == i);
        }
        if i < n - 1 && !chosen.contains(i) && eligible(fetches[i], intent, candidates, fetches)
            && kept_passages(fetches[i].value->0.passages@, allow).len() > 0
            && fetches[i].value->0.final_url.host is Some {
            let k = choose|k: int|
                0 <= k < before.len() && #[trigger] before[k] < i
                    && fetches[before[k]].value->0.source_identity@
                    == fetches[i].value->0.source_identity@;
            assert(chosen[k] == before[k]);
        }
    } else if i == n - 1 {
        if before.contains(i) {
            let k = choose|k: int| 0 <= k < before.len() && before[k] == i;
            assert(before[k] < n - 1);
        }
    }
}

/// A turn on the web shows no more pages than are asked for: one for a named page
/// or a single authoritative source, two to corroborate. What is missing of them
/// is missing for want of verification, and without any page the turn fails.
pub proof fn missing_pages_are_a_verification_shortfall(
    outcome: ValidationOutcome,
    turn_id: Seq<char>,
    plan: EvidencePlan,
    intent: EvidenceIntent,
    results: EvidenceResults,
    requested: u8,
    allow: bool,
)
    requires
        web_outcome(outcome, turn_id, plan, intent, results, requested, allow),
        requested > 0,
    ensures
        ({
            let usable = selection(
                results.web_fetches@,
                intent,
                searched(results.web_searches@),
                allow,
                results.web_fetches@.len() as int,
            ).0.len();
            &&& outcome is Recovery <==> usable == 0
            &&& outcome matches ValidationOutcome::Recovery(recovery) ==> {
                &&& recovery.kind is VerificationShortfall
                &&& recovery.requested.web_sources == requested
                &&& recovery.requested.mail_headers == 0
                &&& recovery.requested.mail_bodies == 0
                &&& recovery.missing@.len() == 1
                &&& recovery.missing@[0].missing_count == requested
                &&& recovery.missing@[0].reason is VerificationFailed
                &&& recovery.missing@[0].requirement == (EvidenceRequirement::FetchedSources {
                    count: requested,
                })
            }
            &&& outcome matches ValidationOutcome::Bundle(bundle) ==> {
                &&& bundle.requested.web_sources == requested
                &&& bundle.mail@.len() == 0
                &&& bundle.web@.len() == bundle.citation_allowlist@.len()
                &&& bundle.web@.len() == if usable <= requested {
                    usable as int
                } else {
                    requested as int
                }
                &&& bundle.acquired.web_sources == bundle.web@.len()
                &&& bundle.completeness is Complete <==> usable >= requested
                &&& usable >= requested ==> bundle.missing@.len() == 0
                &&& usable < requested ==> bundle.missing@.len() == 1
                    && bundle.missing@[0].missing_count == requested - usable
                    && bundle.missing@[0].reason is VerificationFailed
                &&& bundle.conflicts == results.conflicts
            }
        }),
{
}

/// What is said where nothing could be verified: these words, with the pages that
/// were fetched to no use in between.
pub proof fn unverified_answers_name_what_was_fetched(links: Seq<Seq<char>>)
    ensures
        links.len() == 0 ==> shortfall_message(links)
            == "Verification Shortfall: I couldn't verify this request from fetched page evidence."@
            + " You can retry or provide a direct authoritative URL."@,
        links.len() > 0 ==> shortfall_message(links)
            == "Verification Shortfall: I couldn't verify this request from fetched page evidence."@
            + (" Sources fetched but not usable: "@ + join(sorted_set(links), ", "@) + "."@)
            + " You can retry or provide a direct authoritative URL."@,
{
    let opening =
        "Verification Shortfall: I couldn't verify this request from fetched page evidence."@;
    assert(opening + Seq::<char>::empty() =~= opening);
}

/// The pages named there are those that were fetched and asked for and have a
/// host, each as a link from its host to its final address.
pub proof fn fetched_pages_are_named_as_links(
    fetches: Seq<OperationResult<WebFetchEvidence>>,
    intent: EvidenceIntent,
    candidates: Seq<WebCandidate>,
    n: int,
)
    requires
        0 < n <= fetches.len(),
    ensures
        ({
            let fetch = fetches[n - 1];
            let before = fetched_links(fetches, intent, candidates, n - 1);
            let after = fetched_links(fetches, intent, candidates, n);
            let named = fetch.execution is Succeeded && fetch.value is Some && was_requested(
                fetch.value->0,
                intent,
                candidates,
                fetches,
            ) && fetch.value->0.final_url.host is Some;
            &&& !named ==> after == before
            &&& named ==> after == before.push(
                "["@ + host_text(fetch.value->0.final_url) + "]("@ + fetch.value->0.final_url.text@
                    + ")"@,
            )
            &&& fetched_links(fetches, intent, candidates, 0).len() == 0
        }),
{
}

/// The headers that count are those of the lists that succeeded, or that were read
/// in part, in their order.
pub proof fn listed_headers_are_collected_in_order(
    list: Seq<OperationResult<Vec<MailHeaderEvidence>>>,
    more: OperationResult<Vec<MailHeaderEvidence>>,
)
    ensures
        collected_headers(Seq::empty()).len() == 0,
        ({
            let counts = more.value is Some && (more.execution is Succeeded || more.execution
                == ExecutionStatus::Failed(FailureCode::ParseFailure) && more.contribution
                is Partial);
            &&& counts ==> collected_headers(list.push(more)) == collected_headers(list)
                + more.value->0@
            &&& !counts ==> collected_headers(list.push(more)) == collected_headers(list)
        }),
{
    assert(list.push(more).drop_last() =~= list);
}

/// Of the headers of one message the first is kept, and the order stays.
pub proof fn the_first_header_of_a_message_is_kept(
    headers: Seq<MailHeaderEvidence>,
    more: MailHeaderEvidence,
)
    ensures
        distinct(Seq::empty()).len() == 0,
        (exists|i: int|
            0 <= i < headers.len() && (#[trigger] headers[i]).connector_id@ == more.connector_id@)
            ==> distinct(headers.push(more)) == distinct(headers),
        (forall|i: int|
            0 <= i < headers.len() ==> (#[trigger] headers[i]).connector_id@ != more.connector_id@)
            ==> distinct(headers.push(more)) == distinct(headers).push(more),
{
    assert(headers.push(more).drop_last() =~= headers);
    lemma_same_connectors(headers, more.connector_id@);
}

proof fn lemma_same_connectors(headers: Seq<MailHeaderEvidence>, id: Seq<char>)
    ensures
        has_connector(distinct(headers), id) <==> exists|i: int|
            0 <= i < headers.len() && (#[trigger] headers[i]).connector_id@ == id,
    decreases headers.len(),
{
    if headers.len() > 0 {
        let rest = headers.drop_last();
        let before = distinct(rest);
        lemma_same_connectors(rest, id);
        let last = headers.last();
        if exists|i: int| 0 <= i < headers.len() && (#[trigger] headers[i]).connector_id@ == id {
            let i = choose|i: int|
                0 <= i < headers.len() && (#[trigger] headers[i]).connector_id@ == id;
            if i < rest.len() {
                assert(rest[i].connector_id@ == id);
                let k = choose|k: int|
                    0 <= k < before.len() && (#[trigger] before[k]).connector_id@ == id;
                assert(distinct(headers)[k].connector_id@ == id);
            } else if has_connector(before, last.connector_id@) {
                assert(distinct(headers) == before);
            } else {
                assert(distinct(headers)[before.len() as int].connector_id@ == id);
            }
        }
        if has_connector(distinct(headers), id) {
            let k = choose|k: int|
                0 <= k < distinct(headers).len() && (
                #[trigger] distinct(headers)[k]).connector_id@ == id;
            if k < before.len() {
                assert(before[k].connector_id@ == id);
                let i = choose|i: int|
                    0 <= i < rest.len() && (#[trigger] rest[i]).connector_id@ == id;
                assert(headers[i].connector_id@ == id);
            } else {
                assert(headers[headers.len() - 1].connector_id@ == id);
            }
        }
    }
}

/// The malformed messages of every list and search are added up, to at most 255.
pub proof fn malformed_messages_are_added_up(
    list: Seq<OperationResult<Vec<MailHeaderEvidence>>>,
    search: Seq<OperationResult<Vec<MailHeaderEvidence>>>,
    more: OperationResult<Vec<MailHeaderEvidence>>,
)
    ensures
        malformed_count(Seq::empty(), Seq::empty()) == 0,
        malformed_count(list, search) + more.invalid_items <= 255 ==> malformed_count(
            list,
            search.push(more),
        ) == malformed_count(list, search) + more.invalid_items,
        malformed_count(list, search) + more.invalid_items >= 255 ==> malformed_count(
            list,
            search.push(more),
        ) == 255,
        malformed_count(list, Seq::empty()) + more.invalid_items <= 255 ==> malformed_count(
            list.push(more),
            Seq::empty(),
        ) == malformed_count(list, Seq::empty()) + more.invalid_items,
{
    assert(search.push(more).drop_last() =~= search);
    assert(list.push(more).drop_last() =~= list);
}

/// Of the headers of one identifier the last stands for it.
pub proof fn the_last_header_of_an_identifier_counts(
    headers: Seq<MailHeaderEvidence>,
    id: Seq<char>,
    k: int,
)
    requires
        -1 <= k < headers.len(),
        k >= 0 ==> headers[k].evidence_id@ == id,
        forall|j: int| k < j < headers.len() ==> (#[trigger] headers[j]).evidence_id@ != id,
    ensures
        k >= 0 ==> header_for(headers, id) == Some(headers[k]),
        k < 0 ==> header_for(headers, id) is None,
    decreases headers.len(),
{
    if headers.len() > 0 && k < headers.len() - 1 {
        assert(headers[headers.len() - 1].evidence_id@ != id);
        the_last_header_of_an_identifier_counts(headers.drop_last(), id, k);
    }
}

/// A body counts where it was read, has text and belongs to a header that counts;
/// of the bodies of one header the first is kept.
pub proof fn the_first_body_of_a_header_is_kept(
    results: Seq<OperationResult<MailBodyEvidence>>,
    headers: Seq<MailHeaderEvidence>,
    more: OperationResult<MailBodyEvidence>,
)
    ensures
        accepted_bodies(Seq::empty(), headers).len() == 0,
        ({
            let before = accepted_bodies(results, headers);
            let body = more.value->0;
            let sound = more.execution is Succeeded && more.value is Some && body.body_state
                is Readable && trim(body.body@).len() > 0 && header_for(
                headers,
                body.header_id@,
            ) is Some;
            let repeated = exists|k: int|
                0 <= k < before.len() && (#[trigger] before[k]).header_id@ == body.header_id@;
            &&& sound && !repeated ==> accepted_bodies(results.push(more), headers) == before.push(
                body,
            )
            &&& !sound || repeated ==> accepted_bodies(results.push(more), headers) == before
        }),
{
    assert(results.push(more).drop_last() =~= results);
}

/// The bodies of an ordinary answer are those that do not read like an
/// instruction, in their order; those that do are named as left out. A quoted
/// analysis keeps them all.
pub proof fn instruction_bodies_are_left_out(bodies: Seq<MailBodyEvidence>)
    ensures
        kept_bodies(bodies, false) == bodies.filter(
            |b: MailBodyEvidence| !instruction_like(b.body@),
        ),
        excluded_bodies(bodies, false) == bodies.filter(
            |b: MailBodyEvidence| instruction_like(b.body@),
        ).map_values(|b: MailBodyEvidence| b.evidence_id),
        kept_bodies(bodies, true) == bodies,
        excluded_bodies(bodies, true).len() == 0,
    decreases bodies.len(),
{
    reveal(Seq::filter);
    let plain = |b: MailBodyEvidence| !instruction_like(b.body@);
    let marked = |b: MailBodyEvidence| instruction_like(b.body@);
    let id = |b: MailBodyEvidence| b.evidence_id;
    if bodies.len() > 0 {
        let rest = bodies.drop_last();
        instruction_bodies_are_left_out(rest);
        assert(kept_bodies(bodies, true) =~= bodies);
        if marked(bodies.last()) {
            assert(rest.filter(marked).push(bodies.last()).map_values(id) =~= rest.filter(
                marked,
            ).map_values(id).push(bodies.last().evidence_id));
        }
    } else {
        assert(bodies.filter(plain) =~= bodies);
        assert(bodies.filter(marked).map_values(id) =~= excluded_bodies(bodies, false));
    }
}

/// A listing shows no more messages than were asked for, and is a recovery exactly
/// where there are none to show.
pub proof fn listings_show_what_was_asked_for(
    outcome: ValidationOutcome,
    turn_id: Seq<char>,
    plan: EvidencePlan,
    results: EvidenceResults,
    requested: u8,
)
    requires
        headers_outcome(outcome, turn_id, plan, results, requested),
    ensures
        ({
            let found = distinct(collected_headers(results.mail_list@));
            let shown: int = if found.len() <= requested {
                found.len() as int
            } else {
                requested as int
            };
            &&& outcome is Recovery <==> found.len() == 0
            &&& outcome is Bundle <==> found.len() > 0
            &&& outcome matches ValidationOutcome::Recovery(recovery)
                ==> recovery.requested.mail_headers == requested && recovery.requested.mail_bodies
                == 0 && recovery.requested.web_sources == 0
            &&& outcome matches ValidationOutcome::Bundle(bundle) ==> {
                &&& bundle.mail@.len() == shown
                &&& bundle.web@.len() == 0
                &&& bundle.citation_allowlist@.len() == 0
                &&& bundle.exclusions@.len() == 0
                &&& bundle.requested.mail_headers == requested
                &&& bundle.acquired.mail_headers == shown
                &&& bundle.acquired.mail_bodies == 0
                &&& bundle.acquired.web_sources == 0
                &&& forall|i: int|
                    0 <= i < shown ==> (#[trigger] bundle.mail@[i]).sender == found[i].sender
                        && bundle.mail@[i].subject == found[i].subject && bundle.mail@[i].received_at
                        == found[i].received_at && bundle.mail@[i].body is None
            }
        }),
{
}

/// The content of messages is shown as far as it was read and may be shown, no
/// more of it than a batch holds; without any the turn is a recovery.
pub proof fn contents_show_what_was_read(
    outcome: ValidationOutcome,
    turn_id: Seq<char>,
    plan: EvidencePlan,
    results: EvidenceResults,
    batch: u8,
    requested: u8,
    allow: bool,
)
    requires
        content_outcome(
            outcome,
            turn_id,
            plan,
            results.mail_list@,
            results.mail_search@,
            results.mail_bodies@,
            results.conflicts,
            batch,
            requested,
            allow,
        ),
    ensures
        ({
            let found = distinct(collected_headers(results.mail_list@));
            let kept = kept_bodies(accepted_bodies(results.mail_bodies@, found), allow);
            let excluded = excluded_bodies(accepted_bodies(results.mail_bodies@, found), allow);
            let shown: int = if kept.len() <= batch {
                kept.len() as int
            } else {
                batch as int
            };
            &&& outcome is Recovery <==> kept.len() == 0
            &&& outcome is Bundle <==> kept.len() > 0
            &&& outcome matches ValidationOutcome::Recovery(recovery)
                ==> recovery.requested.mail_headers == requested && recovery.requested.mail_bodies
                == requested && recovery.exclusions@.len() == excluded.len()
            &&& outcome matches ValidationOutcome::Bundle(bundle) ==> {
                &&& bundle.mail@.len() == shown
                &&& bundle.web@.len() == 0
                &&& bundle.citation_allowlist@.len() == 0
                &&& bundle.exclusions@.len() == excluded.len()
                &&& bundle.requested.mail_headers == requested
                &&& bundle.requested.mail_bodies == requested
                &&& bundle.requested.web_sources == 0
                &&& bundle.acquired.mail_bodies == shown
                &&& bundle.acquired.mail_headers == if found.len() <= batch {
                    found.len() as int
                } else {
                    batch as int
                }
                &&& bundle.acquired.web_sources == 0
                &&& bundle.conflicts == results.conflicts
                &&& forall|i: int|
                    0 <= i < shown ==> (#[trigger] bundle.mail@[i]).body == Some(kept[i].body)
                        && bundle.mail@[i].body_state == Some(kept[i].body_state)
                        && bundle.mail@[i].body_origin == Some(kept[i].body_origin)
                &&& forall|i: int|
                    0 <= i < excluded.len() ==> (#[trigger] bundle.exclusions@[i]).evidence_id
                        == excluded[i] && bundle.exclusions@[i].reason@
                        == "instruction-like content excluded from ordinary synthesis"@
            }
        }),
{
}

/// Where more than one message matches a description, the user is asked which of
/// them is meant; where one does, it is shown; where none does, one is missing.
pub proof fn ambiguous_descriptions_are_asked_about(
    outcome: ValidationOutcome,
    turn_id: Seq<char>,
    plan: EvidencePlan,
    results: EvidenceResults,
    needs_content: bool,
    allow: bool,
)
    requires
        targeted_outcome(outcome, turn_id, plan, results, needs_content, allow),
    ensures
        ({
            let found = distinct(collected_headers(results.mail_search@));
            &&& outcome is Clarification <==> found.len() >= 2
            &&& outcome matches ValidationOutcome::Clarification { headers, prompt } ==> headers@
                == found && prompt@ == "Multiple messages match. Which one should I use?"@
            &&& found.len() == 0 ==> (outcome matches ValidationOutcome::Recovery(recovery)
                && recovery.missing@.len() == 1 && recovery.missing@[0].missing_count == 1
                && recovery.missing@[0].reason is Empty && recovery.missing@[0].requirement == (
            EvidenceRequirement::TargetedMail { needs_content })
                && recovery.requested.mail_headers == 1 && recovery.requested.mail_bodies == if
                needs_content {
                1int
            } else {
                0
            })
            &&& found.len() == 1 && !needs_content ==> (outcome matches ValidationOutcome::Bundle(
                bundle,
            ) && bundle.mail@.len() == 1 && bundle.mail@[0].subject == found[0].subject
                && bundle.mail@[0].sender == found[0].sender && bundle.mail@[0].body is None
                && bundle.completeness is Complete && bundle.missing@.len() == 0
                && bundle.acquired.mail_headers == 1)
        }),
{
}

/// A count of bodies grows by one with each that meets its condition.
pub proof fn bodies_are_counted_one_by_one(
    bodies: Seq<OperationResult<MailBodyEvidence>>,
    more: OperationResult<MailBodyEvidence>,
    condition: spec_fn(OperationResult<MailBodyEvidence>) -> bool,
)
    ensures
        count_bodies(bodies.push(more), condition) == count_bodies(bodies, condition) + if condition(
            more,
        ) {
            1int
        } else {
            0
        },
        count_bodies(bodies, condition) == bodies.filter(condition).len(),
    decreases bodies.len(),
{
    reveal(Seq::filter);
    assert(bodies.push(more).drop_last() =~= bodies);
    if bodies.len() > 0 {
        bodies_are_counted_one_by_one(bodies.drop_last(), bodies.last(), condition);
        assert(bodies.drop_last().push(bodies.last()) =~= bodies);
    }
}

} // verus!
