//! Laws of the prepared scenarios: what their messages and pages say, and how each
//! of them departs from a turn in which everything succeeds.

use crate::acceptance::{
    are_acceptance_candidates, are_acceptance_headers, canonical_entry, fetches_page,
    is_acceptance_body, is_acceptance_header, lists_messages, message_number, reads_message,
    scenario_pages, searches_pages, times_read, AcceptanceAcquisition,
};
use crate::text::decimal;
use crate::types::{
    CandidateId, ExecutionStatus, FailureCode, MailBodyEvidence, MailHeaderEvidence,
    OperationResult, ProviderStatus, ValidatedMailId, WebCandidate, WebFetchEvidence, WebProvider,
    WebSearchResult,
};
use crate::weburl::parsed_url;
use vstd::prelude::*;

verus! {

/// The messages are numbered from one, each a minute after the one before.
pub proof fn prepared_messages_are_numbered(headers: Seq<MailHeaderEvidence>, count: int, i: int)
    requires
        are_acceptance_headers(headers, count),
        0 <= i < count,
    ensures
        headers.len() == count,
        headers[i].evidence_id@ == "mail-header-"@ + decimal((i + 1) as nat),
        headers[i].connector_id@ == "opaque-mail-"@ + decimal((i + 1) as nat),
        headers[i].sender@ == "Sender "@ + decimal((i + 1) as nat),
        headers[i].subject@ == "Subject "@ + decimal((i + 1) as nat),
        headers[i].received_at == 1785232860 + 60 * i,
{
    let header = headers[i];
    assert(is_acceptance_header(header, i + 1));
}

/// A list shows as many of the three messages as are asked for; none where mail is
/// denied or empty.
pub proof fn prepared_lists_hold_three_messages(
    scenario: AcceptanceAcquisition,
    limit: u8,
    unread_only: bool,
    result: OperationResult<Vec<MailHeaderEvidence>>,
)
    requires
        lists_messages(scenario, limit, unread_only, result),
    ensures
        result.attempts == 1,
        result.duration_ms == 0,
        result.invalid_items == 0,
        result.execution is Denied <==> scenario is MailDenied,
        result.execution is Succeeded <==> !(scenario is MailDenied),
        result.value is None <==> scenario is MailDenied || scenario is MailEmpty,
        result.contribution is Satisfied <==> result.value is Some,
        result.contribution is Empty <==> result.value is None,
        result.value is Some && limit <= 3 ==> result.value->0@.len() == limit,
        result.value is Some && limit >= 3 ==> result.value->0@.len() == 3,
{
}

/// A message of the three is read with its own text. It is unavailable in the
/// scenario of that name, and all but the first are in the partial one; the first
/// read of the first message times out where retries are tried.
pub proof fn prepared_messages_are_read(
    scenario: AcceptanceAcquisition,
    reads: Seq<ValidatedMailId>,
    id: Seq<char>,
    n: int,
    result: OperationResult<MailBodyEvidence>,
)
    requires
        reads_message(scenario, reads, id, result),
        message_number(id) == Some(n),
    ensures
        1 <= n <= 3,
        id == "opaque-mail-"@ + decimal(n as nat),
        result.key@ == "mail_read:"@ + id,
        result.attempts == 1,
        result.execution is TimedOut <==> scenario is MailTransientRetry && n == 1 && times_read(
            reads,
            id,
        ) == 0,
        result.execution is TimedOut ==> result.value is None,
        !(result.execution is TimedOut) ==> {
            let body = result.value->0;
            let readable = !(scenario is MailUnavailable) && !(scenario is MailPartial && n >= 2);
            &&& result.execution is Succeeded
            &&& result.contribution is Satisfied
            &&& result.value is Some
            &&& body.evidence_id@ == "mail-body-"@ + decimal(n as nat)
            &&& body.header_id@ == "mail-header-"@ + decimal(n as nat)
            &&& body.body_state is Readable <==> readable
            &&& body.body_origin is LocalEmlx <==> readable
            &&& readable ==> body.body@ == "Body for Subject "@ + decimal(n as nat)
            &&& !readable ==> body.body@.len() == 0 && body.body_state is UnavailableLocally
                && body.body_origin is Unavailable
        },
{
}

/// Any other message is invalid input.
pub proof fn other_messages_are_invalid(
    scenario: AcceptanceAcquisition,
    reads: Seq<ValidatedMailId>,
    id: Seq<char>,
    result: OperationResult<MailBodyEvidence>,
)
    requires
        reads_message(scenario, reads, id, result),
        id != "opaque-mail-"@ + decimal(1),
        id != "opaque-mail-"@ + decimal(2),
        id != "opaque-mail-"@ + decimal(3),
    ensures
        result.execution == ExecutionStatus::Failed(FailureCode::InvalidInput),
        result.value is None,
        result.contribution is Empty,
{
}

/// A message was read as often as its identifier stands among the reads.
pub proof fn reads_are_counted(
    reads: Seq<ValidatedMailId>,
    more: ValidatedMailId,
    id: Seq<char>,
)
    ensures
        times_read(Seq::empty(), id) == 0,
        times_read(reads.push(more), id) == times_read(reads, id) + if more@ == id {
            1int
        } else {
            0
        },
{
    assert(reads.push(more).drop_last() =~= reads);
}

/// The pages of each scenario, by address and title.
pub proof fn prepared_pages_are_these(scenario: AcceptanceAcquisition)
    ensures
        scenario is WebAuthoritative || scenario is WebDdgFallback ==> scenario_pages(
            scenario,
        ).len() == 1 && scenario_pages(scenario)[0].0@ == "https://public-office.example/president"@
            && scenario_pages(scenario)[0].1@ == "President of the Slovak Republic"@,
        scenario is WebRedirect ==> scenario_pages(scenario).len() == 1 && scenario_pages(
            scenario,
        )[0].0@ == "https://public-office.example/requested"@ && scenario_pages(scenario)[0].1@
            == "President of the Slovak Republic"@,
        scenario is WebCorroborated || scenario is WebConflict || scenario is WebAmbiguousTable
            ==> scenario_pages(scenario).len() == 2 && scenario_pages(scenario)[0].0@
            == "https://publisher-one.example/fact"@ && scenario_pages(scenario)[1].0@
            == "https://publisher-two.example/fact"@ && scenario_pages(scenario)[0].1@
            == "Bratislava population"@ && scenario_pages(scenario)[1].1@
            == "Bratislava population"@,
        scenario is WebIrrelevantEntity ==> scenario_pages(scenario).len() == 1 && scenario_pages(
            scenario,
        )[0].0@ == "https://reference.example/president"@ && scenario_pages(scenario)[0].1@
            == "President profile"@,
        scenario is WebAllFetchFailure ==> scenario_pages(scenario).len() == 2 && scenario_pages(
            scenario,
        )[0].0@ == "https://failed-one.example/fact"@ && scenario_pages(scenario)[1].0@
            == "https://failed-two.example/fact"@ && scenario_pages(scenario)[0].1@
            == "Slovakia capital"@ && scenario_pages(scenario)[1].1@ == "Slovakia capital"@,
        scenario is WebTavilyMissingCredential || scenario is WebTavily429
            || scenario is WebTavilyTimeout || scenario is WebTavilyMalformed ==> scenario_pages(
            scenario,
        ).len() == 0,
{
}

/// A search finds one candidate for each page with an address, in the order of the
/// pages, numbered by the place of the page.
pub proof fn prepared_pages_are_found_in_order(
    candidates: Seq<WebCandidate>,
    pages: Seq<(&str, &str)>,
    n: int,
    i: int,
)
    requires
        0 <= i < n <= pages.len(),
        forall|k: int| 0 <= k < n ==> parsed_url((#[trigger] pages[k]).0@) is Some,
        are_acceptance_candidates(candidates, pages, n),
    ensures
        candidates.len() == n,
        candidates[i].candidate_id@ == "discovered-candidate-"@ + decimal((i + 1) as nat),
        candidates[i].rank == i + 1,
        candidates[i].provider is DuckDuckGo,
        candidates[i].title@ == pages[i].1@,
        Some(candidates[i].requested_url) == parsed_url(pages[i].0@),
        candidates[i].snippet@ == "Discovery-only fixture snippet; never evidence."@,
    decreases n,
{
    reveal_with_fuel(are_acceptance_candidates, 2);
    assert(parsed_url(pages[n - 1].0@) is Some);
    let rest = candidates.drop_last();
    if n > 1 {
        if i < n - 1 {
            prepared_pages_are_found_in_order(rest, pages, n - 1, i);
        } else {
            prepared_pages_are_found_in_order(rest, pages, n - 1, 0);
        }
    }
}

/// What the paid provider reports in each scenario in which it is asked; the open
/// one finds something only where it stands in for it.
pub proof fn prepared_searches_report_their_providers(
    scenario: AcceptanceAcquisition,
    query: Seq<char>,
    providers: Seq<WebProvider>,
    result: OperationResult<WebSearchResult>,
)
    requires
        searches_pages(scenario, query, providers, result),
    ensures
        result.execution is Succeeded,
        result.value is Some,
        result.attempts == 1,
        ({
            let reports = result.value->0.providers@;
            let paid = scenario is WebTavilyMissingCredential || scenario is WebTavily429
                || scenario is WebTavilyTimeout || scenario is WebTavilyMalformed
                || scenario is WebDdgFallback;
            &&& paid ==> reports.len() == 2 && reports[0].provider is Tavily && reports[1].provider
                is DuckDuckGo
            &&& !paid ==> reports.len() == 1 && reports[0].provider is DuckDuckGo
                && reports[0].status is Succeeded
            &&& scenario is WebTavilyMissingCredential ==> reports[0].status
                == ProviderStatus::Failed(FailureCode::ConnectorUnavailable)
            &&& scenario is WebTavily429 || scenario is WebDdgFallback ==> reports[0].status
                == ProviderStatus::Failed(FailureCode::RateLimited)
            &&& scenario is WebTavilyTimeout ==> reports[0].status is TimedOut
            &&& scenario is WebTavilyMalformed ==> reports[0].status is InvalidResponse
            &&& scenario is WebDdgFallback ==> reports[1].status == (ProviderStatus::Succeeded {
                result_count: 1,
            })
            &&& paid && !(scenario is WebDdgFallback) ==> reports[1].status is Empty
                && result.value->0.candidates@.len() == 0
        }),
{
}

/// A page that was found is fetched from the address that was asked for, but for
/// the redirect, and none is where every fetch fails.
pub proof fn prepared_pages_are_fetched(
    scenario: AcceptanceAcquisition,
    discovered: Seq<CandidateId>,
    candidate: WebCandidate,
    result: OperationResult<WebFetchEvidence>,
)
    requires
        fetches_page(scenario, discovered, candidate, result),
        exists|i: int|
            0 <= i < discovered.len() && (#[trigger] discovered[i])@ == candidate.candidate_id@,
    ensures
        result.key@ == "web_fetch:"@ + candidate.candidate_id@,
        result.attempts == 1,
        scenario is WebAllFetchFailure <==> result.execution == ExecutionStatus::Failed(
            FailureCode::ConnectionReset,
        ),
        scenario is WebAllFetchFailure ==> result.value is None,
        !(scenario is WebAllFetchFailure) ==> {
            let page = result.value->0;
            let office = scenario is WebAuthoritative || scenario is WebDdgFallback
                || scenario is WebRedirect;
            let two = scenario is WebCorroborated || scenario is WebConflict
                || scenario is WebAmbiguousTable;
            &&& result.execution is Succeeded
            &&& result.contribution is Satisfied
            &&& result.value is Some
            &&& page.evidence_id@ == "web-"@ + decimal(candidate.rank as nat)
            &&& page.candidate_id == candidate.candidate_id
            &&& page.requested_url == candidate.requested_url
            &&& !(scenario is WebRedirect) ==> page.final_url == candidate.requested_url
            &&& scenario is WebRedirect && parsed_url("https://public-office.example/final"@) is Some
                ==> Some(page.final_url) == parsed_url("https://public-office.example/final"@)
            &&& page.final_url.text@ == candidate.requested_url.text@
                ==> page.redirect_chain@.len() == 1
            &&& page.final_url.text@ != candidate.requested_url.text@
                ==> page.redirect_chain@.len() == 2 && page.redirect_chain@[0]
                == candidate.requested_url && page.redirect_chain@[1] == page.final_url
            &&& page.http_status == 200
            &&& page.content_type@ == "text/html"@
            &&& page.bytes_read == page.characters_extracted
            &&& page.quality.useful_text_length == page.characters_extracted
            &&& page.quality.low_quality_reason is None
            &&& page.extraction is Readable
            &&& page.authority is Other
            &&& page.page_owner_identity_bound == office
            &&& page.links@.len() == 0
            &&& office ==> page.source_identity@ == "public-office.example"@
                && page.passages@.len() == 3 && page.passages@[2].text@
                == "Peter Pellegrini is the President of the Slovak Republic."@
            &&& two && candidate.rank == 1 ==> page.source_identity@ == "publisher-one.example"@
            &&& two && candidate.rank != 1 ==> page.source_identity@ == "publisher-two.example"@
            &&& scenario is WebIrrelevantEntity ==> page.source_identity@ == "reference.example"@
        },
{
    if !(scenario is WebAllFetchFailure) {
        let page = result.value->0;
        if page.passages@.len() == 3 {
            assert(page.passages@[2] == page.passages@[2]);
        }
    }
}

/// The two pages of a corroborated question give one number, and those of a
/// conflict give two.
pub proof fn prepared_pages_agree_or_conflict(
    scenario: AcceptanceAcquisition,
    discovered: Seq<CandidateId>,
    candidate: WebCandidate,
    result: OperationResult<WebFetchEvidence>,
)
    requires
        fetches_page(scenario, discovered, candidate, result),
        exists|i: int|
            0 <= i < discovered.len() && (#[trigger] discovered[i])@ == candidate.candidate_id@,
        scenario is WebCorroborated || scenario is WebConflict,
    ensures
        result.value->0.passages@.len() == 1,
        ({
            let text = result.value->0.passages@[0].text@;
            &&& scenario is WebCorroborated && candidate.rank == 1 ==> text
                == "Bratislava city proper population stands at 475,503 as of 2024."@
            &&& scenario is WebCorroborated && candidate.rank != 1 ==> text
                == "The city proper population of Bratislava was 475,503 at the end of 2024."@
            &&& scenario is WebConflict && candidate.rank == 1 ==> text
                == "The city proper population of Bratislava was 475,503 at the end of 2024."@
            &&& scenario is WebConflict && candidate.rank != 1 ==> text
                == "The urban-area population estimate for Bratislava was 440,948 in 2025."@
        }),
{
    assert(result.value->0.passages@[0] == result.value->0.passages@[0]);
}

/// The text of the three messages shows each message as it is listed and read.
pub proof fn canonical_texts_show_their_message(
    header: MailHeaderEvidence,
    body: MailBodyEvidence,
    n: int,
)
    requires
        is_acceptance_header(header, n),
        is_acceptance_body(body, n, true),
    ensures
        canonical_entry(n) == decimal(n as nat) + ". Sender: "@ + header.sender@
            + "\n   Subject: "@ + header.subject@ + "\n   Date: 2026-07-28 10:0"@ + decimal(
            n as nat,
        ) + " UTC\n   Summary: "@ + body.body@,
{
    reveal_strlit(". Sender: ");
    reveal_strlit("Sender ");
    reveal_strlit(". Sender: Sender ");
    reveal_strlit("\n   Subject: ");
    reveal_strlit("Subject ");
    reveal_strlit("\n   Subject: Subject ");
    reveal_strlit(" UTC\n   Summary: ");
    reveal_strlit("Body for Subject ");
    reveal_strlit(" UTC\n   Summary: Body for Subject ");
    let d = decimal(n as nat);
    assert(". Sender: "@ + "Sender "@ =~= ". Sender: Sender "@);
    assert("\n   Subject: "@ + "Subject "@ =~= "\n   Subject: Subject "@);
    assert(" UTC\n   Summary: "@ + "Body for Subject "@ =~= " UTC\n   Summary: Body for Subject "@);
    assert(canonical_entry(n) =~= d + (". Sender: "@ + "Sender "@) + d + ("\n   Subject: "@
        + "Subject "@) + d + "\n   Date: 2026-07-28 10:0"@ + d + (" UTC\n   Summary: "@
        + "Body for Subject "@) + d);
    assert(d + (". Sender: "@ + "Sender "@) + d + ("\n   Subject: "@ + "Subject "@) + d
        + "\n   Date: 2026-07-28 10:0"@ + d + (" UTC\n   Summary: "@ + "Body for Subject "@) + d
        =~= d + ". Sender: "@ + ("Sender "@ + d) + "\n   Subject: "@ + ("Subject "@ + d)
        + "\n   Date: 2026-07-28 10:0"@ + d + " UTC\n   Summary: "@ + ("Body for Subject "@ + d));
}

} // verus!
