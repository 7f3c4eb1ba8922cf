//! Laws of the steps of a search: whom it asks first, when it asks again, and what
//! its result says of the answers.

use crate::fetch::WebHttpResponse;
use crate::html::{lossy_text, ResultModel};
use crate::json::{parsed_json_bytes, text_field, Json};
use crate::ranking::deduplicated;
use crate::search::{
    answer_is_taken, listed_candidates, page_address, reads_duckduckgo_response, reads_result_page,
    reads_tavily, reads_tavily_response, reads_wikipedia, reads_wikipedia_response, search_begins,
    search_follows, tavily_candidate, tavily_candidates, usable, wikipedia_candidate,
    wikipedia_candidates, ProviderSearch, SearchState, SearchStep,
};
use crate::text::trim;
use crate::types::{
    key_part, provider_key, ExecutionStatus, FailureCode, ProviderResult, WebCandidate, WebProvider,
};
use crate::weburl::parsed_url;
use vstd::prelude::*;

verus! {

/// A search without words is invalid input, and one without providers finds nothing
/// without an attempt; any other asks the first provider, with the words as they are.
pub proof fn searches_begin_with_the_first_provider(
    query: Seq<char>,
    providers: Seq<WebProvider>,
    elapsed_ms: u64,
    step: SearchStep,
)
    requires
        search_begins(query, providers, elapsed_ms, step),
    ensures
        step is Ask <==> trim(query).len() > 0 && providers.len() > 0,
        step matches SearchStep::Ask(state) ==> state.query@ == query && state.providers.0@
            == providers && state.asked == 0 && state.attempts == 1 && state.asked_at_ms
            == elapsed_ms && state.reported@.len() == 0 && state.found@.len() == 0,
        trim(query).len() == 0 ==> (step matches SearchStep::Finished(result) && result.execution
            == ExecutionStatus::Failed(FailureCode::InvalidInput) && result.value is None),
        trim(query).len() > 0 && providers.len() == 0 ==> (step matches SearchStep::Finished(result)
            && result.execution is Succeeded && result.attempts == 0 && result.value is Some
            && result.value->0.candidates@.len() == 0 && result.value->0.providers@.len() == 0),
{
}

/// The open providers are asked again after a time-out, a reset, a limit of the rate
/// or a fault of the server, once in a search; the paid one never is.
pub proof fn open_providers_are_asked_again(
    state: SearchState,
    outcome: ProviderSearch,
    elapsed_ms: u64,
    step: SearchStep,
)
    requires
        state.well_formed(),
        search_follows(state, outcome, elapsed_ms, step),
        state.attempts <= 1,
    ensures
        ({
            let provider = state.providers.0@[state.asked as int];
            let passing = outcome is TimedOut || (outcome matches ProviderSearch::Failed(failure)
                && (failure is ConnectionReset || failure is RateLimited || failure is Http5xx));
            &&& passing && provider != WebProvider::Tavily ==> (step matches SearchStep::Ask(next)
                && next.asked == state.asked && next.attempts == state.attempts + 1
                && next.reported == state.reported && next.found == state.found
                && next.asked_at_ms == state.asked_at_ms)
            &&& (!passing || provider == WebProvider::Tavily) && state.asked + 1
                < state.providers.0@.len() ==> (step matches SearchStep::Ask(next) && next.asked
                == state.asked + 1 && next.asked_at_ms == elapsed_ms)
            &&& (!passing || provider == WebProvider::Tavily) && state.asked + 1
                >= state.providers.0@.len() ==> step is Finished
        }),
{
}

/// An answer is reported at the end of the reports, under its provider and with the
/// time since it was asked; what it found follows what was found before, and keeps
/// its rank, title, address and snippet.
pub proof fn answers_follow_those_before(
    state: SearchState,
    outcome: ProviderSearch,
    elapsed_ms: u64,
    reported: Seq<ProviderResult>,
    found: Seq<WebCandidate>,
    i: int,
)
    requires
        answer_is_taken(state, outcome, elapsed_ms, reported, found),
        0 <= i < usable(outcome).len(),
    ensures
        reported.len() == state.reported@.len() + 1,
        reported.drop_last() == state.reported@,
        reported.last().provider == state.providers.0@[state.asked as int],
        state.asked_at_ms <= elapsed_ms ==> reported.last().duration_ms == elapsed_ms
            - state.asked_at_ms,
        state.found@.is_prefix_of(found),
        found.len() == state.found@.len() + usable(outcome).len(),
        ({
            let raw = usable(outcome)[i];
            let kept = found[state.found@.len() + i];
            &&& kept.provider == state.providers.0@[state.asked as int]
            &&& kept.rank == raw.rank
            &&& kept.title == raw.title
            &&& kept.requested_url == raw.url
            &&& kept.snippet == raw.snippet
        }),
{
    assert(reported.drop_last() =~= state.reported@);
    let tail = found.skip(state.found@.len() as int);
    assert(tail[i] == found[state.found@.len() + i]);
    assert(found.take(state.found@.len() as int) =~= found.subrange(
        0,
        state.found@.len() as int,
    ));
}

/// The result of a search names the search, its attempts and its time, and shows each
/// address once.
pub proof fn results_show_each_address_once(
    state: SearchState,
    outcome: ProviderSearch,
    elapsed_ms: u64,
    step: SearchStep,
)
    requires
        search_follows(state, outcome, elapsed_ms, step),
        step is Finished,
    ensures
        exists|reported: Seq<ProviderResult>, found: Seq<WebCandidate>|
            {
                let result = step->Finished_0;
                &&& #[trigger] answer_is_taken(
                    state,
                    outcome,
                    elapsed_ms,
                    reported,
                    found,
                )
                &&& result.value is Some
                &&& result.value->0.providers@ == reported
                &&& result.value->0.candidates@ == deduplicated(found)
                &&& result.attempts == state.attempts
                &&& result.duration_ms == elapsed_ms
                &&& result.execution is Succeeded
                &&& result.invalid_items == 0
                &&& result.key@ == "web_search:"@ + provider_key(
                    state.providers.0@,
                ) + ":"@ + key_part(state.query@)
            },
{
}

/// A refused request fails as its status says, whichever provider was asked; any
/// other answer is read by the provider's own rules, and one of the paid provider
/// only where it is whole.
pub proof fn refused_searches_fail_by_status(
    outcome: ProviderSearch,
    response: WebHttpResponse,
    lang: Seq<char>,
    provider: WebProvider,
)
    requires
        provider is Wikipedia ==> reads_wikipedia_response(outcome, response, lang),
        provider is DuckDuckGo ==> reads_duckduckgo_response(outcome, response),
        provider is Tavily ==> reads_tavily_response(outcome, response),
        provider is Wikipedia || provider is DuckDuckGo || provider is Tavily,
    ensures
        response.status == 429 ==> outcome == ProviderSearch::Failed(FailureCode::RateLimited),
        response.status >= 500 ==> outcome == ProviderSearch::Failed(
            FailureCode::Http5xx(response.status),
        ),
        response.status < 200 || 300 <= response.status < 500 && response.status != 429 ==> outcome
            == ProviderSearch::Failed(FailureCode::Http4xx(response.status)),
        200 <= response.status < 300 && provider is Wikipedia ==> reads_wikipedia(
            outcome,
            parsed_json_bytes(response.body@),
            lang,
        ),
        200 <= response.status < 300 && provider is DuckDuckGo ==> reads_result_page(
            outcome,
            lossy_text(response.body@),
        ),
        200 <= response.status < 300 && provider is Tavily && response.body_truncated
            ==> outcome is InvalidResponse,
        200 <= response.status < 300 && provider is Tavily && !response.body_truncated
            ==> reads_tavily(outcome, parsed_json_bytes(response.body@)),
{
}

/// A page of the encyclopedia is found under its key, and without one under its
/// title, at the encyclopedia of its language.
pub proof fn encyclopedia_pages_are_found_by_key(page: Json, lang: Seq<char>)
    ensures
        text_field(page, "key"@) is Some ==> page_address(page, lang) == parsed_url(
            "https://"@ + lang + ".wikipedia.org"@ + "/wiki/"@ + text_field(page, "key"@)->0,
        ),
        text_field(page, "key"@) is None && text_field(page, "title"@) is Some ==> page_address(
            page,
            lang,
        ) == parsed_url(
            "https://"@ + lang + ".wikipedia.org"@ + "/wiki/"@ + text_field(page, "title"@)->0,
        ),
{
}

/// What a provider lists is ranked from one by its place in the answer; an item that
/// makes no candidate leaves its rank unused.
pub proof fn listed_items_are_ranked_by_place(
    pages: Seq<Json>,
    results: Seq<ResultModel>,
    n: int,
    lang: Seq<char>,
)
    requires
        0 <= n < u16::MAX,
    ensures
        wikipedia_candidates(pages, 0, lang).len() == 0,
        tavily_candidates(pages, 0).len() == 0,
        listed_candidates(results, 0).len() == 0,
        match wikipedia_candidate(pages[n], (n + 1) as u16, lang) {
            Some(found) => wikipedia_candidates(pages, n + 1, lang) == wikipedia_candidates(
                pages,
                n,
                lang,
            ).push(found) && found.rank == n + 1,
            None => wikipedia_candidates(pages, n + 1, lang) == wikipedia_candidates(pages, n, lang),
        },
        match tavily_candidate(pages[n], (n + 1) as u16) {
            Some(found) => tavily_candidates(pages, n + 1) == tavily_candidates(pages, n).push(found)
                && found.rank == n + 1,
            None => tavily_candidates(pages, n + 1) == tavily_candidates(pages, n),
        },
        parsed_url(results[n].url) is None ==> listed_candidates(results, n + 1)
            == listed_candidates(results, n),
        parsed_url(results[n].url) is Some ==> {
            let after = listed_candidates(results, n + 1);
            &&& after.drop_last() == listed_candidates(results, n)
            &&& after.last().rank == n + 1
            &&& after.last().title == results[n].title
            &&& after.last().snippet == results[n].snippet
            &&& Some(after.last().url) == parsed_url(results[n].url)
        },
{
    if parsed_url(results[n].url) is Some {
        assert(listed_candidates(results, n + 1).drop_last() =~= listed_candidates(results, n));
    }
}

} // verus!
