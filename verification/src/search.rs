//! Web search: what each provider is asked, how its answer is read, and how
//! the attempts of a search are spent.

use crate::fetch::{
    failed_without_value, failure_of_status, is_failed_result, status_failure, WebHttpResponse,
};
use crate::html::{
    html_to_text, keeps_utf8, lossy_text, parse_ddg_lite, result_models, results_from,
    text_of_bytes, visible_text,
    ResultModel,
};
use crate::identity::{candidate_id_for_url, candidate_name};
use crate::json::{
    lookup, parse_json_bytes, parsed_json_bytes, text_field, text_or_empty, Json,
};
use crate::ranking::{deduplicate_candidates, deduplicated};
use crate::text::{
    any_term, ascii_lowercase, chars_of, contains_any, lower_ascii, push_text, string_of, trim,
    trim_text, trimmed,
};
use crate::types::{
    EvidenceContribution, EvidenceOperation, ExecutionStatus, FailureCode, OperationResult,
    ProviderResult, ProviderSet, ProviderStatus, WebCandidate, WebProvider, WebSearchResult,
};
use crate::weburl::{
    candidate_url_is_valid, candidate_url_valid, normalized_url_text, pair_texts, parsed_url,
    url_extend_pairs, url_with_pairs, WebUrl,
};
use vstd::prelude::*;

verus! {

/// A fault that stands for the answer of the keyed provider in acceptance runs.
#[derive(Clone, Copy, Debug, PartialEq, Eq, Structural)]
pub enum TavilyAcceptanceFault {
    MissingCredential,
    Http429,
    Timeout,
    MalformedResponse,
}

/// How the web is searched: with a key for the keyed provider, or a fault in
/// its place.
#[derive(Debug, PartialEq, Eq)]
pub struct TypedWebAdapter {
    pub tavily_api_key: Option<String>,
    pub tavily_acceptance_fault: Option<TavilyAcceptanceFault>,
}

impl Clone for TypedWebAdapter {
    fn clone(&self) -> (r: Self)
        ensures
            r == *self,
    {
        TypedWebAdapter {
            tavily_api_key: crate::weburl::clone_option(&self.tavily_api_key),
            tavily_acceptance_fault: self.tavily_acceptance_fault,
        }
    }
}

impl TypedWebAdapter {
    pub fn production(tavily_api_key: Option<String>) -> (r: Self)
        ensures
            r.tavily_api_key == tavily_api_key,
            r.tavily_acceptance_fault is None,
    {
        TypedWebAdapter { tavily_api_key, tavily_acceptance_fault: None }
    }

    pub fn production_with_acceptance_fault(
        tavily_api_key: Option<String>,
        fault: TavilyAcceptanceFault,
    ) -> (r: Self)
        ensures
            r.tavily_api_key == tavily_api_key,
            r.tavily_acceptance_fault == Some(fault),
    {
        TypedWebAdapter { tavily_api_key, tavily_acceptance_fault: Some(fault) }
    }

    pub fn new() -> (r: Self)
        ensures
            r.tavily_api_key is None,
            r.tavily_acceptance_fault is None,
    {
        TypedWebAdapter { tavily_api_key: None, tavily_acceptance_fault: None }
    }

    pub fn with_acceptance_fault(tavily_api_key: Option<&str>, fault: TavilyAcceptanceFault) -> (r:
        Self)
        ensures
            match (r.tavily_api_key, tavily_api_key) {
                (Some(held), Some(given)) => held@ == given@,
                (None, None) => true,
                _ => false,
            },
            r.tavily_acceptance_fault == Some(fault),
    {
        let key = match tavily_api_key {
            Some(text) => Some(text.to_owned()),
            None => None,
        };
        TypedWebAdapter { tavily_api_key: key, tavily_acceptance_fault: Some(fault) }
    }

    pub fn tavily_configured(&self) -> (r: bool)
        ensures
            r == (self.tavily_api_key is Some || self.tavily_acceptance_fault is Some),
    {
        self.tavily_api_key.is_some() || self.tavily_acceptance_fault.is_some()
    }
}

/// A result as a provider gave it.
#[derive(Debug, PartialEq, Eq)]
pub struct RawCandidate {
    pub rank: u16,
    pub title: String,
    pub url: WebUrl,
    pub snippet: String,
}

/// A result as the answer of a provider states it.
pub struct RawModel {
    pub rank: u16,
    pub title: Seq<char>,
    pub url: WebUrl,
    pub snippet: Seq<char>,
}

pub open spec fn raw_models(list: Seq<RawCandidate>) -> Seq<RawModel> {
    Seq::new(
        list.len(),
        |i: int|
            RawModel {
                rank: list[i].rank,
                title: list[i].title@,
                url: list[i].url,
                snippet: list[i].snippet@,
            },
    )
}

/// What came of asking a provider.
#[derive(Debug, PartialEq, Eq)]
pub enum ProviderSearch {
    Candidates(Vec<RawCandidate>),
    Challenged,
    TimedOut,
    InvalidResponse,
    Failed(FailureCode),
}

/// A provider is asked again after a failure that may pass, unless each
/// question to it is paid for.
pub open spec fn may_ask_again(outcome: ProviderSearch, provider: WebProvider) -> bool {
    provider != WebProvider::Tavily && match outcome {
        ProviderSearch::TimedOut => true,
        ProviderSearch::Failed(failure) => crate::types::transient_failure(failure),
        _ => false,
    }
}

impl ProviderSearch {
    pub fn retryable_for(&self, provider: WebProvider) -> (r: bool)
        ensures
            r == may_ask_again(*self, provider),
    {
        match provider {
            WebProvider::Tavily => false,
            _ => match self {
                ProviderSearch::TimedOut => true,
                ProviderSearch::Failed(failure) => failure.retryable(),
                _ => false,
            },
        }
    }
}

/// What a failed request means for a search.
pub open spec fn failed_search(failure: FailureCode) -> ProviderSearch {
    match failure {
        FailureCode::ConnectorUnavailable => ProviderSearch::TimedOut,
        FailureCode::ParseFailure => ProviderSearch::InvalidResponse,
        _ => ProviderSearch::Failed(failure),
    }
}

pub fn provider_network_error(error: FailureCode) -> (r: ProviderSearch)
    ensures
        r == failed_search(error),
{
    match error {
        FailureCode::ConnectorUnavailable => ProviderSearch::TimedOut,
        FailureCode::ParseFailure => ProviderSearch::InvalidResponse,
        _ => ProviderSearch::Failed(error),
    }
}

/// The languages that are searched in.
pub open spec fn search_language(lang: Seq<char>) -> Seq<char> {
    if lang == "sk"@ {
        "sk"@
    } else {
        "en"@
    }
}

pub fn language_for(lang: &str) -> (r: &'static str)
    ensures
        r@ == search_language(lang@),
{
    if crate::text::same(lang, "sk") {
        "sk"
    } else {
        "en"
    }
}

pub open spec fn wikipedia_host(lang: Seq<char>) -> Seq<char> {
    "https://"@ + lang + ".wikipedia.org"@
}

pub open spec fn wikipedia_query(query: Seq<char>, lang: Seq<char>) -> Seq<char> {
    url_with_pairs(
        wikipedia_host(lang) + "/w/rest.php/v1/search/page"@,
        seq![("q"@, query), ("limit"@, "2"@)],
    )
}

fn wikipedia_base(lang: &str, path: &str) -> (r: String)
    ensures
        r@ == wikipedia_host(lang@) + path@,
{
    let mut text = chars_of("https://");
    push_text(&mut text, lang);
    push_text(&mut text, ".wikipedia.org");
    push_text(&mut text, path);
    string_of(&text)
}

pub fn wikipedia_search_url(query: &str, lang: &str) -> (r: Option<WebUrl>)
    ensures
        r == parsed_url(wikipedia_query(query@, lang@)),
{
    let base = wikipedia_base(lang, "/w/rest.php/v1/search/page");
    let mut pairs: Vec<(String, String)> = Vec::new();
    pairs.push(("q".to_owned(), query.to_owned()));
    pairs.push(("limit".to_owned(), "2".to_owned()));
    proof {
        assert(pair_texts(pairs@) =~= seq![("q"@, query@), ("limit"@, "2"@)]);
    }
    let text = url_extend_pairs(base.as_str(), &pairs);
    WebUrl::parse(text.as_str())
}

pub open spec fn duckduckgo_query(query: Seq<char>) -> Seq<char> {
    url_with_pairs("https://lite.duckduckgo.com/lite/"@, seq![("q"@, query)])
}

pub fn duckduckgo_search_url(query: &str) -> (r: Option<WebUrl>)
    ensures
        r == parsed_url(duckduckgo_query(query@)),
{
    let mut pairs: Vec<(String, String)> = Vec::new();
    pairs.push(("q".to_owned(), query.to_owned()));
    proof {
        assert(pair_texts(pairs@) =~= seq![("q"@, query@)]);
    }
    let text = url_extend_pairs("https://lite.duckduckgo.com/lite/", &pairs);
    WebUrl::parse(text.as_str())
}

pub fn tavily_search_url() -> (r: Option<WebUrl>)
    ensures
        r == parsed_url("https://api.tavily.com/search"@),
{
    WebUrl::parse("https://api.tavily.com/search")
}

/// The title of a page of an encyclopedia, and the key of its address.
pub open spec fn page_address(page: Json, lang: Seq<char>) -> Option<WebUrl> {
    let key = match text_field(page, "key"@) {
        Some(key) => key,
        None => text_or_empty(page, "title"@),
    };
    parsed_url(wikipedia_host(lang) + "/wiki/"@ + key)
}

/// The result that a page of an encyclopedia is, where it has a title and an address.
pub open spec fn wikipedia_candidate(page: Json, rank: u16, lang: Seq<char>) -> Option<RawModel> {
    let title = text_or_empty(page, "title"@);
    if trim(title).len() == 0 {
        None
    } else {
        match page_address(page, lang) {
            Some(url) => Some(
                RawModel {
                    rank,
                    title,
                    url,
                    snippet: trim(
                        text_or_empty(page, "description"@) + " "@ + visible_text(
                            text_or_empty(page, "excerpt"@),
                        ),
                    ),
                },
            ),
            None => None,
        }
    }
}

/// The results among the first `n` pages.
pub open spec fn wikipedia_candidates(pages: Seq<Json>, n: int, lang: Seq<char>) -> Seq<RawModel>
    decreases n,
{
    if n <= 0 {
        Seq::empty()
    } else {
        let before = wikipedia_candidates(pages, n - 1, lang);
        match wikipedia_candidate(pages[n - 1], n as u16, lang) {
            Some(found) => before.push(found),
            None => before,
        }
    }
}

pub open spec fn at_most(n: int, limit: int) -> int {
    if n <= limit {
        n
    } else {
        limit
    }
}

/// An answer with these results.
pub open spec fn found_exactly(outcome: ProviderSearch, list: Seq<RawModel>) -> bool {
    outcome matches ProviderSearch::Candidates(found) && raw_models(found@) == list
}

/// How the answer of the encyclopedia is read.
pub open spec fn reads_wikipedia(outcome: ProviderSearch, value: Option<Json>, lang: Seq<char>) -> bool {
    match value {
        Some(answer) => match lookup(answer, "pages"@) {
            Some(Json::Array(pages)) => found_exactly(
                outcome,
                wikipedia_candidates(pages@, at_most(pages@.len() as int, 2), lang),
            ),
            _ => outcome is InvalidResponse,
        },
        None => outcome is InvalidResponse,
    }
}

fn wikipedia_result(page: &Json, rank: u16, lang: &str) -> (r: Option<RawCandidate>)
    ensures
        match r {
            Some(found) => wikipedia_candidate(*page, rank, lang@) == Some(
                RawModel {
                    rank: found.rank,
                    title: found.title@,
                    url: found.url,
                    snippet: found.snippet@,
                },
            ),
            None => wikipedia_candidate(*page, rank, lang@) is None,
        },
{
    let title = page.get_text_or_empty("title");
    let title_chars = chars_of(title.as_str());
    let core = trimmed(&title_chars);
    if core.len() == 0 {
        return None;
    }
    let mut address = chars_of("https://");
    push_text(&mut address, lang);
    push_text(&mut address, ".wikipedia.org");
    push_text(&mut address, "/wiki/");
    match page.get_text("key") {
        Some(key) => {
            push_text(&mut address, key);
        },
        None => {
            push_text(&mut address, title.as_str());
        },
    }
    let address_text = string_of(&address);
    match WebUrl::parse(address_text.as_str()) {
        Some(url) => {
            let description = page.get_text_or_empty("description");
            let excerpt = page.get_text_or_empty("excerpt");
            let plain = html_to_text(excerpt.as_str());
            let mut snippet = chars_of(description.as_str());
            push_text(&mut snippet, " ");
            push_text(&mut snippet, plain.as_str());
            let snippet_core = trimmed(&snippet);
            Some(RawCandidate { rank, title, url, snippet: string_of(&snippet_core) })
        },
        None => None,
    }
}

/// Reads the parsed answer of the encyclopedia.
pub fn wikipedia_answer(value: Option<&Json>, lang: &str) -> (r: ProviderSearch)
    ensures
        match value {
            Some(answer) => reads_wikipedia(r, Some(*answer), lang@),
            None => reads_wikipedia(r, None, lang@),
        },
{
    let answer = match value {
        Some(answer) => answer,
        None => {
            return ProviderSearch::InvalidResponse;
        },
    };
    match answer.get("pages") {
        Some(Json::Array(pages)) => {
            let mut found: Vec<RawCandidate> = Vec::new();
            let mut i: usize = 0;
            proof {
                assert(raw_models(found@) =~= Seq::empty());
            }
            while i < pages.len() && i < 2
                invariant
                    i <= pages@.len(),
                    i <= 2,
                    raw_models(found@) == wikipedia_candidates(pages@, i as int, lang@),
                decreases pages@.len() - i,
            {
                let rank: u16 = (i + 1) as u16;
                if let Some(candidate) = wikipedia_result(&pages[i], rank, lang) {
                    let ghost before = found@;
                    let ghost model = RawModel {
                        rank: candidate.rank,
                        title: candidate.title@,
                        url: candidate.url,
                        snippet: candidate.snippet@,
                    };
                    found.push(candidate);
                    proof {
                        assert(raw_models(found@) =~= raw_models(before).push(model));
                    }
                }
                i = i + 1;
            }
            ProviderSearch::Candidates(found)
        },
        _ => ProviderSearch::InvalidResponse,
    }
}

/// How a response of the encyclopedia is read.
pub open spec fn reads_wikipedia_response(
    outcome: ProviderSearch,
    response: WebHttpResponse,
    lang: Seq<char>,
) -> bool {
    match status_failure(response.status) {
        Some(failure) => outcome == ProviderSearch::Failed(failure),
        None => reads_wikipedia(outcome, parsed_json_bytes(response.body@), lang),
    }
}

/// Reads a response of the encyclopedia.
pub fn wikipedia_outcome(response: &WebHttpResponse, lang: &str) -> (r: ProviderSearch)
    ensures
        reads_wikipedia_response(r, *response, lang@),
{
    match failure_of_status(response.status) {
        Some(failure) => ProviderSearch::Failed(failure),
        None => {
            let value = parse_json_bytes(response.body.as_slice());
            wikipedia_answer(value.as_ref(), lang)
        },
    }
}

pub open spec fn challenge_terms() -> Seq<&'static str> {
    seq!["anomaly-modal", "bots use duckduckgo", "captcha"]
}

pub open spec fn no_result_terms() -> Seq<&'static str> {
    seq!["no more results", "no results", "result--no-result"]
}

/// The results of a result page with an address, ranked by their place on it.
pub open spec fn listed_candidates(results: Seq<ResultModel>, n: int) -> Seq<RawModel>
    decreases n,
{
    if n <= 0 {
        Seq::empty()
    } else {
        let before = listed_candidates(results, n - 1);
        let result = results[n - 1];
        match parsed_url(result.url) {
            Some(url) => before.push(
                RawModel { rank: n as u16, title: result.title, url, snippet: result.snippet },
            ),
            None => before,
        }
    }
}

/// How a result page is read: a challenge, results, a statement that there are
/// none, or nothing that could be a result page.
pub open spec fn reads_result_page(outcome: ProviderSearch, body: Seq<char>) -> bool {
    let lowered = ascii_lowercase(body);
    let results = results_from(body, 0, 6);
    let found = listed_candidates(results, results.len() as int);
    if contains_any(lowered, challenge_terms()) {
        outcome is Challenged
    } else if found.len() > 0 || contains_any(lowered, no_result_terms()) {
        found_exactly(outcome, found)
    } else {
        outcome is InvalidResponse
    }
}

/// Reads a result page.
pub fn result_page_answer(body: &str) -> (r: ProviderSearch)
    ensures
        reads_result_page(r, body@),
{
    let chars = chars_of(body);
    let lowered = lower_ascii(&chars);
    let challenges = ["anomaly-modal", "bots use duckduckgo", "captcha"];
    let nothing = ["no more results", "no results", "result--no-result"];
    proof {
        assert(challenges@ =~= challenge_terms());
        assert(nothing@ =~= no_result_terms());
    }
    if any_term(&lowered, &challenges) {
        return ProviderSearch::Challenged;
    }
    let results = parse_ddg_lite(body, 6);
    let ghost model = result_models(results@);
    let mut found: Vec<RawCandidate> = Vec::new();
    let mut i: usize = 0;
    proof {
        assert(raw_models(found@) =~= Seq::empty());
        assert(model.len() == results@.len());
        lemma_results_bounded(body@, 0, 6);
    }
    while i < results.len()
        invariant
            i <= results@.len(),
            results@.len() <= 6,
            model == result_models(results@),
            raw_models(found@) == listed_candidates(model, i as int),
        decreases results@.len() - i,
    {
        let result = &results[i];
        if let Some(url) = WebUrl::parse(result.1.as_str()) {
            let rank: u16 = (i + 1) as u16;
            let ghost before = found@;
            found.push(
                RawCandidate { rank, title: result.0.clone(), url, snippet: result.2.clone() },
            );
            proof {
                assert(raw_models(found@) =~= raw_models(before).push(
                    RawModel { rank, title: result.0@, url, snippet: result.2@ },
                ));
            }
        }
        i = i + 1;
    }
    proof {
        assert(raw_models(found@).len() == found@.len());
    }
    if found.len() > 0 || any_term(&lowered, &nothing) {
        ProviderSearch::Candidates(found)
    } else {
        ProviderSearch::InvalidResponse
    }
}

/// A result page gives no more results than asked for.
proof fn lemma_results_bounded(s: Seq<char>, pos: int, room: nat)
    ensures
        results_from(s, pos, room).len() <= room,
    decreases s.len() - pos,
{
    reveal_strlit("</a>");
    if room > 0 && pos >= 0 {
        match crate::text::seek(s, crate::html::result_anchor(), pos) {
            Some(anchor) => {
                let after = anchor + crate::html::result_anchor().len();
                match (
                    crate::text::seek(s, "\""@, after),
                    crate::text::seek(s, ">"@, after),
                    crate::text::seek(s, "</a>"@, after),
                ) {
                    (Some(_), Some(_), Some(close)) => {
                        assert(close + 4 <= s.len());
                        assert(close >= pos);
                        lemma_results_bounded(s, close + 4, (room - 1) as nat);
                        lemma_results_bounded(s, close + 4, room);
                    },
                    _ => {},
                }
            },
            None => {},
        }
    }
}

pub open spec fn reads_duckduckgo_response(
    outcome: ProviderSearch,
    response: WebHttpResponse,
) -> bool {
    match status_failure(response.status) {
        Some(failure) => outcome == ProviderSearch::Failed(failure),
        None => reads_result_page(outcome, lossy_text(response.body@)),
    }
}

pub fn duckduckgo_outcome(response: &WebHttpResponse) -> (r: ProviderSearch)
    ensures
        reads_duckduckgo_response(r, *response),
        status_failure(response.status) is None ==> keeps_utf8(response.body@),
{
    match failure_of_status(response.status) {
        Some(failure) => ProviderSearch::Failed(failure),
        None => {
            let body = text_of_bytes(response.body.as_slice());
            result_page_answer(body.as_str())
        },
    }
}

/// The key that the keyed provider is asked with, or what stands for its answer.
pub open spec fn tavily_gate(
    api_key: Option<Seq<char>>,
    fault: Option<TavilyAcceptanceFault>,
) -> Result<Seq<char>, ProviderSearch> {
    match fault {
        Some(TavilyAcceptanceFault::MissingCredential) => Err(
            ProviderSearch::Failed(FailureCode::ConnectorUnavailable),
        ),
        Some(TavilyAcceptanceFault::Http429) => Err(
            ProviderSearch::Failed(FailureCode::RateLimited),
        ),
        Some(TavilyAcceptanceFault::Timeout) => Err(ProviderSearch::TimedOut),
        Some(TavilyAcceptanceFault::MalformedResponse) => Err(ProviderSearch::InvalidResponse),
        None => match api_key {
            Some(key) => if trim(key).len() > 0 {
                Ok(key)
            } else {
                Err(ProviderSearch::Failed(FailureCode::ConnectorUnavailable))
            },
            None => Err(ProviderSearch::Failed(FailureCode::ConnectorUnavailable)),
        },
    }
}

pub open spec fn key_view(key: Option<String>) -> Option<Seq<char>> {
    match key {
        Some(text) => Some(text@),
        None => None,
    }
}

/// The key to ask with, or the answer that is taken without asking.
pub fn tavily_credential(adapter: &TypedWebAdapter) -> (r: Result<String, ProviderSearch>)
    ensures
        match r {
            Ok(key) => tavily_gate(
                key_view(adapter.tavily_api_key),
                adapter.tavily_acceptance_fault,
            ) == Ok::<Seq<char>, ProviderSearch>(key@),
            Err(outcome) => tavily_gate(
                key_view(adapter.tavily_api_key),
                adapter.tavily_acceptance_fault,
            ) == Err::<Seq<char>, ProviderSearch>(outcome),
        },
{
    match adapter.tavily_acceptance_fault {
        Some(TavilyAcceptanceFault::MissingCredential) => Err(
            ProviderSearch::Failed(FailureCode::ConnectorUnavailable),
        ),
        Some(TavilyAcceptanceFault::Http429) => Err(
            ProviderSearch::Failed(FailureCode::RateLimited),
        ),
        Some(TavilyAcceptanceFault::Timeout) => Err(ProviderSearch::TimedOut),
        Some(TavilyAcceptanceFault::MalformedResponse) => Err(ProviderSearch::InvalidResponse),
        None => match &adapter.tavily_api_key {
            Some(key) => {
                let chars = chars_of(key.as_str());
                let core = trimmed(&chars);
                if core.len() > 0 {
                    Ok(key.clone())
                } else {
                    Err(ProviderSearch::Failed(FailureCode::ConnectorUnavailable))
                }
            },
            None => Err(ProviderSearch::Failed(FailureCode::ConnectorUnavailable)),
        },
    }
}

pub open spec fn is_number(value: Json, n: u64) -> bool {
    value matches Json::Number { text, unsigned, signed } && text@ == crate::text::decimal(
        n as nat,
    ) && unsigned == Some(n) && signed == Some(n as i64)
}

/// The question that the keyed provider is sent: its own answer, raw pages and
/// images are not wanted.
pub open spec fn is_tavily_request(value: Json, query: Seq<char>) -> bool {
    &&& value matches Json::Object(fields)
    &&& fields@.len() == 6
    &&& fields@[0].0@ == "query"@
    &&& (fields@[0].1 matches Json::Text(text) && text@ == query)
    &&& fields@[1].0@ == "search_depth"@
    &&& (fields@[1].1 matches Json::Text(text) && text@ == "basic"@)
    &&& fields@[2].0@ == "max_results"@
    &&& is_number(fields@[2].1, 6)
    &&& fields@[3].0@ == "include_answer"@
    &&& fields@[3].1 == Json::Bool(false)
    &&& fields@[4].0@ == "include_raw_content"@
    &&& fields@[4].1 == Json::Bool(false)
    &&& fields@[5].0@ == "include_images"@
    &&& fields@[5].1 == Json::Bool(false)
}

pub fn tavily_request(query: &str) -> (r: Json)
    ensures
        is_tavily_request(r, query@),
{
    let six = crate::text::decimal_of(6);
    let mut fields: Vec<(String, Json)> = Vec::new();
    fields.push(("query".to_owned(), Json::Text(query.to_owned())));
    fields.push(("search_depth".to_owned(), Json::Text("basic".to_owned())));
    fields.push(
        (
            "max_results".to_owned(),
            Json::Number { text: string_of(&six), unsigned: Some(6), signed: Some(6) },
        ),
    );
    fields.push(("include_answer".to_owned(), Json::Bool(false)));
    fields.push(("include_raw_content".to_owned(), Json::Bool(false)));
    fields.push(("include_images".to_owned(), Json::Bool(false)));
    Json::Object(fields)
}

/// A result of the keyed provider, where it has a title and an address.
pub open spec fn tavily_candidate(result: Json, rank: u16) -> Option<RawModel> {
    match (text_field(result, "title"@), text_field(result, "url"@)) {
        (Some(title), Some(address)) => match parsed_url(address) {
            Some(url) => if trim(title).len() == 0 {
                None
            } else {
                Some(
                    RawModel {
                        rank,
                        title: trim(title),
                        url,
                        snippet: text_or_empty(result, "content"@),
                    },
                )
            },
            None => None,
        },
        _ => None,
    }
}

pub open spec fn tavily_candidates(results: Seq<Json>, n: int) -> Seq<RawModel>
    decreases n,
{
    if n <= 0 {
        Seq::empty()
    } else {
        let before = tavily_candidates(results, n - 1);
        match tavily_candidate(results[n - 1], n as u16) {
            Some(found) => before.push(found),
            None => before,
        }
    }
}

pub open spec fn reads_tavily(outcome: ProviderSearch, value: Option<Json>) -> bool {
    match value {
        Some(answer) => match lookup(answer, "results"@) {
            Some(Json::Array(results)) => found_exactly(
                outcome,
                tavily_candidates(results@, at_most(results@.len() as int, 6)),
            ),
            _ => outcome is InvalidResponse,
        },
        None => outcome is InvalidResponse,
    }
}

fn tavily_result(result: &Json, rank: u16) -> (r: Option<RawCandidate>)
    ensures
        match r {
            Some(found) => tavily_candidate(*result, rank) == Some(
                RawModel {
                    rank: found.rank,
                    title: found.title@,
                    url: found.url,
                    snippet: found.snippet@,
                },
            ),
            None => tavily_candidate(*result, rank) is None,
        },
{
    match (result.get_text("title"), result.get_text("url")) {
        (Some(title), Some(address)) => match WebUrl::parse(address) {
            Some(url) => {
                let core = trim_text(title);
                let core_chars = chars_of(core.as_str());
                if core_chars.len() == 0 {
                    None
                } else {
                    let snippet = result.get_text_or_empty("content");
                    Some(RawCandidate { rank, title: core, url, snippet })
                }
            },
            None => None,
        },
        _ => None,
    }
}

/// Reads the parsed answer of the keyed provider.
pub fn tavily_answer(value: Option<&Json>) -> (r: ProviderSearch)
    ensures
        match value {
            Some(answer) => reads_tavily(r, Some(*answer)),
            None => reads_tavily(r, None),
        },
{
    let answer = match value {
        Some(answer) => answer,
        None => {
            return ProviderSearch::InvalidResponse;
        },
    };
    match answer.get("results") {
        Some(Json::Array(results)) => {
            let mut found: Vec<RawCandidate> = Vec::new();
            let mut i: usize = 0;
            proof {
                assert(raw_models(found@) =~= Seq::empty());
            }
            while i < results.len() && i < 6
                invariant
                    i <= results@.len(),
                    i <= 6,
                    raw_models(found@) == tavily_candidates(results@, i as int),
                decreases results@.len() - i,
            {
                let rank: u16 = (i + 1) as u16;
                if let Some(candidate) = tavily_result(&results[i], rank) {
                    let ghost before = found@;
                    let ghost model = RawModel {
                        rank: candidate.rank,
                        title: candidate.title@,
                        url: candidate.url,
                        snippet: candidate.snippet@,
                    };
                    found.push(candidate);
                    proof {
                        assert(raw_models(found@) =~= raw_models(before).push(model));
                    }
                }
                i = i + 1;
            }
            ProviderSearch::Candidates(found)
        },
        _ => ProviderSearch::InvalidResponse,
    }
}

pub open spec fn reads_tavily_response(outcome: ProviderSearch, response: WebHttpResponse) -> bool {
    match status_failure(response.status) {
        Some(failure) => outcome == ProviderSearch::Failed(failure),
        None => if response.body_truncated {
            outcome is InvalidResponse
        } else {
            reads_tavily(outcome, parsed_json_bytes(response.body@))
        },
    }
}

pub fn tavily_outcome(response: &WebHttpResponse) -> (r: ProviderSearch)
    ensures
        reads_tavily_response(r, *response),
{
    match failure_of_status(response.status) {
        Some(failure) => ProviderSearch::Failed(failure),
        None => {
            if response.body_truncated {
                return ProviderSearch::InvalidResponse;
            }
            let value = parse_json_bytes(response.body.as_slice());
            tavily_answer(value.as_ref())
        },
    }
}

/// The results whose address may be fetched.
pub open spec fn fetchable(list: Seq<RawCandidate>) -> Seq<RawCandidate>
    decreases list.len(),
{
    if list.len() == 0 {
        Seq::empty()
    } else if candidate_url_valid(list.last().url) {
        fetchable(list.drop_last()).push(list.last())
    } else {
        fetchable(list.drop_last())
    }
}

/// The candidate that a result of a provider becomes.
pub open spec fn becomes(raw: RawCandidate, provider: WebProvider, candidate: WebCandidate) -> bool {
    &&& candidate.candidate_id@ == candidate_name(normalized_url_text(raw.url))
    &&& candidate.provider == provider
    &&& candidate.rank == raw.rank
    &&& candidate.title == raw.title
    &&& candidate.requested_url == raw.url
    &&& candidate.snippet == raw.snippet
}

pub open spec fn all_become(
    list: Seq<RawCandidate>,
    provider: WebProvider,
    candidates: Seq<WebCandidate>,
) -> bool {
    &&& candidates.len() == list.len()
    &&& forall|i: int|
        0 <= i < list.len() ==> becomes(list[i], provider, #[trigger] candidates[i])
}

/// How an answer is reported.
pub open spec fn provider_status(outcome: ProviderSearch) -> ProviderStatus {
    match outcome {
        ProviderSearch::Candidates(found) => if found@.len() == 0 {
            ProviderStatus::Empty
        } else if fetchable(found@).len() == 0 {
            ProviderStatus::InvalidResponse
        } else {
            ProviderStatus::Succeeded {
                result_count: crate::ranking::capped16(fetchable(found@).len()),
            }
        },
        ProviderSearch::Challenged => ProviderStatus::Challenged,
        ProviderSearch::TimedOut => ProviderStatus::TimedOut,
        ProviderSearch::InvalidResponse => ProviderStatus::InvalidResponse,
        ProviderSearch::Failed(failure) => ProviderStatus::Failed(failure),
    }
}

pub open spec fn usable(outcome: ProviderSearch) -> Seq<RawCandidate> {
    match outcome {
        ProviderSearch::Candidates(found) => fetchable(found@),
        _ => Seq::empty(),
    }
}

/// A search that waits for the answer of a provider.
#[derive(Debug, PartialEq, Eq)]
pub struct SearchState {
    pub query: String,
    pub providers: ProviderSet,
    /// The place of the provider that is asked.
    pub asked: usize,
    pub attempts: u8,
    /// When the provider was asked first.
    pub asked_at_ms: u64,
    pub reported: Vec<ProviderResult>,
    pub found: Vec<WebCandidate>,
}

impl SearchState {
    /// The provider is one of the search, and the attempts are those of a search.
    pub open spec fn well_formed(&self) -> bool {
        self.asked < self.providers.0@.len() && 1 <= self.attempts <= 2
    }

    /// The provider whose answer is awaited.
    pub fn provider(&self) -> (r: WebProvider)
        requires
            self.well_formed(),
        ensures
            r == self.providers.0@[self.asked as int],
    {
        self.providers.0[self.asked]
    }
}

/// What a search does next.
#[derive(Debug, PartialEq, Eq)]
pub enum SearchStep {
    /// Ask the provider of the state.
    Ask(SearchState),
    Finished(OperationResult<WebSearchResult>),
}

pub open spec fn search_key(query: Seq<char>, providers: Seq<WebProvider>) -> Seq<char> {
    "web_search:"@ + crate::types::provider_key(providers) + ":"@ + crate::types::key_part(query)
}

pub open spec fn all_succeeded(reported: Seq<ProviderResult>) -> bool {
    forall|i: int| 0 <= i < reported.len() ==> (#[trigger] reported[i]).status is Succeeded
}

/// What a search contributes: its candidates, of all providers or of some.
pub open spec fn search_contribution(
    candidates: Seq<WebCandidate>,
    reported: Seq<ProviderResult>,
) -> EvidenceContribution {
    if candidates.len() == 0 {
        EvidenceContribution::Empty
    } else if all_succeeded(reported) {
        EvidenceContribution::Satisfied
    } else {
        EvidenceContribution::Partial
    }
}

pub open spec fn is_search_result(
    result: OperationResult<WebSearchResult>,
    key: Seq<char>,
    attempts: u8,
    reported: Seq<ProviderResult>,
    found: Seq<WebCandidate>,
    duration_ms: u64,
) -> bool {
    &&& result.key@ == key
    &&& result.attempts == attempts
    &&& result.execution == ExecutionStatus::Succeeded
    &&& result.contribution == search_contribution(deduplicated(found), reported)
    &&& result.duration_ms == duration_ms
    &&& result.invalid_items == 0
    &&& result.value matches Some(search)
    &&& search.providers@ == reported
    &&& search.candidates@ == deduplicated(found)
}

fn finish_search(
    query: &str,
    providers: &ProviderSet,
    attempts: u8,
    reported: Vec<ProviderResult>,
    found: Vec<WebCandidate>,
    duration_ms: u64,
) -> (r: OperationResult<WebSearchResult>)
    ensures
        is_search_result(
            r,
            search_key(query@, providers.0@),
            attempts,
            reported@,
            found@,
            duration_ms,
        ),
{
    let operation = EvidenceOperation::WebSearch {
        normalized_query: query.to_owned(),
        provider_set: providers.clone(),
    };
    let mut candidates = found;
    deduplicate_candidates(&mut candidates);
    let mut complete = true;
    let mut i: usize = 0;
    while i < reported.len()
        invariant
            i <= reported@.len(),
            complete == forall|k: int|
                0 <= k < i ==> (#[trigger] reported@[k]).status is Succeeded,
        decreases reported@.len() - i,
    {
        if !matches!(reported[i].status, ProviderStatus::Succeeded { .. }) {
            complete = false;
            assert(!(reported@[i as int].status is Succeeded));
        }
        i = i + 1;
    }
    let contribution = if candidates.len() == 0 {
        EvidenceContribution::Empty
    } else if complete {
        EvidenceContribution::Satisfied
    } else {
        EvidenceContribution::Partial
    };
    OperationResult {
        key: operation.key(),
        attempts,
        execution: ExecutionStatus::Succeeded,
        contribution,
        value: Some(WebSearchResult { providers: reported, candidates }),
        duration_ms,
        invalid_items: 0,
    }
}

/// The first step of a search.
pub open spec fn search_begins(
    query: Seq<char>,
    providers: Seq<WebProvider>,
    elapsed_ms: u64,
    step: SearchStep,
) -> bool {
    if trim(query).len() == 0 {
        step matches SearchStep::Finished(result) && is_failed_result(
            result,
            search_key(query, providers),
            FailureCode::InvalidInput,
            0,
        )
    } else if providers.len() == 0 {
        step matches SearchStep::Finished(result) && is_search_result(
            result,
            search_key(query, providers),
            0,
            Seq::empty(),
            Seq::empty(),
            elapsed_ms,
        )
    } else {
        &&& step matches SearchStep::Ask(state)
        &&& state.query@ == query
        &&& state.providers.0@ == providers
        &&& state.asked == 0
        &&& state.attempts == 1
        &&& state.asked_at_ms == elapsed_ms
        &&& state.reported@.len() == 0
        &&& state.found@.len() == 0
    }
}

pub fn start_search(query: &str, providers: &ProviderSet, elapsed_ms: u64) -> (r: SearchStep)
    ensures
        search_begins(query@, providers.0@, elapsed_ms, r),
        r matches SearchStep::Ask(state) ==> state.well_formed(),
{
    let chars = chars_of(query);
    let core = trimmed(&chars);
    if core.len() == 0 {
        let operation = EvidenceOperation::WebSearch {
            normalized_query: query.to_owned(),
            provider_set: providers.clone(),
        };
        return SearchStep::Finished(failed_without_value(&operation, FailureCode::InvalidInput, 0));
    }
    if providers.0.len() == 0 {
        let reported: Vec<ProviderResult> = Vec::new();
        let found: Vec<WebCandidate> = Vec::new();
        proof {
            assert(reported@ =~= Seq::empty());
            assert(found@ =~= Seq::empty());
        }
        return SearchStep::Finished(
            finish_search(query, providers, 0, reported, found, elapsed_ms),
        );
    }
    SearchStep::Ask(
        SearchState {
            query: query.to_owned(),
            providers: providers.clone(),
            asked: 0,
            attempts: 1,
            asked_at_ms: elapsed_ms,
            reported: Vec::new(),
            found: Vec::new(),
        },
    )
}

pub open spec fn since(now: u64, start: u64) -> u64 {
    if start <= now {
        (now - start) as u64
    } else {
        0
    }
}

/// What was reported and found once an answer is taken.
pub open spec fn answer_is_taken(
    state: SearchState,
    outcome: ProviderSearch,
    elapsed_ms: u64,
    reported: Seq<ProviderResult>,
    found: Seq<WebCandidate>,
) -> bool {
    let provider = state.providers.0@[state.asked as int];
    &&& reported == state.reported@.push(
        ProviderResult {
            provider,
            status: provider_status(outcome),
            duration_ms: since(elapsed_ms, state.asked_at_ms),
        },
    )
    &&& found.len() == state.found@.len() + usable(outcome).len()
    &&& found.take(state.found@.len() as int) == state.found@
    &&& all_become(usable(outcome), provider, found.skip(state.found@.len() as int))
}

/// What follows the answer of a provider: it is asked again, or its answer is
/// taken and the next provider is asked while an attempt is left.
pub open spec fn search_follows(
    state: SearchState,
    outcome: ProviderSearch,
    elapsed_ms: u64,
    step: SearchStep,
) -> bool {
    let provider = state.providers.0@[state.asked as int];
    if may_ask_again(outcome, provider) && state.attempts < 2 {
        &&& step matches SearchStep::Ask(next)
        &&& next == (SearchState { attempts: (state.attempts + 1) as u8, ..state })
    } else if state.asked + 1 < state.providers.0@.len() && state.attempts < 2 {
        &&& step matches SearchStep::Ask(next)
        &&& next.query == state.query
        &&& next.providers == state.providers
        &&& next.asked == state.asked + 1
        &&& next.attempts == state.attempts + 1
        &&& next.asked_at_ms == elapsed_ms
        &&& answer_is_taken(state, outcome, elapsed_ms, next.reported@, next.found@)
    } else {
        &&& step matches SearchStep::Finished(result)
        &&& exists|reported: Seq<ProviderResult>, found: Seq<WebCandidate>|
            #[trigger] answer_is_taken(state, outcome, elapsed_ms, reported, found)
                && is_search_result(
                result,
                search_key(state.query@, state.providers.0@),
                state.attempts,
                reported,
                found,
                elapsed_ms,
            )
    }
}

fn take_found(
    list: Vec<RawCandidate>,
    provider: WebProvider,
    found: &mut Vec<WebCandidate>,
) -> (r: usize)
    ensures
        r == fetchable(list@).len(),
        final(found)@.len() == old(found)@.len() + r,
        final(found)@.take(old(found)@.len() as int) == old(found)@,
        all_become(fetchable(list@), provider, final(found)@.skip(old(found)@.len() as int)),
{
    let ghost start = found@;
    let mut count: usize = 0;
    let mut i: usize = 0;
    proof {
        assert(list@.take(0) =~= Seq::empty());
        assert(found@.take(start.len() as int) =~= start);
    }
    while i < list.len()
        invariant
            i <= list@.len(),
            count <= i,
            count == fetchable(list@.take(i as int)).len(),
            found@.len() == start.len() + count,
            found@.take(start.len() as int) == start,
            all_become(
                fetchable(list@.take(i as int)),
                provider,
                found@.skip(start.len() as int),
            ),
        decreases list@.len() - i,
    {
        proof {
            let next = list@.take(i as int + 1);
            assert(next.drop_last() =~= list@.take(i as int));
            assert(next.last() == list@[i as int]);
        }
        if candidate_url_is_valid(&list[i].url) {
            let raw = &list[i];
            let ghost before = found@;
            found.push(
                WebCandidate {
                    candidate_id: candidate_id_for_url(&raw.url),
                    provider,
                    rank: raw.rank,
                    title: raw.title.clone(),
                    requested_url: raw.url.clone(),
                    snippet: raw.snippet.clone(),
                },
            );
            count = count + 1;
            proof {
                assert(found@.take(start.len() as int) =~= before.take(start.len() as int));
                let old_tail = before.skip(start.len() as int);
                let tail = found@.skip(start.len() as int);
                let kept = fetchable(list@.take(i as int + 1));
                assert(kept == fetchable(list@.take(i as int)).push(list@[i as int]));
                assert forall|k: int| 0 <= k < kept.len() implies becomes(
                    kept[k],
                    provider,
                    #[trigger] tail[k],
                ) by {
                    if k < old_tail.len() {
                        assert(tail[k] == old_tail[k]);
                    } else {
                        assert(tail[k] == found@.last());
                    }
                }
            }
        }
        i = i + 1;
    }
    proof {
        assert(list@.take(list@.len() as int) =~= list@);
    }
    count
}

/// The next step of a search whose provider answered.
pub fn continue_search(state: SearchState, outcome: ProviderSearch, elapsed_ms: u64) -> (r:
    SearchStep)
    requires
        state.well_formed(),
    ensures
        search_follows(state, outcome, elapsed_ms, r),
        r matches SearchStep::Ask(next) ==> next.well_formed(),
{
    let ghost was = state;
    let ghost answer = outcome;
    let mut state = state;
    let provider = state.provider();
    if outcome.retryable_for(provider) && state.attempts < 2 {
        state.attempts = state.attempts + 1;
        return SearchStep::Ask(state);
    }
    let duration_ms = if state.asked_at_ms <= elapsed_ms {
        elapsed_ms - state.asked_at_ms
    } else {
        0
    };
    let mut found = state.found;
    let mut reported = state.reported;
    let status = match outcome {
        ProviderSearch::Candidates(list) => {
            let offered = list.len();
            let count = take_found(list, provider, &mut found);
            if offered == 0 {
                ProviderStatus::Empty
            } else if count == 0 {
                ProviderStatus::InvalidResponse
            } else {
                let result_count: u16 = if count <= 65535 {
                    count as u16
                } else {
                    65535
                };
                ProviderStatus::Succeeded { result_count }
            }
        },
        ProviderSearch::Challenged => ProviderStatus::Challenged,
        ProviderSearch::TimedOut => ProviderStatus::TimedOut,
        ProviderSearch::InvalidResponse => ProviderStatus::InvalidResponse,
        ProviderSearch::Failed(failure) => ProviderStatus::Failed(failure),
    };
    reported.push(ProviderResult { provider, status, duration_ms });
    proof {
        assert(found@.take(was.found@.len() as int) =~= was.found@);
        assert(answer_is_taken(was, answer, elapsed_ms, reported@, found@));
    }
    if state.providers.0.len() - state.asked > 1 && state.attempts < 2 {
        return SearchStep::Ask(
            SearchState {
                query: state.query,
                providers: state.providers,
                asked: state.asked + 1,
                attempts: state.attempts + 1,
                asked_at_ms: elapsed_ms,
                reported,
                found,
            },
        );
    }
    SearchStep::Finished(
        finish_search(
            state.query.as_str(),
            &state.providers,
            state.attempts,
            reported,
            found,
            elapsed_ms,
        ),
    )
}

/// The steps of a search as far as it has come, and the answers between them.
pub open spec fn is_search_run(
    query: Seq<char>,
    providers: Seq<WebProvider>,
    steps: Seq<SearchStep>,
    outcomes: Seq<ProviderSearch>,
) -> bool {
    &&& steps.len() == outcomes.len() + 1
    &&& exists|elapsed_ms: u64| search_begins(query, providers, elapsed_ms, steps[0])
    &&& forall|i: int|
        0 <= i < outcomes.len() ==> search_leads_to(steps[i], #[trigger] outcomes[i], steps[i + 1])
}

pub open spec fn search_leads_to(
    before: SearchStep,
    outcome: ProviderSearch,
    after: SearchStep,
) -> bool {
    before matches SearchStep::Ask(state) && exists|elapsed_ms: u64|
        search_follows(state, outcome, elapsed_ms, after)
}

proof fn lemma_search_run(
    query: Seq<char>,
    providers: Seq<WebProvider>,
    steps: Seq<SearchStep>,
    outcomes: Seq<ProviderSearch>,
    n: int,
)
    requires
        is_search_run(query, providers, steps, outcomes),
        0 <= n < steps.len(),
    ensures
        steps[n] matches SearchStep::Ask(state) ==> state.query@ == query && state.providers.0@
            == providers && state.asked < providers.len() && state.attempts == n + 1 && n < 2,
        steps[n] matches SearchStep::Finished(result) ==> n <= 2 && (n > 0 ==> result.attempts
            == n),
    decreases n,
{
    if n > 0 {
        lemma_search_run(query, providers, steps, outcomes, n - 1);
        assert(search_leads_to(steps[n - 1], outcomes[n - 1], steps[n - 1 + 1]));
    }
}

/// A search asks twice at most, whatever comes back: it ends with the second
/// answer at the latest, and its result counts the questions.
pub proof fn searches_ask_twice_at_most(
    query: Seq<char>,
    providers: Seq<WebProvider>,
    steps: Seq<SearchStep>,
    outcomes: Seq<ProviderSearch>,
)
    requires
        is_search_run(query, providers, steps, outcomes),
    ensures
        outcomes.len() <= 2,
        outcomes.len() == 2 ==> steps.last() is Finished,
        outcomes.len() > 0 ==> (steps.last() matches SearchStep::Finished(result)
            ==> result.attempts == outcomes.len()),
        steps.last() matches SearchStep::Ask(state) ==> state.query@ == query
            && state.providers.0@ == providers,
{
    lemma_search_run(query, providers, steps, outcomes, outcomes.len() as int);
}

/// The provider with the paid key is asked once.
pub proof fn paid_provider_is_not_retried(outcome: ProviderSearch)
    ensures
        !may_ask_again(outcome, WebProvider::Tavily),
{
}

/// Every candidate of a search can be fetched, and none stands twice.
pub proof fn found_candidates_are_fetchable(
    result: OperationResult<WebSearchResult>,
    key: Seq<char>,
    attempts: u8,
    reported: Seq<ProviderResult>,
    found: Seq<WebCandidate>,
    duration_ms: u64,
)
    requires
        is_search_result(result, key, attempts, reported, found, duration_ms),
    ensures
        forall|i: int|
            0 <= i < result.value->0.candidates@.len() ==> candidate_url_valid(
                (#[trigger] result.value->0.candidates@[i]).requested_url,
            ),
        forall|i: int, j: int|
            0 <= i < j < result.value->0.candidates@.len() ==> normalized_url_text(
                (#[trigger] result.value->0.candidates@[i]).requested_url,
            ) != normalized_url_text((#[trigger] result.value->0.candidates@[j]).requested_url),
{
    crate::ranking::deduplication_keeps_each_address_once(found);
}

} // verus!
