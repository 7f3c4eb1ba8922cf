use std::collections::{HashMap, VecDeque};

use bagent_evidence::address::IpAddress;
use bagent_evidence::fetch::{
    request_answered, request_resolved, start_request, RequestStep, WebHttpResponse,
    WebNetworkError,
};
use bagent_evidence::ranking::web_provider_set;
use bagent_evidence::search::{
    continue_search, duckduckgo_outcome, duckduckgo_search_url, language_for,
    provider_network_error, start_search, tavily_credential, tavily_outcome, tavily_search_url,
    wikipedia_outcome, wikipedia_search_url, ProviderSearch, SearchStep, TavilyAcceptanceFault,
    TypedWebAdapter,
};
use bagent_evidence::types::{
    EvidenceContribution, FailureCode, OperationResult, ProviderSet, ProviderStatus, WebProvider,
    WebSearchResult,
};
use bagent_evidence::weburl::WebUrl;

/// A network that answers from a script.
#[derive(Default)]
struct MockNetwork {
    resolutions: HashMap<String, Vec<IpAddress>>,
    replies: HashMap<String, VecDeque<Result<WebHttpResponse, WebNetworkError>>>,
    calls: Vec<String>,
}

const PUBLIC_IP: IpAddress = IpAddress::V4(8, 8, 8, 8);

impl MockNetwork {
    fn reply(&mut self, host: &str, response: Result<WebHttpResponse, WebNetworkError>) {
        self.replies
            .entry(host.to_string())
            .or_default()
            .push_back(response);
    }

    fn call_count(&self, host: &str) -> usize {
        self.calls
            .iter()
            .filter(|called| called.as_str() == host)
            .count()
    }

    fn request(
        &mut self,
        first: RequestStep,
        default: &WebHttpResponse,
    ) -> Result<WebHttpResponse, FailureCode> {
        let mut step = first;
        loop {
            step = match step {
                RequestStep::Resolve(request) => {
                    let resolution = self
                        .resolutions
                        .get(&request.target.host)
                        .cloned()
                        .unwrap_or_else(|| vec![PUBLIC_IP]);
                    request_resolved(request, Ok(resolution))
                }
                RequestStep::Connect { request, pinned } => {
                    self.calls.push(request.target.host.clone());
                    let reply = self
                        .replies
                        .get_mut(&request.target.host)
                        .and_then(VecDeque::pop_front)
                        .unwrap_or_else(|| {
                            Ok(response(
                                default.status,
                                &default.content_type,
                                &String::from_utf8(default.body.clone()).unwrap(),
                            ))
                        });
                    request_answered(&request, &pinned, reply)
                }
                RequestStep::Answered(reply) => return reply,
            };
        }
    }
}

fn response(status: u16, content_type: &str, body: &str) -> WebHttpResponse {
    WebHttpResponse {
        status,
        content_type: content_type.to_string(),
        location: None,
        body: body.as_bytes().to_vec(),
        body_truncated: false,
        peer: PUBLIC_IP,
    }
}

fn ask(
    network: &mut MockNetwork,
    url: Option<WebUrl>,
    default: &WebHttpResponse,
    read: impl Fn(&WebHttpResponse) -> ProviderSearch,
) -> ProviderSearch {
    match network.request(start_request(&url.unwrap(), false), default) {
        Ok(reply) => read(&reply),
        Err(failure) => provider_network_error(failure),
    }
}

fn search_tavily(
    network: &mut MockNetwork,
    _query: &str,
    key: Option<&str>,
    fault: Option<TavilyAcceptanceFault>,
) -> ProviderSearch {
    let adapter = TypedWebAdapter {
        tavily_api_key: key.map(str::to_string),
        tavily_acceptance_fault: fault,
    };
    match tavily_credential(&adapter) {
        Ok(_) => ask(
            network,
            tavily_search_url(),
            &response(200, "application/json", r#"{"results":[]}"#),
            tavily_outcome,
        ),
        Err(outcome) => outcome,
    }
}

fn typed_search_with_tavily_key(
    network: &mut MockNetwork,
    query: &str,
    lang: &str,
    providers: &ProviderSet,
    key: Option<&str>,
    fault: Option<TavilyAcceptanceFault>,
) -> OperationResult<WebSearchResult> {
    let language = language_for(lang);
    let readable = response(200, "text/html", "<p>readable</p>");
    let mut step = start_search(query, providers, 0);
    loop {
        match step {
            SearchStep::Ask(state) => {
                let outcome = match state.provider() {
                    WebProvider::Wikipedia => ask(
                        network,
                        wikipedia_search_url(&state.query, language),
                        &readable,
                        |reply| wikipedia_outcome(reply, language),
                    ),
                    WebProvider::DuckDuckGo => ask(
                        network,
                        duckduckgo_search_url(&state.query),
                        &readable,
                        duckduckgo_outcome,
                    ),
                    WebProvider::Tavily => search_tavily(network, query, key, fault),
                    WebProvider::Direct => ProviderSearch::Failed(FailureCode::InvalidInput),
                };
                step = continue_search(state, outcome, 0);
            }
            SearchStep::Finished(result) => return result,
        }
    }
}

fn typed_search(
    network: &mut MockNetwork,
    query: &str,
    lang: &str,
    providers: &ProviderSet,
) -> OperationResult<WebSearchResult> {
    typed_search_with_tavily_key(network, query, lang, providers, None, None)
}

#[test]
fn successful_wikipedia_and_duckduckgo_results_are_typed_and_stable() {
    let mut network = MockNetwork::default();
    network.reply(
        "en.wikipedia.org",
        Ok(response(
            200,
            "application/json",
            r#"{"pages":[{"title":"Rust","key":"Rust_(programming_language)","description":"language","excerpt":"fast"}]}"#,
        )),
    );
    network.reply(
        "lite.duckduckgo.com",
        Ok(response(
            200,
            "text/html",
            r#"<a rel="nofollow" href="https://www.rust-lang.org/">Rust</a><td class="result-snippet">Official site</td>"#,
        )),
    );
    let providers = ProviderSet(vec![WebProvider::Wikipedia, WebProvider::DuckDuckGo]);
    let first = typed_search(&mut network, "rust", "en", &providers);
    network.reply(
        "en.wikipedia.org",
        Ok(response(
            200,
            "application/json",
            r#"{"pages":[{"title":"Rust","key":"Rust_(programming_language)"}]}"#,
        )),
    );
    network.reply(
        "lite.duckduckgo.com",
        Ok(response(
            200,
            "text/html",
            r#"<a rel="nofollow" href="https://www.rust-lang.org/">Rust</a>"#,
        )),
    );
    let second = typed_search(&mut network, "rust", "en", &providers);
    let first = first.value.unwrap();
    let second = second.value.unwrap();
    assert_eq!(
        first
            .providers
            .iter()
            .map(|provider| &provider.status)
            .collect::<Vec<_>>(),
        vec![
            &ProviderStatus::Succeeded { result_count: 1 },
            &ProviderStatus::Succeeded { result_count: 1 }
        ]
    );
    assert_eq!(first.candidates.len(), 2);
    assert_eq!(
        first.candidates[0].candidate_id,
        second.candidates[0].candidate_id
    );
    assert_eq!(first.candidates[0].provider, WebProvider::Wikipedia);
    assert_eq!(first.candidates[0].rank, 1);
    assert_eq!(first.candidates[0].title, "Rust");
    assert!(first.candidates[0].snippet.contains("language"));
}

#[test]
fn tavily_basic_search_returns_discovery_candidates_only() {
    let mut network = MockNetwork::default();
    network.reply(
        "api.tavily.com",
        Ok(response(
            200,
            "application/json",
            r#"{"results":[
                {"title":"Official population","url":"https://statistics.example/population","content":"Population table"},
                {"title":"Independent report","url":"https://report.example/city","content":"Independent estimate"}
            ]}"#,
        )),
    );

    let ProviderSearch::Candidates(candidates) =
        search_tavily(&mut network, "city population", Some("tvly-test-secret"), None)
    else {
        panic!("Tavily should return typed candidates");
    };

    assert_eq!(network.call_count("api.tavily.com"), 1);
    assert_eq!(candidates.len(), 2);
    assert_eq!(candidates[0].rank, 1);
    assert_eq!(candidates[0].title, "Official population");
    assert_eq!(candidates[0].snippet, "Population table");
    assert_eq!(
        candidates[0].url.text.as_str(),
        "https://statistics.example/population"
    );
}

#[test]
fn tavily_missing_key_quota_and_malformed_response_are_typed() {
    let mut missing = MockNetwork::default();
    assert!(matches!(
        search_tavily(&mut missing, "query", None, None),
        ProviderSearch::Failed(FailureCode::ConnectorUnavailable)
    ));
    assert_eq!(missing.call_count("api.tavily.com"), 0);

    let mut quota = MockNetwork::default();
    quota.reply(
        "api.tavily.com",
        Ok(response(429, "application/json", r#"{"detail":"quota"}"#)),
    );
    assert!(matches!(
        search_tavily(&mut quota, "query", Some("tvly-test-secret"), None),
        ProviderSearch::Failed(FailureCode::RateLimited)
    ));

    let mut malformed = MockNetwork::default();
    malformed.reply(
        "api.tavily.com",
        Ok(response(
            200,
            "application/json",
            r#"{"answer":"not requested"}"#,
        )),
    );
    assert!(matches!(
        search_tavily(&mut malformed, "query", Some("tvly-test-secret"), None),
        ProviderSearch::InvalidResponse
    ));
}

#[test]
fn tavily_rejects_unsafe_result_urls_before_fetch() {
    let mut network = MockNetwork::default();
    network.reply(
        "api.tavily.com",
        Ok(response(
            200,
            "application/json",
            r#"{"results":[
                {"title":"Local","url":"http://127.0.0.1/admin","content":"unsafe"},
                {"title":"Public","url":"https://public.example/report","content":"safe"}
            ]}"#,
        )),
    );
    let result = typed_search_with_tavily_key(&mut network,
        "report",
        "en",
        &ProviderSet(vec![WebProvider::Tavily]),
        Some("tvly-test-secret"),
        None,
    );
    let value = result.value.unwrap();
    assert_eq!(value.candidates.len(), 1);
    assert_eq!(
        value.candidates[0].requested_url.text.as_str(),
        "https://public.example/report"
    );
    assert_eq!(
        value.providers[0].status,
        ProviderStatus::Succeeded { result_count: 1 }
    );
}

#[test]
fn tavily_quota_does_not_retry_and_preserves_duckduckgo_fallback() {
    let mut network = MockNetwork::default();
    network.reply(
        "api.tavily.com",
        Ok(response(429, "application/json", r#"{"detail":"quota"}"#)),
    );
    network.reply(
        "lite.duckduckgo.com",
        Ok(response(
            200,
            "text/html",
            r#"<a rel="nofollow" href="https://fallback.example/">Fallback</a>"#,
        )),
    );

    let result = typed_search_with_tavily_key(&mut network,
        "fallback",
        "en",
        &web_provider_set(true),
        Some("tvly-test-secret"),
        None,
    );
    let value = result.value.unwrap();
    assert_eq!(result.attempts, 2);
    assert_eq!(network.call_count("api.tavily.com"), 1);
    assert_eq!(network.call_count("lite.duckduckgo.com"), 1);
    assert_eq!(
        value.providers[0].status,
        ProviderStatus::Failed(FailureCode::RateLimited)
    );
    assert_eq!(
        value.providers[1].status,
        ProviderStatus::Succeeded { result_count: 1 }
    );
    assert_eq!(value.candidates[0].provider, WebProvider::DuckDuckGo);
}

#[test]
fn every_acceptance_fault_uses_one_tavily_attempt_and_at_most_one_ddg_fallback() {
    let cases = [
        (
            TavilyAcceptanceFault::MissingCredential,
            ProviderStatus::Failed(FailureCode::ConnectorUnavailable),
        ),
        (
            TavilyAcceptanceFault::Http429,
            ProviderStatus::Failed(FailureCode::RateLimited),
        ),
        (TavilyAcceptanceFault::Timeout, ProviderStatus::TimedOut),
        (
            TavilyAcceptanceFault::MalformedResponse,
            ProviderStatus::InvalidResponse,
        ),
    ];
    for (fault, expected) in cases {
        let mut network = MockNetwork::default();
        network.reply(
            "lite.duckduckgo.com",
            Ok(response(
                200,
                "text/html",
                r#"<a rel="nofollow" href="https://fallback.example/result">Fallback result</a>"#,
            )),
        );
        let key = (fault != TavilyAcceptanceFault::MissingCredential)
            .then_some("tvly-acceptance-placeholder");
        let adapter = TypedWebAdapter::with_acceptance_fault(key, fault);

        let result = typed_search_with_tavily_key(
            &mut network,
            "bounded acceptance query",
            "en",
            &web_provider_set(true),
            adapter.tavily_api_key.as_deref(),
            adapter.tavily_acceptance_fault,
        );
        let value = result.value.expect("typed provider results");

        assert_eq!(result.attempts, 2);
        assert_eq!(value.providers.len(), 2);
        assert_eq!(value.providers[0].provider, WebProvider::Tavily);
        assert_eq!(value.providers[0].status, expected);
        assert_eq!(value.providers[1].provider, WebProvider::DuckDuckGo);
        assert_eq!(network.call_count("api.tavily.com"), 0);
        assert_eq!(network.call_count("lite.duckduckgo.com"), 1);
    }
}

#[test]
fn provider_empty_challenge_timeout_invalid_and_normalized_failure_are_distinct() {
    let mut network = MockNetwork::default();
    network.reply(
        "en.wikipedia.org",
        Ok(response(200, "application/json", r#"{"pages":[]}"#)),
    );
    network.reply(
        "lite.duckduckgo.com",
        Ok(response(200, "text/html", "anomaly-modal captcha")),
    );
    let providers = ProviderSet(vec![WebProvider::Wikipedia, WebProvider::DuckDuckGo]);
    let result = typed_search(&mut network, "none", "en", &providers)
        .value
        .unwrap();
    assert_eq!(result.providers[0].status, ProviderStatus::Empty);
    assert_eq!(result.providers[1].status, ProviderStatus::Challenged);

    let mut timeout = MockNetwork::default();
    timeout.reply("en.wikipedia.org", Err(WebNetworkError::TimedOut));
    timeout.reply("en.wikipedia.org", Err(WebNetworkError::TimedOut));
    timeout.reply(
        "lite.duckduckgo.com",
        Ok(response(200, "text/html", "No more results")),
    );
    let result = typed_search(&mut timeout, "x", "en", &providers)
        .value
        .unwrap();
    assert_eq!(result.providers[0].status, ProviderStatus::TimedOut);
    assert_eq!(result.providers.len(), 1);
    assert_eq!(timeout.call_count("lite.duckduckgo.com"), 0);

    let mut invalid = MockNetwork::default();
    invalid.reply(
        "en.wikipedia.org",
        Ok(response(200, "application/json", "not json")),
    );
    invalid.reply("lite.duckduckgo.com", Err(WebNetworkError::Failed));
    let result = typed_search(&mut invalid, "x", "en", &providers)
        .value
        .unwrap();
    assert_eq!(result.providers[0].status, ProviderStatus::InvalidResponse);
    assert_eq!(
        result.providers[1].status,
        ProviderStatus::Failed(FailureCode::OtherNormalized)
    );
}

#[test]
fn one_provider_can_fail_while_another_succeeds_and_duplicate_urls_are_removed() {
    let mut network = MockNetwork::default();
    network.reply("en.wikipedia.org", Err(WebNetworkError::Failed));
    network.reply(
        "lite.duckduckgo.com",
        Ok(response(
            200,
            "text/html",
            r#"<a rel="nofollow" href="ftp://unsafe.example/file">Unsafe</a>
            <a rel="nofollow" href="https://example.com/a#top">One</a><td class="result-snippet">first</td>
            <a rel="nofollow" href="https://example.com/a?utm_source=x">Duplicate</a>"#,
        )),
    );
    let result = typed_search(&mut network,
        "x",
        "en",
        &ProviderSet(vec![WebProvider::Wikipedia, WebProvider::DuckDuckGo]),
    );
    assert_eq!(result.contribution, EvidenceContribution::Partial);
    let value = result.value.unwrap();
    assert_eq!(value.candidates.len(), 1);
    assert_eq!(value.candidates[0].rank, 2);
    assert_eq!(
        value.providers[0].status,
        ProviderStatus::Failed(FailureCode::OtherNormalized)
    );
    assert!(matches!(
        value.providers[1].status,
        ProviderStatus::Succeeded { .. }
    ));
}

#[test]
fn provider_challenge_does_not_prevent_another_provider_from_succeeding() {
    let mut network = MockNetwork::default();
    network.reply(
        "lite.duckduckgo.com",
        Ok(response(200, "text/html", "anomaly-modal captcha")),
    );
    network.reply(
        "en.wikipedia.org",
        Ok(response(
            200,
            "application/json",
            r#"{"pages":[{"title":"Recovered","key":"Recovered"}]}"#,
        )),
    );
    let result = typed_search(&mut network,
        "recovered",
        "en",
        &ProviderSet(vec![WebProvider::DuckDuckGo, WebProvider::Wikipedia]),
    )
    .value
    .unwrap();
    assert_eq!(result.providers[0].status, ProviderStatus::Challenged);
    assert_eq!(
        result.providers[1].status,
        ProviderStatus::Succeeded { result_count: 1 }
    );
    assert_eq!(result.candidates.len(), 1);
    assert_eq!(result.candidates[0].provider, WebProvider::Wikipedia);
}

#[test]
fn search_retry_uses_the_second_global_attempt_and_ddg_invalid_is_not_empty() {
    let mut retry = MockNetwork::default();
    retry.reply("en.wikipedia.org", Err(WebNetworkError::TimedOut));
    retry.reply(
        "en.wikipedia.org",
        Ok(response(
            200,
            "application/json",
            r#"{"pages":[{"title":"Recovered","key":"Recovered"}]}"#,
        )),
    );
    let result = typed_search(&mut retry,
        "x",
        "en",
        &ProviderSet(vec![WebProvider::Wikipedia, WebProvider::DuckDuckGo]),
    );
    assert_eq!(result.attempts, 2);
    assert_eq!(retry.call_count("en.wikipedia.org"), 2);
    assert_eq!(retry.call_count("lite.duckduckgo.com"), 0);
    assert!(matches!(
        result.value.unwrap().providers[0].status,
        ProviderStatus::Succeeded { result_count: 1 }
    ));

    let mut invalid = MockNetwork::default();
    invalid.reply(
        "lite.duckduckgo.com",
        Ok(response(200, "text/html", "<html>changed markup</html>")),
    );
    let result = typed_search(&mut invalid,
        "x",
        "en",
        &ProviderSet(vec![WebProvider::DuckDuckGo]),
    )
    .value
    .unwrap();
    assert_eq!(result.providers[0].status, ProviderStatus::InvalidResponse);
}
