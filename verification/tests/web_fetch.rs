use std::collections::{HashMap, VecDeque};

use bagent_evidence::address::IpAddress;
use bagent_evidence::fetch::{
    continue_fetch, fetch_request, request_answered, request_resolved, start_fetch,
    start_request, FetchStep, RequestStep, WebHttpResponse, WebNetworkError,
};
use bagent_evidence::identity::candidate_id_for_url;
use bagent_evidence::passages::MAX_PASSAGE_CHARS;
use bagent_evidence::planner::EvidencePlanner;
use bagent_evidence::selection::rank_fact_passages;
use bagent_evidence::types::{
    EvidenceContribution, EvidenceIntent, EvidenceResults, ExecutionStatus,
    ExtractionLowQualityReason, ExtractionStatus, FailureCode, OperationResult, SourceAuthority,
    ValidationOutcome, WebCandidate, WebFetchEvidence, WebProvider,
};
use bagent_evidence::validator::EvidenceValidator;
use bagent_evidence::weburl::WebUrl;

/// A network that answers from a script.
#[derive(Default)]
struct MockNetwork {
    resolutions: HashMap<String, Vec<IpAddress>>,
    replies: HashMap<String, VecDeque<Result<WebHttpResponse, WebNetworkError>>>,
    calls: Vec<String>,
}

const PUBLIC_IP: IpAddress = IpAddress::V4(8, 8, 8, 8);

impl MockNetwork {
    fn reply(&mut self, host: &str, response: Result<WebHttpResponse, WebNetworkError>) {
        self.replies
            .entry(host.to_string())
            .or_default()
            .push_back(response);
    }

    fn call_count(&self, host: &str) -> usize {
        self.calls
            .iter()
            .filter(|called| called.as_str() == host)
            .count()
    }

    fn request(
        &mut self,
        first: RequestStep,
        default: &WebHttpResponse,
    ) -> Result<WebHttpResponse, FailureCode> {
        let mut step = first;
        loop {
            step = match step {
                RequestStep::Resolve(request) => {
                    let resolution = self
                        .resolutions
                        .get(&request.target.host)
                        .cloned()
                        .unwrap_or_else(|| vec![PUBLIC_IP]);
                    request_resolved(request, Ok(resolution))
                }
                RequestStep::Connect { request, pinned } => {
                    self.calls.push(request.target.host.clone());
                    let reply = self
                        .replies
                        .get_mut(&request.target.host)
                        .and_then(VecDeque::pop_front)
                        .unwrap_or_else(|| {
                            Ok(response(
                                default.status,
                                &default.content_type,
                                &String::from_utf8(default.body.clone()).unwrap(),
                            ))
                        });
                    request_answered(&request, &pinned, reply)
                }
                RequestStep::Answered(reply) => return reply,
            };
        }
    }
}

fn response(status: u16, content_type: &str, body: &str) -> WebHttpResponse {
    WebHttpResponse {
        status,
        content_type: content_type.to_string(),
        location: None,
        body: body.as_bytes().to_vec(),
        body_truncated: false,
        peer: PUBLIC_IP,
    }
}

fn redirect(location: &str) -> WebHttpResponse {
    let mut response = response(302, "text/html", "");
    response.location = Some(location.to_string());
    response
}

fn page(text: &str) -> WebUrl {
    WebUrl::parse(text).unwrap()
}

fn candidate(url: &str, provider: WebProvider, rank: u16) -> WebCandidate {
    let requested_url = page(url);
    WebCandidate {
        candidate_id: candidate_id_for_url(&requested_url),
        provider,
        rank,
        title: format!("candidate {rank}"),
        requested_url,
        snippet: "discovery only".to_string(),
    }
}

fn typed_fetch(
    network: &mut MockNetwork,
    candidate: &WebCandidate,
) -> OperationResult<WebFetchEvidence> {
    let readable = response(200, "text/html", "<p>readable</p>");
    let mut step = start_fetch(candidate, 0);
    loop {
        match step {
            FetchStep::Request(state) => {
                let reply = network.request(fetch_request(&state), &readable);
                step = continue_fetch(state, reply, 0);
            }
            FetchStep::Finished(result) => return result,
        }
    }
}

#[test]
fn official_title_heading_and_adjacent_holder_statement_form_one_grounded_claim() {
    let mut network = MockNetwork::default();
    network.reply(
        "www.prezident.sk",
        Ok(response(
            200,
            "text/html",
            r#"<html><head>
                <title>President of the Slovak Republic</title>
                <meta property="og:site_name" content="President of the Slovak Republic">
                <link rel="canonical" href="https://www.prezident.sk/en/biography">
            </head><body><main>
                <h1>Peter Pellegrini</h1>
                <p>Assumed office on 15 June 2024.</p>
            </main></body></html>"#,
        )),
    );
    let mut result = typed_fetch(&mut network,
        &candidate(
            "https://www.prezident.sk/en/biography",
            WebProvider::Tavily,
            1,
        ),
    );
    rank_fact_passages(
        "Who is the current President of Slovakia? Use the official first-party website.",
        result.value.as_mut().expect("fetched page"),
    );

    let evidence = result.value.expect("fetched page");
    assert_eq!(evidence.quality.low_quality_reason, None);
    assert!(evidence.passages.iter().any(|passage| {
        passage.text.contains("President of the Slovak Republic")
            && passage.text.contains("Peter Pellegrini")
            && passage.text.contains("Assumed office on 15 June 2024")
    }));
}

/// The page of an official site with a heading and a statement below it, ranked
/// for the question who holds the office.
fn ranked_holder_page(heading: &str, statement: &str) -> WebFetchEvidence {
    let mut network = MockNetwork::default();
    let page = format!(
        r#"<html><head>
            <title>President of the Slovak Republic</title>
            <meta property="og:site_name" content="President of the Slovak Republic">
            <link rel="canonical" href="https://www.prezident.sk/en/biography">
        </head><body><main>
            <h1>{heading}</h1>
            <p>{statement}</p>
        </main></body></html>"#
    );
    network.reply("www.prezident.sk", Ok(response(200, "text/html", &page)));
    let mut result = typed_fetch(
        &mut network,
        &candidate(
            "https://www.prezident.sk/en/biography",
            WebProvider::Tavily,
            1,
        ),
    );
    let mut evidence = result.value.take().expect("fetched page");
    rank_fact_passages(
        "Who is the current President of Slovakia? Use the official first-party website.",
        &mut evidence,
    );
    evidence
}

#[test]
fn a_statement_too_long_for_the_name_keeps_its_heading() {
    let heading = format!("Peter Pellegrini{}", " of Banska Bystrica".repeat(4));
    let statement = format!("Assumed office on 15 June 2024.{}", " Then he worked.".repeat(68));
    let evidence = ranked_holder_page(&heading, &statement);
    assert_eq!(evidence.quality.low_quality_reason, None);
    let formed = format!("President of the Slovak Republic: {statement}");
    assert!(formed.chars().count() <= MAX_PASSAGE_CHARS);
    assert!(formed.chars().count() + heading.chars().count() + 2 > MAX_PASSAGE_CHARS);
    assert!(evidence.passages.iter().any(|passage| passage.text == formed));
}

#[test]
fn a_heading_lends_no_claim_to_the_statement_below_it() {
    let evidence = ranked_holder_page("This is our team", "Report of 2024 for visitors.");
    assert_eq!(
        evidence.quality.low_quality_reason,
        Some(ExtractionLowQualityReason::NoClaimRelevantPassage)
    );
    assert!(!evidence
        .passages
        .iter()
        .any(|passage| passage.text.contains("This is our team: Report")));
}

#[test]
fn unrelated_presidential_election_page_does_not_form_an_office_holder_claim() {
    let mut network = MockNetwork::default();
    network.reply(
        "elections.example",
        Ok(response(
            200,
            "text/html",
            r#"<html><head><title>Presidential elections</title></head><body><main>
                <h1>Presidential elections</h1>
                <p>Political parties shaped presidential elections throughout American history.</p>
            </main></body></html>"#,
        )),
    );
    let mut result = typed_fetch(&mut network,
        &candidate(
            "https://elections.example/presidential",
            WebProvider::Tavily,
            1,
        ),
    );
    rank_fact_passages(
        "Who is the President of Slovakia? Use the official first-party website.",
        result.value.as_mut().expect("fetched page"),
    );

    let evidence = result.value.expect("fetched page");
    assert_eq!(
        evidence.quality.low_quality_reason,
        Some(ExtractionLowQualityReason::NoClaimRelevantPassage)
    );
    assert!(evidence.passages.is_empty());
}

#[test]
fn final_url_bound_json_ld_person_fact_becomes_fetched_evidence() {
    let mut network = MockNetwork::default();
    network.reply(
        "www.prezident.sk",
        Ok(response(
            200,
            "text/html",
            r#"<html><head><title>President of the Slovak Republic</title>
            <script type="application/ld+json">{
                "@context":"https://schema.org", "@type":"Person",
                "url":"https://www.prezident.sk/en/",
                "name":"Peter Pellegrini",
                "jobTitle":"President of the Slovak Republic"
            }</script></head><body><main><h1>President</h1></main></body></html>"#,
        )),
    );
    let mut result = typed_fetch(&mut network,
        &candidate("https://www.prezident.sk/en/", WebProvider::Tavily, 1),
    );
    rank_fact_passages(
        "Who is the President of Slovakia? Use the official first-party website.",
        result.value.as_mut().expect("fetched page"),
    );

    let evidence = result.value.expect("fetched page");
    assert!(evidence.passages.iter().any(|passage| {
        passage.text == "Peter Pellegrini is President of the Slovak Republic."
    }));
}

#[test]
fn official_biography_title_heading_and_role_row_form_holder_claim() {
    let mut network = MockNetwork::default();
    network.reply(
        "www.prezident.sk",
        Ok(response(
            200,
            "text/html",
            r#"<html><head><title>President of the Slovak Republic</title></head>
            <body><main><h1>Biography of Peter Pellegrini</h1>
            <h2>Professional experience</h2><p>2024</p>
            <p>President of the Slovak Republic</p></main></body></html>"#,
        )),
    );
    let mut result = typed_fetch(&mut network,
        &candidate(
            "https://www.prezident.sk/en/zivotopis",
            WebProvider::Tavily,
            1,
        ),
    );
    result.value.as_mut().expect("fetched biography").authority = SourceAuthority::FirstParty;
    rank_fact_passages(
        "Who is the President of Slovakia?",
        result.value.as_mut().expect("fetched biography"),
    );

    let evidence = result.value.expect("fetched biography");
    assert!(
        evidence.passages.iter().any(|passage| {
            passage.text.contains("Peter Pellegrini is President")
                && passage.text.contains("Slovak Republic")
        }),
        "ranked passages: {:?}",
        evidence.passages
    );
}

#[test]
fn third_party_nonadjacent_biography_and_presidential_role_never_form_holder_claim() {
    let mut network = MockNetwork::default();
    network.reply(
        "publisher.example",
        Ok(response(
            200,
            "text/html",
            r#"<html><head><title>Profiles and former officials</title></head>
            <body><main><h1>Biography of Alice Example</h1>
            <p>A long profile about an unrelated subject and her work.</p>
            <h2>Former officials</h2><p>President of the Slovak Republic</p>
            </main></body></html>"#,
        )),
    );
    let mut result = typed_fetch(&mut network,
        &candidate("https://publisher.example/profiles", WebProvider::Tavily, 1),
    );
    rank_fact_passages(
        "Who is the President of Slovakia?",
        result.value.as_mut().expect("fetched profile"),
    );

    assert!(result.value.expect("fetched profile").passages.is_empty());
}

#[test]
fn labelled_table_preserves_figure_date_and_definition_in_one_claim() {
    let mut network = MockNetwork::default();
    network.reply(
        "statistics.example",
        Ok(response(
            200,
            "text/html",
            r#"<html><head><title>Bratislava population</title></head><body><main>
            <h1>Bratislava population</h1>
            <table><thead><tr><th>Definition</th><th>Figure</th><th>Reference date</th></tr></thead>
            <tbody><tr><th>city proper population</th><td>475,503</td><td>2024</td></tr></tbody></table>
            </main></body></html>"#,
        )),
    );
    let mut result = typed_fetch(&mut network,
        &candidate(
            "https://statistics.example/bratislava",
            WebProvider::Tavily,
            1,
        ),
    );
    rank_fact_passages(
        "What is the current population of Bratislava?",
        result.value.as_mut().expect("fetched page"),
    );

    let evidence = result.value.expect("fetched page");
    assert!(evidence.passages.iter().any(|passage| {
        let text = passage.text.to_ascii_lowercase();
        text.contains("bratislava")
            && text.contains("city proper")
            && text.contains("population was 475,503")
            && text.contains("2024")
    }));
}

#[test]
fn two_generic_structured_population_values_remain_unusable() {
    for (host, value) in [
        ("publisher-one.example", "475,503"),
        ("publisher-two.example", "480,902"),
    ] {
        let mut network = MockNetwork::default();
        network.reply(
            host,
            Ok(response(
                200,
                "text/html",
                &format!(
                    r#"<html><head><title>Bratislava population</title></head>
                    <body><main><h1>Bratislava population</h1>
                    <dl><dt>Population</dt><dd>{value}</dd></dl>
                    </main></body></html>"#
                ),
            )),
        );
        let mut result = typed_fetch(&mut network,
            &candidate(
                &format!("https://{host}/bratislava"),
                WebProvider::Tavily,
                1,
            ),
        );
        rank_fact_passages(
            "What is the current population of Bratislava?",
            result.value.as_mut().expect("fetched page"),
        );
        assert!(result.value.expect("fetched page").passages.is_empty());
    }
}

#[test]
fn definition_list_preserves_labelled_value_and_reference_date() {
    let mut network = MockNetwork::default();
    network.reply(
        "statistics.example",
        Ok(response(
            200,
            "text/html",
            r#"<html><head><title>Bratislava population</title></head><body><main>
            <h1>Bratislava</h1><dl>
            <dt>city proper population</dt><dd>475,503 as of 2024</dd>
            </dl></main></body></html>"#,
        )),
    );
    let mut result = typed_fetch(&mut network,
        &candidate(
            "https://statistics.example/bratislava",
            WebProvider::Tavily,
            1,
        ),
    );
    rank_fact_passages(
        "What is the current population of Bratislava?",
        result.value.as_mut().expect("fetched page"),
    );

    assert!(result.value.expect("fetched page").passages.iter().any(
        |passage| passage.text == "Bratislava city proper population was 475,503 in 2024."
    ));
}

#[test]
fn ambiguous_flattened_numeric_row_never_becomes_a_claim() {
    let mut network = MockNetwork::default();
    network.reply(
        "statistics.example",
        Ok(response(
            200,
            "text/html",
            r#"<html><head><title>Bratislava population</title></head><body><main>
            <h1>Bratislava population</h1>
            <table><tr><td>Bratislava</td><td>442,197</td><td>428,672</td><td>475,503</td><td>480,902</td></tr></table>
            <p>Population statistics for Bratislava are shown above.</p>
            </main></body></html>"#,
        )),
    );
    let mut result = typed_fetch(&mut network,
        &candidate(
            "https://statistics.example/bratislava",
            WebProvider::Tavily,
            1,
        ),
    );
    rank_fact_passages(
        "What is the current population of Bratislava?",
        result.value.as_mut().expect("fetched page"),
    );

    let evidence = result.value.expect("fetched page");
    assert!(evidence.passages.is_empty());
    assert_eq!(
        evidence.quality.low_quality_reason,
        Some(ExtractionLowQualityReason::NoClaimRelevantPassage)
    );
}

#[test]
fn direct_page_extraction_keeps_the_description_without_duplicate_title_or_navigation() {
    let mut network = MockNetwork::default();
    network.reply(
        "example.com",
        Ok(response(
            200,
            "text/html",
            r#"<!doctype html>
            <html><head><title>Example Domain</title><style>body { color: red }</style></head>
            <body>
              <header><a href="/">Example Domain</a><nav><a href="/menu">Menu</a></nav></header>
              <main><h1>Example Domain</h1>
                <p>This domain is for use in illustrative examples in documents.</p>
                <p>You may use this domain in literature without prior coordination.</p>
              </main>
              <footer><a href="/privacy">Privacy</a></footer>
              <script>window.trackEverything()</script>
            </body></html>"#,
        )),
    );

    let result = typed_fetch(&mut network,
        &candidate("https://example.com/", WebProvider::Direct, 1),
    );
    let evidence = result.value.expect("typed evidence");
    let text = evidence
        .passages
        .iter()
        .map(|passage| passage.text.as_str())
        .collect::<Vec<_>>()
        .join(" ");

    assert_eq!(text.matches("Example Domain").count(), 1);
    assert!(text.contains("illustrative examples"));
    assert!(!text.contains("Menu"));
    assert!(!text.contains("Privacy"));
    assert!(!text.contains("trackEverything"));
    assert!(evidence.quality.useful_text_length >= 100);
    assert!(evidence.quality.boilerplate_ratio_basis_points > 0);
    assert_eq!(evidence.quality.low_quality_reason, None);
}

#[test]
fn article_extraction_excludes_navigation_and_rejects_generic_infobox_value() {
    let mut network = MockNetwork::default();
    network.reply(
        "en.wikipedia.org",
        Ok(response(
            200,
            "text/html",
            r#"<html><head><title>Bratislava - Wikipedia</title></head><body>
            <header><nav>Main page Contents Current events Random article About Wikipedia</nav></header>
            <div id="mw-panel"><a href="/wiki/Main_Page">Navigation</a></div>
            <main id="content"><h1>Bratislava</h1>
              <table class="infobox"><tr><th>Population</th><td>475,503 (2024)</td></tr></table>
              <div class="mw-parser-output">
                <p>Bratislava is the capital and largest city of Slovakia.</p>
                <h2>Demographics</h2>
                <p>The city had an estimated population of 475,503 in 2024.</p>
              </div>
            </main>
            <footer>Privacy policy About Wikipedia Disclaimers</footer>
            </body></html>"#,
        )),
    );

    let result = typed_fetch(&mut network,
        &candidate(
            "https://en.wikipedia.org/wiki/Bratislava",
            WebProvider::Wikipedia,
            1,
        ),
    );
    let evidence = result.value.expect("typed evidence");
    let text = evidence
        .passages
        .iter()
        .map(|passage| passage.text.as_str())
        .collect::<Vec<_>>()
        .join(" ");

    assert!(!text.contains("Population 475,503 (2024)"));
    assert!(text.contains("estimated population of 475,503 in 2024"));
    assert!(text.contains("capital and largest city"));
    assert!(!text.contains("Random article"));
    assert!(!text.contains("Privacy policy"));
}

#[test]
fn extraction_keeps_bounded_passages_beyond_the_old_initial_character_cap() {
    let mut network = MockNetwork::default();
    let filler = "Background context about the city. ".repeat(240);
    let body = format!(
        "<html><head><title>City report</title></head><body><main><article>\
         <h1>City report</h1><p>{filler}</p><h2>Population</h2>\
         <p>The current official population is 475,503 residents as of 2024.</p>\
         </article></main></body></html>"
    );
    network.reply("report.example", Ok(response(200, "text/html", &body)));

    let result = typed_fetch(&mut network,
        &candidate("https://report.example/city", WebProvider::DuckDuckGo, 1),
    );
    let evidence = result.value.expect("typed evidence");

    assert!(evidence.passages.len() > 1);
    assert!(evidence
        .passages
        .iter()
        .any(|passage| passage.text.contains("475,503")));
    assert!(evidence
        .passages
        .iter()
        .all(|passage| passage.text.chars().count() <= MAX_PASSAGE_CHARS));
}

#[test]
fn high_link_density_menus_are_not_fetched_evidence() {
    let mut network = MockNetwork::default();
    network.reply(
        "links.example",
        Ok(response(
            200,
            "text/html",
            r#"<html><head><title>City profile</title></head><body>
            <main>
              <p>Home Products Services Departments Careers Contact Privacy Sitemap</p>
              <div class="directory"><p>
                <a href="/a">Departments</a> <a href="/b">Services</a>
                <a href="/c">Forms</a> <a href="/d">Contact</a>
              </p></div>
              <h1>City profile</h1>
              <p>Bratislava is the capital of Slovakia on the Danube.</p>
            </main></body></html>"#,
        )),
    );

    let result = typed_fetch(&mut network,
        &candidate("https://links.example/", WebProvider::Direct, 1),
    );
    let evidence = result.value.expect("typed evidence");
    let text = evidence
        .passages
        .iter()
        .map(|passage| passage.text.as_str())
        .collect::<Vec<_>>()
        .join(" ");

    assert!(text.contains("capital of Slovakia"));
    assert!(!text.contains("Departments"));
    assert!(!text.contains("Services"));
    assert!(!text.contains("Careers"));
}

#[test]
fn high_boilerplate_ratio_does_not_disqualify_valid_main_content() {
    let mut network = MockNetwork::default();
    let navigation =
        "Home Products Services Departments Careers Contact Privacy Sitemap ".repeat(250);
    let body = format!(
        r#"<html><head><title>City profile</title></head><body>
        <header><nav>{navigation}</nav></header>
        <main><h1>City profile</h1>
          <p>Bratislava is Slovakia's capital, located on the Danube near Austria and Hungary.</p>
        </main>
        <footer>{navigation}</footer>
        </body></html>"#
    );
    network.reply("ratio.example", Ok(response(200, "text/html", &body)));

    let result = typed_fetch(&mut network,
        &candidate("https://ratio.example/", WebProvider::Direct, 1),
    );
    let evidence = result.value.expect("typed evidence");

    assert!(evidence.quality.boilerplate_ratio_basis_points >= 9_000);
    assert_eq!(evidence.quality.low_quality_reason, None);
    assert_eq!(result.contribution, EvidenceContribution::Satisfied);
    assert!(evidence.passages.iter().any(|passage| {
        passage
            .text
            .contains("Slovakia's capital, located on the Danube")
    }));
}

#[test]
fn redirects_preserve_requested_url_and_use_final_url_for_citations() {
    let mut network = MockNetwork::default();
    network.reply(
        "start.example",
        Ok(redirect("https://final.example/article")),
    );
    network.reply(
        "final.example",
        Ok(response(
            200,
            "text/html",
            "<main><p>This is a sufficiently descriptive verified fact from the final source page.</p></main>",
        )),
    );
    let candidate = candidate("https://start.example/", WebProvider::Direct, 1);
    let result = typed_fetch(&mut network, &candidate);
    let evidence = result.value.unwrap();
    assert_eq!(evidence.requested_url.text.as_str(), "https://start.example/");
    assert_eq!(evidence.final_url.text.as_str(), "https://final.example/article");
    assert_eq!(evidence.redirect_chain, vec![evidence.final_url.clone()]);
    let final_url = evidence.final_url.clone();
    let plan = EvidencePlanner::plan(EvidenceIntent::WebDirectPage {
        url: candidate.requested_url.clone(),
    });
    let validation = EvidenceValidator::validate(
        "turn",
        &plan,
        EvidenceResults {
            web_fetches: vec![OperationResult {
                value: Some(evidence),
                ..result
            }],
            ..EvidenceResults::none()
        },
    );
    let ValidationOutcome::Bundle(bundle) = validation else {
        panic!("expected evidence bundle");
    };
    assert_eq!(bundle.citation_allowlist[0].url, final_url);
}

#[test]
fn redirect_to_private_resolution_and_initial_private_resolution_are_rejected() {
    let mut redirect_network = MockNetwork::default();
    redirect_network.reply("start.example", Ok(redirect("http://127.0.0.1/secret")));
    let result = typed_fetch(&mut redirect_network,
        &candidate("https://start.example/", WebProvider::Direct, 1),
    );
    assert_eq!(
        result.execution,
        ExecutionStatus::Failed(FailureCode::RedirectUnsafe)
    );
    assert_eq!(redirect_network.call_count("127.0.0.1"), 0);

    let mut private_network = MockNetwork::default();
    private_network
        .resolutions
        .insert("public-name.example".to_string(), vec![IpAddress::V4(10, 0, 0, 7)]);
    let result = typed_fetch(&mut private_network,
        &candidate("https://public-name.example/", WebProvider::Direct, 1),
    );
    assert_eq!(
        result.execution,
        ExecutionStatus::Failed(FailureCode::UnsafeDestination)
    );
    assert_eq!(private_network.call_count("public-name.example"), 0);
}

#[test]
fn requests_are_screened_step_by_step() {
    let refused = |redirect| start_request(&page("https://127.0.0.1/"), redirect);
    assert_eq!(
        refused(false),
        RequestStep::Answered(Err(FailureCode::UnsafeDestination))
    );
    assert_eq!(
        refused(true),
        RequestStep::Answered(Err(FailureCode::RedirectUnsafe))
    );
    let open = |redirect| match start_request(&page("https://site.example/"), redirect) {
        RequestStep::Resolve(request) => request,
        other => panic!("the host is resolved: {other:?}"),
    };
    assert_eq!(open(false).target.host, "site.example");
    assert_eq!(open(false).target.port, 443);
    let private = vec![PUBLIC_IP, IpAddress::V4(10, 0, 0, 7)];
    assert_eq!(
        request_resolved(open(true), Ok(private)),
        RequestStep::Answered(Err(FailureCode::RedirectUnsafe))
    );
    assert_eq!(
        request_resolved(open(false), Err(WebNetworkError::ConnectionReset)),
        RequestStep::Answered(Err(FailureCode::ConnectionReset))
    );
    let RequestStep::Connect { request, pinned } =
        request_resolved(open(true), Ok(vec![PUBLIC_IP]))
    else {
        panic!("the request is pinned");
    };
    let mut foreign = response(200, "text/html", "<p>x</p>");
    foreign.peer = IpAddress::V4(9, 9, 9, 9);
    assert_eq!(
        request_answered(&request, &pinned, Ok(foreign)),
        RequestStep::Answered(Err(FailureCode::RedirectUnsafe))
    );
    assert_eq!(
        request_answered(&request, &pinned, Ok(response(200, "text/html", "<p>x</p>"))),
        RequestStep::Answered(Ok(response(200, "text/html", "<p>x</p>")))
    );
}

#[test]
fn actual_peer_must_match_pinned_resolution_to_prevent_rebinding() {
    let mut network = MockNetwork::default();
    network
        .resolutions
        .insert("rebind.example".to_string(), vec![PUBLIC_IP]);
    let mut rebound = response(200, "text/html", "<p>secret</p>");
    rebound.peer = IpAddress::V4(127, 0, 0, 1);
    network.reply("rebind.example", Ok(rebound));
    let result = typed_fetch(&mut network,
        &candidate("https://rebind.example/", WebProvider::Direct, 1),
    );
    assert_eq!(
        result.execution,
        ExecutionStatus::Failed(FailureCode::UnsafeDestination)
    );
}

#[test]
fn fetch_classifies_unsupported_empty_dynamic_truncated_and_validated_links() {
    let mut unsupported = MockNetwork::default();
    unsupported.reply(
        "binary.example",
        Ok(response(200, "application/pdf", "pdf")),
    );
    let result = typed_fetch(&mut unsupported,
        &candidate("https://binary.example/", WebProvider::Direct, 1),
    );
    assert_eq!(
        result.execution,
        ExecutionStatus::Failed(FailureCode::UnsupportedContentType)
    );
    assert_eq!(
        result.value.unwrap().extraction,
        ExtractionStatus::Unsupported
    );

    let mut empty = MockNetwork::default();
    empty.reply(
        "dynamic.example",
        Ok(response(
            200,
            "text/html",
            "<script>renderLater()</script><noscript>enable js</noscript>",
        )),
    );
    let result = typed_fetch(&mut empty,
        &candidate("https://dynamic.example/", WebProvider::Direct, 1),
    );
    assert_eq!(
        result.execution,
        ExecutionStatus::Failed(FailureCode::EmptyExtraction)
    );
    assert_eq!(result.value.unwrap().extraction, ExtractionStatus::Empty);

    let mut readable = MockNetwork::default();
    const OLD_INITIAL_CHARACTER_CAP: usize = 6_000;
    let long = format!(
        "<p>{}</p><a href=\"/same\">Same page</a><a href=\"https://other.example/no\">Other</a>",
        "x".repeat(OLD_INITIAL_CHARACTER_CAP + 10)
    );
    readable.reply("readable.example", Ok(response(200, "text/html", &long)));
    let result = typed_fetch(&mut readable,
        &candidate("https://readable.example/", WebProvider::Direct, 1),
    );
    let evidence = result.value.unwrap();
    assert_eq!(evidence.extraction, ExtractionStatus::Readable);
    assert!(evidence.passages.len() > 1);
    assert!(evidence
        .passages
        .iter()
        .all(|passage| passage.text.chars().count() <= MAX_PASSAGE_CHARS));
    assert!(evidence.characters_extracted > OLD_INITIAL_CHARACTER_CAP as u64);
    assert_eq!(evidence.links.len(), 2);
    assert_eq!(
        evidence.links[0].url.text.as_str(),
        "https://readable.example/same"
    );
    assert_eq!(evidence.links[1].url.text.as_str(), "https://other.example/no");
}
