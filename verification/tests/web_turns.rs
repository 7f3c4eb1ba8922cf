use std::collections::{HashMap, VecDeque};

use bagent_evidence::acquire::{
    acquisition_fetched, acquisition_retried, acquisition_searched, proceed_acquisition,
    start_acquisition, AcquireStep,
};
use bagent_evidence::identity::{
    candidate_id_for_url, evidence_id_for_url, passage_id_for_url, source_identity_for,
};
use bagent_evidence::planner::EvidencePlanner;
use bagent_evidence::ranking::direct_web_candidate;
use bagent_evidence::types::{
    EvidenceContribution, EvidenceId, EvidenceIntent, EvidenceOperation, EvidencePassage,
    EvidencePlan, EvidenceResults, ExecutionStatus, ExtractionQuality, ExtractionStatus,
    FailureCode, OperationResult, ProviderSet, RecoveryKind, SourceAuthority, SourceIdentity,
    ValidationOutcome, VerificationLevel, WebCandidate, WebFetchEvidence, WebProvider,
    WebSearchResult,
};
use bagent_evidence::validator::EvidenceValidator;
use bagent_evidence::web_plan::{
    fetch_decided, fetch_done, proceed, retry_decided, retry_done, search_decided, search_done,
    start_web_turn, EvidenceTurnOutcome, WebStep,
};
use bagent_evidence::weburl::WebUrl;

fn page(text: &str) -> WebUrl {
    WebUrl::parse(text).unwrap()
}

fn web_candidate(url: &str, rank: u16) -> WebCandidate {
    let mut candidate = direct_web_candidate(&page(url));
    candidate.provider = WebProvider::DuckDuckGo;
    candidate.rank = rank;
    candidate.title = format!("Acme authoritative fact {rank}");
    candidate
}

fn fetch_key(candidate: &WebCandidate) -> EvidenceOperation {
    EvidenceOperation::WebFetch {
        candidate_id: candidate.candidate_id.clone(),
    }
}

fn failed_fetch(
    candidate: &WebCandidate,
    execution: ExecutionStatus,
) -> OperationResult<WebFetchEvidence> {
    OperationResult::without_value(
        fetch_key(candidate).key(),
        execution,
        EvidenceContribution::Empty,
    )
}

fn quality(length: usize) -> ExtractionQuality {
    ExtractionQuality {
        useful_text_length: length as u64,
        boilerplate_ratio_basis_points: 0,
        query_coverage_basis_points: 0,
        low_quality_reason: None,
    }
}

fn readable_passages(
    candidate: &WebCandidate,
    final_url: &str,
    source: &str,
    passages: &[&str],
) -> OperationResult<WebFetchEvidence> {
    let text = passages.join(" ");
    OperationResult::succeeded(
        fetch_key(candidate).key(),
        WebFetchEvidence {
            evidence_id: EvidenceId::new(format!("evidence-{}", candidate.rank)).unwrap(),
            candidate_id: candidate.candidate_id.clone(),
            requested_url: candidate.requested_url.clone(),
            final_url: page(final_url),
            redirect_chain: vec![page(final_url)],
            http_status: 200,
            content_type: "text/html".into(),
            bytes_read: text.len() as u64,
            characters_extracted: text.chars().count() as u64,
            extraction: ExtractionStatus::Readable,
            quality: quality(text.chars().count()),
            page_owner_identity_bound: false,
            authority: SourceAuthority::Other,
            source_identity: SourceIdentity::new(source.to_string()).unwrap(),
            passages: passages
                .iter()
                .enumerate()
                .map(|(index, text)| EvidencePassage {
                    passage_id: EvidenceId::new(format!("passage-{}-{index}", candidate.rank))
                        .unwrap(),
                    text: text.to_string(),
                    truncated: false,
                })
                .collect(),
            links: Vec::new(),
        },
    )
}

fn readable_fetch(
    candidate: &WebCandidate,
    final_url: &str,
    source: &str,
    text: &str,
) -> OperationResult<WebFetchEvidence> {
    readable_passages(candidate, final_url, source, &[text])
}

/// Pages that answer from a script, and a policy that lets everything through.
struct Web {
    candidates: Vec<WebCandidate>,
    fetches: HashMap<String, VecDeque<OperationResult<WebFetchEvidence>>>,
    calls: Vec<String>,
    queries: Vec<String>,
    log: Vec<String>,
    largest_batch: usize,
}

impl Web {
    fn new(
        candidates: Vec<WebCandidate>,
        scripts: Vec<Vec<OperationResult<WebFetchEvidence>>>,
    ) -> Self {
        let mut fetches = HashMap::new();
        for (candidate, results) in candidates.iter().zip(scripts) {
            fetches
                .entry(candidate.candidate_id.as_str().to_string())
                .or_insert_with(|| VecDeque::from(results));
        }
        Web {
            candidates,
            fetches,
            calls: Vec::new(),
            queries: Vec::new(),
            log: Vec::new(),
            largest_batch: 0,
        }
    }

    fn gate(&mut self, operation: &EvidenceOperation) {
        self.log.push(format!("gate:{}", operation.key().as_str()));
        self.log
            .push(format!("execute:{}", operation.key().as_str()));
    }

    fn search(&mut self) -> OperationResult<WebSearchResult> {
        self.calls.push("search".into());
        OperationResult::succeeded(
            EvidenceOperation::WebSearch {
                normalized_query: "Acme fact online".into(),
                provider_set: ProviderSet(vec![WebProvider::Wikipedia, WebProvider::DuckDuckGo]),
            }
            .key(),
            WebSearchResult {
                providers: Vec::new(),
                candidates: self.candidates.clone(),
            },
        )
    }

    fn fetch(&mut self, candidate: &WebCandidate) -> OperationResult<WebFetchEvidence> {
        self.calls
            .push(format!("fetch:{}", candidate.candidate_id.as_str()));
        self.fetches
            .get_mut(candidate.candidate_id.as_str())
            .and_then(VecDeque::pop_front)
            .expect("scripted fetch result")
    }

    fn fetch_count(&self) -> usize {
        self.calls
            .iter()
            .filter(|call| call.starts_with("fetch:"))
            .count()
    }
}

fn execute_web_plan(web: &mut Web, turn_id: &str, plan: &EvidencePlan) -> EvidenceTurnOutcome {
    let mut step = start_web_turn(turn_id, plan);
    loop {
        step = match step {
            WebStep::AskSearch { turn, operation } => {
                web.gate(&operation);
                search_decided(turn, operation, true)
            }
            WebStep::RunSearch { turn, query, .. } => {
                web.queries.push(query);
                let search = web.search();
                search_done(plan, turn, search)
            }
            WebStep::Proceed(turn) => proceed(turn_id, plan, turn),
            WebStep::AskFetch { turn, candidate } => {
                web.gate(&fetch_key(&candidate));
                fetch_decided(plan, turn, candidate, true)
            }
            WebStep::RunBatch(turn) | WebStep::Await(turn) => {
                web.largest_batch = web.largest_batch.max(turn.batch.len());
                let place = turn.done.iter().position(Option::is_none).unwrap();
                let result = web.fetch(&turn.batch[place]);
                fetch_done(plan, turn, place, result)
            }
            WebStep::AskRetry { turn, place, first } => {
                retry_decided(plan, turn, place, first, true)
            }
            WebStep::RunRetry { turn, place, first } => {
                let retry = web.fetch(&turn.batch[place]);
                retry_done(plan, turn, place, first, retry)
            }
            WebStep::Finished(outcome) => return outcome,
        };
    }
}

fn fact_plan(query: &str, verification: VerificationLevel) -> EvidencePlan {
    EvidencePlanner::plan(EvidenceIntent::WebFact {
        query: query.into(),
        verification,
    })
}

#[test]
fn web_fact_is_gated_immediately_and_stops_on_ranked_first_party_evidence() {
    let first_party = web_candidate("https://acme.com/fact", 2);
    let reference = web_candidate("https://en.wikipedia.org/wiki/Acme", 1);
    let reference_failure = failed_fetch(
        &reference,
        ExecutionStatus::Failed(FailureCode::Http4xx(404)),
    );
    let evidence = readable_fetch(
        &first_party,
        "https://acme.com/final",
        "acme.com",
        "Acme reports the fact is 42.",
    );
    let mut web = Web::new(
        vec![reference, first_party],
        vec![vec![reference_failure], vec![evidence]],
    );
    let plan = fact_plan("Acme fact online", VerificationLevel::SingleAuthoritative);

    let outcome = execute_web_plan(&mut web, "turn-web", &plan);

    let ValidationOutcome::Bundle(bundle) = outcome.validation else {
        panic!("first-party fetched evidence should satisfy the fact");
    };
    assert_eq!(bundle.acquired.web_sources, 1);
    assert_eq!(
        bundle.citation_allowlist[0].url.text.as_str(),
        "https://acme.com/final"
    );
    assert_eq!(web.queries, ["Acme fact online"]);
    assert!(web.log[0].starts_with("gate:web_search:"));
    assert!(web.log[1].starts_with("execute:web_search:"));
    assert!(web.log[2].starts_with("gate:web_fetch:"));
    assert!(web.log[3].starts_with("execute:web_fetch:"));
}

#[test]
fn corroborated_web_enforces_independence_retry_budget_duplicates_and_concurrency() {
    let candidates = (1..=6)
        .map(|rank| web_candidate(&format!("https://site{rank}.example/fact"), rank))
        .collect::<Vec<_>>();
    let scripts = candidates
        .iter()
        .enumerate()
        .map(|(index, candidate)| {
            let url = candidate.requested_url.text.as_str();
            if index == 0 {
                vec![
                    failed_fetch(candidate, ExecutionStatus::TimedOut),
                    readable_fetch(
                        candidate,
                        url,
                        "same-source.example",
                        "The example value is 41.",
                    ),
                ]
            } else {
                vec![readable_fetch(
                    candidate,
                    url,
                    if index == 1 {
                        "same-source.example"
                    } else {
                        "independent.example"
                    },
                    if index == 2 {
                        "The example value is 42."
                    } else {
                        "The example value is 41."
                    },
                )]
            }
        })
        .collect::<Vec<_>>();
    let mut web = Web::new(candidates, scripts);
    let plan = fact_plan(
        "compare current example values",
        VerificationLevel::Corroborated,
    );

    let outcome = execute_web_plan(&mut web, "turn-corroborated", &plan);

    let ValidationOutcome::Bundle(bundle) = outcome.validation else {
        panic!("two independent fetched sources should produce a bundle");
    };
    assert_eq!(outcome.operations_executed, 6);
    assert_eq!(bundle.acquired.web_sources, 2);
    assert_eq!(bundle.conflicts.len(), 1);
    assert!(web.largest_batch <= 2);
    assert_eq!(web.fetch_count(), 5);
}

#[test]
fn canonical_duplicate_web_operations_are_suppressed_before_gate_and_fetch() {
    let first = web_candidate("https://acme.com/fact?utm_source=one", 1);
    let second = web_candidate("https://acme.com/fact#top", 2);
    assert_eq!(first.candidate_id, second.candidate_id);
    let evidence = readable_fetch(
        &first,
        "https://acme.com/fact",
        "acme.com",
        "Acme fact is 42.",
    );
    let mut web = Web::new(vec![first, second], vec![vec![evidence], Vec::new()]);
    let plan = fact_plan("Acme fact online", VerificationLevel::SingleAuthoritative);

    let outcome = execute_web_plan(&mut web, "turn-duplicate", &plan);

    assert!(matches!(outcome.validation, ValidationOutcome::Bundle(_)));
    assert_eq!(web.fetch_count(), 1);
    assert_eq!(
        web.log
            .iter()
            .filter(|entry| entry.starts_with("gate:web_fetch:"))
            .count(),
        1
    );
}

fn one_page(url: &str, source: &str, passages: &[&str]) -> Web {
    let candidate = web_candidate(url, 1);
    let evidence = readable_passages(&candidate, url, source, passages);
    Web::new(vec![candidate], vec![vec![evidence]])
}

#[test]
fn web_fact_retains_query_relevant_numeric_passages_instead_of_page_beginning() {
    let mut web = one_page(
        "https://bratislava.sk/population",
        "bratislava.sk",
        &[
            "Home Services City office Contact Sitemap",
            "Bratislava has a long history and many cultural institutions.",
            "Population data",
            "Bratislava had 475,503 residents as of 31 December 2024.",
            "Related links and archived reports",
        ],
    );
    let plan = fact_plan(
        "What is the current population of Bratislava?",
        VerificationLevel::SingleAuthoritative,
    );

    let outcome = execute_web_plan(&mut web, "turn-population", &plan);

    let ValidationOutcome::Bundle(bundle) = outcome.validation else {
        panic!("claim-relevant numeric evidence should be eligible");
    };
    let evidence = &bundle.web[0].evidence;
    assert!(evidence.passages[0].text.contains("475,503"));
    assert!(evidence
        .passages
        .iter()
        .all(|passage| !passage.text.contains("Home Services")));
    assert!(evidence.quality.query_coverage_basis_points > 0);
    assert_eq!(evidence.quality.low_quality_reason, None);
}

#[test]
fn irrelevant_nonempty_web_text_becomes_verification_shortfall() {
    let mut web = one_page(
        "https://bratislava.sk/population",
        "bratislava.sk",
        &["Home Products Careers Privacy Sign in Contact us"],
    );
    let plan = fact_plan(
        "What is the current population of Bratislava?",
        VerificationLevel::SingleAuthoritative,
    );

    let outcome = execute_web_plan(&mut web, "turn-low-quality", &plan);

    let ValidationOutcome::Recovery(recovery) = outcome.validation else {
        panic!("irrelevant navigation must not become Fetched Evidence");
    };
    assert_eq!(recovery.kind, RecoveryKind::VerificationShortfall);
    assert!(recovery.message.starts_with("Verification Shortfall:"));
    assert!(!recovery.message.contains("Home Products"));
    assert!(recovery
        .message
        .contains("[bratislava.sk](https://bratislava.sk/population)"));
}

#[test]
fn current_numeric_fact_rejects_an_unrelated_number_about_the_right_subject() {
    let mut web = one_page(
        "https://bratislava.sk/history",
        "bratislava.sk",
        &["Bratislava was first mentioned in writing in 907."],
    );
    let plan = fact_plan(
        "What is the current population of Bratislava?",
        VerificationLevel::SingleAuthoritative,
    );

    let outcome = execute_web_plan(&mut web, "turn-wrong-number", &plan);

    assert!(matches!(outcome.validation, ValidationOutcome::Recovery(_)));
}

#[test]
fn direct_page_selection_prefers_descriptive_content_beyond_front_matter() {
    let url = "https://report.example/about";
    let mut web = one_page(
        url,
        "report.example",
        &[
            "Organization profile",
            "Published 2026",
            "Reference 12345",
            "Edition 7",
            "Document 42",
            "Updated 2026",
            "Record 88",
            "This organization provides community services and publishes practical guidance for residents.",
        ],
    );
    let plan = EvidencePlanner::plan(EvidenceIntent::WebDirectPage { url: page(url) });

    let outcome = execute_web_plan(&mut web, "turn-direct-description", &plan);

    let ValidationOutcome::Bundle(bundle) = outcome.validation else {
        panic!("descriptive direct page should be eligible");
    };
    assert_eq!(
        bundle.web[0].evidence.passages[0].text,
        "Organization profile"
    );
    assert!(bundle.web[0].evidence.passages[1]
        .text
        .contains("provides community services"));
}

fn candidate(url: &str, provider: WebProvider, rank: u16) -> WebCandidate {
    let requested_url = page(url);
    WebCandidate {
        candidate_id: candidate_id_for_url(&requested_url),
        provider,
        rank,
        title: format!("candidate {rank}"),
        requested_url,
        snippet: "discovery only".to_string(),
    }
}

fn scripted_fetch(
    candidate: &WebCandidate,
    execution: ExecutionStatus,
) -> OperationResult<WebFetchEvidence> {
    let readable = matches!(execution, ExecutionStatus::Succeeded);
    OperationResult {
        key: fetch_key(candidate).key(),
        attempts: 1,
        contribution: if readable {
            EvidenceContribution::Satisfied
        } else {
            EvidenceContribution::Empty
        },
        value: Some(WebFetchEvidence {
            evidence_id: evidence_id_for_url(&candidate.requested_url),
            candidate_id: candidate.candidate_id.clone(),
            requested_url: candidate.requested_url.clone(),
            final_url: candidate.requested_url.clone(),
            redirect_chain: vec![],
            http_status: match execution {
                ExecutionStatus::Failed(FailureCode::RateLimited) => 429,
                ExecutionStatus::Failed(FailureCode::Http5xx(status))
                | ExecutionStatus::Failed(FailureCode::Http4xx(status)) => status,
                _ => 200,
            },
            content_type: "text/html".to_string(),
            bytes_read: 8,
            characters_extracted: 8,
            extraction: if readable {
                ExtractionStatus::Readable
            } else {
                ExtractionStatus::Empty
            },
            quality: quality(if readable { 8 } else { 0 }),
            page_owner_identity_bound: false,
            authority: SourceAuthority::FirstParty,
            source_identity: source_identity_for(&candidate.requested_url),
            passages: if readable {
                vec![EvidencePassage {
                    passage_id: passage_id_for_url(&candidate.requested_url, 1),
                    text: "evidence".to_string(),
                    truncated: false,
                }]
            } else {
                vec![]
            },
            links: vec![],
        }),
        execution,
        duration_ms: 10,
        invalid_items: 0,
    }
}

fn scripted_web(
    candidates: Vec<WebCandidate>,
    scripts: Vec<Vec<ExecutionStatus>>,
) -> Web {
    let results = candidates
        .iter()
        .zip(scripts)
        .map(|(candidate, script)| {
            script
                .into_iter()
                .map(|execution| scripted_fetch(candidate, execution))
                .collect()
        })
        .collect();
    Web::new(candidates, results)
}

fn acquire_web_plan(web: &mut Web, plan: &EvidencePlan) -> EvidenceResults {
    let mut step = start_acquisition(plan, false);
    loop {
        step = match step {
            AcquireStep::Search { query, .. } => {
                web.queries.push(query);
                let search = web.search();
                acquisition_searched(plan, search)
            }
            AcquireStep::Proceed(turn) => proceed_acquisition(plan, turn),
            AcquireStep::Start(turn) => {
                web.largest_batch = web.largest_batch.max(turn.running.len());
                AcquireStep::Proceed(turn)
            }
            AcquireStep::Await(turn) => {
                let result = web.fetch(&turn.running[0]);
                acquisition_fetched(plan, turn, 0, result)
            }
            AcquireStep::Retry {
                turn,
                candidate,
                first,
            } => {
                let retry = web.fetch(&candidate);
                acquisition_retried(turn, candidate, first, retry)
            }
            AcquireStep::Finished(results) => return results,
        };
    }
}

#[test]
fn retries_only_429_and_5xx_once_and_retry_consumes_fetch_budget() {
    let plan = fact_plan("fact", VerificationLevel::SingleAuthoritative);
    for transient in [
        ExecutionStatus::TimedOut,
        ExecutionStatus::Failed(FailureCode::ConnectionReset),
        ExecutionStatus::Failed(FailureCode::RateLimited),
        ExecutionStatus::Failed(FailureCode::Http5xx(503)),
    ] {
        let item = candidate("https://retry.example/", WebProvider::DuckDuckGo, 1);
        let mut web = scripted_web(
            vec![item],
            vec![vec![transient, ExecutionStatus::Succeeded]],
        );
        let results = acquire_web_plan(&mut web, &plan);
        assert_eq!(web.fetch_count(), 2);
        assert_eq!(results.web_fetches[0].attempts, 2);
        assert_eq!(results.web_fetches[0].execution, ExecutionStatus::Succeeded);
    }

    let item = candidate("https://404.example/", WebProvider::DuckDuckGo, 1);
    let mut web = scripted_web(
        vec![item],
        vec![vec![
            ExecutionStatus::Failed(FailureCode::Http4xx(404)),
            ExecutionStatus::Succeeded,
        ]],
    );
    let results = acquire_web_plan(&mut web, &plan);
    assert_eq!(web.fetch_count(), 1);
    assert_eq!(results.web_fetches[0].attempts, 1);
}

#[test]
fn all_fetches_failing_yields_no_eligible_evidence_and_fetch_concurrency_is_two() {
    let plan = fact_plan("fact", VerificationLevel::SingleAuthoritative);
    let candidates = (1..=6)
        .map(|rank| {
            candidate(
                &format!("https://site{rank}.example/"),
                WebProvider::DuckDuckGo,
                rank,
            )
        })
        .collect::<Vec<_>>();
    let scripts = (1..=6)
        .map(|_| vec![ExecutionStatus::Failed(FailureCode::Http4xx(404))])
        .collect();
    let mut web = scripted_web(candidates, scripts);
    let results = acquire_web_plan(&mut web, &plan);
    assert_eq!(results.web_fetches.len(), 5);
    assert!(results
        .web_fetches
        .iter()
        .all(|result| !matches!(result.execution, ExecutionStatus::Succeeded)));
    assert_eq!(web.largest_batch, 2);
    let validation = EvidenceValidator::validate("turn", &plan, results);
    assert!(matches!(validation, ValidationOutcome::Recovery(_)));
}

#[test]
fn every_page_that_is_taken_up_is_reported() {
    let plan = fact_plan("fact", VerificationLevel::Corroborated);
    let candidates: Vec<WebCandidate> = (1..=3)
        .map(|rank| web_candidate(&format!("https://site{rank}.example/fact"), rank))
        .collect();
    let scripts = candidates
        .iter()
        .map(|candidate| {
            vec![failed_fetch(
                candidate,
                ExecutionStatus::Failed(FailureCode::Http4xx(404)),
            )]
        })
        .collect();
    let mut web = Web::new(candidates, scripts);

    let results = acquire_web_plan(&mut web, &plan);

    assert_eq!(results.web_fetches.len(), 3);
    assert_eq!(web.fetch_count(), 3);
}

#[test]
fn a_turn_counts_what_ran_and_fetches_no_page_more_than_twice() {
    let candidates: Vec<WebCandidate> = (1..=3)
        .map(|rank| web_candidate(&format!("https://site{rank}.example/fact"), rank))
        .collect();
    let scripts = candidates
        .iter()
        .map(|candidate| {
            (0..3)
                .map(|_| failed_fetch(candidate, ExecutionStatus::TimedOut))
                .collect()
        })
        .collect();
    let ids: Vec<String> = candidates
        .iter()
        .map(|candidate| format!("fetch:{}", candidate.candidate_id.as_str()))
        .collect();
    let mut web = Web::new(candidates, scripts);
    let plan = fact_plan(
        "compare current example values",
        VerificationLevel::Corroborated,
    );

    let outcome = execute_web_plan(&mut web, "turn-timeouts", &plan);

    for id in &ids {
        let fetched = web.calls.iter().filter(|call| *call == id).count();
        assert!((1..=2).contains(&fetched));
    }
    let searched = web.calls.iter().filter(|call| *call == "search").count();
    assert_eq!(searched, 1);
    assert_eq!(outcome.operations_executed, 1 + web.fetch_count());
    assert!(web.fetch_count() <= plan.budget.web_fetch_attempts as usize);
    assert_eq!(outcome.approvals_denied, 0);
}

#[test]
fn a_page_that_is_denied_is_not_fetched() {
    let plan = fact_plan("Acme fact online", VerificationLevel::SingleAuthoritative);
    let mut web = Web::new(vec![web_candidate("https://acme.com/fact", 1)], vec![vec![]]);
    let mut denied = 0;
    let mut step = start_web_turn("turn-denied", &plan);
    let outcome = loop {
        step = match step {
            WebStep::AskSearch { turn, operation } => search_decided(turn, operation, true),
            WebStep::RunSearch { turn, .. } => search_done(&plan, turn, web.search()),
            WebStep::Proceed(turn) => proceed("turn-denied", &plan, turn),
            WebStep::AskFetch { turn, candidate } => {
                denied += 1;
                fetch_decided(&plan, turn, candidate, false)
            }
            WebStep::Finished(outcome) => break outcome,
            other => panic!("nothing was allowed to run: {other:?}"),
        };
    };
    assert_eq!(denied, 1);
    assert_eq!(outcome.approvals_denied, 1);
    assert_eq!(outcome.operations_executed, 1);
    assert_eq!(web.fetch_count(), 0);
    assert!(matches!(outcome.validation, ValidationOutcome::Recovery(_)));
}
