use bagent_evidence::ranking::web_provider_set;
use bagent_evidence::relevance::assess_claim_relevance;
use bagent_evidence::types::{ProviderSet, WebProvider};

#[test]
fn population_relevance_requires_a_value_not_only_a_year_or_citation_number() {
    let query = "What is the current population of Bratislava?";

    assert!(!assess_claim_relevance(query, "Bratislava: Population (2025) [7]").eligible);
    assert!(
        assess_claim_relevance(query, "Bratislava's 2026 population is estimated at 485,917")
            .eligible
    );
}

#[test]
fn prose_fact_relevance_requires_the_queried_entity_not_one_generic_term() {
    let query = "Who is the President of Slovakia? Use the official first-party website.";
    assert!(
        !assess_claim_relevance(
            query,
            "Throughout American history, political parties shaped presidential elections."
        )
        .eligible
    );
    assert!(
        assess_claim_relevance(query, "The President of Slovakia is Peter Pellegrini.").eligible
    );
}

#[test]
fn office_holder_relationship_is_required_without_a_literal_who() {
    for query in [
        "Name the current President of Slovakia.",
        "Current President of Slovakia",
    ] {
        assert!(
            !assess_claim_relevance(
                query,
                "The Slovakia presidential election campaign concluded in 2024."
            )
            .eligible
        );
        assert!(
            assess_claim_relevance(query, "Peter Pellegrini is the President of Slovakia.")
                .eligible
        );
    }
}

#[test]
fn tavily_replaces_challenge_prone_discovery_only_when_configured() {
    assert_eq!(
        web_provider_set(true),
        ProviderSet(vec![WebProvider::Tavily, WebProvider::DuckDuckGo])
    );
    assert_eq!(
        web_provider_set(false),
        ProviderSet(vec![WebProvider::Wikipedia, WebProvider::DuckDuckGo])
    );
}
