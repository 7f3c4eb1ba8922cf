use bagent_evidence::acceptance::{
    acceptance_runtime_enabled, AcceptanceAcquisition, AcceptanceControl,
    AcceptanceFixtureSelection, AcceptanceMailAdapter, AcceptancePolish, AcceptanceWebAdapter,
};
use bagent_evidence::types::{
    CandidateId, ExecutionStatus, FailureCode, ProviderSet, ValidatedMailId, WebCandidate,
    WebProvider,
};
use bagent_evidence::weburl::WebUrl;

#[test]
fn runtime_boundary_requires_exact_flag() {
    assert!(acceptance_runtime_enabled(Some("1")));
    for value in [None, Some(""), Some("0"), Some("true"), Some("yes")] {
        assert!(!acceptance_runtime_enabled(value));
    }
}

#[test]
fn reference_acceptance_compile_gate_is_feature_scoped() {
    let selection = AcceptanceFixtureSelection {
        acquisition: AcceptanceAcquisition::MailComplete,
        polish: AcceptancePolish::Passthrough,
    };
    assert_eq!(selection.acquisition, AcceptanceAcquisition::MailComplete);
}

#[test]
fn fetch_rejects_any_candidate_not_returned_by_typed_discovery() {
    let adapter = AcceptanceWebAdapter::new(AcceptanceAcquisition::WebAuthoritative).unwrap();
    let candidate = WebCandidate {
        candidate_id: CandidateId::new("not-discovered".to_string()).unwrap(),
        provider: WebProvider::DuckDuckGo,
        rank: 1,
        title: "Static candidate".into(),
        requested_url: WebUrl::parse("https://static.example/fact").unwrap(),
        snippet: String::new(),
    };

    let result = adapter.fetch(&candidate);

    assert_eq!(
        result.execution,
        ExecutionStatus::Failed(FailureCode::InvalidInput)
    );
    assert!(result.value.is_none());
}

#[test]
fn discovered_pages_can_be_fetched() {
    let mut control = AcceptanceControl::default();
    assert_eq!(control.selected, None);
    assert!(control.web_adapter().is_none());
    control.set(Some(AcceptanceFixtureSelection {
        acquisition: AcceptanceAcquisition::WebAuthoritative,
        polish: AcceptancePolish::Passthrough,
    }));
    assert!(control.mail_adapter().is_none());
    let mut adapter = control.web_adapter().unwrap();
    let providers = ProviderSet(vec![WebProvider::Tavily, WebProvider::DuckDuckGo]);
    let found = adapter.search("fixture", &providers).value.unwrap();
    assert!(!found.candidates.is_empty());
    let page = adapter.fetch(&found.candidates[0]);
    assert_eq!(page.execution, ExecutionStatus::Succeeded);
    assert!(page.value.is_some());
}

#[test]
fn mail_fixtures_read_what_they_list() {
    let mut adapter = AcceptanceMailAdapter::new(AcceptanceAcquisition::MailComplete).unwrap();
    let headers = adapter.list(2, false).value.unwrap();
    assert_eq!(headers.len(), 2);
    assert_eq!(headers[0].sender, "Sender 1");
    let body = adapter.read(&headers[0].connector_id);
    assert_eq!(body.execution, ExecutionStatus::Succeeded);
    let unknown = adapter.read(&ValidatedMailId::new("unknown".to_string()).unwrap());
    assert_ne!(unknown.execution, ExecutionStatus::Succeeded);
    let denied = AcceptanceMailAdapter::new(AcceptanceAcquisition::MailDenied).unwrap();
    assert_eq!(denied.list(2, false).execution, ExecutionStatus::Denied);
    assert!(AcceptanceMailAdapter::new(AcceptanceAcquisition::WebConflict).is_none());
}
