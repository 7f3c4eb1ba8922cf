use std::collections::HashMap;

use bagent_evidence::mail_adapter::{
    mail_headers_result, mail_read_result, normalize_backend_error, read_target, search_keywords,
    AppleMailBackendError, BackendReply, MailMessage,
};
use bagent_evidence::planner::EvidencePlanner;
use bagent_evidence::types::{
    BodyOrigin, BodyState, Completeness, EvidenceContribution, EvidenceIntent, EvidenceOperation,
    EvidenceResults, ExecutionStatus, FailureCode, MailBodyEvidence, MailHeaderEvidence,
    OperationResult, RecoveryKind, ShortfallReason, ValidatedMailId, ValidationOutcome,
};
use bagent_evidence::validator::EvidenceValidator;

fn message(rowid: i64, body: Option<&str>, body_available: bool) -> MailMessage {
    MailMessage {
        rowid,
        subject: "Quarterly update".into(),
        sender: "alice@example.com".into(),
        received_at: 1_753_698_600,
        body: body.map(str::to_string),
        body_available,
    }
}

fn list(
    limit: u8,
    reply: BackendReply<Vec<MailMessage>>,
) -> OperationResult<Vec<MailHeaderEvidence>> {
    let operation = EvidenceOperation::MailList {
        limit,
        unread_only: false,
    };
    mail_headers_result(&operation, reply, 0)
}

fn read(
    messages: &mut HashMap<i64, MailMessage>,
    message_id: &ValidatedMailId,
) -> OperationResult<MailBodyEvidence> {
    let operation = EvidenceOperation::MailRead {
        message_id: message_id.clone(),
    };
    match read_target(message_id) {
        Ok(rowid) => {
            let reply = BackendReply::Answered(messages.remove(&rowid));
            mail_read_result(&operation, rowid, reply, 0)
        }
        Err(result) => result,
    }
}

#[test]
fn real_adapter_keeps_empty_unavailable_malformed_and_readable_results_distinct() {
    let empty_result = list(3, BackendReply::Answered(Vec::new()));
    assert_eq!(empty_result.execution, ExecutionStatus::Succeeded);
    assert_eq!(empty_result.contribution, EvidenceContribution::Empty);
    assert_eq!(empty_result.value, Some(Vec::new()));

    let unavailable_result = list(3, BackendReply::Failed(AppleMailBackendError::Unavailable));
    assert_eq!(
        unavailable_result.execution,
        ExecutionStatus::Failed(FailureCode::ConnectorUnavailable)
    );
    assert_eq!(unavailable_result.value, None);

    let timed_out_result = list(3, BackendReply::Failed(AppleMailBackendError::TimedOut));
    assert_eq!(timed_out_result.execution, ExecutionStatus::TimedOut);

    let malformed_result = list(3, BackendReply::Answered(vec![message(0, None, false)]));
    assert_eq!(
        malformed_result.execution,
        ExecutionStatus::Failed(FailureCode::ParseFailure)
    );
    let malformed_plan = EvidencePlanner::plan(EvidenceIntent::MailLatestHeaders {
        count: 3,
        unread_only: false,
    });
    assert!(matches!(
        EvidenceValidator::validate(
            "turn-malformed",
            &malformed_plan,
            EvidenceResults {
                mail_list: vec![malformed_result],
                ..EvidenceResults::none()
            },
        ),
        ValidationOutcome::Recovery(recovery) if recovery.kind == RecoveryKind::Malformed
    ));

    let mut mixed_messages = HashMap::new();
    mixed_messages.insert(42, message(42, Some("Readable"), true));
    let mixed_result = list(
        3,
        BackendReply::Answered(vec![
            message(42, Some("Readable"), true),
            message(0, None, false),
        ]),
    );
    assert_eq!(
        mixed_result.execution,
        ExecutionStatus::Failed(FailureCode::ParseFailure)
    );
    assert_eq!(mixed_result.contribution, EvidenceContribution::Partial);
    assert_eq!(mixed_result.invalid_items, 1);
    assert_eq!(mixed_result.value.as_ref().map(Vec::len), Some(1));
    let mixed_header = mixed_result.value.as_ref().unwrap()[0].clone();
    let mixed_body = read(&mut mixed_messages, &mixed_header.connector_id);
    let mixed_plan = EvidencePlanner::plan(EvidenceIntent::MailLatestContent {
        count: 3,
        requested_count: 3,
        unread_only: false,
    });
    let mixed_validation = EvidenceValidator::validate(
        "turn-mixed-malformed",
        &mixed_plan,
        EvidenceResults {
            mail_list: vec![mixed_result],
            mail_bodies: vec![mixed_body],
            ..EvidenceResults::none()
        },
    );
    assert!(matches!(
        mixed_validation,
        ValidationOutcome::Bundle(bundle)
            if bundle.completeness == Completeness::Partial
                && bundle.acquired.mail_bodies == 1
                && bundle.missing.iter().any(|missing| {
                    missing.reason == ShortfallReason::Malformed && missing.missing_count == 1
                })
                && bundle.missing.iter().any(|missing| {
                    missing.reason == ShortfallReason::Empty && missing.missing_count == 1
                })
    ));

    let mut messages = HashMap::new();
    messages.insert(42, message(42, Some("A real locally cached body."), true));
    let headers = list(
        1,
        BackendReply::Answered(vec![message(42, Some("A real locally cached body."), true)]),
    )
    .value
    .unwrap();
    let body = read(&mut messages, &headers[0].connector_id).value.unwrap();
    assert_eq!(body.body_state, BodyState::Readable);
    assert_eq!(body.body, "A real locally cached body.");
    assert_eq!(body.body_origin, BodyOrigin::LocalEmlx);
}

#[test]
fn empty_search_query_is_invalid_input_not_empty_evidence() {
    let result = search_keywords("   ", 10).unwrap_err();

    assert_eq!(
        result.execution,
        ExecutionStatus::Failed(FailureCode::InvalidInput)
    );
    assert_eq!(result.contribution, EvidenceContribution::Empty);
    assert_eq!(result.value, None);
    assert_eq!(
        search_keywords(" Alice  Example ", 10),
        Ok(vec!["Alice".to_string(), "Example".to_string()])
    );
}

#[test]
fn real_adapter_distinguishes_unavailable_and_empty_bodies() {
    let mut messages = HashMap::new();
    messages.insert(51, message(51, None, false));
    messages.insert(52, message(52, Some("   "), true));
    let headers = list(
        2,
        BackendReply::Answered(vec![message(51, None, false), message(52, Some("   "), true)]),
    )
    .value
    .unwrap();

    let unavailable = read(&mut messages, &headers[0].connector_id).value.unwrap();
    let empty = read(&mut messages, &headers[1].connector_id).value.unwrap();

    assert_eq!(unavailable.body_state, BodyState::UnavailableLocally);
    assert_eq!(empty.body_state, BodyState::Empty);
}

#[test]
fn synthesis_safe_typed_payload_never_contains_raw_mail_rowids() {
    let mut messages = HashMap::new();
    messages.insert(
        987_654_321,
        message(987_654_321, Some("Grounded body."), true),
    );
    let header_result = list(
        1,
        BackendReply::Answered(vec![message(987_654_321, Some("Grounded body."), true)]),
    );
    let header = header_result.value.as_ref().unwrap()[0].clone();
    let body_result = read(&mut messages, &header.connector_id);
    let plan = EvidencePlanner::plan(EvidenceIntent::MailLatestContent {
        count: 1,
        requested_count: 1,
        unread_only: false,
    });
    let outcome = EvidenceValidator::validate(
        "turn-safe",
        &plan,
        EvidenceResults {
            mail_list: vec![header_result],
            mail_bodies: vec![body_result],
            ..EvidenceResults::none()
        },
    );
    let ValidationOutcome::Bundle(bundle) = outcome else {
        panic!("readable adapter output should validate");
    };

    let shown = format!("{:?}", bundle);
    assert!(!shown.contains("987654321"));
    assert!(!shown.contains("connector_id"));
    assert!(shown.contains("Grounded body."));
}

#[test]
fn connector_errors_are_told_apart_by_their_words() {
    assert_eq!(
        normalize_backend_error("Database is LOCKED"),
        AppleMailBackendError::TimedOut
    );
    assert_eq!(
        normalize_backend_error("the connection reset by peer"),
        AppleMailBackendError::ConnectionReset
    );
    assert_eq!(
        normalize_backend_error("no such table"),
        AppleMailBackendError::Unavailable
    );
}

#[test]
fn a_date_outside_the_calendar_is_malformed() {
    let mut undated = message(7, None, false);
    undated.received_at = 8_210_266_876_800;
    let result = list(1, BackendReply::Answered(vec![undated]));
    assert_eq!(
        result.execution,
        ExecutionStatus::Failed(FailureCode::ParseFailure)
    );
    let mut last = message(7, None, false);
    last.received_at = 8_210_266_876_799;
    let result = list(1, BackendReply::Answered(vec![last]));
    assert_eq!(result.execution, ExecutionStatus::Succeeded);
    let mut first = message(7, None, false);
    first.received_at = -8_334_601_228_800;
    let result = list(1, BackendReply::Answered(vec![first]));
    assert_eq!(result.execution, ExecutionStatus::Succeeded);
    let mut earlier = message(7, None, false);
    earlier.received_at = -8_334_601_228_801;
    let result = list(1, BackendReply::Answered(vec![earlier]));
    assert_eq!(
        result.execution,
        ExecutionStatus::Failed(FailureCode::ParseFailure)
    );
}

#[test]
fn a_lost_task_is_another_failure() {
    let result = list(3, BackendReply::Lost);
    assert_eq!(
        result.execution,
        ExecutionStatus::Failed(FailureCode::OtherNormalized)
    );
    assert_eq!(result.value, None);
}
