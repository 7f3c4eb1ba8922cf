use bagent_evidence::events::{
    EvidenceOutcomeEvent, EvidenceOutcomeState, EvidencePhase, EvidencePhaseEvent,
    LogicalActivityCompletion, LogicalActivityEvent, LogicalActivityState, SynthesisPhase,
};
use bagent_evidence::types::{
    BodyOrigin, CandidateId, CanonicalGroundedAnswer, CanonicalOutcomeStatus, Completeness,
    EvidenceBundle, EvidenceConflict, EvidenceContribution, EvidenceCounts, EvidenceId,
    EvidenceIntent, EvidenceOperation, EvidenceRequirement, EvidenceShortfall, ExecutionStatus,
    FailureCode, RecoveryKind, RecoveryOutcome, ShortfallReason, ValidatedMailId,
    ValidationOutcome, VerificationLevel, EVIDENCE_SCHEMA_VERSION,
};

fn mail_bundle(completeness: Completeness, acquired: u8) -> ValidationOutcome {
    ValidationOutcome::Bundle(Box::new(EvidenceBundle {
        version: EVIDENCE_SCHEMA_VERSION,
        turn_id: "turn-mail".to_string(),
        intent: EvidenceIntent::MailLatestContent {
            count: 3,
            requested_count: 3,
            unread_only: false,
        },
        completeness,
        requested: EvidenceCounts {
            mail_headers: 3,
            mail_bodies: 3,
            web_sources: 0,
        },
        acquired: EvidenceCounts {
            mail_headers: 3,
            mail_bodies: acquired,
            web_sources: 0,
        },
        missing: Vec::new(),
        mail: Vec::new(),
        web: Vec::new(),
        conflicts: Vec::new(),
        exclusions: Vec::new(),
        citation_allowlist: Vec::new(),
    }))
}

fn recovery(kind: RecoveryKind, reason: ShortfallReason) -> ValidationOutcome {
    ValidationOutcome::Recovery(RecoveryOutcome {
        kind,
        requested: EvidenceCounts {
            mail_headers: 3,
            mail_bodies: 3,
            web_sources: 0,
        },
        message: "private recovery prose".to_string(),
        missing: vec![EvidenceShortfall {
            requirement: EvidenceRequirement::MailBodies { count: 3 },
            missing_count: 3,
            reason,
        }],
        exclusions: Vec::new(),
    })
}

#[test]
fn complete_partial_empty_unavailable_and_denied_mail_have_distinct_outcomes() {
    let complete =
        EvidenceOutcomeEvent::from_validation(&mail_bundle(Completeness::Complete, 3));
    assert_eq!(complete.state, EvidenceOutcomeState::Verified);
    assert_eq!(complete.message, "Read 3 of 3 emails");

    let partial = EvidenceOutcomeEvent::from_validation(&mail_bundle(Completeness::Partial, 2));
    assert_eq!(partial.state, EvidenceOutcomeState::Partial);
    assert_eq!(partial.message, "Read 2 of 3 emails · partial");

    for (kind, reason, expected) in [
        (
            RecoveryKind::Empty,
            ShortfallReason::Empty,
            EvidenceOutcomeState::Empty,
        ),
        (
            RecoveryKind::Unavailable,
            ShortfallReason::Unavailable,
            EvidenceOutcomeState::Unavailable,
        ),
        (
            RecoveryKind::Denied,
            ShortfallReason::Denied,
            EvidenceOutcomeState::Denied,
        ),
    ] {
        assert_eq!(
            EvidenceOutcomeEvent::from_validation(&recovery(kind, reason)).state,
            expected
        );
    }
}

#[test]
fn web_verified_partial_and_verification_shortfall_are_terminal_shapes() {
    let make_bundle = |completeness| {
        ValidationOutcome::Bundle(Box::new(EvidenceBundle {
            version: EVIDENCE_SCHEMA_VERSION,
            turn_id: "turn-web".to_string(),
            intent: EvidenceIntent::WebFact {
                query: "fixture".to_string(),
                verification: VerificationLevel::Corroborated,
            },
            completeness,
            requested: EvidenceCounts {
                mail_headers: 0,
                mail_bodies: 0,
                web_sources: 2,
            },
            acquired: EvidenceCounts {
                mail_headers: 0,
                mail_bodies: 0,
                web_sources: if completeness == Completeness::Complete {
                    2
                } else {
                    1
                },
            },
            missing: Vec::new(),
            mail: Vec::new(),
            web: Vec::new(),
            conflicts: Vec::new(),
            exclusions: Vec::new(),
            citation_allowlist: Vec::new(),
        }))
    };
    assert_eq!(
        EvidenceOutcomeEvent::from_validation(&make_bundle(Completeness::Complete)).state,
        EvidenceOutcomeState::Verified
    );
    assert_eq!(
        EvidenceOutcomeEvent::from_validation(&make_bundle(Completeness::Partial)).state,
        EvidenceOutcomeState::Partial
    );

    let ValidationOutcome::Bundle(mut conflict_bundle) = make_bundle(Completeness::Complete)
    else {
        unreachable!();
    };
    conflict_bundle
        .conflicts
        .push(EvidenceConflict {
            evidence_ids: vec![
                EvidenceId::new("web-1".to_string()).unwrap(),
                EvidenceId::new("web-2".to_string()).unwrap(),
            ],
            description: "Figures differ".to_string(),
        });
    let conflict =
        EvidenceOutcomeEvent::from_validation(&ValidationOutcome::Bundle(conflict_bundle));
    assert_eq!(conflict.state, EvidenceOutcomeState::Conflict);
    assert_eq!(conflict.message, "Web verified · 2 sources · conflict");
    let canonical_shortfall = CanonicalGroundedAnswer {
        text: "Verification Shortfall: fewer than two claims.".to_string(),
        completeness: Completeness::Complete,
        outcome_status: CanonicalOutcomeStatus::VerificationShortfall,
        covered_evidence_ids: Vec::new(),
        citation_targets: Vec::new(),
        conflicts: Vec::new(),
        shortfalls: Vec::new(),
        source_identities: Vec::new(),
    };
    let canonical_outcome = conflict.with_canonical_answer(&canonical_shortfall);
    assert_eq!(
        canonical_outcome.state,
        EvidenceOutcomeState::VerificationShortfall
    );
    assert_eq!(canonical_outcome.message, "Couldn't verify sources");

    let shortfall = ValidationOutcome::Recovery(RecoveryOutcome {
        kind: RecoveryKind::VerificationShortfall,
        requested: EvidenceCounts {
            mail_headers: 0,
            mail_bodies: 0,
            web_sources: 2,
        },
        message: "private".to_string(),
        missing: vec![EvidenceShortfall {
            requirement: EvidenceRequirement::FetchedSources { count: 2 },
            missing_count: 2,
            reason: ShortfallReason::VerificationFailed,
        }],
        exclusions: Vec::new(),
    });
    let event = EvidenceOutcomeEvent::from_validation(&shortfall);
    assert_eq!(event.state, EvidenceOutcomeState::VerificationShortfall);
    assert_eq!(event.message, "Couldn't verify sources");
}

#[test]
fn mail_body_origin_is_structural_logical_activity_metadata() {
    let operation = EvidenceOperation::MailRead {
        message_id: ValidatedMailId::new("fixture-id".to_string()).unwrap(),
    };
    let completion = LogicalActivityCompletion {
        execution: ExecutionStatus::Succeeded,
        contribution: EvidenceContribution::Satisfied,
        evidence_count: 1,
        source_domains: Vec::new(),
        duration_ms: 12,
        attempt_count: 1,
        duplicates_suppressed: 0,
        body_origin: Some(BodyOrigin::MailAutomation),
    };

    let event = LogicalActivityEvent::completed("turn", &operation, &completion);

    assert_eq!(event.body_origin, Some(BodyOrigin::MailAutomation));
    assert_eq!(event.body_origin.unwrap().as_str(), "mail_automation");
}

#[test]
fn retry_and_duplicate_metadata_stay_on_the_original_logical_activity() {
    let operation = EvidenceOperation::MailRead {
        message_id: ValidatedMailId::new("fixture-id".to_string()).unwrap(),
    };
    let completion = LogicalActivityCompletion {
        execution: ExecutionStatus::Succeeded,
        contribution: EvidenceContribution::Satisfied,
        evidence_count: 1,
        source_domains: Vec::new(),
        duration_ms: 42,
        attempt_count: 2,
        duplicates_suppressed: 1,
        body_origin: None,
    };
    let started = LogicalActivityEvent::started("turn", &operation);
    let completed = LogicalActivityEvent::completed("turn", &operation, &completion);
    assert_eq!(started.activity_id, completed.activity_id);
    let digest = started.activity_id.strip_prefix("evidence:").unwrap();
    assert_eq!(digest.len(), 64);
    assert!(digest.chars().all(|c| c.is_ascii_digit() || ('a'..='f').contains(&c)));
    assert_eq!(completed.retries, 1);
    assert_eq!(completed.duplicates_suppressed, 1);
}

#[test]
fn successful_empty_contribution_never_increments_evidence_progress() {
    let operation = EvidenceOperation::WebFetch {
        candidate_id: CandidateId::new("candidate".to_string()).unwrap(),
    };
    let completion = LogicalActivityCompletion {
        execution: ExecutionStatus::Succeeded,
        contribution: EvidenceContribution::Empty,
        evidence_count: 0,
        source_domains: Vec::new(),
        duration_ms: 1,
        attempt_count: 1,
        duplicates_suppressed: 0,
        body_origin: None,
    };
    let event = LogicalActivityEvent::completed("turn", &operation, &completion);
    assert_eq!(event.execution_status, LogicalActivityState::Succeeded);
    assert_eq!(event.contribution, EvidenceContribution::Empty);
    assert_eq!(event.evidence_count, 0);
}

#[test]
fn chat_and_automation_use_origin_independent_event_semantics() {
    let operation = EvidenceOperation::MailList {
        limit: 3,
        unread_only: false,
    };
    assert_eq!(
        LogicalActivityEvent::started("turn", &operation),
        LogicalActivityEvent::started("turn", &operation)
    );
}

#[test]
fn every_required_phase_serializes_to_the_public_contract() {
    let phases = [
        EvidencePhase::FindingMail,
        EvidencePhase::Reading,
        EvidencePhase::Searching,
        EvidencePhase::Verifying,
        EvidencePhase::LoadingSynthesisModel,
        EvidencePhase::PreparingAnswer,
        EvidencePhase::Repairing,
        EvidencePhase::FallingBack,
        EvidencePhase::Validating,
        EvidencePhase::DeterministicRendering,
    ];
    let named = phases
        .into_iter()
        .map(|phase| {
            EvidencePhaseEvent::acquisition("turn", phase, Some(0), Some(1))
                .phase
                .as_str()
        })
        .collect::<Vec<_>>();
    assert_eq!(
        named,
        [
            "finding_mail",
            "reading",
            "searching",
            "verifying",
            "loading_synthesis_model",
            "preparing_answer",
            "repairing",
            "falling_back",
            "validating",
            "deterministic_rendering",
        ]
    );
}

#[test]
fn phases_of_an_answer_are_public_phases() {
    assert_eq!(
        EvidencePhase::of_synthesis(SynthesisPhase::Repairing),
        EvidencePhase::Repairing
    );
    assert_eq!(
        EvidencePhase::of_synthesis(SynthesisPhase::DeterministicRendering),
        EvidencePhase::DeterministicRendering
    );
}

#[test]
fn failures_are_named_for_the_log() {
    let operation = EvidenceOperation::MailList {
        limit: 3,
        unread_only: true,
    };
    let mut completion = LogicalActivityCompletion {
        execution: ExecutionStatus::Failed(FailureCode::Http5xx(503)),
        contribution: EvidenceContribution::Empty,
        evidence_count: 0,
        source_domains: vec!["example.com".to_string()],
        duration_ms: 9,
        attempt_count: 1,
        duplicates_suppressed: 0,
        body_origin: None,
    };
    let failed = LogicalActivityEvent::completed("turn", &operation, &completion);
    assert_eq!(failed.execution_status, LogicalActivityState::Failed);
    assert_eq!(failed.failure_reason.as_deref(), Some("http_5xx"));
    assert_eq!(failed.source_domains, vec!["example.com".to_string()]);
    assert_eq!(failed.retries, 0);
    completion.execution = ExecutionStatus::Denied;
    let denied = LogicalActivityEvent::completed("turn", &operation, &completion);
    assert_eq!(denied.failure_reason.as_deref(), Some("denied"));
}
