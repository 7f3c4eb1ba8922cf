use bagent_evidence::events::SynthesisPhase;
use bagent_evidence::synthesis::{
    completion_done, correlate, duration_ms, elapsed_ms, normalized_failure_reason,
    repair_requested, rendering_done, start_polish, validate_transcript, validation_done,
    ChatMessage, ModelFailure, PolishMove, PolishStatus, PolishStep, RuntimePhaseEvent,
    SynthesisConfig, SynthesisOutcome, SynthesisRoute,
};

fn message(role: &str) -> ChatMessage {
    ChatMessage {
        role: role.to_string(),
        content: "text".to_string(),
        tool_calls: Vec::new(),
        tool_call_id: None,
    }
}

fn transcript() -> Vec<ChatMessage> {
    vec![message("system"), message("user")]
}

/// What the model, the contract and the renderer answer in turn.
struct Script {
    attempts: Vec<Result<String, ModelFailure>>,
    verdicts: Vec<Result<(), Vec<String>>>,
    repair: Vec<ChatMessage>,
    rendered: Option<String>,
}

fn synthesize(
    eligible: bool,
    initial: Vec<ChatMessage>,
    mut script: Script,
) -> (SynthesisOutcome, Vec<RuntimePhaseEvent>) {
    let config = SynthesisConfig::from_environment();
    let mut events = Vec::new();
    let mut next: PolishMove = start_polish(
        "deterministic answer".to_string(),
        eligible,
        &initial,
        &config,
    );
    loop {
        events.append(&mut next.events);
        next = match next.step {
            PolishStep::Complete(polish) => {
                let attempt = script.attempts.remove(0);
                completion_done(polish, attempt, 5)
            }
            PolishStep::Validate { polish, response } => {
                let verdict = script.verdicts.remove(0);
                validation_done(polish, response, verdict, 1)
            }
            PolishStep::RequestRepair { polish, .. } => repair_requested(polish, &script.repair),
            PolishStep::Render { polish, .. } => rendering_done(polish, script.rendered.take()),
            PolishStep::Finished(outcome) => return (outcome, events),
        };
    }
}

fn script(attempts: Vec<Result<String, ModelFailure>>) -> Script {
    Script {
        attempts,
        verdicts: Vec::new(),
        repair: Vec::new(),
        rendered: None,
    }
}

#[test]
fn failed_35b_admission_renders_the_canonical_answer_directly() {
    let (outcome, _) = synthesize(
        true,
        transcript(),
        script(vec![Err(ModelFailure::Other(
            "synthesis refused under memory pressure".to_string(),
        ))]),
    );

    assert_eq!(outcome.route, SynthesisRoute::Deterministic);
    assert_eq!(outcome.text, "deterministic answer");
    assert_eq!(outcome.polish_status, PolishStatus::Unavailable);
}

#[test]
fn an_ineligible_answer_is_not_polished() {
    let (outcome, events) = synthesize(false, transcript(), script(Vec::new()));
    assert_eq!(outcome.polish_status, PolishStatus::Skipped);
    assert_eq!(outcome.text, "deterministic answer");
    assert_eq!(events.len(), 1);
    assert_eq!(events[0].phase, SynthesisPhase::DeterministicRendering);
    assert_eq!(events[0].failure_reason, None);
}

#[test]
fn a_request_that_is_no_transcript_is_not_sent() {
    let (outcome, events) = synthesize(true, vec![message("user")], script(Vec::new()));
    assert_eq!(outcome.polish_status, PolishStatus::Rejected);
    assert_eq!(
        events[0].failure_reason.as_deref(),
        Some("invalid_transcript")
    );
    let mut with_tool = transcript();
    with_tool[1].tool_calls.push("web_search".to_string());
    assert!(!validate_transcript(&with_tool));
    let mut answering = transcript();
    answering[0].tool_call_id = Some("1".to_string());
    assert!(!validate_transcript(&answering));
    assert!(validate_transcript(&transcript()));
}

#[test]
fn a_polish_that_is_accepted_is_the_answer() {
    let (outcome, events) = synthesize(
        true,
        transcript(),
        Script {
            attempts: vec![Ok("draft".to_string())],
            verdicts: vec![Ok(())],
            repair: Vec::new(),
            rendered: Some("polished answer".to_string()),
        },
    );
    assert_eq!(outcome.text, "polished answer");
    assert_eq!(outcome.route, SynthesisRoute::Preferred);
    assert_eq!(outcome.polish_status, PolishStatus::Accepted);
    let phases: Vec<SynthesisPhase> = events.iter().map(|event| event.phase).collect();
    assert_eq!(
        phases,
        [
            SynthesisPhase::PreparingAnswer,
            SynthesisPhase::PreparingAnswer,
            SynthesisPhase::Validating,
        ]
    );
    assert_eq!(
        events[0].model_id.as_deref(),
        Some("basecompute/Qwen3.6-35B-A3B")
    );
    assert_eq!(events[1].duration_ms, 5);
}

#[test]
fn a_rejected_polish_is_repaired_once() {
    let rejected = || Err(vec!["missing_citation".to_string()]);
    let (repaired, events) = synthesize(
        true,
        transcript(),
        Script {
            attempts: vec![Ok("draft".to_string()), Ok("second".to_string())],
            verdicts: vec![rejected(), Ok(())],
            repair: transcript(),
            rendered: Some("repaired answer".to_string()),
        },
    );
    assert_eq!(repaired.text, "repaired answer");
    assert_eq!(repaired.route, SynthesisRoute::Repaired);
    assert_eq!(
        events[2].failure_reason.as_deref(),
        Some("missing_citation")
    );
    assert!(events[3].repair);
    assert_eq!(events[3].phase, SynthesisPhase::Repairing);

    let (kept, events) = synthesize(
        true,
        transcript(),
        Script {
            attempts: vec![Ok("draft".to_string()), Ok("second".to_string())],
            verdicts: vec![rejected(), rejected()],
            repair: transcript(),
            rendered: Some("never".to_string()),
        },
    );
    assert_eq!(kept.text, "deterministic answer");
    assert_eq!(kept.polish_status, PolishStatus::Rejected);
    assert_eq!(
        events.last().unwrap().failure_reason.as_deref(),
        Some("repair_validation_failed")
    );

    let (kept, events) = synthesize(
        true,
        transcript(),
        Script {
            attempts: vec![Ok("draft".to_string())],
            verdicts: vec![rejected()],
            repair: Vec::new(),
            rendered: None,
        },
    );
    assert_eq!(kept.text, "deterministic answer");
    assert_eq!(
        events.last().unwrap().failure_reason.as_deref(),
        Some("invalid_repair_transcript")
    );
}

#[test]
fn what_cannot_be_rendered_or_completed_leaves_the_grounded_answer() {
    let (unrendered, events) = synthesize(
        true,
        transcript(),
        Script {
            attempts: vec![Ok("draft".to_string())],
            verdicts: vec![Ok(())],
            repair: Vec::new(),
            rendered: None,
        },
    );
    assert_eq!(unrendered.text, "deterministic answer");
    assert_eq!(
        events.last().unwrap().failure_reason.as_deref(),
        Some("validated_render_failed")
    );

    let (late, events) = synthesize(
        true,
        transcript(),
        script(vec![Err(ModelFailure::IndeterminateTimeout)]),
    );
    assert_eq!(late.polish_status, PolishStatus::TimedOut);
    assert!(events[1].timed_out);
    assert_eq!(events[1].failure_reason.as_deref(), Some("timeout"));
}

#[test]
fn failures_of_a_model_have_categories() {
    assert_eq!(
        ModelFailure::Poisoned("metal_fault".to_string()).category(),
        "metal_fault"
    );
    assert!(ModelFailure::Poisoned("metal_fault".to_string()).is_poisoning());
    assert!(ModelFailure::IndeterminateTimeout.is_poisoning());
    assert!(!ModelFailure::Truncated.is_poisoning());
    assert_eq!(ModelFailure::Truncated.category(), "truncated");
    assert_eq!(ModelFailure::Empty.category(), "empty");
    for (error, reason) in [
        ("output was TRUNCATED", "truncated"),
        ("empty completion", "empty"),
        ("request timed out", "timeout"),
        ("memory pressure is critical", "memory_pressure"),
        ("unknown model", "model_unavailable"),
        ("error sending request", "transport"),
        ("could not parse", "invalid_response"),
        ("odd", "model_error"),
    ] {
        assert_eq!(normalized_failure_reason(error), reason);
    }
}

#[test]
fn durations_are_bounded_and_never_negative() {
    assert_eq!(duration_ms(7), 7);
    assert_eq!(duration_ms(u128::MAX), u64::MAX);
    assert_eq!(elapsed_ms(10, 4), 6);
    assert_eq!(elapsed_ms(4, 10), 0);
}

#[test]
fn phases_are_reported_for_their_turn() {
    let (_, mut events) = synthesize(false, Vec::new(), script(Vec::new()));
    let event = correlate("turn-1", events.remove(0));
    assert_eq!(event.turn_id, "turn-1");
    assert_eq!(event.phase, SynthesisPhase::DeterministicRendering);
}
