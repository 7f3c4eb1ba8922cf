use bagent_evidence::diagnostics::{
    events_to_drop, export_trace, extend_trace, sanitize_event, trace_name, DiagnosticError,
    DiagnosticRecorder, TraceFile, MAX_AGE_NS, MAX_EVENTS_PER_TURN, MAX_TOTAL_BYTES,
    MAX_TURN_BYTES,
};
use bagent_evidence::json::Json;

fn text(value: &str) -> Json {
    Json::Text(value.to_string())
}

fn number(value: u64) -> Json {
    Json::Number {
        text: value.to_string(),
        unsigned: Some(value),
        signed: Some(value as i64),
    }
}

fn object(fields: Vec<(&str, Json)>) -> Json {
    Json::Object(
        fields
            .into_iter()
            .map(|(name, value)| (name.to_string(), value))
            .collect(),
    )
}

fn event(turn_id: &str, activity_id: &str, private: &str) -> Json {
    object(vec![
        ("type", text("logical_activity_completed")),
        ("turn_id", text(turn_id)),
        ("activity_id", text(activity_id)),
        ("normalized_operation", text("mail.read")),
        ("argument_hash", text("hash")),
        ("execution_status", text("succeeded")),
        ("contribution", text("satisfied")),
        ("evidence_count", number(1)),
        ("source_domains", Json::Array(Vec::new())),
        ("duration_ms", number(12)),
        ("attempt_count", number(1)),
        ("retries", number(0)),
        ("duplicates_suppressed", number(0)),
        ("failure_reason", Json::Null),
        ("body_origin", text("mail_automation")),
        ("prompt", text(private)),
        ("subject", text(private)),
        ("body", text(private)),
        ("raw_arguments", object(vec![("rowid", text(private))])),
        ("answer", text(private)),
        ("reasoning_content", text(private)),
        ("token", text(private)),
    ])
}

/// Compact JSON, for the sizes of events.
fn encoded(value: &Json) -> String {
    match value {
        Json::Null => "null".to_string(),
        Json::Bool(flag) => flag.to_string(),
        Json::Number { text, .. } => text.clone(),
        Json::Text(text) => format!("{text:?}"),
        Json::Array(items) => {
            let parts: Vec<String> = items.iter().map(encoded).collect();
            format!("[{}]", parts.join(","))
        }
        Json::Object(fields) => {
            let parts: Vec<String> = fields
                .iter()
                .map(|(name, value)| format!("{name:?}:{}", encoded(value)))
                .collect();
            format!("{{{}}}", parts.join(","))
        }
    }
}

#[test]
fn export_is_structural_and_forbidden_fixture_values_are_absent() {
    let private = "PRIVATE_FIXTURE_sender_subject_body_prompt_token";
    let mut trace = None;
    for entry in [
        event("turn-private", "evidence:abc", private),
        object(vec![
            ("type", text("evidence_validation")),
            ("turn_id", text("turn-private")),
            ("decision", text("bundle_partial")),
            ("eligible", Json::Bool(true)),
            ("missing_count", number(1)),
            ("conflict_count", number(0)),
            ("exclusion_count", number(2)),
            ("raw_decision_context", text(private)),
        ]),
        object(vec![
            ("type", text("evidence_polish")),
            ("turn_id", text("turn-private")),
            ("status", text("rejected")),
            ("model_output", text(private)),
            ("validation_detail", text(private)),
        ]),
    ] {
        let kept = sanitize_event(&entry).unwrap();
        trace = Some(extend_trace(trace, "turn-private", "now", kept));
    }
    let trace = export_trace(trace, "turn-private").unwrap();
    assert_eq!(trace.events.len(), 3);
    let exported = trace.events.iter().map(encoded).collect::<String>();
    assert!(exported.contains("\"normalized_operation\":\"mail.read\""));
    assert!(exported.contains("\"decision\":\"bundle_partial\""));
    assert!(exported.contains("\"status\":\"rejected\""));
    assert!(exported.contains("\"body_origin\":\"mail_automation\""));
    assert!(!exported.contains(private));
    for forbidden in [
        "prompt",
        "subject",
        "body",
        "raw_arguments",
        "answer",
        "reasoning_content",
        "token",
    ] {
        assert!(!exported.contains(&format!("\"{forbidden}\"")));
    }
}

#[test]
fn per_turn_size_rotation_is_bounded() {
    let envelope = 120;
    let mut trace = None;
    for index in 0..700 {
        let entry = event("turn-volume", &format!("evidence:{index:0150}"), "private");
        let kept = sanitize_event(&entry).unwrap();
        let mut next = extend_trace(trace, "turn-volume", "now", kept);
        let sizes: Vec<u64> = next
            .events
            .iter()
            .map(|kept| encoded(kept).len() as u64)
            .collect();
        let leaving = events_to_drop(&sizes, envelope);
        next.events.drain(..leaving);
        trace = Some(next);
    }
    let trace = trace.unwrap();
    let size = envelope
        + trace
            .events
            .iter()
            .map(|kept| encoded(kept).len() as u64 + 1)
            .sum::<u64>()
        - 1;
    assert!(size <= MAX_TURN_BYTES);
    assert!(trace.events.len() <= MAX_EVENTS_PER_TURN);
    assert!(encoded(trace.events.last().unwrap()).contains("699"));
}

#[test]
fn rotation_leaves_from_the_front_and_keeps_one_event() {
    assert_eq!(events_to_drop(&vec![1; 512], 0), 0);
    assert_eq!(events_to_drop(&vec![1; 513], 0), 1);
    assert_eq!(events_to_drop(&vec![100_000, 100_000, 100_000], 0), 1);
    assert_eq!(events_to_drop(&vec![300_000], 0), 0);
    assert_eq!(events_to_drop(&vec![10, 300_000], 0), 1);
    // The separator of two events counts.
    assert_eq!(events_to_drop(&vec![131_072, 131_071], 0), 0);
    assert_eq!(events_to_drop(&vec![131_072, 131_072], 0), 1);
}

#[test]
fn retention_prunes_by_age_and_count() {
    let now = 2 * MAX_AGE_NS;
    let files: Vec<TraceFile> = (0..1_010)
        .map(|index| TraceFile {
            size: 10,
            modified_ns: now - 5_000 + index,
        })
        .collect();
    let removed = DiagnosticRecorder::prune(&files, now);
    assert_eq!(removed.iter().filter(|gone| !**gone).count(), 1_000);
    assert!(removed[..10].iter().all(|gone| *gone));

    let old = TraceFile {
        size: 10,
        modified_ns: now - MAX_AGE_NS - 1,
    };
    let limit = TraceFile {
        size: 10,
        modified_ns: now - MAX_AGE_NS,
    };
    assert_eq!(DiagnosticRecorder::prune(&vec![old, limit], now), [true, false]);
}

#[test]
fn every_append_enforces_global_size_for_nonterminal_turns() {
    let files: Vec<TraceFile> = (0..16)
        .map(|index| TraceFile {
            size: 600 * 1024,
            modified_ns: 1_000 - index,
        })
        .collect();
    let removed = DiagnosticRecorder::prune(&files, 1_000);
    let total: u64 = files
        .iter()
        .zip(&removed)
        .filter(|(_, gone)| !**gone)
        .map(|(file, _)| file.size)
        .sum();
    assert!(total <= MAX_TOTAL_BYTES);
    assert_eq!(removed.iter().filter(|gone| !**gone).count(), 13);
    assert!(!removed[0]);
    assert!(removed[15]);
}

#[test]
fn events_without_a_known_type_or_turn_are_not_kept() {
    assert_eq!(
        sanitize_event(&object(vec![("type", text("token")), ("turn_id", text("t"))])),
        None
    );
    assert_eq!(
        sanitize_event(&object(vec![("type", text("evidence_phase"))])),
        None
    );
    assert_eq!(
        sanitize_event(&object(vec![
            ("type", text("evidence_phase")),
            ("turn_id", text("line\nbreak")),
        ])),
        None
    );
    assert_eq!(
        sanitize_event(&object(vec![
            ("type", text("evidence_phase")),
            ("turn_id", text(&"x".repeat(129))),
        ])),
        None
    );
    let kept = sanitize_event(&object(vec![
        ("type", text("evidence_phase")),
        ("turn_id", text(&"x".repeat(128))),
        ("phase", text(&"y".repeat(161))),
        ("duration_ms", text("12")),
        ("source_domains", Json::Array(vec![text("a.example"), Json::Null])),
    ]))
    .unwrap();
    assert_eq!(kept.get("phase"), None);
    assert_eq!(kept.get("duration_ms"), None);
    assert_eq!(
        kept.get("source_domains"),
        Some(&Json::Array(vec![text("a.example")]))
    );
}

#[test]
fn traces_belong_to_their_turn() {
    let trace = extend_trace(None, "turn-a", "now", Json::Null);
    assert_eq!(trace.version, 1);
    assert_eq!(
        export_trace(Some(trace), "turn-b"),
        Err(DiagnosticError::CorrelationMismatch)
    );
    assert_eq!(export_trace(None, "turn-b"), Err(DiagnosticError::NotFound));
    let other = extend_trace(None, "turn-a", "then", Json::Null);
    let fresh = extend_trace(Some(other), "turn-b", "now", Json::Bool(true));
    assert_eq!(fresh.turn_id, "turn-b");
    assert_eq!(fresh.created_at, "now");
    assert_eq!(fresh.events, vec![Json::Bool(true)]);
    assert_eq!(
        trace_name("abc"),
        "ba7816bf8f01cfea414140de5dae2223b00361a396177a9cb410ff61f20015ad.json"
    );
}
