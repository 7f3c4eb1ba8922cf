//! What is reported of a turn and what is kept of the reports.

use crate::diagnostics::{
    event_types, flag_names, fresh_files, is_kept_name, is_safe, kept_datum, kept_domains,
    kept_event, kept_fields, number_datum, number_names, overflow, retained, sizes_at, store_bounds,
    sum_of, text_names, trace_file, turn_bounds, unexpired, weight, Bounds, Datum, FieldKind,
    TraceFile,
};
use crate::events::{
    answer_state, argument_hash, bundle_kind, failure_name, is_outcome, lacks_sources,
    names_activity, phase_name, public_phase, reports_completion, reports_start, reports_validation,
    EvidenceOutcomeEvent, EvidenceOutcomeKind, EvidenceOutcomeState, EvidencePhase,
    LogicalActivityCompletion, LogicalActivityEvent, SynthesisPhase,
};
use crate::json::{lookup, Json};
use crate::order::{stable_order, stable_order_ascends, stable_order_range};
use crate::text::{decimal, is_control, is_one_of, sha256_text};
use crate::types::{
    operation_key, CanonicalOutcomeStatus, EvidenceOperation, EvidenceShortfall, ExecutionStatus,
    FailureCode, ValidationOutcome,
};
use vstd::prelude::*;

verus! {

proof fn lemma_event_types(s: Seq<char>)
    ensures
        is_one_of(s, event_types()) <==> s == "evidence_phase"@
            || s == "logical_activity_started"@
            || s == "logical_activity_completed"@
            || s == "evidence_validation"@
            || s == "evidence_polish"@
            || s == "evidence_outcome"@
            || s == "evidence_acquisition_diagnostic"@,
{
    let terms = event_types();
    assert(terms.len() == 7);
    assert(terms[0] == "evidence_phase");
    assert(terms[1] == "logical_activity_started");
    assert(terms[2] == "logical_activity_completed");
    assert(terms[3] == "evidence_validation");
    assert(terms[4] == "evidence_polish");
    assert(terms[5] == "evidence_outcome");
    assert(terms[6] == "evidence_acquisition_diagnostic");
    if is_one_of(s, terms) {
        let i = choose|i: int| 0 <= i < terms.len() && (#[trigger] terms[i])@ == s;
        assert(i == 0 || i == 1 || i == 2 || i == 3 || i == 4 || i == 5 || i == 6);
    }
}

proof fn lemma_text_names(s: Seq<char>)
    ensures
        is_one_of(s, text_names()) <==> s == "phase"@
            || s == "model_id"@
            || s == "activity_id"@
            || s == "normalized_operation"@
            || s == "argument_hash"@
            || s == "execution_status"@
            || s == "contribution"@
            || s == "failure_reason"@
            || s == "state"@
            || s == "kind"@
            || s == "decision"@
            || s == "status"@
            || s == "body_origin"@
            || s == "provider"@
            || s == "provider_status"@
            || s == "source_identity"@
            || s == "authority"@
            || s == "extraction_result"@
            || s == "rejection_reason"@,
{
    let terms = text_names();
    assert(terms.len() == 19);
    assert(terms[0] == "phase");
    assert(terms[1] == "model_id");
    assert(terms[2] == "activity_id");
    assert(terms[3] == "normalized_operation");
    assert(terms[4] == "argument_hash");
    assert(terms[5] == "execution_status");
    assert(terms[6] == "contribution");
    assert(terms[7] == "failure_reason");
    assert(terms[8] == "state");
    assert(terms[9] == "kind");
    assert(terms[10] == "decision");
    assert(terms[11] == "status");
    assert(terms[12] == "body_origin");
    assert(terms[13] == "provider");
    assert(terms[14] == "provider_status");
    assert(terms[15] == "source_identity");
    assert(terms[16] == "authority");
    assert(terms[17] == "extraction_result");
    assert(terms[18] == "rejection_reason");
    if is_one_of(s, terms) {
        let i = choose|i: int| 0 <= i < terms.len() && (#[trigger] terms[i])@ == s;
        assert(i == 0 || i == 1 || i == 2 || i == 3 || i == 4 || i == 5 || i == 6 || i == 7 || i == 8 || i == 9 || i == 10 || i == 11 || i == 12 || i == 13 || i == 14 || i == 15 || i == 16 || i == 17 || i == 18);
    }
}

proof fn lemma_number_names(s: Seq<char>)
    ensures
        is_one_of(s, number_names()) <==> s == "completed"@
            || s == "total"@
            || s == "duration_ms"@
            || s == "evidence_count"@
            || s == "attempt_count"@
            || s == "retries"@
            || s == "duplicates_suppressed"@
            || s == "acquired"@
            || s == "requested"@
            || s == "source_count"@
            || s == "missing_count"@
            || s == "conflict_count"@
            || s == "exclusion_count"@
            || s == "candidate_count"@
            || s == "rank"@
            || s == "relevance_score"@
            || s == "search_attempts_used"@
            || s == "search_attempt_budget"@
            || s == "fetch_attempts_used"@
            || s == "fetch_attempt_budget"@,
{
    let terms = number_names();
    assert(terms.len() == 20);
    assert(terms[0] == "completed");
    assert(terms[1] == "total");
    assert(terms[2] == "duration_ms");
    assert(terms[3] == "evidence_count");
    assert(terms[4] == "attempt_count");
    assert(terms[5] == "retries");
    assert(terms[6] == "duplicates_suppressed");
    assert(terms[7] == "acquired");
    assert(terms[8] == "requested");
    assert(terms[9] == "source_count");
    assert(terms[10] == "missing_count");
    assert(terms[11] == "conflict_count");
    assert(terms[12] == "exclusion_count");
    assert(terms[13] == "candidate_count");
    assert(terms[14] == "rank");
    assert(terms[15] == "relevance_score");
    assert(terms[16] == "search_attempts_used");
    assert(terms[17] == "search_attempt_budget");
    assert(terms[18] == "fetch_attempts_used");
    assert(terms[19] == "fetch_attempt_budget");
    if is_one_of(s, terms) {
        let i = choose|i: int| 0 <= i < terms.len() && (#[trigger] terms[i])@ == s;
        assert(i == 0 || i == 1 || i == 2 || i == 3 || i == 4 || i == 5 || i == 6 || i == 7 || i == 8 || i == 9 || i == 10 || i == 11 || i == 12 || i == 13 || i == 14 || i == 15 || i == 16 || i == 17 || i == 18 || i == 19);
    }
}

proof fn lemma_flag_names(s: Seq<char>)
    ensures
        is_one_of(s, flag_names()) <==> s == "timed_out"@
            || s == "fallback"@
            || s == "repair"@
            || s == "eligible"@,
{
    let terms = flag_names();
    assert(terms.len() == 4);
    assert(terms[0] == "timed_out");
    assert(terms[1] == "fallback");
    assert(terms[2] == "repair");
    assert(terms[3] == "eligible");
    if is_one_of(s, terms) {
        let i = choose|i: int| 0 <= i < terms.len() && (#[trigger] terms[i])@ == s;
        assert(i == 0 || i == 1 || i == 2 || i == 3);
    }
}

/// What is kept of an event is what has one of these names, and nothing else.
pub proof fn these_names_are_kept(name: Seq<char>)
    ensures
        is_kept_name(name) <==> {
            ||| name == "type"@
            ||| name == "turn_id"@
            ||| name == "source_domains"@
            ||| name == "phase"@
            ||| name == "model_id"@
            ||| name == "activity_id"@
            ||| name == "normalized_operation"@
            ||| name == "argument_hash"@
            ||| name == "execution_status"@
            ||| name == "contribution"@
            ||| name == "failure_reason"@
            ||| name == "state"@
            ||| name == "kind"@
            ||| name == "decision"@
            ||| name == "status"@
            ||| name == "body_origin"@
            ||| name == "provider"@
            ||| name == "provider_status"@
            ||| name == "source_identity"@
            ||| name == "authority"@
            ||| name == "extraction_result"@
            ||| name == "rejection_reason"@
            ||| name == "completed"@
            ||| name == "total"@
            ||| name == "duration_ms"@
            ||| name == "evidence_count"@
            ||| name == "attempt_count"@
            ||| name == "retries"@
            ||| name == "duplicates_suppressed"@
            ||| name == "acquired"@
            ||| name == "requested"@
            ||| name == "source_count"@
            ||| name == "missing_count"@
            ||| name == "conflict_count"@
            ||| name == "exclusion_count"@
            ||| name == "candidate_count"@
            ||| name == "rank"@
            ||| name == "relevance_score"@
            ||| name == "search_attempts_used"@
            ||| name == "search_attempt_budget"@
            ||| name == "fetch_attempts_used"@
            ||| name == "fetch_attempt_budget"@
            ||| name == "timed_out"@
            ||| name == "fallback"@
            ||| name == "repair"@
            ||| name == "eligible"@
        },
{
    lemma_text_names(name);
    lemma_number_names(name);
    lemma_flag_names(name);
}

/// An event is kept only where it is of one of these types and names its turn plainly; it
/// begins with both.
pub proof fn these_events_are_kept(event: Json)
    ensures
        kept_event(event) matches Some(fields) ==> {
            &&& lookup(event, "type"@) matches Some(Json::Text(name)) && fields[0] == (
                "type"@,
                Datum::Text(name@),
            ) && {
                ||| name@ == "evidence_phase"@
                ||| name@ == "logical_activity_started"@
                ||| name@ == "logical_activity_completed"@
                ||| name@ == "evidence_validation"@
                ||| name@ == "evidence_polish"@
                ||| name@ == "evidence_outcome"@
                ||| name@ == "evidence_acquisition_diagnostic"@
            }
            &&& lookup(event, "turn_id"@) matches Some(Json::Text(turn)) && fields[1] == (
                "turn_id"@,
                Datum::Text(turn@),
            ) && turn@.len() > 0
        },
        lookup(event, "type"@) is None || lookup(event, "turn_id"@) is None ==> kept_event(event)
            is None,
{
    match lookup(event, "type"@) {
        Some(Json::Text(name)) => {
            lemma_event_types(name@);
        },
        _ => {},
    }
}

/// A text is kept as it is where it is short and has no control character; a number where
/// it is not negative; a flag as it is; nothing else is kept.
pub proof fn values_are_kept_as_they_are(event: Json, name: Seq<char>)
    ensures
        kept_datum(event, name, FieldKind::Text) matches Some(datum) ==> (lookup(event, name)
            matches Some(Json::Text(text)) && datum == Datum::Text(text@) && text@.len() > 0
            && vstd::utf8::encode_utf8(text@).len() <= 160 && forall|i: int|
            0 <= i < text@.len() ==> !is_control(#[trigger] text@[i])),
        lookup(event, name) matches Some(Json::Text(text)) ==> (text@.len() > 0
            && vstd::utf8::encode_utf8(text@).len() <= 160 && (forall|i: int|
            0 <= i < text@.len() ==> !is_control(#[trigger] text@[i])) ==> kept_datum(
            event,
            name,
            FieldKind::Text,
        ) == Some(Datum::Text(text@))),
        kept_datum(event, name, FieldKind::Number) matches Some(datum) ==> (lookup(event, name)
            matches Some(Json::Number { unsigned, .. }) && unsigned matches Some(n) && datum
            == number_datum(n)),
        kept_datum(event, name, FieldKind::Flag) matches Some(datum) ==> (lookup(event, name)
            matches Some(Json::Bool(flag)) && datum == Datum::Flag(flag)),
        lookup(event, name) matches Some(Json::Bool(flag)) ==> kept_datum(
            event,
            name,
            FieldKind::Flag,
        ) == Some(Datum::Flag(flag)),
{
}

/// The fields of these names are kept in the order of the names, each under its own.
pub proof fn fields_are_kept_in_order(event: Json, names: Seq<&str>, name: &str, kind: FieldKind)
    ensures
        kept_datum(event, name@, kind) matches Some(datum) ==> kept_fields(
            event,
            names.push(name),
            kind,
        ) == kept_fields(event, names, kind).push((name@, datum)),
        kept_datum(event, name@, kind) is None ==> kept_fields(event, names.push(name), kind)
            == kept_fields(event, names, kind),
{
    assert(names.push(name).drop_last() =~= names);
}

proof fn lemma_overflow(sizes: Seq<u64>, bounds: Bounds)
    ensures
        overflow(sizes, bounds) <= sizes.len(),
        overflow(sizes, bounds) > 0 ==> ({
            let less = sizes.skip(overflow(sizes, bounds) - 1);
            less.len() > bounds.entries || less.len() > 1 && weight(less, bounds) > bounds.bytes
        }),
    decreases sizes.len(),
{
    if sizes.len() > 0 && !crate::diagnostics::fits(sizes, bounds) {
        let rest = sizes.drop_first();
        lemma_overflow(rest, bounds);
        let n = overflow(sizes, bounds);
        if overflow(rest, bounds) > 0 {
            assert(sizes.skip(n - 1) =~= rest.skip(overflow(rest, bounds) - 1));
        } else {
            assert(sizes.skip(0) =~= sizes);
        }
    }
}

/// The oldest entries go first and no more of them than has to: one entry more would be
/// too many or too much.
pub proof fn no_more_is_dropped_than_has_to(sizes: Seq<u64>, envelope: u64)
    ensures
        ({
            let dropped = overflow(sizes, turn_bounds(envelope)) as int;
            &&& 0 <= dropped <= sizes.len()
            &&& sizes.len() - dropped <= 512
            &&& dropped > 0 ==> ({
                let less = sizes.skip(dropped - 1);
                less.len() > 512 || less.len() > 1 && weight(less, turn_bounds(envelope)) > 262_144
            })
        }),
        ({
            let dropped = overflow(sizes, store_bounds()) as int;
            &&& sizes.len() - dropped <= 1000
            &&& dropped > 0 ==> ({
                let less = sizes.skip(dropped - 1);
                less.len() > 1000 || sum_of(less) > 8_388_608
            })
        }),
{
    lemma_overflow(sizes, turn_bounds(envelope));
    lemma_overflow(sizes, store_bounds());
    lemma_fits_behind(sizes, turn_bounds(envelope));
    lemma_fits_behind(sizes, store_bounds());
}

proof fn lemma_fits_behind(sizes: Seq<u64>, bounds: Bounds)
    ensures
        overflow(sizes, bounds) <= sizes.len(),
        sizes.len() - overflow(sizes, bounds) <= bounds.entries || sizes.len() == overflow(
            sizes,
            bounds,
        ),
    decreases sizes.len(),
{
    if sizes.len() > 0 && !crate::diagnostics::fits(sizes, bounds) {
        lemma_fits_behind(sizes.drop_first(), bounds);
    }
}

proof fn lemma_unexpired(order: Seq<int>, files: Seq<TraceFile>, now_ns: u64)
    ensures
        unexpired(order, files, now_ns) == order.filter(
            |i: int| !(now_ns - files[i].modified_ns > 604_800_000_000_000),
        ),
    decreases order.len(),
{
    reveal(Seq::filter);
    if order.len() > 0 {
        lemma_unexpired(order.drop_last(), files, now_ns);
    }
}

/// Traces older than seven days are not kept; the others are ordered by age, and those
/// that are kept are the newest of them.
pub proof fn the_newest_traces_are_kept(files: Seq<TraceFile>, now_ns: u64)
    ensures
        ({
            let order = stable_order(crate::diagnostics::age_keys(files), files.len() as int);
            let fresh = order.filter(
                |i: int| !(now_ns - files[i].modified_ns > 604_800_000_000_000),
            );
            let kept = retained(files, now_ns);
            &&& kept.len() <= fresh.len()
            &&& kept == fresh.subrange(fresh.len() - kept.len(), fresh.len() as int)
            &&& forall|p: int, q: int|
                0 <= p <= q < order.len() ==> files[#[trigger] order[p]].modified_ns
                    <= files[#[trigger] order[q]].modified_ns
        }),
{
    let keys = crate::diagnostics::age_keys(files);
    let n = files.len() as int;
    let order = stable_order(keys, n);
    stable_order_range(keys, n);
    stable_order_ascends(keys, n);
    lemma_unexpired(order, files, now_ns);
    let fresh = fresh_files(files, now_ns);
    lemma_overflow(sizes_at(fresh, files), store_bounds());
    let kept = retained(files, now_ns);
    assert(kept =~= fresh.subrange(fresh.len() - kept.len(), fresh.len() as int));
    assert forall|p: int, q: int| 0 <= p <= q < order.len() implies files[
    #[trigger] order[p]].modified_ns <= files[#[trigger] order[q]].modified_ns by {
        assert(keys[order[p]] == seq![files[order[p]].modified_ns]);
        assert(keys[order[q]] == seq![files[order[q]].modified_ns]);
        crate::order::keys_compare_at_their_first_difference(keys[order[q]], keys[order[p]], 0);
    }
}

/// A trace is filed under the digest of its turn.
pub proof fn traces_are_filed_by_turn(turn_id: Seq<char>)
    ensures
        trace_file(turn_id) == sha256_text(turn_id) + ".json"@,
{
}

/// Every phase is reported under its own name, and a phase of the synthesis as the phase
/// of the same name.
pub proof fn phases_are_reported_by_name(phase: EvidencePhase, inner: SynthesisPhase)
    ensures
        phase is FindingMail ==> phase_name(phase) == "finding_mail"@,
        phase is Reading ==> phase_name(phase) == "reading"@,
        phase is Searching ==> phase_name(phase) == "searching"@,
        phase is Verifying ==> phase_name(phase) == "verifying"@,
        phase is LoadingSynthesisModel ==> phase_name(phase) == "loading_synthesis_model"@,
        phase is PreparingAnswer ==> phase_name(phase) == "preparing_answer"@,
        phase is Repairing ==> phase_name(phase) == "repairing"@,
        phase is FallingBack ==> phase_name(phase) == "falling_back"@,
        phase is Validating ==> phase_name(phase) == "validating"@,
        phase is DeterministicRendering ==> phase_name(phase) == "deterministic_rendering"@,
        inner is LoadingSynthesisModel <==> public_phase(inner) is LoadingSynthesisModel,
        inner is PreparingAnswer <==> public_phase(inner) is PreparingAnswer,
        inner is Repairing <==> public_phase(inner) is Repairing,
        inner is Validating <==> public_phase(inner) is Validating,
        inner is DeterministicRendering <==> public_phase(inner) is DeterministicRendering,
{
}

/// An activity is reported by the name of its operation and by digests of its turn and its
/// arguments; never by the arguments themselves.
pub proof fn activities_are_reported_by_digest(
    event: LogicalActivityEvent,
    turn_id: Seq<char>,
    operation: EvidenceOperation,
)
    requires
        names_activity(event, turn_id, operation),
    ensures
        event.turn_id@ == turn_id,
        event.activity_id@ == "evidence:"@ + sha256_text(turn_id + ":"@ + operation_key(operation)),
        event.argument_hash@ == sha256_text(
            "bagent-evidence-operation-v1:"@ + operation_key(operation),
        ),
        operation is MailList ==> event.normalized_operation@ == "mail.list"@,
        operation is MailSearch ==> event.normalized_operation@ == "mail.search"@,
        operation is MailRead ==> event.normalized_operation@ == "mail.read"@,
        operation is WebSearch ==> event.normalized_operation@ == "web.search"@,
        operation is WebFetch ==> event.normalized_operation@ == "web.fetch"@,
{
}

/// An activity that has begun has brought nothing yet; one that has ended reports what it
/// brought and how it ended, and all its attempts but the first as retries.
pub proof fn activities_report_how_they_ended(
    started: LogicalActivityEvent,
    ended: LogicalActivityEvent,
    completion: LogicalActivityCompletion,
)
    requires
        reports_start(started),
        reports_completion(ended, completion),
    ensures
        started.event_type@ == "logical_activity_started"@,
        started.execution_status is InProgress,
        started.evidence_count == 0,
        started.attempt_count == 0,
        started.failure_reason is None,
        ended.event_type@ == "logical_activity_completed"@,
        completion.execution is Succeeded <==> ended.execution_status is Succeeded,
        completion.execution is Failed <==> ended.execution_status is Failed,
        completion.execution is Denied <==> ended.execution_status is Denied,
        completion.execution is TimedOut <==> ended.execution_status is TimedOut,
        completion.execution is Succeeded <==> ended.failure_reason is None,
        ended.contribution == completion.contribution,
        ended.evidence_count == completion.evidence_count,
        ended.duration_ms == completion.duration_ms,
        ended.attempt_count == completion.attempt_count,
        completion.attempt_count > 0 ==> ended.retries == completion.attempt_count - 1,
        completion.attempt_count == 0 ==> ended.retries == 0,
        ended.duplicates_suppressed == completion.duplicates_suppressed,
        ended.body_origin == completion.body_origin,
        completion.execution is Denied ==> ended.failure_reason->0@ == "denied"@,
        completion.execution is TimedOut ==> ended.failure_reason->0@ == "timed_out"@,
        completion.execution matches ExecutionStatus::Failed(failure) ==> ended.failure_reason->0@
            == failure_name(failure),
{
}

/// Every failure is reported under its own name.
pub proof fn failures_are_reported_by_name(failure: FailureCode)
    ensures
        failure is InvalidInput ==> failure_name(failure) == "invalid_input"@,
        failure is ConnectorUnavailable ==> failure_name(failure) == "connector_unavailable"@,
        failure is ConnectionReset ==> failure_name(failure) == "connection_reset"@,
        failure is RateLimited ==> failure_name(failure) == "rate_limited"@,
        failure is Http4xx ==> failure_name(failure) == "http_4xx"@,
        failure is Http5xx ==> failure_name(failure) == "http_5xx"@,
        failure is UnsupportedContentType ==> failure_name(failure) == "unsupported_content_type"@,
        failure is UnsafeDestination ==> failure_name(failure) == "unsafe_destination"@,
        failure is RedirectUnsafe ==> failure_name(failure) == "redirect_unsafe"@,
        failure is BodyTooLarge ==> failure_name(failure) == "body_too_large"@,
        failure is EmptyExtraction ==> failure_name(failure) == "empty_extraction"@,
        failure is ProviderChallenge ==> failure_name(failure) == "provider_challenge"@,
        failure is ParseFailure ==> failure_name(failure) == "parse_failure"@,
        failure is ModelUnavailable ==> failure_name(failure) == "model_unavailable"@,
        failure is ModelInvalidOutput ==> failure_name(failure) == "model_invalid_output"@,
        failure is AutomationFailed ==> failure_name(failure) == "automation_failed"@,
        failure is OtherNormalized ==> failure_name(failure) == "other_normalized"@,
{
}

/// What the user reads of an outcome says what was read or verified, how much of it, and
/// whether it is partial or in conflict.
pub proof fn outcomes_say_how_much(
    event: EvidenceOutcomeEvent,
    turn_id: Seq<char>,
    state: EvidenceOutcomeState,
    kind: EvidenceOutcomeKind,
    counts: (u16, u16),
    sources: u16,
)
    requires
        is_outcome(event, turn_id, state, kind, counts, sources),
    ensures
        event.event_type@ == "evidence_outcome"@,
        event.turn_id@ == turn_id,
        event.state == state,
        event.kind == kind,
        event.acquired == counts.0,
        event.requested == counts.1,
        event.source_count == sources,
        state is VerificationShortfall ==> event.message@ == "Couldn't verify sources"@,
        kind is Mail && state is Verified ==> event.message@ == "Read "@ + decimal(counts.0 as nat)
            + " of "@ + decimal(counts.1 as nat) + " emails"@,
        kind is Mail && state is Partial ==> event.message@ == "Read "@ + decimal(counts.0 as nat)
            + " of "@ + decimal(counts.1 as nat) + " emails"@ + " · partial"@,
        kind is Mail && state is Empty ==> event.message@ == "No emails found"@,
        kind is Mail && state is Unavailable ==> event.message@ == "Mail unavailable"@,
        kind is Mail && state is Denied ==> event.message@ == "Mail access denied"@,
        kind is Mail && state is Conflict ==> event.message@ == "Mail evidence conflict"@,
        kind is Web && state is Verified ==> event.message@ == "Web verified · "@ + decimal(
            sources as nat,
        ) + " sources"@,
        kind is Web && state is Conflict ==> event.message@ == "Web verified · "@ + decimal(
            sources as nat,
        ) + " sources · conflict"@,
        kind is Web && state is Partial ==> event.message@ == "Web partially verified · "@ + decimal(
            sources as nat,
        ) + " sources"@,
        kind is Web && state is Empty ==> event.message@ == "Couldn't verify sources"@,
        kind is Web && state is Unavailable ==> event.message@ == "Web unavailable"@,
        kind is Web && state is Denied ==> event.message@ == "Web access denied"@,
{
}

/// A bundle is reported with what it acquired and asked for; one of the web with conflicts
/// as a conflict, a complete one as verified and any other as partial.
pub proof fn bundles_are_reported_as_they_are(
    event: EvidenceOutcomeEvent,
    validation: ValidationOutcome,
)
    requires
        reports_validation(event, validation),
    ensures
        validation matches ValidationOutcome::Bundle(b) ==> {
            let web = crate::events::bundle_kind(*b) is Web;
            &&& event.turn_id@ == b.turn_id@
            &&& web && b.conflicts@.len() > 0 <==> event.state is Conflict
            &&& !(web && b.conflicts@.len() > 0) && b.completeness is Complete <==> event.state
                is Verified
            &&& !(web && b.conflicts@.len() > 0) && b.completeness is Partial <==> event.state
                is Partial
            &&& web ==> event.acquired == b.acquired.web_sources && event.requested
                == b.requested.web_sources
            &&& !web && b.requested.mail_bodies > 0 ==> event.acquired == b.acquired.mail_bodies
                && event.requested == b.requested.mail_bodies
            &&& !web && b.requested.mail_bodies == 0 ==> event.acquired == b.acquired.mail_headers
                && event.requested == b.requested.mail_headers
            &&& event.source_count == b.acquired.web_sources
        },
        validation matches ValidationOutcome::Recovery(recovery) ==> {
            &&& recovery.kind is Denied <==> event.state is Denied
            &&& recovery.kind is VerificationShortfall <==> event.state is VerificationShortfall
            &&& recovery.kind is Empty || recovery.kind is NoUsableEvidence <==> event.state is Empty
            &&& recovery.kind is Unavailable || recovery.kind is InvalidInput
                || recovery.kind is Malformed <==> event.state is Unavailable
            &&& event.acquired == 0
            &&& event.source_count == 0
        },
        validation is Clarification ==> event.state is Partial && event.kind is Mail
            && event.acquired == 0 && event.requested == 0,
{
}

/// An answer is reported with the state that it has.
pub proof fn answers_are_reported_with_their_state(status: CanonicalOutcomeStatus)
    ensures
        status is Verified <==> answer_state(status) is Verified,
        status is Conflict <==> answer_state(status) is Conflict,
        status is Partial <==> answer_state(status) is Partial,
        status is VerificationShortfall <==> answer_state(status) is VerificationShortfall,
{
}

/// A recovery is about the web exactly where a page or fetched sources are missing.
pub proof fn missing_pages_are_about_the_web(missing: Seq<EvidenceShortfall>)
    ensures
        lacks_sources(missing) <==> exists|i: int|
            0 <= i < missing.len() && ((#[trigger] missing[i]).requirement is DirectPage
                || missing[i].requirement is FetchedSources),
{
}

/// A domain is kept where it is a safe text of at most 253 bytes.
pub proof fn safe_domains_are_kept(values: Seq<Json>, more: Json)
    ensures
        kept_domains(Seq::empty()).len() == 0,
        more matches Json::Text(text) ==> (is_safe(text@, 253) ==> kept_domains(values.push(more))
            == kept_domains(values).push(text@)),
        more matches Json::Text(text) ==> (!is_safe(text@, 253) ==> kept_domains(values.push(more))
            == kept_domains(values)),
        !(more is Text) ==> kept_domains(values.push(more)) == kept_domains(values),
{
    assert(values.push(more).drop_last() =~= values);
}

/// A trace holds at most 512 events and 262144 bytes, with a byte between two events.
pub proof fn traces_are_bounded(envelope: u64)
    ensures
        turn_bounds(envelope).entries == 512,
        turn_bounds(envelope).bytes == 262_144,
        turn_bounds(envelope).envelope == envelope,
        turn_bounds(envelope).separator == 1,
{
}

} // verus!
