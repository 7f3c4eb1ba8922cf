//! What a turn reports of itself while it runs: phases, activities and outcomes.

use crate::mail_plan::{about_web, is_web_intent};
use crate::text::{
    chars_of, decimal, decimal_of, is_digest_text, push_all, push_text, sha256_str, sha256_text,
    string_of, strings,
};
use crate::types::{
    operation_key, BodyOrigin, CanonicalGroundedAnswer, CanonicalOutcomeStatus, Completeness,
    EvidenceBundle, EvidenceContribution, EvidenceCounts, EvidenceOperation, EvidenceRequirement,
    EvidenceShortfall, ExecutionStatus, FailureCode, RecoveryKind, ValidationOutcome,
};
use vstd::prelude::*;

verus! {

#[derive(Clone, Copy, Debug, PartialEq, Eq, Structural)]
pub enum EvidencePhase {
    FindingMail,
    Reading,
    Searching,
    Verifying,
    LoadingSynthesisModel,
    PreparingAnswer,
    Repairing,
    FallingBack,
    Validating,
    DeterministicRendering,
}

/// The phases of writing an answer.
#[derive(Clone, Copy, Debug, PartialEq, Eq, Structural)]
pub enum SynthesisPhase {
    LoadingSynthesisModel,
    PreparingAnswer,
    Repairing,
    Validating,
    DeterministicRendering,
}

pub open spec fn public_phase(phase: SynthesisPhase) -> EvidencePhase {
    match phase {
        SynthesisPhase::LoadingSynthesisModel => EvidencePhase::LoadingSynthesisModel,
        SynthesisPhase::PreparingAnswer => EvidencePhase::PreparingAnswer,
        SynthesisPhase::Repairing => EvidencePhase::Repairing,
        SynthesisPhase::Validating => EvidencePhase::Validating,
        SynthesisPhase::DeterministicRendering => EvidencePhase::DeterministicRendering,
    }
}

impl EvidencePhase {
    /// The phase of a turn while its answer is written.
    pub fn of_synthesis(phase: SynthesisPhase) -> (r: Self)
        ensures
            r == public_phase(phase),
    {
        match phase {
            SynthesisPhase::LoadingSynthesisModel => EvidencePhase::LoadingSynthesisModel,
            SynthesisPhase::PreparingAnswer => EvidencePhase::PreparingAnswer,
            SynthesisPhase::Repairing => EvidencePhase::Repairing,
            SynthesisPhase::Validating => EvidencePhase::Validating,
            SynthesisPhase::DeterministicRendering => EvidencePhase::DeterministicRendering,
        }
    }

    /// The name of the phase outside the program.
    pub fn as_str(&self) -> (r: &'static str)
        ensures
            r@ == phase_name(*self),
    {
        match self {
            EvidencePhase::FindingMail => "finding_mail",
            EvidencePhase::Reading => "reading",
            EvidencePhase::Searching => "searching",
            EvidencePhase::Verifying => "verifying",
            EvidencePhase::LoadingSynthesisModel => "loading_synthesis_model",
            EvidencePhase::PreparingAnswer => "preparing_answer",
            EvidencePhase::Repairing => "repairing",
            EvidencePhase::FallingBack => "falling_back",
            EvidencePhase::Validating => "validating",
            EvidencePhase::DeterministicRendering => "deterministic_rendering",
        }
    }
}

pub open spec fn phase_name(phase: EvidencePhase) -> Seq<char> {
    match phase {
        EvidencePhase::FindingMail => "finding_mail"@,
        EvidencePhase::Reading => "reading"@,
        EvidencePhase::Searching => "searching"@,
        EvidencePhase::Verifying => "verifying"@,
        EvidencePhase::LoadingSynthesisModel => "loading_synthesis_model"@,
        EvidencePhase::PreparingAnswer => "preparing_answer"@,
        EvidencePhase::Repairing => "repairing"@,
        EvidencePhase::FallingBack => "falling_back"@,
        EvidencePhase::Validating => "validating"@,
        EvidencePhase::DeterministicRendering => "deterministic_rendering"@,
    }
}

#[derive(Debug, PartialEq, Eq)]
pub struct EvidencePhaseEvent {
    pub event_type: String,
    pub turn_id: String,
    pub phase: EvidencePhase,
    pub completed: Option<u16>,
    pub total: Option<u16>,
    pub model_id: Option<String>,
    pub duration_ms: u64,
    pub timed_out: bool,
    pub fallback: bool,
    pub repair: bool,
    pub failure_reason: Option<String>,
}

impl EvidencePhaseEvent {
    /// A phase before an answer is written.
    pub fn acquisition(
        turn_id: &str,
        phase: EvidencePhase,
        completed: Option<u16>,
        total: Option<u16>,
    ) -> (r: Self)
        ensures
            r.event_type@ == "evidence_phase"@,
            r.turn_id@ == turn_id@,
            r.phase == phase,
            r.completed == completed,
            r.total == total,
            r.model_id is None,
            r.duration_ms == 0,
            !r.timed_out,
            !r.fallback,
            !r.repair,
            r.failure_reason is None,
    {
        EvidencePhaseEvent {
            event_type: "evidence_phase".to_owned(),
            turn_id: turn_id.to_owned(),
            phase,
            completed,
            total,
            model_id: None,
            duration_ms: 0,
            timed_out: false,
            fallback: false,
            repair: false,
            failure_reason: None,
        }
    }
}

#[derive(Clone, Copy, Debug, PartialEq, Eq, Structural)]
pub enum LogicalActivityState {
    InProgress,
    Succeeded,
    Failed,
    Denied,
    TimedOut,
}

/// One operation of a turn as it is shown, however often it is tried.
#[derive(Debug, PartialEq, Eq)]
pub struct LogicalActivityEvent {
    pub event_type: String,
    pub turn_id: String,
    pub activity_id: String,
    pub normalized_operation: String,
    pub argument_hash: String,
    pub execution_status: LogicalActivityState,
    pub contribution: EvidenceContribution,
    pub evidence_count: u16,
    pub source_domains: Vec<String>,
    pub duration_ms: u64,
    pub attempt_count: u8,
    pub retries: u8,
    pub duplicates_suppressed: u8,
    pub failure_reason: Option<String>,
    pub body_origin: Option<BodyOrigin>,
}

/// How an operation ended.
#[derive(Debug, PartialEq, Eq)]
pub struct LogicalActivityCompletion {
    pub execution: ExecutionStatus,
    pub contribution: EvidenceContribution,
    pub evidence_count: u16,
    pub source_domains: Vec<String>,
    pub duration_ms: u64,
    pub attempt_count: u8,
    pub duplicates_suppressed: u8,
    pub body_origin: Option<BodyOrigin>,
}

pub open spec fn operation_name(operation: EvidenceOperation) -> Seq<char> {
    match operation {
        EvidenceOperation::MailList { .. } => "mail.list"@,
        EvidenceOperation::MailSearch { .. } => "mail.search"@,
        EvidenceOperation::MailRead { .. } => "mail.read"@,
        EvidenceOperation::WebSearch { .. } => "web.search"@,
        EvidenceOperation::WebFetch { .. } => "web.fetch"@,
    }
}

pub fn normalized_operation(operation: &EvidenceOperation) -> (r: &'static str)
    ensures
        r@ == operation_name(*operation),
{
    match operation {
        EvidenceOperation::MailList { .. } => "mail.list",
        EvidenceOperation::MailSearch { .. } => "mail.search",
        EvidenceOperation::MailRead { .. } => "mail.read",
        EvidenceOperation::WebSearch { .. } => "web.search",
        EvidenceOperation::WebFetch { .. } => "web.fetch",
    }
}

/// A digest in place of the arguments of an operation.
pub open spec fn argument_hash(operation: EvidenceOperation) -> Seq<char> {
    sha256_text("bagent-evidence-operation-v1:"@ + operation_key(operation))
}

pub fn operation_argument_hash(operation: &EvidenceOperation) -> (r: String)
    ensures
        r@ == argument_hash(*operation),
        is_digest_text(r@),
{
    let key = operation.key();
    let mut text = chars_of("bagent-evidence-operation-v1:");
    push_text(&mut text, key.as_str());
    let string = string_of(&text);
    sha256_str(string.as_str())
}

/// The name of an operation in a turn.
pub open spec fn activity_name(turn_id: Seq<char>, operation: EvidenceOperation) -> Seq<char> {
    "evidence:"@ + sha256_text(turn_id + ":"@ + operation_key(operation))
}

pub fn activity_id(turn_id: &str, operation: &EvidenceOperation) -> (r: String)
    ensures
        r@ == activity_name(turn_id@, *operation),
        r@.len() == 73,
        is_digest_text(r@.skip(9)),
{
    let key = operation.key();
    let mut seed = chars_of(turn_id);
    push_text(&mut seed, ":");
    push_text(&mut seed, key.as_str());
    let seed_text = string_of(&seed);
    let digest = sha256_str(seed_text.as_str());
    let mut text = chars_of("evidence:");
    push_text(&mut text, digest.as_str());
    proof {
        reveal_strlit("evidence:");
        assert(text@.skip(9) =~= digest@);
    }
    string_of(&text)
}

pub open spec fn activity_state(status: ExecutionStatus) -> LogicalActivityState {
    match status {
        ExecutionStatus::Succeeded => LogicalActivityState::Succeeded,
        ExecutionStatus::Failed(_) => LogicalActivityState::Failed,
        ExecutionStatus::Denied => LogicalActivityState::Denied,
        ExecutionStatus::TimedOut => LogicalActivityState::TimedOut,
    }
}

pub fn logical_status(status: &ExecutionStatus) -> (r: LogicalActivityState)
    ensures
        r == activity_state(*status),
{
    match status {
        ExecutionStatus::Succeeded => LogicalActivityState::Succeeded,
        ExecutionStatus::Failed(_) => LogicalActivityState::Failed,
        ExecutionStatus::Denied => LogicalActivityState::Denied,
        ExecutionStatus::TimedOut => LogicalActivityState::TimedOut,
    }
}

pub open spec fn failure_name(failure: FailureCode) -> Seq<char> {
    match failure {
        FailureCode::InvalidInput => "invalid_input"@,
        FailureCode::ConnectorUnavailable => "connector_unavailable"@,
        FailureCode::ConnectionReset => "connection_reset"@,
        FailureCode::RateLimited => "rate_limited"@,
        FailureCode::Http4xx(_) => "http_4xx"@,
        FailureCode::Http5xx(_) => "http_5xx"@,
        FailureCode::UnsupportedContentType => "unsupported_content_type"@,
        FailureCode::UnsafeDestination => "unsafe_destination"@,
        FailureCode::RedirectUnsafe => "redirect_unsafe"@,
        FailureCode::BodyTooLarge => "body_too_large"@,
        FailureCode::EmptyExtraction => "empty_extraction"@,
        FailureCode::ProviderChallenge => "provider_challenge"@,
        FailureCode::ParseFailure => "parse_failure"@,
        FailureCode::ModelUnavailable => "model_unavailable"@,
        FailureCode::ModelInvalidOutput => "model_invalid_output"@,
        FailureCode::AutomationFailed => "automation_failed"@,
        FailureCode::OtherNormalized => "other_normalized"@,
    }
}

/// Why an operation did not succeed.
pub open spec fn failure_text(status: ExecutionStatus) -> Option<Seq<char>> {
    match status {
        ExecutionStatus::Succeeded => None,
        ExecutionStatus::Denied => Some("denied"@),
        ExecutionStatus::TimedOut => Some("timed_out"@),
        ExecutionStatus::Failed(failure) => Some(failure_name(failure)),
    }
}

pub fn normalized_failure(status: &ExecutionStatus) -> (r: Option<String>)
    ensures
        match r {
            Some(text) => failure_text(*status) == Some(text@),
            None => failure_text(*status) is None,
        },
{
    let text: &'static str = match status {
        ExecutionStatus::Succeeded => {
            return None;
        },
        ExecutionStatus::Denied => "denied",
        ExecutionStatus::TimedOut => "timed_out",
        ExecutionStatus::Failed(failure) => match failure {
            FailureCode::InvalidInput => "invalid_input",
            FailureCode::ConnectorUnavailable => "connector_unavailable",
            FailureCode::ConnectionReset => "connection_reset",
            FailureCode::RateLimited => "rate_limited",
            FailureCode::Http4xx(_) => "http_4xx",
            FailureCode::Http5xx(_) => "http_5xx",
            FailureCode::UnsupportedContentType => "unsupported_content_type",
            FailureCode::UnsafeDestination => "unsafe_destination",
            FailureCode::RedirectUnsafe => "redirect_unsafe",
            FailureCode::BodyTooLarge => "body_too_large",
            FailureCode::EmptyExtraction => "empty_extraction",
            FailureCode::ProviderChallenge => "provider_challenge",
            FailureCode::ParseFailure => "parse_failure",
            FailureCode::ModelUnavailable => "model_unavailable",
            FailureCode::ModelInvalidOutput => "model_invalid_output",
            FailureCode::AutomationFailed => "automation_failed",
            FailureCode::OtherNormalized => "other_normalized",
        },
    };
    Some(text.to_owned())
}

/// The event names this operation of this turn.
pub open spec fn names_activity(
    event: LogicalActivityEvent,
    turn_id: Seq<char>,
    operation: EvidenceOperation,
) -> bool {
    &&& event.turn_id@ == turn_id
    &&& event.activity_id@ == activity_name(turn_id, operation)
    &&& event.normalized_operation@ == operation_name(operation)
    &&& event.argument_hash@ == argument_hash(operation)
}

pub open spec fn reports_start(event: LogicalActivityEvent) -> bool {
    &&& event.event_type@ == "logical_activity_started"@
    &&& event.execution_status == LogicalActivityState::InProgress
    &&& event.contribution == EvidenceContribution::Empty
    &&& event.evidence_count == 0
    &&& event.source_domains@.len() == 0
    &&& event.duration_ms == 0
    &&& event.attempt_count == 0
    &&& event.retries == 0
    &&& event.duplicates_suppressed == 0
    &&& event.failure_reason is None
    &&& event.body_origin is None
}

pub open spec fn reports_completion(
    event: LogicalActivityEvent,
    completion: LogicalActivityCompletion,
) -> bool {
    &&& event.event_type@ == "logical_activity_completed"@
    &&& event.execution_status == activity_state(completion.execution)
    &&& event.contribution == completion.contribution
    &&& event.evidence_count == completion.evidence_count
    &&& strings(event.source_domains@) == strings(completion.source_domains@)
    &&& event.duration_ms == completion.duration_ms
    &&& event.attempt_count == completion.attempt_count
    &&& event.retries == (if completion.attempt_count > 0 {
        completion.attempt_count - 1
    } else {
        0int
    })
    &&& event.duplicates_suppressed == completion.duplicates_suppressed
    &&& match event.failure_reason {
        Some(text) => failure_text(completion.execution) == Some(text@),
        None => failure_text(completion.execution) is None,
    }
    &&& event.body_origin == completion.body_origin
}

pub fn clone_strings(list: &Vec<String>) -> (r: Vec<String>)
    ensures
        strings(r@) == strings(list@),
{
    let mut out: Vec<String> = Vec::new();
    let mut i: usize = 0;
    while i < list.len()
        invariant
            i <= list@.len(),
            out@.len() == i,
            forall|k: int| 0 <= k < i ==> (#[trigger] out@[k])@ == list@[k]@,
        decreases list@.len() - i,
    {
        out.push(list[i].clone());
        i = i + 1;
    }
    proof {
        assert(strings(out@) =~= strings(list@));
    }
    out
}

impl LogicalActivityEvent {
    pub fn started(turn_id: &str, operation: &EvidenceOperation) -> (r: Self)
        ensures
            names_activity(r, turn_id@, *operation),
            reports_start(r),
    {
        LogicalActivityEvent {
            event_type: "logical_activity_started".to_owned(),
            turn_id: turn_id.to_owned(),
            activity_id: activity_id(turn_id, operation),
            normalized_operation: normalized_operation(operation).to_owned(),
            argument_hash: operation_argument_hash(operation),
            execution_status: LogicalActivityState::InProgress,
            contribution: EvidenceContribution::Empty,
            evidence_count: 0,
            source_domains: Vec::new(),
            duration_ms: 0,
            attempt_count: 0,
            retries: 0,
            duplicates_suppressed: 0,
            failure_reason: None,
            body_origin: None,
        }
    }

    pub fn completed(
        turn_id: &str,
        operation: &EvidenceOperation,
        completion: &LogicalActivityCompletion,
    ) -> (r: Self)
        ensures
            names_activity(r, turn_id@, *operation),
            reports_completion(r, *completion),
    {
        LogicalActivityEvent {
            event_type: "logical_activity_completed".to_owned(),
            turn_id: turn_id.to_owned(),
            activity_id: activity_id(turn_id, operation),
            normalized_operation: normalized_operation(operation).to_owned(),
            argument_hash: operation_argument_hash(operation),
            execution_status: logical_status(&completion.execution),
            contribution: completion.contribution,
            evidence_count: completion.evidence_count,
            source_domains: clone_strings(&completion.source_domains),
            duration_ms: completion.duration_ms,
            attempt_count: completion.attempt_count,
            retries: if completion.attempt_count > 0 {
                completion.attempt_count - 1
            } else {
                0
            },
            duplicates_suppressed: completion.duplicates_suppressed,
            failure_reason: normalized_failure(&completion.execution),
            body_origin: completion.body_origin,
        }
    }
}

#[derive(Clone, Copy, Debug, PartialEq, Eq, Structural)]
pub enum EvidenceOutcomeState {
    Verified,
    Conflict,
    Partial,
    Empty,
    Unavailable,
    Denied,
    VerificationShortfall,
}

#[derive(Clone, Copy, Debug, PartialEq, Eq, Structural)]
pub enum EvidenceOutcomeKind {
    Mail,
    Web,
}

#[derive(Debug, PartialEq, Eq)]
pub struct EvidenceOutcomeEvent {
    pub event_type: String,
    pub turn_id: String,
    pub state: EvidenceOutcomeState,
    pub kind: EvidenceOutcomeKind,
    pub acquired: u16,
    pub requested: u16,
    pub source_count: u16,
    pub message: String,
}

pub open spec fn read_of(acquired: u16, requested: u16) -> Seq<char> {
    "Read "@ + decimal(acquired as nat) + " of "@ + decimal(requested as nat) + " emails"@
}

/// What an outcome says to the user.
pub open spec fn outcome_text(
    state: EvidenceOutcomeState,
    kind: EvidenceOutcomeKind,
    acquired: u16,
    requested: u16,
    source_count: u16,
) -> Seq<char> {
    match (kind, state) {
        (_, EvidenceOutcomeState::VerificationShortfall) => "Couldn't verify sources"@,
        (EvidenceOutcomeKind::Mail, EvidenceOutcomeState::Verified) => read_of(acquired, requested),
        (EvidenceOutcomeKind::Mail, EvidenceOutcomeState::Partial) => read_of(acquired, requested)
            + " · partial"@,
        (EvidenceOutcomeKind::Mail, EvidenceOutcomeState::Empty) => "No emails found"@,
        (EvidenceOutcomeKind::Mail, EvidenceOutcomeState::Unavailable) => "Mail unavailable"@,
        (EvidenceOutcomeKind::Mail, EvidenceOutcomeState::Denied) => "Mail access denied"@,
        (EvidenceOutcomeKind::Mail, EvidenceOutcomeState::Conflict) => "Mail evidence conflict"@,
        (EvidenceOutcomeKind::Web, EvidenceOutcomeState::Verified) => "Web verified · "@ + decimal(
            source_count as nat,
        ) + " sources"@,
        (EvidenceOutcomeKind::Web, EvidenceOutcomeState::Conflict) => "Web verified · "@ + decimal(
            source_count as nat,
        ) + " sources · conflict"@,
        (EvidenceOutcomeKind::Web, EvidenceOutcomeState::Partial) => "Web partially verified · "@
            + decimal(source_count as nat) + " sources"@,
        (EvidenceOutcomeKind::Web, EvidenceOutcomeState::Empty) => "Couldn't verify sources"@,
        (EvidenceOutcomeKind::Web, EvidenceOutcomeState::Unavailable) => "Web unavailable"@,
        (EvidenceOutcomeKind::Web, EvidenceOutcomeState::Denied) => "Web access denied"@,
    }
}

fn read_message(acquired: u16, requested: u16) -> (r: Vec<char>)
    ensures
        r@ == read_of(acquired, requested),
{
    let mut text = chars_of("Read ");
    push_all(&mut text, &decimal_of(acquired as u64));
    push_text(&mut text, " of ");
    push_all(&mut text, &decimal_of(requested as u64));
    push_text(&mut text, " emails");
    text
}

fn source_message(start: &str, count: u16, end: &str) -> (r: String)
    ensures
        r@ == start@ + decimal(count as nat) + end@,
{
    let mut text = chars_of(start);
    push_all(&mut text, &decimal_of(count as u64));
    push_text(&mut text, end);
    string_of(&text)
}

pub fn outcome_message(
    state: EvidenceOutcomeState,
    kind: EvidenceOutcomeKind,
    acquired: u16,
    requested: u16,
    source_count: u16,
) -> (r: String)
    ensures
        r@ == outcome_text(state, kind, acquired, requested, source_count),
{
    match kind {
        EvidenceOutcomeKind::Mail => match state {
            EvidenceOutcomeState::VerificationShortfall => "Couldn't verify sources".to_owned(),
            EvidenceOutcomeState::Verified => {
                let text = read_message(acquired, requested);
                string_of(&text)
            },
            EvidenceOutcomeState::Partial => {
                let mut text = read_message(acquired, requested);
                push_text(&mut text, " · partial");
                string_of(&text)
            },
            EvidenceOutcomeState::Empty => "No emails found".to_owned(),
            EvidenceOutcomeState::Unavailable => "Mail unavailable".to_owned(),
            EvidenceOutcomeState::Denied => "Mail access denied".to_owned(),
            EvidenceOutcomeState::Conflict => "Mail evidence conflict".to_owned(),
        },
        EvidenceOutcomeKind::Web => match state {
            EvidenceOutcomeState::VerificationShortfall => "Couldn't verify sources".to_owned(),
            EvidenceOutcomeState::Verified => source_message(
                "Web verified · ",
                source_count,
                " sources",
            ),
            EvidenceOutcomeState::Conflict => source_message(
                "Web verified · ",
                source_count,
                " sources · conflict",
            ),
            EvidenceOutcomeState::Partial => source_message(
                "Web partially verified · ",
                source_count,
                " sources",
            ),
            EvidenceOutcomeState::Empty => "Couldn't verify sources".to_owned(),
            EvidenceOutcomeState::Unavailable => "Web unavailable".to_owned(),
            EvidenceOutcomeState::Denied => "Web access denied".to_owned(),
        },
    }
}

/// The counts that matter to an outcome: bodies where bodies were asked for,
/// else headers; or sources.
pub open spec fn counts_for(
    kind: EvidenceOutcomeKind,
    acquired: EvidenceCounts,
    requested: EvidenceCounts,
) -> (u16, u16) {
    match kind {
        EvidenceOutcomeKind::Mail => if requested.mail_bodies > 0 {
            (acquired.mail_bodies as u16, requested.mail_bodies as u16)
        } else {
            (acquired.mail_headers as u16, requested.mail_headers as u16)
        },
        EvidenceOutcomeKind::Web => (acquired.web_sources as u16, requested.web_sources as u16),
    }
}

pub fn relevant_counts(
    kind: EvidenceOutcomeKind,
    acquired: &EvidenceCounts,
    requested: &EvidenceCounts,
) -> (r: (u16, u16))
    ensures
        r == counts_for(kind, *acquired, *requested),
{
    match kind {
        EvidenceOutcomeKind::Mail => if requested.mail_bodies > 0 {
            (acquired.mail_bodies as u16, requested.mail_bodies as u16)
        } else {
            (acquired.mail_headers as u16, requested.mail_headers as u16)
        },
        EvidenceOutcomeKind::Web => (acquired.web_sources as u16, requested.web_sources as u16),
    }
}

/// An outcome with the message that belongs to it.
pub open spec fn is_outcome(
    event: EvidenceOutcomeEvent,
    turn_id: Seq<char>,
    state: EvidenceOutcomeState,
    kind: EvidenceOutcomeKind,
    counts: (u16, u16),
    source_count: u16,
) -> bool {
    &&& event.event_type@ == "evidence_outcome"@
    &&& event.turn_id@ == turn_id
    &&& event.state == state
    &&& event.kind == kind
    &&& event.acquired == counts.0
    &&& event.requested == counts.1
    &&& event.source_count == source_count
    &&& event.message@ == outcome_text(state, kind, counts.0, counts.1, source_count)
}

pub open spec fn no_counts() -> EvidenceCounts {
    EvidenceCounts { mail_headers: 0, mail_bodies: 0, web_sources: 0 }
}

/// The shortfall is one of web sources.
pub open spec fn is_web_shortfall(shortfall: EvidenceShortfall) -> bool {
    shortfall.requirement is DirectPage || shortfall.requirement is FetchedSources
}

pub open spec fn lacks_sources(missing: Seq<EvidenceShortfall>) -> bool {
    exists|i: int| 0 <= i < missing.len() && is_web_shortfall(#[trigger] missing[i])
}

pub open spec fn recovery_state(kind: RecoveryKind) -> EvidenceOutcomeState {
    match kind {
        RecoveryKind::Empty => EvidenceOutcomeState::Empty,
        RecoveryKind::NoUsableEvidence => EvidenceOutcomeState::Empty,
        RecoveryKind::Unavailable => EvidenceOutcomeState::Unavailable,
        RecoveryKind::Denied => EvidenceOutcomeState::Denied,
        RecoveryKind::VerificationShortfall => EvidenceOutcomeState::VerificationShortfall,
        RecoveryKind::InvalidInput => EvidenceOutcomeState::Unavailable,
        RecoveryKind::Malformed => EvidenceOutcomeState::Unavailable,
    }
}

pub open spec fn bundle_kind(bundle: EvidenceBundle) -> EvidenceOutcomeKind {
    if about_web(bundle.intent) {
        EvidenceOutcomeKind::Web
    } else {
        EvidenceOutcomeKind::Mail
    }
}

pub open spec fn bundle_state(bundle: EvidenceBundle) -> EvidenceOutcomeState {
    if bundle_kind(bundle) is Web && bundle.conflicts@.len() > 0 {
        EvidenceOutcomeState::Conflict
    } else if bundle.completeness == Completeness::Complete {
        EvidenceOutcomeState::Verified
    } else {
        EvidenceOutcomeState::Partial
    }
}

/// The outcome that a validation is reported as.
pub open spec fn reports_validation(
    event: EvidenceOutcomeEvent,
    validation: ValidationOutcome,
) -> bool {
    match validation {
        ValidationOutcome::Bundle(bundle) => is_outcome(
            event,
            bundle.turn_id@,
            bundle_state(*bundle),
            bundle_kind(*bundle),
            counts_for(bundle_kind(*bundle), bundle.acquired, bundle.requested),
            bundle.acquired.web_sources as u16,
        ),
        ValidationOutcome::Recovery(recovery) => {
            let kind = if lacks_sources(recovery.missing@) {
                EvidenceOutcomeKind::Web
            } else {
                EvidenceOutcomeKind::Mail
            };
            is_outcome(
                event,
                Seq::empty(),
                recovery_state(recovery.kind),
                kind,
                counts_for(kind, no_counts(), recovery.requested),
                0,
            )
        },
        ValidationOutcome::Clarification { .. } => is_outcome(
            event,
            Seq::empty(),
            EvidenceOutcomeState::Partial,
            EvidenceOutcomeKind::Mail,
            (0, 0),
            0,
        ),
    }
}

fn misses_sources(missing: &Vec<EvidenceShortfall>) -> (r: bool)
    ensures
        r == lacks_sources(missing@),
{
    let mut i: usize = 0;
    while i < missing.len()
        invariant
            i <= missing@.len(),
            forall|k: int| 0 <= k < i ==> !is_web_shortfall(#[trigger] missing@[k]),
        decreases missing@.len() - i,
    {
        let web = match missing[i].requirement {
            EvidenceRequirement::DirectPage => true,
            EvidenceRequirement::FetchedSources { .. } => true,
            _ => false,
        };
        if web {
            assert(is_web_shortfall(missing@[i as int]));
            return true;
        }
        i = i + 1;
    }
    false
}

fn no_turn() -> (r: String)
    ensures
        r@ == Seq::<char>::empty(),
{
    let none: Vec<char> = Vec::new();
    proof {
        assert(none@ =~= Seq::<char>::empty());
    }
    string_of(&none)
}

fn outcome_from_bundle(bundle: &EvidenceBundle) -> (r: EvidenceOutcomeEvent)
    ensures
        is_outcome(
            r,
            bundle.turn_id@,
            bundle_state(*bundle),
            bundle_kind(*bundle),
            counts_for(bundle_kind(*bundle), bundle.acquired, bundle.requested),
            bundle.acquired.web_sources as u16,
        ),
{
    let web = is_web_intent(&bundle.intent);
    let kind = if web {
        EvidenceOutcomeKind::Web
    } else {
        EvidenceOutcomeKind::Mail
    };
    let (acquired, requested) = relevant_counts(kind, &bundle.acquired, &bundle.requested);
    let state = if web && bundle.conflicts.len() > 0 {
        EvidenceOutcomeState::Conflict
    } else if matches!(bundle.completeness, Completeness::Complete) {
        EvidenceOutcomeState::Verified
    } else {
        EvidenceOutcomeState::Partial
    };
    EvidenceOutcomeEvent::new(
        bundle.turn_id.as_str(),
        state,
        kind,
        acquired,
        requested,
        bundle.acquired.web_sources as u16,
    )
}

pub open spec fn answer_state(status: CanonicalOutcomeStatus) -> EvidenceOutcomeState {
    match status {
        CanonicalOutcomeStatus::Verified => EvidenceOutcomeState::Verified,
        CanonicalOutcomeStatus::Conflict => EvidenceOutcomeState::Conflict,
        CanonicalOutcomeStatus::Partial => EvidenceOutcomeState::Partial,
        CanonicalOutcomeStatus::VerificationShortfall => EvidenceOutcomeState::VerificationShortfall,
    }
}

impl EvidenceOutcomeEvent {
    pub fn new(
        turn_id: &str,
        state: EvidenceOutcomeState,
        kind: EvidenceOutcomeKind,
        acquired: u16,
        requested: u16,
        source_count: u16,
    ) -> (r: Self)
        ensures
            is_outcome(r, turn_id@, state, kind, (acquired, requested), source_count),
    {
        EvidenceOutcomeEvent {
            event_type: "evidence_outcome".to_owned(),
            turn_id: turn_id.to_owned(),
            state,
            kind,
            acquired,
            requested,
            source_count,
            message: outcome_message(state, kind, acquired, requested, source_count),
        }
    }

    pub fn from_validation(validation: &ValidationOutcome) -> (r: Self)
        ensures
            reports_validation(r, *validation),
    {
        match validation {
            ValidationOutcome::Bundle(bundle) => outcome_from_bundle(&**bundle),
            ValidationOutcome::Recovery(recovery) => {
                let kind = if misses_sources(&recovery.missing) {
                    EvidenceOutcomeKind::Web
                } else {
                    EvidenceOutcomeKind::Mail
                };
                let none = EvidenceCounts { mail_headers: 0, mail_bodies: 0, web_sources: 0 };
                let (acquired, requested) = relevant_counts(kind, &none, &recovery.requested);
                let state = match recovery.kind {
                    RecoveryKind::Empty => EvidenceOutcomeState::Empty,
                    RecoveryKind::NoUsableEvidence => EvidenceOutcomeState::Empty,
                    RecoveryKind::Unavailable => EvidenceOutcomeState::Unavailable,
                    RecoveryKind::Denied => EvidenceOutcomeState::Denied,
                    RecoveryKind::VerificationShortfall => {
                        EvidenceOutcomeState::VerificationShortfall
                    },
                    RecoveryKind::InvalidInput => EvidenceOutcomeState::Unavailable,
                    RecoveryKind::Malformed => EvidenceOutcomeState::Unavailable,
                };
                let turn = no_turn();
                EvidenceOutcomeEvent::new(turn.as_str(), state, kind, acquired, requested, 0)
            },
            ValidationOutcome::Clarification { .. } => {
                let turn = no_turn();
                EvidenceOutcomeEvent::new(
                    turn.as_str(),
                    EvidenceOutcomeState::Partial,
                    EvidenceOutcomeKind::Mail,
                    0,
                    0,
                    0,
                )
            },
        }
    }

    pub fn with_turn_id(self, turn_id: &str) -> (r: Self)
        ensures
            r.turn_id@ == turn_id@,
            r == (EvidenceOutcomeEvent { turn_id: r.turn_id, ..self }),
    {
        let mut event = self;
        event.turn_id = turn_id.to_owned();
        event
    }

    /// The outcome of an answer: its status, and the message that belongs to it.
    pub fn with_canonical_answer(self, canonical: &CanonicalGroundedAnswer) -> (r: Self)
        ensures
            r.message@ == outcome_text(
                r.state,
                self.kind,
                self.acquired,
                self.requested,
                self.source_count,
            ),
            r == (EvidenceOutcomeEvent {
                state: answer_state(canonical.outcome_status),
                message: r.message,
                ..self
            }),
    {
        let mut event = self;
        event.state = match canonical.outcome_status {
            CanonicalOutcomeStatus::Verified => EvidenceOutcomeState::Verified,
            CanonicalOutcomeStatus::Conflict => EvidenceOutcomeState::Conflict,
            CanonicalOutcomeStatus::Partial => EvidenceOutcomeState::Partial,
            CanonicalOutcomeStatus::VerificationShortfall => {
                EvidenceOutcomeState::VerificationShortfall
            },
        };
        event.message = outcome_message(
            event.state,
            event.kind,
            event.acquired,
            event.requested,
            event.source_count,
        );
        event
    }
}

/// An operation is one activity of its turn, from its start to its end and
/// through retries: the start and every completion carry the same name.
pub proof fn activities_keep_their_name(
    started: LogicalActivityEvent,
    ended: LogicalActivityEvent,
    turn_id: Seq<char>,
    operation: EvidenceOperation,
    other: EvidenceOperation,
)
    requires
        names_activity(started, turn_id, operation),
        names_activity(ended, turn_id, other),
        operation_key(operation) == operation_key(other),
    ensures
        started.activity_id@ == ended.activity_id@,
        started.argument_hash@ == ended.argument_hash@,
{
}

/// A denied turn and an empty one are told apart, and so is one whose sources
/// could not be verified.
pub proof fn outcomes_are_told_apart(first: RecoveryKind, second: RecoveryKind)
    requires
        first is Denied,
        second is Empty || second is Unavailable || second is VerificationShortfall,
    ensures
        recovery_state(first) != recovery_state(second),
{
}

} // verus!
