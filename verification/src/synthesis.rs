//! The steps of polishing an answer: the grounded answer is complete before a
//! model is asked, and stands byte for byte unless its polish is accepted.

use crate::events::SynthesisPhase;
use crate::text::{
    any_term, ascii_lowercase, chars_of, contains, contains_any, has, lower_ascii, same,
};
use vstd::prelude::*;

verus! {

pub const SYNTHESIS_WARM_TIMEOUT_MS: u64 = 20_000;

pub const SYNTHESIS_MODEL_IDLE_TTL_MS: u64 = 1_200_000;

#[derive(Debug, PartialEq, Eq)]
pub struct SynthesisConfig {
    pub preferred_model: String,
    pub warm_timeout_ms: u64,
    pub maintenance_interval_ms: u64,
}

impl SynthesisConfig {
    pub fn from_environment() -> (r: Self)
        ensures
            r.preferred_model@ == "basecompute/Qwen3.6-35B-A3B"@,
            r.warm_timeout_ms == SYNTHESIS_WARM_TIMEOUT_MS,
            r.maintenance_interval_ms == 30_000,
    {
        SynthesisConfig {
            preferred_model: "basecompute/Qwen3.6-35B-A3B".to_owned(),
            warm_timeout_ms: SYNTHESIS_WARM_TIMEOUT_MS,
            maintenance_interval_ms: 30_000,
        }
    }
}

/// A message to a model.
#[derive(Debug, PartialEq, Eq)]
pub struct ChatMessage {
    pub role: String,
    pub content: String,
    /// The names of the tools that the message calls.
    pub tool_calls: Vec<String>,
    pub tool_call_id: Option<String>,
}

pub open spec fn is_plain(message: ChatMessage, role: Seq<char>) -> bool {
    message.role@ == role && message.tool_calls@.len() == 0 && message.tool_call_id is None
}

/// Exactly one message of the system and one of the user, without tools.
pub open spec fn is_transcript(messages: Seq<ChatMessage>) -> bool {
    messages.len() == 2 && is_plain(messages[0], "system"@) && is_plain(messages[1], "user"@)
}

fn plain(message: &ChatMessage, role: &str) -> (r: bool)
    ensures
        r == is_plain(*message, role@),
{
    same(message.role.as_str(), role) && message.tool_calls.len() == 0
        && message.tool_call_id.is_none()
}

pub fn validate_transcript(messages: &Vec<ChatMessage>) -> (r: bool)
    ensures
        r == is_transcript(messages@),
{
    messages.len() == 2 && plain(&messages[0], "system") && plain(&messages[1], "user")
}

/// What a phase of writing an answer reports.
#[derive(Debug, PartialEq, Eq)]
pub struct RuntimePhaseEvent {
    pub model_id: Option<String>,
    pub phase: SynthesisPhase,
    pub duration_ms: u64,
    pub timed_out: bool,
    pub fallback: bool,
    pub repair: bool,
    pub failure_reason: Option<String>,
}

/// A phase of a turn.
#[derive(Debug, PartialEq, Eq)]
pub struct SynthesisPhaseEvent {
    pub turn_id: String,
    pub model_id: Option<String>,
    pub phase: SynthesisPhase,
    pub duration_ms: u64,
    pub timed_out: bool,
    pub fallback: bool,
    pub repair: bool,
    pub failure_reason: Option<String>,
}

/// The phase with the turn that it belongs to.
pub fn correlate(turn_id: &str, event: RuntimePhaseEvent) -> (r: SynthesisPhaseEvent)
    ensures
        r.turn_id@ == turn_id@,
        r.model_id == event.model_id,
        r.phase == event.phase,
        r.duration_ms == event.duration_ms,
        r.timed_out == event.timed_out,
        r.fallback == event.fallback,
        r.repair == event.repair,
        r.failure_reason == event.failure_reason,
{
    SynthesisPhaseEvent {
        turn_id: turn_id.to_owned(),
        model_id: event.model_id,
        phase: event.phase,
        duration_ms: event.duration_ms,
        timed_out: event.timed_out,
        fallback: event.fallback,
        repair: event.repair,
        failure_reason: event.failure_reason,
    }
}

pub open spec fn text_view(value: Option<String>) -> Option<Seq<char>> {
    match value {
        Some(text) => Some(text@),
        None => None,
    }
}

pub open spec fn str_view(value: Option<&str>) -> Option<Seq<char>> {
    match value {
        Some(text) => Some(text@),
        None => None,
    }
}

pub open spec fn is_phase_event(
    event: RuntimePhaseEvent,
    model_id: Option<Seq<char>>,
    phase: SynthesisPhase,
    duration_ms: u64,
    timed_out: bool,
    fallback: bool,
    repair: bool,
    failure_reason: Option<Seq<char>>,
) -> bool {
    &&& text_view(event.model_id) == model_id
    &&& event.phase == phase
    &&& event.duration_ms == duration_ms
    &&& event.timed_out == timed_out
    &&& event.fallback == fallback
    &&& event.repair == repair
    &&& text_view(event.failure_reason) == failure_reason
}

fn owned(value: Option<&str>) -> (r: Option<String>)
    ensures
        text_view(r) == str_view(value),
{
    match value {
        Some(text) => Some(text.to_owned()),
        None => None,
    }
}

pub fn phase_event(
    model_id: Option<&str>,
    phase: SynthesisPhase,
    duration_ms: u64,
    timed_out: bool,
    fallback: bool,
    repair: bool,
    failure_reason: Option<&str>,
) -> (r: RuntimePhaseEvent)
    ensures
        is_phase_event(
            r,
            str_view(model_id),
            phase,
            duration_ms,
            timed_out,
            fallback,
            repair,
            str_view(failure_reason),
        ),
{
    RuntimePhaseEvent {
        model_id: owned(model_id),
        phase,
        duration_ms,
        timed_out,
        fallback,
        repair,
        failure_reason: owned(failure_reason),
    }
}

/// Milliseconds, as far as they can be told.
pub fn duration_ms(millis: u128) -> (r: u64)
    ensures
        r == (if millis <= u64::MAX {
            millis as u64
        } else {
            u64::MAX
        }),
{
    if millis <= u64::MAX as u128 {
        millis as u64
    } else {
        u64::MAX
    }
}

/// The milliseconds between two readings of a clock.
pub fn elapsed_ms(now: u128, started: u128) -> (r: u64)
    ensures
        r == (if now <= started {
            0
        } else if now - started <= u64::MAX {
            (now - started) as u64
        } else {
            u64::MAX
        }),
{
    if now <= started {
        0
    } else {
        duration_ms(now - started)
    }
}

pub open spec fn unavailable_terms() -> Seq<&'static str> {
    seq![
        "unavailable",
        "not found",
        "unknown model",
        "failed to load model",
        "failed to open model",
    ]
}

pub open spec fn transport_terms() -> Seq<&'static str> {
    seq!["connection", "transport", "sending request"]
}

pub open spec fn invalid_terms() -> Seq<&'static str> {
    seq!["parse", "invalid", "response"]
}

/// The kind of an error of the model, from its message.
pub open spec fn failure_reason(error: Seq<char>) -> Seq<char> {
    let lowered = ascii_lowercase(error);
    if contains(lowered, "truncated"@) {
        "truncated"@
    } else if contains(lowered, "empty completion"@) {
        "empty"@
    } else if contains(lowered, "timeout"@) || contains(lowered, "timed out"@) {
        "timeout"@
    } else if contains(lowered, "memory pressure"@) {
        "memory_pressure"@
    } else if contains_any(lowered, unavailable_terms()) {
        "model_unavailable"@
    } else if contains_any(lowered, transport_terms()) {
        "transport"@
    } else if contains_any(lowered, invalid_terms()) {
        "invalid_response"@
    } else {
        "model_error"@
    }
}

pub fn normalized_failure_reason(error: &str) -> (r: &'static str)
    ensures
        r@ == failure_reason(error@),
{
    let chars = chars_of(error);
    let lowered = lower_ascii(&chars);
    let unavailable = [
        "unavailable",
        "not found",
        "unknown model",
        "failed to load model",
        "failed to open model",
    ];
    let transport = ["connection", "transport", "sending request"];
    let invalid = ["parse", "invalid", "response"];
    proof {
        assert(unavailable@ =~= unavailable_terms());
        assert(transport@ =~= transport_terms());
        assert(invalid@ =~= invalid_terms());
    }
    if has(&lowered, "truncated") {
        "truncated"
    } else if has(&lowered, "empty completion") {
        "empty"
    } else if has(&lowered, "timeout") || has(&lowered, "timed out") {
        "timeout"
    } else if has(&lowered, "memory pressure") {
        "memory_pressure"
    } else if any_term(&lowered, &unavailable) {
        "model_unavailable"
    } else if any_term(&lowered, &transport) {
        "transport"
    } else if any_term(&lowered, &invalid) {
        "invalid_response"
    } else {
        "model_error"
    }
}

/// Why a model did not complete.
#[derive(Debug, PartialEq, Eq)]
pub enum ModelFailure {
    /// A fault of the runtime, with its category.
    Poisoned(String),
    /// Nothing came back in time.
    IndeterminateTimeout,
    Truncated,
    Empty,
    /// Any other error, with its message.
    Other(String),
}

pub open spec fn failure_category(failure: ModelFailure) -> Seq<char> {
    match failure {
        ModelFailure::Poisoned(category) => category@,
        ModelFailure::IndeterminateTimeout => "timeout"@,
        ModelFailure::Truncated => "truncated"@,
        ModelFailure::Empty => "empty"@,
        ModelFailure::Other(message) => failure_reason(message@),
    }
}

impl ModelFailure {
    pub fn category(&self) -> (r: &str)
        ensures
            r@ == failure_category(*self),
    {
        match self {
            ModelFailure::Poisoned(category) => category.as_str(),
            ModelFailure::IndeterminateTimeout => "timeout",
            ModelFailure::Truncated => "truncated",
            ModelFailure::Empty => "empty",
            ModelFailure::Other(message) => normalized_failure_reason(message.as_str()),
        }
    }

    /// The runtime cannot be trusted after this failure.
    pub fn is_poisoning(&self) -> (r: bool)
        ensures
            r == (*self is Poisoned || *self is IndeterminateTimeout),
    {
        matches!(self, ModelFailure::Poisoned(_) | ModelFailure::IndeterminateTimeout)
    }
}

#[derive(Clone, Copy, Debug, PartialEq, Eq, Structural)]
pub enum SynthesisRoute {
    Preferred,
    Repaired,
    Deterministic,
}

#[derive(Clone, Copy, Debug, PartialEq, Eq, Structural)]
pub enum PolishStatus {
    Skipped,
    Accepted,
    Rejected,
    TimedOut,
    Unavailable,
    MemoryIneligible,
}

#[derive(Debug, PartialEq, Eq)]
pub struct SynthesisOutcome {
    pub text: String,
    pub route: SynthesisRoute,
    pub polish_status: PolishStatus,
}

/// An answer that is being polished.
#[derive(Debug, PartialEq, Eq)]
pub struct Polish {
    /// The grounded answer.
    pub canonical: String,
    pub model: String,
    /// The polish was rejected once, and is being repaired.
    pub repair: bool,
}

/// What follows in the polish of an answer.
#[derive(Debug, PartialEq, Eq)]
pub enum PolishStep {
    /// Ask the model.
    Complete(Polish),
    /// Hold the response to the contract.
    Validate { polish: Polish, response: String },
    /// Render the response that the contract accepted.
    Render { polish: Polish, response: String },
    /// Ask the contract how to repair the response.
    RequestRepair { polish: Polish, errors: Vec<String> },
    Finished(SynthesisOutcome),
}

/// A step, and what is reported before it is taken.
#[derive(Debug, PartialEq, Eq)]
pub struct PolishMove {
    pub events: Vec<RuntimePhaseEvent>,
    pub step: PolishStep,
}

/// The grounded answer is given as it stands, for this reason.
pub open spec fn stays_canonical(
    outcome: SynthesisOutcome,
    event: RuntimePhaseEvent,
    canonical: Seq<char>,
    status: PolishStatus,
    reason: Option<Seq<char>>,
) -> bool {
    &&& outcome.text@ == canonical
    &&& outcome.route is Deterministic
    &&& outcome.polish_status == status
    &&& is_phase_event(
        event,
        None,
        SynthesisPhase::DeterministicRendering,
        0,
        false,
        false,
        false,
        reason,
    )
}

fn canonical_outcome(canonical: String, polish_status: PolishStatus) -> (r: SynthesisOutcome)
    ensures
        r.text == canonical,
        r.route is Deterministic,
        r.polish_status == polish_status,
{
    SynthesisOutcome { text: canonical, route: SynthesisRoute::Deterministic, polish_status }
}

fn canonical_event(reason: Option<&str>) -> (r: RuntimePhaseEvent)
    ensures
        is_phase_event(
            r,
            None,
            SynthesisPhase::DeterministicRendering,
            0,
            false,
            false,
            false,
            str_view(reason),
        ),
{
    phase_event(
        None,
        SynthesisPhase::DeterministicRendering,
        0,
        false,
        false,
        false,
        reason,
    )
}

/// The polish ends with the grounded answer.
pub open spec fn ends_canonical(
    result: PolishMove,
    canonical: Seq<char>,
    status: PolishStatus,
    reason: Option<Seq<char>>,
) -> bool {
    &&& result.events@.len() == 1
    &&& result.step matches PolishStep::Finished(outcome)
    &&& stays_canonical(outcome, result.events@[0], canonical, status, reason)
}

fn end_canonical(canonical: String, polish_status: PolishStatus, reason: Option<&str>) -> (r:
    PolishMove)
    ensures
        ends_canonical(r, canonical@, polish_status, str_view(reason)),
{
    let mut events: Vec<RuntimePhaseEvent> = Vec::new();
    events.push(canonical_event(reason));
    PolishMove { events, step: PolishStep::Finished(canonical_outcome(canonical, polish_status)) }
}

pub open spec fn completion_phase(repair: bool) -> SynthesisPhase {
    if repair {
        SynthesisPhase::Repairing
    } else {
        SynthesisPhase::PreparingAnswer
    }
}

fn phase_of(repair: bool) -> (r: SynthesisPhase)
    ensures
        r == completion_phase(repair),
{
    if repair {
        SynthesisPhase::Repairing
    } else {
        SynthesisPhase::PreparingAnswer
    }
}

/// The model is asked, and the beginning of its phase is reported.
pub open spec fn asks_model(
    result: PolishMove,
    canonical: Seq<char>,
    model: Seq<char>,
    repair: bool,
) -> bool {
    &&& result.events@.len() == 1
    &&& is_phase_event(
        result.events@[0],
        Some(model),
        completion_phase(repair),
        0,
        false,
        false,
        repair,
        None,
    )
    &&& result.step matches PolishStep::Complete(polish)
    &&& polish.canonical@ == canonical
    &&& polish.model@ == model
    &&& polish.repair == repair
}

fn ask_model(canonical: String, model: String, repair: bool) -> (r: PolishMove)
    ensures
        asks_model(r, canonical@, model@, repair),
{
    let mut events: Vec<RuntimePhaseEvent> = Vec::new();
    events.push(
        phase_event(
            Some(model.as_str()),
            phase_of(repair),
            0,
            false,
            false,
            repair,
            None,
        ),
    );
    PolishMove { events, step: PolishStep::Complete(Polish { canonical, model, repair }) }
}

/// How a polish begins.
pub open spec fn begins_polish(
    result: PolishMove,
    canonical: Seq<char>,
    eligible: bool,
    initial: Seq<ChatMessage>,
    model: Seq<char>,
) -> bool {
    if !eligible {
        ends_canonical(result, canonical, PolishStatus::Skipped, None)
    } else if !is_transcript(initial) {
        ends_canonical(result, canonical, PolishStatus::Rejected, Some("invalid_transcript"@))
    } else {
        asks_model(result, canonical, model, false)
    }
}

/// The first step: an answer that is not to be polished is given as it stands,
/// and so is one whose request is no transcript.
pub fn start_polish(
    canonical: String,
    eligible: bool,
    initial: &Vec<ChatMessage>,
    config: &SynthesisConfig,
) -> (r: PolishMove)
    ensures
        begins_polish(r, canonical@, eligible, initial@, config.preferred_model@),
{
    if !eligible {
        return end_canonical(canonical, PolishStatus::Skipped, None);
    }
    if !validate_transcript(initial) {
        return end_canonical(canonical, PolishStatus::Rejected, Some("invalid_transcript"));
    }
    ask_model(canonical, config.preferred_model.clone(), false)
}

/// What a failure of the model means for the polish.
pub open spec fn failure_status(failure: ModelFailure) -> PolishStatus {
    if failure is IndeterminateTimeout {
        PolishStatus::TimedOut
    } else {
        PolishStatus::Unavailable
    }
}

/// What follows the answer of the model: a response is held to the contract,
/// and after a failure the grounded answer stands.
pub open spec fn completion_follows(
    polish: Polish,
    attempt: Result<String, ModelFailure>,
    duration_ms: u64,
    result: PolishMove,
) -> bool {
    match attempt {
        Ok(response) => {
            &&& result.events@.len() == 1
            &&& is_phase_event(
                result.events@[0],
                Some(polish.model@),
                completion_phase(polish.repair),
                duration_ms,
                false,
                false,
                polish.repair,
                None,
            )
            &&& result.step == (PolishStep::Validate { polish, response })
        },
        Err(failure) => {
            &&& result.events@.len() == 2
            &&& is_phase_event(
                result.events@[0],
                Some(polish.model@),
                completion_phase(polish.repair),
                duration_ms,
                failure is IndeterminateTimeout,
                false,
                polish.repair,
                Some(failure_category(failure)),
            )
            &&& result.step matches PolishStep::Finished(outcome)
            &&& stays_canonical(
                outcome,
                result.events@[1],
                polish.canonical@,
                failure_status(failure),
                Some(failure_category(failure)),
            )
        },
    }
}

pub fn completion_done(
    polish: Polish,
    attempt: Result<String, ModelFailure>,
    duration_ms: u64,
) -> (r: PolishMove)
    ensures
        completion_follows(polish, attempt, duration_ms, r),
{
    let mut events: Vec<RuntimePhaseEvent> = Vec::new();
    match attempt {
        Ok(response) => {
            events.push(
                phase_event(
                    Some(polish.model.as_str()),
                    phase_of(polish.repair),
                    duration_ms,
                    false,
                    false,
                    polish.repair,
                    None,
                ),
            );
            PolishMove { events, step: PolishStep::Validate { polish, response } }
        },
        Err(failure) => {
            let timed_out = matches!(failure, ModelFailure::IndeterminateTimeout);
            events.push(
                phase_event(
                    Some(polish.model.as_str()),
                    phase_of(polish.repair),
                    duration_ms,
                    timed_out,
                    false,
                    polish.repair,
                    Some(failure.category()),
                ),
            );
            events.push(canonical_event(Some(failure.category())));
            let status = if timed_out {
                PolishStatus::TimedOut
            } else {
                PolishStatus::Unavailable
            };
            PolishMove {
                events,
                step: PolishStep::Finished(canonical_outcome(polish.canonical, status)),
            }
        },
    }
}

pub open spec fn first_error(errors: Seq<String>) -> Option<Seq<char>> {
    if errors.len() > 0 {
        Some(errors[0]@)
    } else {
        None
    }
}

pub open spec fn verdict_error(verdict: Result<(), Vec<String>>) -> Option<Seq<char>> {
    match verdict {
        Ok(_) => None,
        Err(errors) => first_error(errors@),
    }
}

/// What follows the verdict of the contract: a response that it accepts is
/// rendered, one that it rejects is repaired once.
pub open spec fn validation_follows(
    polish: Polish,
    response: String,
    verdict: Result<(), Vec<String>>,
    duration_ms: u64,
    result: PolishMove,
) -> bool {
    &&& result.events@.len() >= 1
    &&& is_phase_event(
        result.events@[0],
        None,
        SynthesisPhase::Validating,
        duration_ms,
        false,
        false,
        polish.repair,
        verdict_error(verdict),
    )
    &&& match verdict {
        Ok(_) => result.events@.len() == 1 && result.step == (PolishStep::Render {
            polish,
            response,
        }),
        Err(errors) => if !polish.repair {
            result.events@.len() == 1 && result.step == (PolishStep::RequestRepair {
                polish,
                errors,
            })
        } else {
            &&& result.events@.len() == 2
            &&& result.step matches PolishStep::Finished(outcome)
            &&& stays_canonical(
                outcome,
                result.events@[1],
                polish.canonical@,
                PolishStatus::Rejected,
                Some("repair_validation_failed"@),
            )
        },
    }
}

pub fn validation_done(
    polish: Polish,
    response: String,
    verdict: Result<(), Vec<String>>,
    duration_ms: u64,
) -> (r: PolishMove)
    ensures
        validation_follows(polish, response, verdict, duration_ms, r),
{
    let mut events: Vec<RuntimePhaseEvent> = Vec::new();
    match verdict {
        Ok(_) => {
            events.push(
                phase_event(
                    None,
                    SynthesisPhase::Validating,
                    duration_ms,
                    false,
                    false,
                    polish.repair,
                    None,
                ),
            );
            PolishMove { events, step: PolishStep::Render { polish, response } }
        },
        Err(errors) => {
            let reason: Option<&str> = if errors.len() > 0 {
                Some(errors[0].as_str())
            } else {
                None
            };
            events.push(
                phase_event(
                    None,
                    SynthesisPhase::Validating,
                    duration_ms,
                    false,
                    false,
                    polish.repair,
                    reason,
                ),
            );
            if !polish.repair {
                PolishMove { events, step: PolishStep::RequestRepair { polish, errors } }
            } else {
                events.push(canonical_event(Some("repair_validation_failed")));
                PolishMove {
                    events,
                    step: PolishStep::Finished(
                        canonical_outcome(polish.canonical, PolishStatus::Rejected),
                    ),
                }
            }
        },
    }
}

/// What follows the request of a repair.
pub open spec fn repair_follows(
    polish: Polish,
    request: Seq<ChatMessage>,
    result: PolishMove,
) -> bool {
    if is_transcript(request) {
        asks_model(result, polish.canonical@, polish.model@, true)
    } else {
        ends_canonical(
            result,
            polish.canonical@,
            PolishStatus::Rejected,
            Some("invalid_repair_transcript"@),
        )
    }
}

/// The model is asked to repair its response, where the request is a transcript.
pub fn repair_requested(polish: Polish, request: &Vec<ChatMessage>) -> (r: PolishMove)
    ensures
        repair_follows(polish, request@, r),
{
    if !validate_transcript(request) {
        return end_canonical(
            polish.canonical,
            PolishStatus::Rejected,
            Some("invalid_repair_transcript"),
        );
    }
    ask_model(polish.canonical, polish.model, true)
}

/// What follows the rendering of an accepted response.
pub open spec fn rendering_follows(
    polish: Polish,
    rendered: Option<String>,
    result: PolishMove,
) -> bool {
    match rendered {
        Some(text) => {
            &&& result.events@.len() == 0
            &&& result.step == (PolishStep::Finished(
                SynthesisOutcome {
                    text,
                    route: if polish.repair {
                        SynthesisRoute::Repaired
                    } else {
                        SynthesisRoute::Preferred
                    },
                    polish_status: PolishStatus::Accepted,
                },
            ))
        },
        None => ends_canonical(
            result,
            polish.canonical@,
            PolishStatus::Rejected,
            Some("validated_render_failed"@),
        ),
    }
}

pub fn rendering_done(polish: Polish, rendered: Option<String>) -> (r: PolishMove)
    ensures
        rendering_follows(polish, rendered, r),
{
    match rendered {
        Some(text) => PolishMove {
            events: Vec::new(),
            step: PolishStep::Finished(
                SynthesisOutcome {
                    text,
                    route: if polish.repair {
                        SynthesisRoute::Repaired
                    } else {
                        SynthesisRoute::Preferred
                    },
                    polish_status: PolishStatus::Accepted,
                },
            ),
        },
        None => end_canonical(
            polish.canonical,
            PolishStatus::Rejected,
            Some("validated_render_failed"),
        ),
    }
}

/// One move follows another, whatever the model and the contract answered.
pub open spec fn follows(before: PolishMove, after: PolishMove) -> bool {
    match before.step {
        PolishStep::Complete(polish) => exists|attempt: Result<String, ModelFailure>, ms: u64|
            completion_follows(polish, attempt, ms, after),
        PolishStep::Validate { polish, response } => exists|
            verdict: Result<(), Vec<String>>,
            ms: u64,
        | validation_follows(polish, response, verdict, ms, after),
        PolishStep::Render { polish, response } => exists|rendered: Option<String>|
            rendering_follows(polish, rendered, after),
        PolishStep::RequestRepair { polish, errors } => exists|request: Seq<ChatMessage>|
            repair_follows(polish, request, after),
        PolishStep::Finished(_) => false,
    }
}

/// A polish from its beginning, move by move.
pub open spec fn is_run(moves: Seq<PolishMove>, canonical: Seq<char>) -> bool {
    &&& moves.len() > 0
    &&& exists|eligible: bool, initial: Seq<ChatMessage>, model: Seq<char>|
        begins_polish(moves[0], canonical, eligible, initial, model)
    &&& forall|i: int| 0 <= i < moves.len() - 1 ==> follows(#[trigger] moves[i], moves[i + 1])
}

/// The grounded answer is at hand, or is what was given unless its polish was
/// accepted.
pub open spec fn holds_canonical(step: PolishStep, canonical: Seq<char>) -> bool {
    match step {
        PolishStep::Complete(polish) => polish.canonical@ == canonical,
        PolishStep::Validate { polish, response } => polish.canonical@ == canonical,
        PolishStep::Render { polish, response } => polish.canonical@ == canonical,
        PolishStep::RequestRepair { polish, errors } => polish.canonical@ == canonical
            && !polish.repair,
        PolishStep::Finished(outcome) => {
            ||| outcome.polish_status is Accepted && !(outcome.route is Deterministic)
            ||| outcome.text@ == canonical && outcome.route is Deterministic
                && !(outcome.polish_status is Accepted)
        },
    }
}

/// How many moves can still follow.
pub open spec fn moves_left(step: PolishStep) -> nat {
    match step {
        PolishStep::Complete(polish) => if polish.repair {
            3
        } else {
            6
        },
        PolishStep::Validate { polish, response } => if polish.repair {
            2
        } else {
            5
        },
        PolishStep::RequestRepair { polish, errors } => 4,
        PolishStep::Render { polish, response } => 1,
        PolishStep::Finished(_) => 0,
    }
}

proof fn lemma_follows(before: PolishMove, after: PolishMove, canonical: Seq<char>)
    requires
        follows(before, after),
        holds_canonical(before.step, canonical),
    ensures
        holds_canonical(after.step, canonical),
        moves_left(after.step) < moves_left(before.step),
{
}

proof fn lemma_run(moves: Seq<PolishMove>, canonical: Seq<char>, n: int)
    requires
        is_run(moves, canonical),
        0 <= n < moves.len(),
    ensures
        holds_canonical(moves[n].step, canonical),
        moves_left(moves[n].step) + n <= 6,
    decreases n,
{
    if n > 0 {
        lemma_run(moves, canonical, n - 1);
        assert(follows(moves[n - 1], moves[n - 1 + 1]));
        lemma_follows(moves[n - 1], moves[n], canonical);
    }
}

/// Whatever the model and the contract do, the grounded answer is given byte
/// for byte unless its polish was accepted, and then it is marked as such.
pub proof fn the_grounded_answer_stands(moves: Seq<PolishMove>, canonical: Seq<char>)
    requires
        is_run(moves, canonical),
        moves.last().step is Finished,
    ensures
        ({
            let outcome = moves.last().step->Finished_0;
            &&& outcome.polish_status is Accepted || outcome.text@ == canonical
            &&& outcome.polish_status is Accepted <==> !(outcome.route is Deterministic)
        }),
{
    lemma_run(moves, canonical, moves.len() - 1);
}

/// A polish ends: after its first move there are at most six more, so the model
/// is asked at most twice and a response is repaired at most once.
pub proof fn a_polish_ends(moves: Seq<PolishMove>, canonical: Seq<char>)
    requires
        is_run(moves, canonical),
    ensures
        moves.len() <= 7,
        moves.len() == 7 ==> moves.last().step is Finished,
{
    lemma_run(moves, canonical, moves.len() - 1);
}

/// A response that the contract rejects never becomes the answer.
pub proof fn rejected_responses_are_not_given(
    polish: Polish,
    response: String,
    verdict: Result<(), Vec<String>>,
    duration_ms: u64,
    result: PolishMove,
)
    requires
        validation_follows(polish, response, verdict, duration_ms, result),
        verdict is Err,
    ensures
        !(result.step is Render),
        result.step is Finished ==> result.step->Finished_0.text@ == polish.canonical@,
{
}

} // verus!
