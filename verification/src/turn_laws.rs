//! What a plan allows, what the mail store answers and how an answer is polished.

use crate::mail_adapter::{
    backend_error, error_status, is_header_of, opaque_name, reports_body, reports_headers,
    reports_messages, sound, timeout_terms, BackendReply, MailMessage,
};
use crate::planner::{budget_of, requirements_of};
use crate::synthesis::{
    begins_polish, completion_follows, failure_category, failure_reason, failure_status,
    invalid_terms, rendering_follows, repair_follows, text_view, transport_terms, unavailable_terms,
    validation_follows, ChatMessage, ModelFailure, Polish, PolishMove, PolishStep,
};
use crate::text::{ascii_lowercase, contains, contains_any, trim};
use crate::types::{
    EvidenceIntent, EvidenceRequirement, ExecutionStatus, FailureCode, MailBodyEvidence,
    MailHeaderEvidence, OperationResult,
};
use vstd::prelude::*;

verus! {

/// A plan asks for as much as its intent: the headers it counts, their bodies where it
/// reads content, one page, or one or two sources.
pub proof fn plans_ask_for_what_is_meant(intent: EvidenceIntent)
    ensures
        intent matches EvidenceIntent::MailLatestHeaders { count, .. } ==> requirements_of(intent)
            == seq![EvidenceRequirement::MailHeaders { count }],
        intent matches EvidenceIntent::MailLatestContent { count, .. } ==> requirements_of(intent)
            == seq![
            EvidenceRequirement::MailHeaders { count },
            EvidenceRequirement::MailBodies { count },
        ],
        intent matches EvidenceIntent::MailTargeted { needs_content, .. } ==> requirements_of(intent)
            == seq![EvidenceRequirement::TargetedMail { needs_content }],
        intent is WebDirectPage ==> requirements_of(intent) == seq![EvidenceRequirement::DirectPage],
        intent matches EvidenceIntent::WebFact { verification, .. } ==> requirements_of(intent)
            == seq![
            EvidenceRequirement::FetchedSources {
                count: if verification is Corroborated {
                    2
                } else {
                    1
                },
            },
        ],
{
}

/// A plan allows what its intent needs: one listing and as many bodies as are counted for
/// mail, one fetch for a page, and for a question two searches and five fetches, two of
/// them at a time. Mail and the web are never allowed together.
pub proof fn plans_allow_what_is_needed(intent: EvidenceIntent)
    ensures
        ({
            let budget = budget_of(intent);
            &&& intent is MailLatestHeaders || intent is MailLatestContent || intent is MailTargeted
                ==> budget.mail_list_attempts == 1 && budget.web_search_attempts == 0
                && budget.web_fetch_attempts == 0 && budget.max_parallel_fetches == 0
                && budget.optional_exploration_rounds == 0
            &&& intent is MailLatestHeaders ==> budget.mail_body_attempts == 0
            &&& intent matches EvidenceIntent::MailLatestContent { count, .. } ==> (count <= 10
                ==> budget.mail_body_attempts == count)
            &&& intent matches EvidenceIntent::MailLatestContent { count, .. } ==> (count > 10
                ==> budget.mail_body_attempts == 10)
            &&& intent matches EvidenceIntent::MailTargeted { needs_content, .. } ==> (needs_content
                ==> budget.mail_body_attempts == 2)
            &&& intent matches EvidenceIntent::MailTargeted { needs_content, .. } ==> (
            !needs_content ==> budget.mail_body_attempts == 0)
            &&& intent is WebDirectPage || intent is WebFact ==> budget.mail_list_attempts == 0
                && budget.mail_body_attempts == 0
            &&& intent is WebDirectPage ==> budget.web_search_attempts == 0
                && budget.web_fetch_attempts == 1 && budget.max_parallel_fetches == 1
                && budget.optional_exploration_rounds == 0
            &&& intent is WebFact ==> budget.web_search_attempts == 2 && budget.web_fetch_attempts
                == 5 && budget.max_parallel_fetches == 2 && budget.optional_exploration_rounds == 1
        }),
{
}

proof fn lemma_timeouts(s: Seq<char>)
    ensures
        contains_any(s, timeout_terms()) <==> contains(s, "timed out"@)
            || contains(s, "database is locked"@)
            || contains(s, "database is busy"@),
{
    let terms = timeout_terms();
    assert(terms.len() == 3);
    assert(terms[0] == "timed out");
    assert(terms[1] == "database is locked");
    assert(terms[2] == "database is busy");
    if contains_any(s, terms) {
        let i = choose|i: int| 0 <= i < terms.len() && contains(s, (#[trigger] terms[i])@);
        assert(i == 0 || i == 1 || i == 2);
    }
}

/// What went wrong with the mail store is known by its message, a timeout before anything
/// else, and every fault has its own status.
pub proof fn store_faults_are_known_by_these_words(message: Seq<char>)
    ensures
        ({
            let text = ascii_lowercase(message);
            let late = contains(text, "timed out"@) || contains(text, "database is locked"@) || contains(text, "database is busy"@);
            let reset = contains(text, "connection reset"@);
            &&& late <==> backend_error(message) is TimedOut
            &&& !late && reset <==> backend_error(message) is ConnectionReset
            &&& !late && !reset <==> backend_error(message) is Unavailable
            &&& late ==> error_status(backend_error(message)) is TimedOut
            &&& !late && reset ==> error_status(backend_error(message)) == ExecutionStatus::Failed(
                FailureCode::ConnectionReset,
            )
            &&& !late && !reset ==> error_status(backend_error(message)) == ExecutionStatus::Failed(
                FailureCode::ConnectorUnavailable,
            )
        }),
{
    lemma_timeouts(ascii_lowercase(message));
}

/// The messages that can be shown are those with a positive row and a date in range, in
/// their order.
pub proof fn sound_messages_are_kept(messages: Seq<MailMessage>)
    ensures
        sound(messages) == messages.filter(
            |m: MailMessage|
                m.rowid > 0 && -8_334_601_228_800 <= m.received_at <= 8_210_266_876_799,
        ),
    decreases messages.len(),
{
    reveal(Seq::filter);
    if messages.len() > 0 {
        sound_messages_are_kept(messages.drop_last());
    }
}

/// A listing reports a header for each message that can be shown, with its sender, its
/// subject and its time, and counts the others as unreadable; only then it has failed.
pub proof fn listings_report_their_messages(
    result: OperationResult<Vec<MailHeaderEvidence>>,
    key: Seq<char>,
    messages: Seq<MailMessage>,
    duration_ms: u64,
    k: int,
)
    requires
        reports_messages(result, key, messages, duration_ms),
        result.value is Some,
        0 <= k < result.value->0@.len(),
        messages.len() <= 255,
    ensures
        ({
            let good = messages.filter(
                |m: MailMessage|
                    m.rowid > 0 && -8_334_601_228_800 <= m.received_at <= 8_210_266_876_799,
            );
            &&& result.value->0@.len() == good.len()
            &&& result.value->0@[k].sender@ == good[k].sender@
            &&& result.value->0@[k].subject@ == good[k].subject@
            &&& result.value->0@[k].received_at == good[k].received_at
            &&& result.value->0@[k].evidence_id@ == opaque_name("mail-header"@, good[k].rowid)
            &&& result.invalid_items + good.len() == messages.len()
            &&& result.execution is Succeeded <==> good.len() == messages.len()
            &&& result.execution is Succeeded ==> result.contribution is Satisfied
            &&& !(result.execution is Succeeded) ==> result.contribution is Partial
            &&& result.key@ == key
            &&& result.attempts == 1
            &&& result.duration_ms == duration_ms
        }),
{
    sound_messages_are_kept(messages);
    messages.lemma_filter_len(
        |m: MailMessage| m.rowid > 0 && -8_334_601_228_800 <= m.received_at <= 8_210_266_876_799,
    );
    assert(is_header_of(result.value->0@[k], sound(messages)[k]));
}

/// The text of a message is reported as far as four thousand characters, under the names
/// of its row; a blank one is empty where the store has it and unavailable where not.
pub proof fn reads_report_their_message(
    result: OperationResult<MailBodyEvidence>,
    key: Seq<char>,
    message: MailMessage,
    duration_ms: u64,
)
    requires
        reports_body(result, key, message, duration_ms),
    ensures
        message.rowid <= 0 ==> result.value is None && result.execution == ExecutionStatus::Failed(
            FailureCode::ParseFailure,
        ),
        message.rowid > 0 ==> result.execution is Succeeded,
        message.rowid > 0 ==> (result.value matches Some(body) && body.header_id@ == opaque_name(
            "mail-header"@,
            message.rowid,
        ) && body.evidence_id@ == opaque_name("mail-body"@, message.rowid)),
        message.rowid > 0 && (message.body matches Some(text) && trim(text@).len() > 0) ==> (
        result.value matches Some(body) && body.body_state is Readable
            && body.body_origin is LocalEmlx && body.body@.is_prefix_of(message.body->0@) && (
        message.body->0@.len() <= 4000 ==> body.body@ == message.body->0@) && (
        message.body->0@.len() > 4000 ==> body.body@.len() == 4000) && result.contribution
            is Satisfied),
        message.rowid > 0 && (message.body matches Some(text) ==> trim(text@).len() == 0) ==> (
        result.value matches Some(body) && body.body@.len() == 0 && result.contribution is Empty && (
        message.body is Some && message.body_available <==> body.body_state is Empty) && (!(
        message.body is Some && message.body_available) <==> body.body_state
            is UnavailableLocally)),
{
    if message.body is Some {
        crate::text_laws::prefixes_are_the_front(message.body->0@, 4000);
    }
}

/// A store that fails says why, and one that is lost has failed; neither reports anything.
pub proof fn failing_stores_report_nothing(
    result: OperationResult<Vec<MailHeaderEvidence>>,
    key: Seq<char>,
    reply: BackendReply<Vec<MailMessage>>,
    duration_ms: u64,
)
    requires
        reports_headers(result, key, reply, duration_ms),
        !(reply is Answered),
    ensures
        result.value is None,
        result.contribution is Empty,
        result.key@ == key,
        !(result.execution is Succeeded),
        reply is Lost ==> result.execution == ExecutionStatus::Failed(FailureCode::OtherNormalized),
        reply matches BackendReply::Failed(error) ==> (error is TimedOut <==> result.execution
            is TimedOut),
{
}

proof fn lemma_unavailable(s: Seq<char>)
    ensures
        contains_any(s, unavailable_terms()) <==> contains(s, "unavailable"@)
            || contains(s, "not found"@)
            || contains(s, "unknown model"@)
            || contains(s, "failed to load model"@)
            || contains(s, "failed to open model"@),
{
    let terms = unavailable_terms();
    assert(terms.len() == 5);
    assert(terms[0] == "unavailable");
    assert(terms[1] == "not found");
    assert(terms[2] == "unknown model");
    assert(terms[3] == "failed to load model");
    assert(terms[4] == "failed to open model");
    if contains_any(s, terms) {
        let i = choose|i: int| 0 <= i < terms.len() && contains(s, (#[trigger] terms[i])@);
        assert(i == 0 || i == 1 || i == 2 || i == 3 || i == 4);
    }
}

proof fn lemma_transport(s: Seq<char>)
    ensures
        contains_any(s, transport_terms()) <==> contains(s, "connection"@)
            || contains(s, "transport"@)
            || contains(s, "sending request"@),
{
    let terms = transport_terms();
    assert(terms.len() == 3);
    assert(terms[0] == "connection");
    assert(terms[1] == "transport");
    assert(terms[2] == "sending request");
    if contains_any(s, terms) {
        let i = choose|i: int| 0 <= i < terms.len() && contains(s, (#[trigger] terms[i])@);
        assert(i == 0 || i == 1 || i == 2);
    }
}

proof fn lemma_invalid(s: Seq<char>)
    ensures
        contains_any(s, invalid_terms()) <==> contains(s, "parse"@)
            || contains(s, "invalid"@)
            || contains(s, "response"@),
{
    let terms = invalid_terms();
    assert(terms.len() == 3);
    assert(terms[0] == "parse");
    assert(terms[1] == "invalid");
    assert(terms[2] == "response");
    if contains_any(s, terms) {
        let i = choose|i: int| 0 <= i < terms.len() && contains(s, (#[trigger] terms[i])@);
        assert(i == 0 || i == 1 || i == 2);
    }
}

/// Why a model failed is known by the words of its error; the first of these that applies
/// names it.
pub proof fn model_faults_are_known_by_these_words(error: Seq<char>)
    ensures
        ({
            let text = ascii_lowercase(error);
            let truncated = contains(text, "truncated"@);
            let empty = contains(text, "empty completion"@);
            let late = contains(text, "timeout"@) || contains(text, "timed out"@);
            let memory = contains(text, "memory pressure"@);
            let unavailable = contains(text, "unavailable"@) || contains(text, "not found"@) || contains(text, "unknown model"@) || contains(text, "failed to load model"@) || contains(text, "failed to open model"@);
            let transport = contains(text, "connection"@) || contains(text, "transport"@) || contains(text, "sending request"@);
            let invalid = contains(text, "parse"@) || contains(text, "invalid"@) || contains(text, "response"@);
            &&& truncated ==> failure_reason(error) == "truncated"@
            &&& !truncated && empty ==> failure_reason(error) == "empty"@
            &&& !truncated && !empty && late ==> failure_reason(error) == "timeout"@
            &&& !truncated && !empty && !late && memory ==> failure_reason(error)
                == "memory_pressure"@
            &&& !truncated && !empty && !late && !memory && unavailable ==> failure_reason(error)
                == "model_unavailable"@
            &&& !truncated && !empty && !late && !memory && !unavailable && transport
                ==> failure_reason(error) == "transport"@
            &&& !truncated && !empty && !late && !memory && !unavailable && !transport && invalid
                ==> failure_reason(error) == "invalid_response"@
            &&& !truncated && !empty && !late && !memory && !unavailable && !transport && !invalid
                ==> failure_reason(error) == "model_error"@
        }),
{
    let text = ascii_lowercase(error);
    lemma_unavailable(text);
    lemma_transport(text);
    lemma_invalid(text);
}

/// A fault of the model is named by its kind, and only a timeout counts as one.
pub proof fn model_faults_are_named(failure: ModelFailure)
    ensures
        failure is IndeterminateTimeout ==> failure_category(failure) == "timeout"@
            && failure_status(failure) is TimedOut,
        failure is Truncated ==> failure_category(failure) == "truncated"@,
        failure is Empty ==> failure_category(failure) == "empty"@,
        failure matches ModelFailure::Poisoned(category) ==> failure_category(failure) == category@,
        failure matches ModelFailure::Other(message) ==> failure_category(failure)
            == failure_reason(message@),
        !(failure is IndeterminateTimeout) ==> failure_status(failure) is Unavailable,
{
}

/// A polish begins with the model exactly where it is allowed and the transcript is a
/// system message and a user message without tools; else the grounded answer stands.
pub proof fn polish_begins_with_a_transcript(
    result: PolishMove,
    canonical: Seq<char>,
    eligible: bool,
    initial: Seq<ChatMessage>,
    model: Seq<char>,
)
    requires
        begins_polish(result, canonical, eligible, initial, model),
    ensures
        ({
            let fits = initial.len() == 2 && initial[0].role@ == "system"@ && initial[1].role@
                == "user"@ && initial[0].tool_calls@.len() == 0 && initial[1].tool_calls@.len() == 0
                && initial[0].tool_call_id is None && initial[1].tool_call_id is None;
            &&& eligible && fits <==> result.step is Complete
            &&& result.step matches PolishStep::Complete(polish) ==> polish.canonical@ == canonical
                && polish.model@ == model && !polish.repair
            &&& !(result.step is Complete) ==> (result.step matches PolishStep::Finished(outcome)
                && outcome.text@ == canonical && outcome.route is Deterministic && (!eligible
                ==> outcome.polish_status is Skipped) && (eligible ==> outcome.polish_status
                is Rejected))
        }),
{
}

/// A model's response is held to the contract; a model that fails leaves the grounded
/// answer, with the reason.
pub proof fn failed_completions_leave_the_answer(
    polish: Polish,
    attempt: Result<String, ModelFailure>,
    duration_ms: u64,
    result: PolishMove,
)
    requires
        completion_follows(polish, attempt, duration_ms, result),
    ensures
        attempt matches Ok(text) ==> (result.step matches PolishStep::Validate {
            polish: next,
            response,
        } && next == polish && response == text),
        attempt matches Err(failure) ==> (result.step matches PolishStep::Finished(outcome)
            && outcome.text@ == polish.canonical@ && outcome.route is Deterministic && (
        failure is IndeterminateTimeout <==> outcome.polish_status is TimedOut) && (!(
        failure is IndeterminateTimeout) <==> outcome.polish_status is Unavailable)),
        result.events@[0].duration_ms == duration_ms,
        result.events@[0].repair == polish.repair,
        polish.repair ==> result.events@[0].phase is Repairing,
        !polish.repair ==> result.events@[0].phase is PreparingAnswer,
        text_view(result.events@[0].model_id) == Some(polish.model@),
{
}

/// A response is rendered exactly where the contract accepts it, and repaired once; after
/// that the grounded answer stands.
pub proof fn rejected_responses_are_repaired_once(
    polish: Polish,
    response: String,
    verdict: Result<(), Vec<String>>,
    duration_ms: u64,
    result: PolishMove,
)
    requires
        validation_follows(polish, response, verdict, duration_ms, result),
    ensures
        verdict is Ok <==> result.step is Render,
        verdict is Err && !polish.repair <==> result.step is RequestRepair,
        verdict is Err && polish.repair <==> result.step is Finished,
        result.step matches PolishStep::Render { response: kept, polish: next } ==> kept == response
            && next == polish,
        result.step matches PolishStep::Finished(outcome) ==> outcome.text@ == polish.canonical@
            && outcome.polish_status is Rejected,
        verdict matches Err(errors) ==> (errors@.len() > 0 ==> text_view(
            result.events@[0].failure_reason,
        ) == Some(errors@[0]@)),
        result.events@[0].phase is Validating,
{
}

/// A repair keeps the answer and the model; a rendered answer is given by its route, and
/// without one the grounded answer stands.
pub proof fn repairs_and_renderings_keep_the_answer(
    polish: Polish,
    request: Seq<ChatMessage>,
    rendered: Option<String>,
    repaired: PolishMove,
    finished: PolishMove,
)
    requires
        repair_follows(polish, request, repaired),
        rendering_follows(polish, rendered, finished),
    ensures
        repaired.step matches PolishStep::Complete(next) ==> next.repair && next.canonical@
            == polish.canonical@ && next.model@ == polish.model@,
        finished.step matches PolishStep::Finished(outcome) && (rendered matches Some(text)
            ==> outcome.text == text && outcome.polish_status is Accepted && (polish.repair
            <==> outcome.route is Repaired) && (!polish.repair <==> outcome.route is Preferred))
            && (rendered is None ==> outcome.text@ == polish.canonical@
            && outcome.route is Deterministic && outcome.polish_status is Rejected),
{
}

/// A completion that fails is reported with its model, its time and its cause, and
/// then the answer that is given instead, with the same cause.
pub proof fn failed_completions_are_reported(
    polish: Polish,
    failure: ModelFailure,
    duration_ms: u64,
    result: PolishMove,
)
    requires
        completion_follows(polish, Err(failure), duration_ms, result),
    ensures
        result.events@.len() == 2,
        text_view(result.events@[0].model_id) == Some(polish.model@),
        result.events@[0].duration_ms == duration_ms,
        result.events@[0].timed_out == (failure is IndeterminateTimeout),
        !result.events@[0].fallback,
        result.events@[0].repair == polish.repair,
        text_view(result.events@[0].failure_reason) == Some(failure_category(failure)),
        result.events@[0].phase is Repairing <==> polish.repair,
        result.events@[0].phase is PreparingAnswer <==> !polish.repair,
        text_view(result.events@[1].model_id) is None,
        result.events@[1].phase is DeterministicRendering,
        result.events@[1].duration_ms == 0,
        !result.events@[1].timed_out,
        !result.events@[1].fallback,
        !result.events@[1].repair,
        text_view(result.events@[1].failure_reason) == Some(failure_category(failure)),
{
}

/// A verdict is reported with its first error, and a second rejection with the answer
/// that is given instead.
pub proof fn verdicts_are_reported(
    polish: Polish,
    response: String,
    verdict: Result<(), Vec<String>>,
    duration_ms: u64,
    result: PolishMove,
)
    requires
        validation_follows(polish, response, verdict, duration_ms, result),
    ensures
        result.events@[0].phase is Validating,
        result.events@[0].duration_ms == duration_ms,
        result.events@[0].repair == polish.repair,
        !result.events@[0].timed_out,
        text_view(result.events@[0].model_id) is None,
        verdict is Ok ==> text_view(result.events@[0].failure_reason) is None,
        verdict matches Err(errors) ==> (errors@.len() > 0 ==> text_view(
            result.events@[0].failure_reason,
        ) == Some(errors@[0]@)),
        verdict is Err && polish.repair ==> result.events@.len() == 2
            && result.events@[1].phase is DeterministicRendering && text_view(
            result.events@[1].failure_reason,
        ) == Some("repair_validation_failed"@),
        verdict is Ok || !polish.repair ==> result.events@.len() == 1,
{
}

/// Why the grounded answer stands is reported where it stands for another reason than
/// that no polish was wanted.
pub proof fn standing_answers_are_explained(
    result: PolishMove,
    canonical: Seq<char>,
    eligible: bool,
    initial: Seq<ChatMessage>,
    model: Seq<char>,
    polish: Polish,
    repaired: PolishMove,
    rendered: PolishMove,
)
    requires
        begins_polish(result, canonical, eligible, initial, model),
        repair_follows(polish, initial, repaired),
        rendering_follows(polish, None, rendered),
    ensures
        !eligible ==> result.events@.len() == 1 && text_view(result.events@[0].failure_reason)
            is None,
        eligible && result.step is Finished ==> text_view(result.events@[0].failure_reason) == Some(
            "invalid_transcript"@,
        ),
        repaired.step is Finished ==> text_view(repaired.events@[0].failure_reason) == Some(
            "invalid_repair_transcript"@,
        ),
        text_view(rendered.events@[0].failure_reason) == Some("validated_render_failed"@),
        rendered.events@.len() == 1,
        rendered.step is Finished,
{
}

} // verus!
