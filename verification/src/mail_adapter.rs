//! What the mail connector returns, as evidence.

use crate::gate::{row_number, row_of, signed_chars, signed_text};
use crate::identity::{first_bytes, hex_prefix, lemma_graphic_is_valid};
use crate::text::{
    all_graphic, any_term, ascii_lowercase, chars_of, contains_any, has, hex,
    lemma_decimal_graphic, lemma_graphic_concat, lemma_hex_graphic, lower_ascii, prefix, prefix_of,
    push_all, push_text, sha256, sha256_digest, string_of, trim, words, words_of,
};
use crate::types::{
    operation_key, valid_id, BodyOrigin, BodyState, EvidenceContribution, EvidenceId,
    EvidenceOperation, ExecutionStatus, FailureCode, MailBodyEvidence, MailHeaderEvidence,
    OperationResult, ValidatedMailId,
};
use crate::validator::is_blank;
use vstd::prelude::*;

verus! {

pub const MAX_BODY_CHARS: usize = 4000;

/// A message as the connector gives it.
#[derive(Debug, PartialEq, Eq)]
pub struct MailMessage {
    pub rowid: i64,
    pub sender: String,
    pub subject: String,
    /// Seconds since the Unix epoch.
    pub received_at: i64,
    pub body: Option<String>,
    pub body_available: bool,
}

#[derive(Clone, Copy, Debug, PartialEq, Eq, Structural)]
pub enum AppleMailBackendError {
    Unavailable,
    TimedOut,
    ConnectionReset,
}

/// What came of asking the connector: its answer, its error, or no answer
/// because the task that asked was lost.
#[derive(Debug, PartialEq, Eq)]
pub enum BackendReply<T> {
    Answered(T),
    Failed(AppleMailBackendError),
    Lost,
}

pub open spec fn timeout_terms() -> Seq<&'static str> {
    seq!["timed out", "database is locked", "database is busy"]
}

/// The kind of an error of the connector, from its message.
pub open spec fn backend_error(message: Seq<char>) -> AppleMailBackendError {
    let lowered = ascii_lowercase(message);
    if contains_any(lowered, timeout_terms()) {
        AppleMailBackendError::TimedOut
    } else if crate::text::contains(lowered, "connection reset"@) {
        AppleMailBackendError::ConnectionReset
    } else {
        AppleMailBackendError::Unavailable
    }
}

pub fn normalize_backend_error(message: &str) -> (r: AppleMailBackendError)
    ensures
        r == backend_error(message@),
{
    let chars = chars_of(message);
    let lowered = lower_ascii(&chars);
    let timeouts = ["timed out", "database is locked", "database is busy"];
    proof {
        assert(timeouts@ =~= timeout_terms());
    }
    if any_term(&lowered, &timeouts) {
        AppleMailBackendError::TimedOut
    } else if has(&lowered, "connection reset") {
        AppleMailBackendError::ConnectionReset
    } else {
        AppleMailBackendError::Unavailable
    }
}

/// A value that an operation gave.
pub open spec fn is_value_result<T>(
    result: OperationResult<T>,
    key: Seq<char>,
    value: T,
    contribution: EvidenceContribution,
    duration_ms: u64,
) -> bool {
    &&& result.key@ == key
    &&& result.attempts == 1
    &&& result.execution == ExecutionStatus::Succeeded
    &&& result.contribution == contribution
    &&& result.value == Some(value)
    &&& result.duration_ms == duration_ms
    &&& result.invalid_items == 0
}

pub fn value_result<T>(
    operation: &EvidenceOperation,
    value: T,
    contribution: EvidenceContribution,
    duration_ms: u64,
) -> (r: OperationResult<T>)
    ensures
        is_value_result(r, operation_key(*operation), value, contribution, duration_ms),
{
    OperationResult {
        key: operation.key(),
        attempts: 1,
        execution: ExecutionStatus::Succeeded,
        contribution,
        value: Some(value),
        duration_ms,
        invalid_items: 0,
    }
}

/// An operation that ended in this way, without a value.
pub open spec fn is_status_result<T>(
    result: OperationResult<T>,
    key: Seq<char>,
    execution: ExecutionStatus,
    contribution: EvidenceContribution,
    duration_ms: u64,
) -> bool {
    &&& result.key@ == key
    &&& result.attempts == 1
    &&& result.execution == execution
    &&& result.contribution == contribution
    &&& result.value is None
    &&& result.duration_ms == duration_ms
    &&& result.invalid_items == 0
}

pub fn failed_result<T>(
    operation: &EvidenceOperation,
    failure: FailureCode,
    contribution: EvidenceContribution,
    duration_ms: u64,
) -> (r: OperationResult<T>)
    ensures
        is_status_result(
            r,
            operation_key(*operation),
            ExecutionStatus::Failed(failure),
            contribution,
            duration_ms,
        ),
{
    OperationResult {
        key: operation.key(),
        attempts: 1,
        execution: ExecutionStatus::Failed(failure),
        contribution,
        value: None,
        duration_ms,
        invalid_items: 0,
    }
}

pub open spec fn error_status(error: AppleMailBackendError) -> ExecutionStatus {
    match error {
        AppleMailBackendError::Unavailable => ExecutionStatus::Failed(
            FailureCode::ConnectorUnavailable,
        ),
        AppleMailBackendError::TimedOut => ExecutionStatus::TimedOut,
        AppleMailBackendError::ConnectionReset => ExecutionStatus::Failed(
            FailureCode::ConnectionReset,
        ),
    }
}

pub fn backend_error_result<T>(
    operation: &EvidenceOperation,
    error: AppleMailBackendError,
    duration_ms: u64,
) -> (r: OperationResult<T>)
    ensures
        is_status_result(
            r,
            operation_key(*operation),
            error_status(error),
            EvidenceContribution::Empty,
            duration_ms,
        ),
{
    let execution = match error {
        AppleMailBackendError::Unavailable => ExecutionStatus::Failed(
            FailureCode::ConnectorUnavailable,
        ),
        AppleMailBackendError::TimedOut => ExecutionStatus::TimedOut,
        AppleMailBackendError::ConnectionReset => ExecutionStatus::Failed(
            FailureCode::ConnectionReset,
        ),
    };
    OperationResult {
        key: operation.key(),
        attempts: 1,
        execution,
        contribution: EvidenceContribution::Empty,
        value: None,
        duration_ms,
        invalid_items: 0,
    }
}

/// A name for a message that does not show its number.
pub open spec fn opaque_name(kind: Seq<char>, rowid: i64) -> Seq<char> {
    kind + "-"@ + hex(
        first_bytes(
            sha256(vstd::utf8::encode_utf8(kind + ":"@ + signed_text(rowid as int))),
            16,
        ),
    )
}

pub fn opaque_evidence_id(kind: &str, rowid: i64) -> (r: EvidenceId)
    requires
        all_graphic(kind@),
    ensures
        r@ == opaque_name(kind@, rowid),
{
    let mut seed = chars_of(kind);
    push_text(&mut seed, ":");
    push_all(&mut seed, &signed_chars(rowid));
    let seed_text = string_of(&seed);
    let digest = sha256_digest(seed_text.as_str().as_bytes());
    let tail = hex_prefix(digest.as_slice(), 16);
    let mut name = chars_of(kind);
    push_text(&mut name, "-");
    push_text(&mut name, tail.as_str());
    proof {
        reveal_strlit("-");
        assert("-"@ =~= seq!['-']);
        lemma_hex_graphic(first_bytes(digest@, 16));
        lemma_graphic_concat(kind@, "-"@);
        lemma_graphic_concat(kind@ + "-"@, tail@);
        lemma_graphic_is_valid(name@);
    }
    EvidenceId::from_valid(string_of(&name))
}

proof fn lemma_kinds_graphic()
    ensures
        all_graphic("mail-header"@),
        all_graphic("mail-body"@),
{
    reveal_strlit("mail-header");
    reveal_strlit("mail-body");
    assert("mail-header"@ =~= seq!['m', 'a', 'i', 'l', '-', 'h', 'e', 'a', 'd', 'e', 'r']);
    assert("mail-body"@ =~= seq!['m', 'a', 'i', 'l', '-', 'b', 'o', 'd', 'y']);
}

proof fn lemma_row_is_valid(rowid: i64)
    requires
        rowid > 0,
    ensures
        valid_id(signed_text(rowid as int)),
{
    lemma_decimal_graphic(rowid as nat);
    lemma_graphic_is_valid(signed_text(rowid as int));
}

/// The years that a date can have run from -262143 to 262142.
pub open spec fn is_date(seconds: i64) -> bool {
    -8_334_601_228_800 <= seconds <= 8_210_266_876_799
}

/// `chrono::DateTime::from_timestamp` with no fraction of a second: there is a
/// date for every number of seconds between the first second of the year
/// -262143 and the last of the year 262142, and for no other.
#[verifier::external_body]
pub(crate) fn date_exists(seconds: i64) -> (r: bool)
    ensures
        r == is_date(seconds),
{
    chrono::DateTime::from_timestamp(seconds, 0).is_some()
}

/// A message that can be named and dated.
pub open spec fn is_sound(message: MailMessage) -> bool {
    message.rowid > 0 && is_date(message.received_at)
}

/// The header of a message.
pub open spec fn is_header_of(header: MailHeaderEvidence, message: MailMessage) -> bool {
    &&& header.evidence_id@ == opaque_name("mail-header"@, message.rowid)
    &&& header.connector_id@ == signed_text(message.rowid as int)
    &&& header.sender == message.sender
    &&& header.subject == message.subject
    &&& header.received_at == message.received_at
}

pub fn mail_header_evidence(message: &MailMessage) -> (r: Result<MailHeaderEvidence, FailureCode>)
    ensures
        match r {
            Ok(header) => is_sound(*message) && is_header_of(header, *message),
            Err(failure) => !is_sound(*message) && failure == FailureCode::ParseFailure,
        },
{
    if message.rowid <= 0 || !date_exists(message.received_at) {
        return Err(FailureCode::ParseFailure);
    }
    proof {
        lemma_kinds_graphic();
        lemma_row_is_valid(message.rowid);
    }
    let row = signed_chars(message.rowid);
    Ok(
        MailHeaderEvidence {
            evidence_id: opaque_evidence_id("mail-header", message.rowid),
            connector_id: ValidatedMailId::from_valid(string_of(&row)),
            sender: message.sender.clone(),
            subject: message.subject.clone(),
            received_at: message.received_at,
        },
    )
}

/// The messages that can be named and dated.
pub open spec fn sound(messages: Seq<MailMessage>) -> Seq<MailMessage>
    decreases messages.len(),
{
    if messages.len() == 0 {
        Seq::empty()
    } else if is_sound(messages.last()) {
        sound(messages.drop_last()).push(messages.last())
    } else {
        sound(messages.drop_last())
    }
}

pub open spec fn are_headers_of(headers: Seq<MailHeaderEvidence>, messages: Seq<MailMessage>) -> bool {
    &&& headers.len() == messages.len()
    &&& forall|i: int|
        0 <= i < headers.len() ==> is_header_of(#[trigger] headers[i], messages[i])
}

pub open spec fn capped_count(n: int) -> u8 {
    if n <= 255 {
        n as u8
    } else {
        255
    }
}

/// How the messages of a list or a search are reported: those that cannot be
/// named or dated are counted, and make the operation fail.
pub open spec fn reports_messages(
    result: OperationResult<Vec<MailHeaderEvidence>>,
    key: Seq<char>,
    messages: Seq<MailMessage>,
    duration_ms: u64,
) -> bool {
    let usable = sound(messages);
    let invalid = messages.len() - usable.len();
    &&& result.key@ == key
    &&& result.attempts == 1
    &&& result.duration_ms == duration_ms
    &&& result.invalid_items == capped_count(invalid)
    &&& if invalid > 0 {
        &&& result.execution == ExecutionStatus::Failed(FailureCode::ParseFailure)
        &&& if usable.len() == 0 {
            result.contribution is Empty && result.value is None
        } else {
            &&& result.contribution is Partial
            &&& result.value matches Some(headers)
            &&& are_headers_of(headers@, usable)
        }
    } else {
        &&& result.execution is Succeeded
        &&& result.contribution == if usable.len() == 0 {
            EvidenceContribution::Empty
        } else {
            EvidenceContribution::Satisfied
        }
        &&& result.value matches Some(headers)
        &&& are_headers_of(headers@, usable)
    }
}

/// How a list or a search is reported.
pub open spec fn reports_headers(
    result: OperationResult<Vec<MailHeaderEvidence>>,
    key: Seq<char>,
    reply: BackendReply<Vec<MailMessage>>,
    duration_ms: u64,
) -> bool {
    match reply {
        BackendReply::Answered(messages) => reports_messages(
            result,
            key,
            messages@,
            duration_ms,
        ),
        BackendReply::Failed(error) => is_status_result(
            result,
            key,
            error_status(error),
            EvidenceContribution::Empty,
            duration_ms,
        ),
        BackendReply::Lost => is_status_result(
            result,
            key,
            ExecutionStatus::Failed(FailureCode::OtherNormalized),
            EvidenceContribution::Empty,
            duration_ms,
        ),
    }
}

pub fn mail_headers_result(
    operation: &EvidenceOperation,
    reply: BackendReply<Vec<MailMessage>>,
    duration_ms: u64,
) -> (r: OperationResult<Vec<MailHeaderEvidence>>)
    ensures
        reports_headers(r, operation_key(*operation), reply, duration_ms),
{
    match reply {
        BackendReply::Answered(messages) => {
            let mut headers: Vec<MailHeaderEvidence> = Vec::new();
            let mut invalid: usize = 0;
            let mut i: usize = 0;
            proof {
                assert(messages@.take(0) =~= Seq::empty());
            }
            while i < messages.len()
                invariant
                    i <= messages@.len(),
                    invalid == i - sound(messages@.take(i as int)).len(),
                    invalid <= i,
                    are_headers_of(headers@, sound(messages@.take(i as int))),
                decreases messages@.len() - i,
            {
                proof {
                    let next = messages@.take(i as int + 1);
                    assert(next.drop_last() =~= messages@.take(i as int));
                    assert(next.last() == messages@[i as int]);
                }
                let ghost before = headers@;
                match mail_header_evidence(&messages[i]) {
                    Ok(header) => {
                        headers.push(header);
                        proof {
                            let list = sound(messages@.take(i as int + 1));
                            assert forall|k: int| 0 <= k < headers@.len() implies is_header_of(
                                #[trigger] headers@[k],
                                list[k],
                            ) by {
                                if k < before.len() {
                                    assert(headers@[k] == before[k]);
                                }
                            }
                        }
                    },
                    Err(_) => {
                        invalid = invalid + 1;
                    },
                }
                i = i + 1;
            }
            proof {
                assert(messages@.take(messages@.len() as int) =~= messages@);
            }
            if invalid > 0 {
                let invalid_items: u8 = if invalid <= 255 {
                    invalid as u8
                } else {
                    255
                };
                let empty = headers.len() == 0;
                OperationResult {
                    key: operation.key(),
                    attempts: 1,
                    execution: ExecutionStatus::Failed(FailureCode::ParseFailure),
                    contribution: if empty {
                        EvidenceContribution::Empty
                    } else {
                        EvidenceContribution::Partial
                    },
                    value: if empty {
                        None
                    } else {
                        Some(headers)
                    },
                    duration_ms,
                    invalid_items,
                }
            } else {
                let contribution = if headers.len() == 0 {
                    EvidenceContribution::Empty
                } else {
                    EvidenceContribution::Satisfied
                };
                value_result(operation, headers, contribution, duration_ms)
            }
        },
        BackendReply::Failed(error) => backend_error_result(operation, error, duration_ms),
        BackendReply::Lost => failed_result(
            operation,
            FailureCode::OtherNormalized,
            EvidenceContribution::Empty,
            duration_ms,
        ),
    }
}

/// The keywords of a search, or the failure of a search for nothing.
pub fn search_keywords(normalized_query: &str, limit: u8) -> (r: Result<
    Vec<String>,
    OperationResult<Vec<MailHeaderEvidence>>,
>)
    ensures
        match r {
            Ok(keywords) => trim(normalized_query@).len() > 0 && crate::text::strings(keywords@)
                == words(normalized_query@),
            Err(result) => trim(normalized_query@).len() == 0 && is_status_result(
                result,
                "mail_search:"@ + crate::text::decimal(limit as nat) + ":"@
                    + crate::types::key_part(normalized_query@),
                ExecutionStatus::Failed(FailureCode::InvalidInput),
                EvidenceContribution::Empty,
                0,
            ),
        },
{
    if is_blank(normalized_query) {
        let operation = EvidenceOperation::MailSearch {
            normalized_query: normalized_query.to_owned(),
            limit,
        };
        return Err(
            failed_result(&operation, FailureCode::InvalidInput, EvidenceContribution::Empty, 0),
        );
    }
    let chars = chars_of(normalized_query);
    let parts = words_of(&chars);
    Ok(crate::passages::strings_of(&parts))
}

/// The number of the message that is read, or the failure where there is none.
pub fn read_target(message_id: &ValidatedMailId) -> (r: Result<
    i64,
    OperationResult<MailBodyEvidence>,
>)
    ensures
        match r {
            Ok(row) => row_number(message_id@) == Some(row) && row > 0,
            Err(result) => (match row_number(message_id@) {
                Some(row) => row <= 0,
                None => true,
            }) && is_status_result(
                result,
                "mail_read:"@ + message_id@,
                ExecutionStatus::Failed(FailureCode::InvalidInput),
                EvidenceContribution::Empty,
                0,
            ),
        },
{
    match row_of(message_id.as_str()) {
        Some(row) => {
            if row > 0 {
                return Ok(row);
            }
        },
        None => {},
    }
    let operation = EvidenceOperation::MailRead { message_id: message_id.clone() };
    Err(failed_result(&operation, FailureCode::InvalidInput, EvidenceContribution::Empty, 0))
}

/// A body with the names of its message.
pub open spec fn names_message(body: MailBodyEvidence, rowid: i64) -> bool {
    &&& body.evidence_id@ == opaque_name("mail-body"@, rowid)
    &&& body.header_id@ == opaque_name("mail-header"@, rowid)
}

pub open spec fn body_is_blank(message: MailMessage) -> bool {
    match message.body {
        Some(text) => trim(text@).len() == 0,
        None => true,
    }
}

/// How a message that was read is reported: its text, an empty text, or a text
/// that is not on this machine.
pub open spec fn reports_body(
    result: OperationResult<MailBodyEvidence>,
    key: Seq<char>,
    message: MailMessage,
    duration_ms: u64,
) -> bool {
    if message.rowid <= 0 {
        is_status_result(
            result,
            key,
            ExecutionStatus::Failed(FailureCode::ParseFailure),
            EvidenceContribution::Empty,
            duration_ms,
        )
    } else {
        &&& result.value matches Some(body)
        &&& names_message(body, message.rowid)
        &&& if !body_is_blank(message) {
            &&& is_value_result(result, key, body, EvidenceContribution::Satisfied, duration_ms)
            &&& body.body@ == prefix(message.body->0@, MAX_BODY_CHARS as int)
            &&& body.body_state is Readable
            &&& body.body_origin is LocalEmlx
        } else {
            &&& is_value_result(result, key, body, EvidenceContribution::Empty, duration_ms)
            &&& body.body@.len() == 0
            &&& if message.body is Some && message.body_available {
                body.body_state is Empty && body.body_origin is LocalEmlx
            } else {
                body.body_state is UnavailableLocally && body.body_origin is Unavailable
            }
        }
    }
}

fn body_of(rowid: i64, body: String, body_state: BodyState, body_origin: BodyOrigin) -> (r:
    MailBodyEvidence)
    ensures
        names_message(r, rowid),
        r.body == body,
        r.body_state == body_state,
        r.body_origin == body_origin,
{
    proof {
        lemma_kinds_graphic();
    }
    MailBodyEvidence {
        evidence_id: opaque_evidence_id("mail-body", rowid),
        header_id: opaque_evidence_id("mail-header", rowid),
        body,
        body_state,
        body_origin,
    }
}

fn empty_text() -> (r: String)
    ensures
        r@.len() == 0,
{
    let none: Vec<char> = Vec::new();
    string_of(&none)
}

pub fn mail_body_result(operation: &EvidenceOperation, message: &MailMessage, duration_ms: u64) -> (r:
    OperationResult<MailBodyEvidence>)
    ensures
        reports_body(r, operation_key(*operation), *message, duration_ms),
{
    if message.rowid <= 0 {
        return failed_result(
            operation,
            FailureCode::ParseFailure,
            EvidenceContribution::Empty,
            duration_ms,
        );
    }
    match &message.body {
        Some(text) => {
            if !is_blank(text.as_str()) {
                let chars = chars_of(text.as_str());
                let head = prefix_of(&chars, MAX_BODY_CHARS);
                let body = body_of(
                    message.rowid,
                    string_of(&head),
                    BodyState::Readable,
                    BodyOrigin::LocalEmlx,
                );
                return value_result(operation, body, EvidenceContribution::Satisfied, duration_ms);
            }
            if message.body_available {
                let body = body_of(
                    message.rowid,
                    empty_text(),
                    BodyState::Empty,
                    BodyOrigin::LocalEmlx,
                );
                return value_result(operation, body, EvidenceContribution::Empty, duration_ms);
            }
        },
        None => {},
    }
    let body = body_of(
        message.rowid,
        empty_text(),
        BodyState::UnavailableLocally,
        BodyOrigin::Unavailable,
    );
    value_result(operation, body, EvidenceContribution::Empty, duration_ms)
}

/// How a read is reported.
pub open spec fn reports_read(
    result: OperationResult<MailBodyEvidence>,
    key: Seq<char>,
    rowid: i64,
    reply: BackendReply<Option<MailMessage>>,
    duration_ms: u64,
) -> bool {
    match reply {
        BackendReply::Answered(Some(message)) => reports_body(result, key, message, duration_ms),
        BackendReply::Answered(None) => {
            &&& result.value matches Some(body)
            &&& names_message(body, rowid)
            &&& is_value_result(result, key, body, EvidenceContribution::Empty, duration_ms)
            &&& body.body@.len() == 0
            &&& body.body_state is UnavailableLocally
            &&& body.body_origin is Unavailable
        },
        BackendReply::Failed(error) => is_status_result(
            result,
            key,
            error_status(error),
            EvidenceContribution::Empty,
            duration_ms,
        ),
        BackendReply::Lost => is_status_result(
            result,
            key,
            ExecutionStatus::Failed(FailureCode::OtherNormalized),
            EvidenceContribution::Empty,
            duration_ms,
        ),
    }
}

pub fn mail_read_result(
    operation: &EvidenceOperation,
    rowid: i64,
    reply: BackendReply<Option<MailMessage>>,
    duration_ms: u64,
) -> (r: OperationResult<MailBodyEvidence>)
    ensures
        reports_read(r, operation_key(*operation), rowid, reply, duration_ms),
{
    match reply {
        BackendReply::Answered(Some(message)) => mail_body_result(operation, &message, duration_ms),
        BackendReply::Answered(None) => {
            let body = body_of(
                rowid,
                empty_text(),
                BodyState::UnavailableLocally,
                BodyOrigin::Unavailable,
            );
            value_result(operation, body, EvidenceContribution::Empty, duration_ms)
        },
        BackendReply::Failed(error) => backend_error_result(operation, error, duration_ms),
        BackendReply::Lost => failed_result(
            operation,
            FailureCode::OtherNormalized,
            EvidenceContribution::Empty,
            duration_ms,
        ),
    }
}

/// The header that a list gives of a message names the message that is read:
/// reading it by that name asks the connector for the same number.
pub proof fn listed_messages_can_be_read(header: MailHeaderEvidence, message: MailMessage)
    requires
        is_sound(message),
        is_header_of(header, message),
    ensures
        row_number(header.connector_id@) == Some(message.rowid),
{
    crate::text::lemma_decimal_parses(message.rowid as nat);
    let text = signed_text(message.rowid as int);
    assert(crate::text::unsigned_value(text) == Some(message.rowid as nat));
    assert(crate::text::is_digit(text[0]));
}

/// The body of a message belongs to its header.
pub proof fn bodies_belong_to_their_headers(
    header: MailHeaderEvidence,
    body: MailBodyEvidence,
    message: MailMessage,
)
    requires
        is_header_of(header, message),
        names_message(body, message.rowid),
    ensures
        body.header_id@ == header.evidence_id@,
{
}

} // verus!
