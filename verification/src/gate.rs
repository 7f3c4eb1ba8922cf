//! What the policy is asked before an operation runs.

use crate::json::Json;
use crate::text::{chars_of, decimal, decimal_of, parse_signed, signed_value, string_of};
use crate::types::{
    operation_key, EvidenceContribution, EvidenceOperation, ExecutionStatus, OperationResult,
};
use vstd::prelude::*;

verus! {

/// How much say the policy gives to the user.
#[derive(Clone, Copy, Debug, PartialEq, Eq, Structural)]
pub enum ApprovalLevel {
    Auto,
    Ask,
    Forbidden,
}

/// What the policy decides on an operation.
#[derive(Clone, Copy, Debug, PartialEq, Eq, Structural)]
pub enum GateDecision {
    Allow,
    Deny,
    /// The user is asked.
    Ask,
}

pub open spec fn decision_for(level: ApprovalLevel) -> GateDecision {
    match level {
        ApprovalLevel::Auto => GateDecision::Allow,
        ApprovalLevel::Forbidden => GateDecision::Deny,
        ApprovalLevel::Ask => GateDecision::Ask,
    }
}

pub fn decide(level: ApprovalLevel) -> (r: GateDecision)
    ensures
        r == decision_for(level),
{
    match level {
        ApprovalLevel::Auto => GateDecision::Allow,
        ApprovalLevel::Forbidden => GateDecision::Deny,
        ApprovalLevel::Ask => GateDecision::Ask,
    }
}

/// What the answer of the user decides, once the user was asked.
pub fn user_decides(approved: bool) -> (r: GateDecision)
    ensures
        r == if approved {
            GateDecision::Allow
        } else {
            GateDecision::Deny
        },
{
    if approved {
        GateDecision::Allow
    } else {
        GateDecision::Deny
    }
}

/// The rule that an operation is held to. A page is fetched under a rule of its
/// address, so without one it has none.
pub open spec fn rule_name(operation: EvidenceOperation, with_address: bool) -> Option<Seq<char>> {
    match operation {
        EvidenceOperation::WebSearch { .. } => Some("web.search"@),
        EvidenceOperation::WebFetch { .. } => if with_address {
            Some("web.fetch"@)
        } else {
            None
        },
        _ => Some("mail_inbox"@),
    }
}

pub fn rule_for(operation: &EvidenceOperation, with_address: bool) -> (r: Option<&'static str>)
    ensures
        match r {
            Some(name) => rule_name(*operation, with_address) == Some(name@),
            None => rule_name(*operation, with_address) is None,
        },
{
    match operation {
        EvidenceOperation::WebSearch { .. } => Some("web.search"),
        EvidenceOperation::WebFetch { .. } => if with_address {
            Some("web.fetch")
        } else {
            None
        },
        _ => Some("mail_inbox"),
    }
}

/// How an operation is described to the user.
pub open spec fn description(operation: EvidenceOperation) -> Seq<char> {
    match operation {
        EvidenceOperation::WebSearch { .. } => "Web search"@,
        EvidenceOperation::WebFetch { .. } => "Reading a selected web page"@,
        _ => "Čítanie poštovej schránky (Apple Mail)"@,
    }
}

pub fn describe_operation(operation: &EvidenceOperation) -> (r: &'static str)
    ensures
        r@ == description(*operation),
{
    match operation {
        EvidenceOperation::WebSearch { .. } => "Web search",
        EvidenceOperation::WebFetch { .. } => "Reading a selected web page",
        _ => "Čítanie poštovej schránky (Apple Mail)",
    }
}

pub open spec fn tool_name(operation: EvidenceOperation) -> Seq<char> {
    match operation {
        EvidenceOperation::MailList { .. } => "mail_list_inbox"@,
        EvidenceOperation::MailSearch { .. } => "mail_search"@,
        EvidenceOperation::MailRead { .. } => "mail_read"@,
        EvidenceOperation::WebSearch { .. } => "web_search"@,
        EvidenceOperation::WebFetch { .. } => "web_fetch"@,
    }
}

pub fn operation_tool_name(operation: &EvidenceOperation) -> (r: &'static str)
    ensures
        r@ == tool_name(*operation),
{
    match operation {
        EvidenceOperation::MailList { .. } => "mail_list_inbox",
        EvidenceOperation::MailSearch { .. } => "mail_search",
        EvidenceOperation::MailRead { .. } => "mail_read",
        EvidenceOperation::WebSearch { .. } => "web_search",
        EvidenceOperation::WebFetch { .. } => "web_fetch",
    }
}

/// The number of a message, where its identifier is one.
pub open spec fn row_number(id: Seq<char>) -> Option<i64> {
    match signed_value(id) {
        Some(value) => if i64::MIN <= value <= i64::MAX {
            Some(value as i64)
        } else {
            None
        },
        None => None,
    }
}

pub fn row_of(id: &str) -> (r: Option<i64>)
    ensures
        r == row_number(id@),
{
    let chars = chars_of(id);
    parse_signed(&chars, i64::MAX as u64)
}

pub open spec fn is_signed_number(value: Json, n: i64) -> bool {
    value matches Json::Number { text, unsigned, signed } && text@ == signed_text(n as int)
        && signed == Some(n) && unsigned == (if n >= 0 {
        Some(n as u64)
    } else {
        None
    })
}

pub open spec fn signed_text(n: int) -> Seq<char> {
    if n < 0 {
        "-"@ + decimal((-n) as nat)
    } else {
        decimal(n as nat)
    }
}

pub fn signed_chars(n: i64) -> (r: Vec<char>)
    ensures
        r@ == signed_text(n as int),
{
    if n < 0 {
        let mut out = chars_of("-");
        let magnitude: u64 = (-(n as i128)) as u64;
        crate::text::push_all(&mut out, &decimal_of(magnitude));
        out
    } else {
        decimal_of(n as u64)
    }
}

pub fn json_number(n: i64) -> (r: Json)
    ensures
        is_signed_number(r, n),
{
    let text = signed_chars(n);
    let unsigned = if n >= 0 {
        Some(n as u64)
    } else {
        None
    };
    Json::Number { text: string_of(&text), unsigned, signed: Some(n) }
}

/// A field of an object that is written out.
pub open spec fn is_text_field(field: (String, Json), name: Seq<char>, text: Seq<char>) -> bool {
    field.0@ == name && (field.1 matches Json::Text(value) && value@ == text)
}

/// The arguments that a rule is asked with.
pub open spec fn are_arguments(value: Json, operation: EvidenceOperation) -> bool {
    &&& value matches Json::Object(fields)
    &&& match operation {
        EvidenceOperation::MailList { limit, unread_only } => {
            &&& fields@.len() == 2
            &&& fields@[0].0@ == "limit"@
            &&& is_signed_number(fields@[0].1, limit as i64)
            &&& fields@[1].0@ == "unread_only"@
            &&& fields@[1].1 == Json::Bool(unread_only)
        },
        EvidenceOperation::MailSearch { normalized_query, limit } => {
            &&& fields@.len() == 2
            &&& is_text_field(fields@[0], "query"@, normalized_query@)
            &&& fields@[1].0@ == "limit"@
            &&& is_signed_number(fields@[1].1, limit as i64)
        },
        EvidenceOperation::MailRead { message_id } => {
            &&& fields@.len() == 1
            &&& fields@[0].0@ == "rowid"@
            &&& match row_number(message_id@) {
                Some(row) => is_signed_number(fields@[0].1, row),
                None => fields@[0].1 is Null,
            }
        },
        EvidenceOperation::WebSearch { normalized_query, .. } => {
            &&& fields@.len() == 1
            &&& is_text_field(fields@[0], "query"@, normalized_query@)
        },
        EvidenceOperation::WebFetch { .. } => fields@.len() == 0,
    }
}

pub fn operation_args(operation: &EvidenceOperation) -> (r: Json)
    ensures
        are_arguments(r, *operation),
{
    let mut fields: Vec<(String, Json)> = Vec::new();
    match operation {
        EvidenceOperation::MailList { limit, unread_only } => {
            fields.push(("limit".to_owned(), json_number(*limit as i64)));
            fields.push(("unread_only".to_owned(), Json::Bool(*unread_only)));
        },
        EvidenceOperation::MailSearch { normalized_query, limit } => {
            fields.push(("query".to_owned(), Json::Text(normalized_query.clone())));
            fields.push(("limit".to_owned(), json_number(*limit as i64)));
        },
        EvidenceOperation::MailRead { message_id } => {
            let row = match row_of(message_id.as_str()) {
                Some(number) => json_number(number),
                None => Json::Null,
            };
            fields.push(("rowid".to_owned(), row));
        },
        EvidenceOperation::WebSearch { normalized_query, .. } => {
            fields.push(("query".to_owned(), Json::Text(normalized_query.clone())));
        },
        EvidenceOperation::WebFetch { .. } => {},
    }
    Json::Object(fields)
}

/// An operation that the policy or the user refused.
pub open spec fn is_denied_result<T>(result: OperationResult<T>, key: Seq<char>) -> bool {
    &&& result.key@ == key
    &&& result.attempts == 1
    &&& result.execution == ExecutionStatus::Denied
    &&& result.contribution == EvidenceContribution::Empty
    &&& result.value is None
    &&& result.duration_ms == 0
    &&& result.invalid_items == 0
}

pub fn denied_result<T>(operation: &EvidenceOperation) -> (r: OperationResult<T>)
    ensures
        is_denied_result(r, operation_key(*operation)),
{
    OperationResult::without_value(
        operation.key(),
        ExecutionStatus::Denied,
        EvidenceContribution::Empty,
    )
}

/// A refused operation is not tried again.
pub proof fn refusals_are_final<T>(result: OperationResult<T>, key: Seq<char>, budget: u8)
    requires
        is_denied_result(result, key),
    ensures
        !crate::types::retry_allowed(result, budget),
{
}

} // verus!
