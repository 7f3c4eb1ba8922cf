//! What the daemon lets its callers do: who is let in, which actions the rules
//! allow, and what the user is asked first.

use crate::bytes::{byte_len, byte_length, byte_prefix, byte_prefix_of};
use crate::diagnostics::{data, Datum};
use crate::gate::ApprovalLevel;
use crate::html::{keeps_utf8, lossy_text, text_of_bytes};
use crate::json::Json;
use crate::text::{
    chars_of, contains, decimal, decimal_of_size, has, is_digest_text, push_all, push_text, same, sha256_str,
    sha256_text, string_of, trim, trimmed,
};
use crate::weburl::clone_option;
use vstd::prelude::*;

verus! {

/// The most bytes of a credential.
pub const MAX_CREDENTIAL_BYTES: usize = 512;

/// How many messages the first synchronisation reads, and each later one.
pub const FIRST_SYNC_LIMIT: usize = 5_000;

pub const SYNC_LIMIT: usize = 500;

pub fn default_und() -> (r: String)
    ensures
        r@ == "und"@,
{
    "und".to_owned()
}

pub fn default_limit() -> (r: usize)
    ensures
        r == 20,
{
    20
}

/// A number that is asked for, or the default one, up to a bound.
pub open spec fn limited(asked: Option<usize>, default: usize, max: usize) -> usize {
    let value = match asked {
        Some(value) => value,
        None => default,
    };
    if value <= max {
        value
    } else {
        max
    }
}

pub fn limit_or(asked: Option<usize>, default: usize, max: usize) -> (r: usize)
    ensures
        r == limited(asked, default, max),
{
    let value: usize = match asked {
        Some(value) => value,
        None => default,
    };
    if value <= max {
        value
    } else {
        max
    }
}

/// A caller is let in with the token of the daemon alone.
pub fn is_authorized(header: Option<&str>, token: &str) -> (r: bool)
    ensures
        r == match header {
            Some(value) => value@ == "Bearer "@ + token@,
            None => false,
        },
{
    match header {
        Some(value) => {
            let mut expected = chars_of("Bearer ");
            push_text(&mut expected, token);
            let expected = string_of(&expected);
            same(value, expected.as_str())
        },
        None => false,
    }
}

/// Why an action is not taken over the network interface.
#[derive(Clone, Copy, Debug, PartialEq, Eq, Structural)]
pub enum RestRefusal {
    Blocked,
    ApprovalRequired,
}

impl RestRefusal {
    pub fn status(&self) -> (r: u16)
        ensures
            r == match *self {
                RestRefusal::Blocked => 403u16,
                RestRefusal::ApprovalRequired => 409u16,
            },
    {
        match self {
            RestRefusal::Blocked => 403,
            RestRefusal::ApprovalRequired => 409,
        }
    }

    pub fn message(&self) -> (r: &'static str)
        ensures
            r@ == match *self {
                RestRefusal::Blocked => "blocked by rules"@,
                RestRefusal::ApprovalRequired => "approval required — use chat interface"@,
            },
    {
        match self {
            RestRefusal::Blocked => "blocked by rules",
            RestRefusal::ApprovalRequired => "approval required — use chat interface",
        }
    }
}

/// Nobody can be asked over the network interface: only what needs no approval
/// is allowed there.
pub fn rest_allows(level: ApprovalLevel) -> (r: Result<(), RestRefusal>)
    ensures
        r == match level {
            ApprovalLevel::Auto => Ok::<(), RestRefusal>(()),
            ApprovalLevel::Ask => Err(RestRefusal::ApprovalRequired),
            ApprovalLevel::Forbidden => Err(RestRefusal::Blocked),
        },
{
    match level {
        ApprovalLevel::Auto => Ok(()),
        ApprovalLevel::Ask => Err(RestRefusal::ApprovalRequired),
        ApprovalLevel::Forbidden => Err(RestRefusal::Blocked),
    }
}

pub open spec fn named_text(name: Seq<char>, value: Option<Seq<char>>) -> Seq<(Seq<char>, Datum)> {
    match value {
        Some(text) => seq![(name, Datum::Text(text))],
        None => Seq::empty(),
    }
}

pub open spec fn text_of(value: Option<&str>) -> Option<Seq<char>> {
    match value {
        Some(text) => Some(text@),
        None => None,
    }
}

pub open spec fn hash_of(path: Option<&str>) -> Option<Seq<char>> {
    match path {
        Some(text) => Some(sha256_text(text@)),
        None => None,
    }
}

/// What is written down of an action: the digest of its path, its application,
/// and how it ended.
pub open spec fn audit_fields(
    path_hash: Option<Seq<char>>,
    app: Option<Seq<char>>,
    error: Option<Seq<char>>,
) -> Seq<(Seq<char>, Datum)> {
    named_text("path_hash"@, path_hash) + named_text("app"@, app) + seq![
        ("ok"@, Datum::Flag(error is None)),
    ] + named_text("error"@, error)
}

fn push_named(fields: &mut Vec<(String, Json)>, name: &str, value: Option<String>)
    ensures
        data(final(fields)@) == data(old(fields)@) + named_text(
            name@,
            match value {
                Some(text) => Some(text@),
                None => None,
            },
        ),
{
    let ghost before = fields@;
    match value {
        Some(text) => {
            fields.push((name.to_owned(), Json::Text(text)));
            proof {
                assert(data(fields@) =~= data(before) + named_text(name@, Some(text@)));
            }
        },
        None => {
            proof {
                assert(data(fields@) =~= data(before) + named_text(name@, None));
            }
        },
    }
}

fn owned(value: Option<&str>) -> (r: Option<String>)
    ensures
        match r {
            Some(text) => text_of(value) == Some(text@),
            None => value is None,
        },
{
    match value {
        Some(text) => Some(text.to_owned()),
        None => None,
    }
}

/// The audit entry of an action on a file or an application. A path stands in
/// it only as its digest.
pub fn audit_payload(path: Option<&str>, app: Option<&str>, error: Option<&str>) -> (r: Json)
    ensures
        r matches Json::Object(fields) && data(fields@) == audit_fields(
            hash_of(path),
            text_of(app),
            text_of(error),
        ),
        hash_of(path) matches Some(digest) ==> is_digest_text(digest),
{
    let mut fields: Vec<(String, Json)> = Vec::new();
    let path_hash = match path {
        Some(text) => Some(sha256_str(text)),
        None => None,
    };
    proof {
        assert(data(fields@) =~= Seq::<(Seq<char>, Datum)>::empty());
    }
    push_named(&mut fields, "path_hash", path_hash);
    proof {
        assert(data(fields@) =~= named_text("path_hash"@, hash_of(path)));
    }
    push_named(&mut fields, "app", owned(app));
    let ghost before = fields@;
    fields.push(("ok".to_owned(), Json::Bool(error.is_none())));
    proof {
        assert(data(fields@) =~= data(before) + seq![("ok"@, Datum::Flag(error is None))]);
    }
    push_named(&mut fields, "error", owned(error));
    Json::Object(fields)
}

/// A credential that is handed over: without spaces around it, nothing where it
/// is empty, and refused where it is too long.
pub open spec fn credential(value: Option<Seq<char>>) -> Result<Option<Seq<char>>, ()> {
    match value {
        Some(text) => if trim(text).len() == 0 {
            Ok(None)
        } else if byte_len(trim(text)) > MAX_CREDENTIAL_BYTES {
            Err(())
        } else {
            Ok(Some(trim(text)))
        },
        None => Ok(None),
    }
}

pub fn accept_credential(value: Option<&str>) -> (r: Result<Option<String>, ()>)
    ensures
        match r {
            Ok(Some(text)) => credential(text_of(value)) == Ok::<Option<Seq<char>>, ()>(
                Some(text@),
            ),
            Ok(None) => credential(text_of(value)) == Ok::<Option<Seq<char>>, ()>(None),
            Err(_) => credential(text_of(value)) is Err,
        },
{
    match value {
        Some(text) => {
            let chars = chars_of(text);
            let bare = trimmed(&chars);
            if bare.len() == 0 {
                return Ok(None);
            }
            if byte_length(&bare) > MAX_CREDENTIAL_BYTES as u128 {
                return Err(());
            }
            Ok(Some(string_of(&bare)))
        },
        None => Ok(None),
    }
}

/// How an approval ended.
#[derive(Debug, PartialEq, Eq)]
pub struct ApprovalOutcome {
    pub allowed: bool,
    /// What is written beside the request.
    pub decision: &'static str,
    /// What is written to the audit log.
    pub audit_action: &'static str,
}

pub open spec fn decision_text(allow: bool) -> Seq<char> {
    if allow {
        "allow"@
    } else {
        "deny"@
    }
}

pub fn decision_name(allow: bool) -> (r: &'static str)
    ensures
        r@ == decision_text(allow),
{
    if allow {
        "allow"
    } else {
        "deny"
    }
}

/// What an approval comes to: the decision of the user, and a denial where none
/// came in time.
pub fn settle_approval(decision: Option<bool>) -> (r: ApprovalOutcome)
    ensures
        r.allowed == (decision == Some(true)),
        r.decision@ == decision_text(r.allowed),
        r.audit_action@ == if decision is Some {
            "approval"@
        } else {
            "approval_timeout"@
        },
{
    match decision {
        Some(allow) => ApprovalOutcome {
            allowed: allow,
            decision: decision_name(allow),
            audit_action: "approval",
        },
        None => ApprovalOutcome {
            allowed: false,
            decision: "deny",
            audit_action: "approval_timeout",
        },
    }
}

/// The machine is on mains power, from what the power manager printed; where
/// nothing is known, it is taken to be.
pub fn is_on_ac_power(output: Option<&[u8]>) -> (r: bool)
    ensures
        r == match output {
            Some(bytes) => contains(lossy_text(bytes@), "AC Power"@),
            None => true,
        },
        output matches Some(bytes) ==> keeps_utf8(bytes@),
{
    match output {
        Some(bytes) => {
            let text = text_of_bytes(bytes);
            let chars = chars_of(text.as_str());
            has(&chars, "AC Power")
        },
        None => true,
    }
}

/// What a synchronisation asks for: since when, and how much. The first one
/// reaches further back.
pub fn sync_window(last_sync: Option<i64>) -> (r: (i64, usize))
    ensures
        r == match last_sync {
            Some(since) => (since, SYNC_LIMIT),
            None => (0i64, FIRST_SYNC_LIMIT),
        },
{
    match last_sync {
        Some(since) => (since, SYNC_LIMIT),
        None => (0, FIRST_SYNC_LIMIT),
    }
}

/// Where a message is sent.
#[derive(Debug, PartialEq, Eq)]
pub enum SendTarget {
    ChatId(String),
    Phone(String),
}

/// A message that is to be sent.
#[derive(Debug, PartialEq, Eq)]
pub struct WhatsappSendRequest {
    pub chat_id: Option<String>,
    pub phone: Option<String>,
    pub text: String,
}

/// A message that the user is asked about.
#[derive(Debug, PartialEq, Eq)]
pub struct SendProposal {
    pub target: SendTarget,
    pub text: String,
    pub description: String,
}

/// Why a message is not sent.
#[derive(Clone, Copy, Debug, PartialEq, Eq, Structural)]
pub enum SendRefusal {
    TextEmpty,
    TargetRequired,
    Forbidden,
    /// The user said no.
    Denied,
    /// The message could not be delivered.
    Undelivered,
}

impl SendRefusal {
    pub fn status(&self) -> (r: u16)
        ensures
            r == match *self {
                SendRefusal::TextEmpty => 400u16,
                SendRefusal::TargetRequired => 400u16,
                SendRefusal::Forbidden => 403u16,
                SendRefusal::Denied => 200u16,
                SendRefusal::Undelivered => 503u16,
            },
    {
        match self {
            SendRefusal::TextEmpty => 400,
            SendRefusal::TargetRequired => 400,
            SendRefusal::Forbidden => 403,
            SendRefusal::Denied => 200,
            SendRefusal::Undelivered => 503,
        }
    }

    pub fn reason(&self) -> (r: &'static str)
        ensures
            r@ == match *self {
                SendRefusal::TextEmpty => "text_empty"@,
                SendRefusal::TargetRequired => "chat_id_or_phone_required"@,
                SendRefusal::Forbidden => "forbidden_by_rules"@,
                SendRefusal::Denied => "denied"@,
                SendRefusal::Undelivered => "send_error"@,
            },
    {
        match self {
            SendRefusal::TextEmpty => "text_empty",
            SendRefusal::TargetRequired => "chat_id_or_phone_required",
            SendRefusal::Forbidden => "forbidden_by_rules",
            SendRefusal::Denied => "denied",
            SendRefusal::Undelivered => "send_error",
        }
    }
}

/// What is done about a message next.
#[derive(Debug, PartialEq, Eq)]
pub enum SendStep {
    /// Ask the user; no rule sends a message unasked.
    AskApproval(SendProposal),
    /// Send the message.
    Send(SendProposal),
    Refused(SendRefusal),
}

/// The recipient of a message; a chat comes before a number.
pub open spec fn recipient(request: WhatsappSendRequest) -> Option<SendTarget> {
    match request.chat_id {
        Some(id) => Some(SendTarget::ChatId(id)),
        None => match request.phone {
            Some(number) => Some(SendTarget::Phone(number)),
            None => None,
        },
    }
}

pub open spec fn target_name(target: SendTarget) -> Seq<char> {
    match target {
        SendTarget::ChatId(id) => id@,
        SendTarget::Phone(number) => number@,
    }
}

/// The beginning of a message, as the user and the log see it.
pub open spec fn send_preview(text: Seq<char>) -> Seq<char> {
    if byte_len(text) > 60 {
        byte_prefix(text, 60) + "… ("@ + decimal(byte_len(text)) + " znakov)"@
    } else {
        text
    }
}

pub open spec fn is_send_proposal(proposal: SendProposal, request: WhatsappSendRequest) -> bool {
    let text = trim(request.text@);
    &&& recipient(request) == Some(proposal.target)
    &&& proposal.text@ == text
    &&& proposal.description@ == "Odoslať WhatsApp správu — Príjemca: "@ + target_name(
        proposal.target,
    ) + " | Náhľad: "@ + send_preview(text)
}

/// What is done with a message: one that says something to somebody is asked
/// about, unless the rules forbid it.
pub open spec fn send_is_admitted(
    request: WhatsappSendRequest,
    rule: ApprovalLevel,
    step: SendStep,
) -> bool {
    if trim(request.text@).len() == 0 {
        step == SendStep::Refused(SendRefusal::TextEmpty)
    } else if recipient(request) is None {
        step == SendStep::Refused(SendRefusal::TargetRequired)
    } else if rule is Forbidden {
        step == SendStep::Refused(SendRefusal::Forbidden)
    } else {
        step matches SendStep::AskApproval(proposal) && is_send_proposal(proposal, request)
    }
}

pub fn admit_send(request: &WhatsappSendRequest, rule: ApprovalLevel) -> (r: SendStep)
    ensures
        send_is_admitted(*request, rule, r),
{
    let chars = chars_of(request.text.as_str());
    let text = trimmed(&chars);
    if text.len() == 0 {
        return SendStep::Refused(SendRefusal::TextEmpty);
    }
    let target = match &request.chat_id {
        Some(id) => SendTarget::ChatId(id.clone()),
        None => match &request.phone {
            Some(number) => SendTarget::Phone(number.clone()),
            None => {
                return SendStep::Refused(SendRefusal::TargetRequired);
            },
        },
    };
    match rule {
        ApprovalLevel::Forbidden => {
            return SendStep::Refused(SendRefusal::Forbidden);
        },
        _ => {},
    }
    let mut description = chars_of("Odoslať WhatsApp správu — Príjemca: ");
    match &target {
        SendTarget::ChatId(id) => push_text(&mut description, id.as_str()),
        SendTarget::Phone(number) => push_text(&mut description, number.as_str()),
    }
    push_text(&mut description, " | Náhľad: ");
    let size: u128 = byte_length(&text);
    if size > 60 {
        let mut shown = byte_prefix_of(&text, 60);
        push_text(&mut shown, "… (");
        push_all(&mut shown, &decimal_of_size(size));
        push_text(&mut shown, " znakov)");
        push_all(&mut description, &shown);
    } else {
        push_all(&mut description, &text);
    }
    SendStep::AskApproval(
        SendProposal { target, text: string_of(&text), description: string_of(&description) },
    )
}

/// What follows the answer of the user: the message that was shown is sent, or it
/// is not.
pub open spec fn send_is_decided(proposal: SendProposal, approved: bool, step: SendStep) -> bool {
    step == if approved {
        SendStep::Send(proposal)
    } else {
        SendStep::Refused(SendRefusal::Denied)
    }
}

pub fn send_decided(proposal: SendProposal, approved: bool) -> (r: SendStep)
    ensures
        send_is_decided(proposal, approved, r),
{
    if approved {
        SendStep::Send(proposal)
    } else {
        SendStep::Refused(SendRefusal::Denied)
    }
}

/// A message goes out exactly if the user was asked about it and approved, whatever
/// the rules say short of forbidding it, and it is the one that was shown. One that
/// the rules forbid is not asked about.
pub proof fn messages_go_out_only_when_approved(
    request: WhatsappSendRequest,
    rule: ApprovalLevel,
    first: SendStep,
    approved: bool,
    second: SendStep,
)
    requires
        send_is_admitted(request, rule, first),
        match first {
            SendStep::AskApproval(proposal) => send_is_decided(proposal, approved, second),
            _ => second == first,
        },
    ensures
        second is Send <==> first is AskApproval && approved,
        second matches SendStep::Send(proposal) ==> is_send_proposal(proposal, request),
        trim(request.text@).len() > 0 && recipient(request) is Some ==> (first is AskApproval
            <==> !(rule is Forbidden)),
        trim(request.text@).len() > 0 && recipient(request) is Some && rule is Forbidden ==> second
            == SendStep::Refused(SendRefusal::Forbidden),
        first is AskApproval && !approved ==> second == SendStep::Refused(SendRefusal::Denied),
{
}

/// The name that an account is shown under.
pub fn account_name(name: &Option<String>, push_name: &Option<String>) -> (r: Option<String>)
    ensures
        r == if *name is Some {
            *name
        } else {
            *push_name
        },
{
    match name {
        Some(_) => clone_option(name),
        None => clone_option(push_name),
    }
}

} // verus!
