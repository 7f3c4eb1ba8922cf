//! Tasks for the external reasoning harness: when one is run, what it is given,
//! and what is handed back of its answer.

use crate::gate::ApprovalLevel;
use crate::json::{lookup, Json};
use crate::previews::{cut, output_snippet};
use crate::text::{
    chars_of, join, join_chars, push_all, push_text, split, split_of, string_of, strings, texts,
};
use vstd::prelude::*;

verus! {

pub const MAX_STDOUT_BYTES: usize = 2_048;

pub const MAX_STDERR_BYTES: usize = 1_024;

/// How a task was rated.
#[derive(Debug, PartialEq, Eq)]
pub struct TaskRating {
    /// The local model is enough, or is preferred.
    pub local: bool,
    pub level: String,
    pub privacy_risk: String,
}

/// A task as it is asked for.
#[derive(Debug, PartialEq, Eq)]
pub struct CodexRunTaskRequest {
    pub description: String,
    pub context_sources: Vec<String>,
    pub context_refs: Vec<String>,
    pub force_codex: bool,
}

/// A piece of context that the harness may see.
#[derive(Debug, PartialEq, Eq)]
pub struct ContextItem {
    pub source: String,
    pub summary: String,
    pub record_ref: String,
    pub pii: bool,
}

/// What is put to the user before a task is run.
#[derive(Debug, PartialEq, Eq)]
pub struct CodexProposal {
    pub allowed_context: Vec<ContextItem>,
    pub approval_description: String,
}

/// Why a task is not run.
#[derive(Clone, Copy, Debug, PartialEq, Eq, Structural)]
pub enum CodexRefusal {
    /// The local model is enough.
    LocalSufficient,
    /// There is no harness.
    NotFound,
    Forbidden,
    /// The user said no.
    Denied,
    /// The harness could not be started.
    NotStarted,
}

impl CodexRefusal {
    pub fn status(&self) -> (r: u16)
        ensures
            r == match *self {
                CodexRefusal::LocalSufficient => 200u16,
                CodexRefusal::NotFound => 200u16,
                CodexRefusal::Forbidden => 403u16,
                CodexRefusal::Denied => 200u16,
                CodexRefusal::NotStarted => 500u16,
            },
    {
        match self {
            CodexRefusal::LocalSufficient => 200,
            CodexRefusal::NotFound => 200,
            CodexRefusal::Forbidden => 403,
            CodexRefusal::Denied => 200,
            CodexRefusal::NotStarted => 500,
        }
    }

    /// Whether the refusal is told as an error, not as a reason.
    pub fn is_error(&self) -> (r: bool)
        ensures
            r == (*self is NotFound || *self is Forbidden || *self is NotStarted),
    {
        match self {
            CodexRefusal::LocalSufficient => false,
            CodexRefusal::NotFound => true,
            CodexRefusal::Forbidden => true,
            CodexRefusal::Denied => false,
            CodexRefusal::NotStarted => true,
        }
    }

    pub fn reason(&self) -> (r: &'static str)
        ensures
            r@ == match *self {
                CodexRefusal::LocalSufficient => "local_sufficient"@,
                CodexRefusal::NotFound => "codex_not_found"@,
                CodexRefusal::Forbidden => "forbidden"@,
                CodexRefusal::Denied => "denied"@,
                CodexRefusal::NotStarted => "spawn_failed"@,
            },
    {
        match self {
            CodexRefusal::LocalSufficient => "local_sufficient",
            CodexRefusal::NotFound => "codex_not_found",
            CodexRefusal::Forbidden => "forbidden",
            CodexRefusal::Denied => "denied",
            CodexRefusal::NotStarted => "spawn_failed",
        }
    }

    /// What the user is told, where it is always the same.
    pub fn message(&self) -> (r: Option<&'static str>)
        ensures
            match *self {
                CodexRefusal::NotFound => r matches Some(text) && text@
                    == "Codex CLI not found. Install it and configure the path in Settings."@,
                CodexRefusal::Forbidden => r matches Some(text) && text@
                    == "codex.run_task is forbidden by the rules engine."@,
                _ => r is None,
            },
    {
        match self {
            CodexRefusal::NotFound => Some(
                "Codex CLI not found. Install it and configure the path in Settings.",
            ),
            CodexRefusal::Forbidden => Some("codex.run_task is forbidden by the rules engine."),
            _ => None,
        }
    }
}

/// What is done about a task next.
#[derive(Debug, PartialEq, Eq)]
pub enum CodexStep {
    /// Ask the user.
    AskApproval(CodexProposal),
    /// Run the task with the context that was approved.
    Run(CodexProposal),
    Refused(CodexRefusal),
}

/// The part of a reference before its first colon.
pub open spec fn source_of(reference: Seq<char>) -> Seq<char> {
    split(reference, ':')[0]
}

/// A reference as context: its source and a summary, never its contents.
pub open spec fn is_context_item(item: ContextItem, reference: Seq<char>) -> bool {
    &&& item.source@ == source_of(reference)
    &&& item.summary@ == "(Summary for "@ + reference + " pending user approval)"@
    &&& item.record_ref@ == reference
    &&& item.pii
}

pub open spec fn source_list(sources: Seq<Seq<char>>) -> Seq<char> {
    if sources.len() == 0 {
        "none declared"@
    } else {
        join(sources, ", "@)
    }
}

pub open spec fn approval_text(
    description: Seq<char>,
    rating: TaskRating,
    sources: Seq<Seq<char>>,
) -> Seq<char> {
    "Codex External Reasoning — "@ + description + "\nLevel: "@ + rating.level@ + " | Privacy: "@
        + rating.privacy_risk@ + " | Sources: "@ + source_list(sources)
        + "\nCodex is an external harness. It will receive only the approved context packet (summaries and record refs, no raw bodies). It cannot perform side effects directly."@
}

fn context_item(reference: &str) -> (r: ContextItem)
    ensures
        is_context_item(r, reference@),
{
    let chars = chars_of(reference);
    let parts = split_of(&chars, ':');
    proof {
        assert(texts(parts@)[0] == parts@[0]@);
    }
    let mut summary = chars_of("(Summary for ");
    push_all(&mut summary, &chars);
    push_text(&mut summary, " pending user approval)");
    ContextItem {
        source: string_of(&parts[0]),
        summary: string_of(&summary),
        record_ref: reference.to_owned(),
        pii: true,
    }
}

fn char_lists(list: &Vec<String>) -> (r: Vec<Vec<char>>)
    ensures
        texts(r@) == strings(list@),
{
    let mut out: Vec<Vec<char>> = Vec::new();
    let mut i: usize = 0;
    while i < list.len()
        invariant
            i <= list@.len(),
            out@.len() == i,
            forall|j: int| 0 <= j < i ==> #[trigger] out@[j]@ == list@[j]@,
        decreases list@.len() - i,
    {
        out.push(chars_of(list[i].as_str()));
        i = i + 1;
    }
    proof {
        assert(texts(out@) =~= strings(list@));
    }
    out
}

pub open spec fn is_proposal(
    proposal: CodexProposal,
    request: CodexRunTaskRequest,
    rating: TaskRating,
) -> bool {
    &&& proposal.allowed_context@.len() == request.context_refs@.len()
    &&& forall|i: int|
        0 <= i < request.context_refs@.len() ==> is_context_item(
            #[trigger] proposal.allowed_context@[i],
            request.context_refs@[i]@,
        )
    &&& proposal.approval_description@ == approval_text(
        request.description@,
        rating,
        strings(request.context_sources@),
    )
}

fn propose(request: &CodexRunTaskRequest, rating: &TaskRating) -> (r: CodexProposal)
    ensures
        is_proposal(r, *request, *rating),
{
    let mut allowed_context: Vec<ContextItem> = Vec::new();
    let mut i: usize = 0;
    while i < request.context_refs.len()
        invariant
            i <= request.context_refs@.len(),
            allowed_context@.len() == i,
            forall|j: int|
                0 <= j < i ==> is_context_item(
                    #[trigger] allowed_context@[j],
                    request.context_refs@[j]@,
                ),
        decreases request.context_refs@.len() - i,
    {
        allowed_context.push(context_item(request.context_refs[i].as_str()));
        i = i + 1;
    }
    let mut text = chars_of("Codex External Reasoning — ");
    push_text(&mut text, request.description.as_str());
    push_text(&mut text, "\nLevel: ");
    push_text(&mut text, rating.level.as_str());
    push_text(&mut text, " | Privacy: ");
    push_text(&mut text, rating.privacy_risk.as_str());
    push_text(&mut text, " | Sources: ");
    if request.context_sources.len() == 0 {
        push_text(&mut text, "none declared");
    } else {
        push_all(&mut text, &join_chars(&char_lists(&request.context_sources), ", "));
    }
    push_text(
        &mut text,
        "\nCodex is an external harness. It will receive only the approved context packet (summaries and record refs, no raw bodies). It cannot perform side effects directly.",
    );
    CodexProposal { allowed_context, approval_description: string_of(&text) }
}

/// What is done with a task. Only a task that is not left to the local model,
/// with a harness and no rule against it, is put to the user; no rule runs it
/// unasked.
pub open spec fn task_is_admitted(
    request: CodexRunTaskRequest,
    rating: TaskRating,
    available: bool,
    rule: ApprovalLevel,
    step: CodexStep,
) -> bool {
    if rating.local && !request.force_codex {
        step == CodexStep::Refused(CodexRefusal::LocalSufficient)
    } else if !available {
        step == CodexStep::Refused(CodexRefusal::NotFound)
    } else if rule is Forbidden {
        step == CodexStep::Refused(CodexRefusal::Forbidden)
    } else {
        step matches CodexStep::AskApproval(proposal) && is_proposal(proposal, request, rating)
    }
}

pub fn admit_task(
    request: &CodexRunTaskRequest,
    rating: &TaskRating,
    available: bool,
    rule: ApprovalLevel,
) -> (r: CodexStep)
    ensures
        task_is_admitted(*request, *rating, available, rule, r),
{
    if rating.local && !request.force_codex {
        return CodexStep::Refused(CodexRefusal::LocalSufficient);
    }
    if !available {
        return CodexStep::Refused(CodexRefusal::NotFound);
    }
    match rule {
        ApprovalLevel::Forbidden => {
            return CodexStep::Refused(CodexRefusal::Forbidden);
        },
        _ => {},
    }
    CodexStep::AskApproval(propose(request, rating))
}

/// What follows the answer of the user: the task is run with the context that was
/// shown, or it is not.
pub open spec fn task_is_decided(proposal: CodexProposal, approved: bool, step: CodexStep) -> bool {
    step == if approved {
        CodexStep::Run(proposal)
    } else {
        CodexStep::Refused(CodexRefusal::Denied)
    }
}

pub fn task_decided(proposal: CodexProposal, approved: bool) -> (r: CodexStep)
    ensures
        task_is_decided(proposal, approved, r),
{
    if approved {
        CodexStep::Run(proposal)
    } else {
        CodexStep::Refused(CodexRefusal::Denied)
    }
}

/// A task runs exactly if the user was asked about it and approved, whatever the
/// rules say short of forbidding it, and with the context that was shown.
pub proof fn tasks_run_only_when_approved(
    request: CodexRunTaskRequest,
    rating: TaskRating,
    available: bool,
    rule: ApprovalLevel,
    first: CodexStep,
    approved: bool,
    second: CodexStep,
)
    requires
        task_is_admitted(request, rating, available, rule, first),
        match first {
            CodexStep::AskApproval(proposal) => task_is_decided(proposal, approved, second),
            _ => second == first,
        },
    ensures
        second is Run <==> first is AskApproval && approved,
        second matches CodexStep::Run(proposal) ==> is_proposal(proposal, request, rating),
        first is AskApproval ==> available && !(rule is Forbidden) && (!rating.local
            || request.force_codex),
        first is AskApproval && !approved ==> second == CodexStep::Refused(CodexRefusal::Denied),
{
}

/// What came back from the harness.
#[derive(Debug, PartialEq, Eq)]
pub struct CodexRun {
    pub parsed_output: Option<Json>,
    pub result_text: String,
    pub stdout: String,
    pub stderr: String,
}

/// The summary of an answer.
#[derive(Debug, PartialEq, Eq)]
pub enum CodexSummary<'a> {
    /// The value of the answer.
    Value(&'a Json),
    Text(&'a str),
}

/// What is handed back of an answer. A list that the answer does not hold is
/// empty.
#[derive(Debug, PartialEq, Eq)]
pub struct CodexAnswer<'a> {
    pub summary: CodexSummary<'a>,
    pub findings: Option<&'a Vec<Json>>,
    pub conflicts: Option<&'a Vec<Json>>,
    pub proposed_actions: Option<&'a Vec<Json>>,
    pub drafts: Option<&'a Vec<Json>>,
    pub questions_for_user: Option<&'a Vec<Json>>,
    pub stdout_snippet: String,
    pub stderr_snippet: String,
}

/// The list under a name.
pub open spec fn list_field(output: Option<Json>, key: Seq<char>) -> Option<Seq<Json>> {
    match output {
        Some(value) => match lookup(value, key) {
            Some(Json::Array(items)) => Some(items@),
            _ => None,
        },
        None => None,
    }
}

pub open spec fn items_of(list: Option<&Vec<Json>>) -> Option<Seq<Json>> {
    match list {
        Some(items) => Some(items@),
        None => None,
    }
}

pub open spec fn is_summary(summary: CodexSummary, run: CodexRun) -> bool {
    match run.parsed_output {
        Some(output) => match lookup(output, "summary"@) {
            Some(value) => summary matches CodexSummary::Value(shown) && *shown == value,
            None => summary matches CodexSummary::Text(text) && text@ == ""@,
        },
        None => summary matches CodexSummary::Text(text) && text@ == run.result_text@,
    }
}

fn list_of<'a>(output: &'a Option<Json>, key: &str) -> (r: Option<&'a Vec<Json>>)
    ensures
        items_of(r) == list_field(*output, key@),
{
    match output {
        Some(value) => match value.get(key) {
            Some(Json::Array(items)) => Some(items),
            _ => None,
        },
        None => None,
    }
}

/// The answer of a run: its parts where the output is structured, and its text
/// where it is not.
pub fn read_answer(run: &CodexRun) -> (r: CodexAnswer<'_>)
    ensures
        is_summary(r.summary, *run),
        items_of(r.findings) == list_field(run.parsed_output, "findings"@),
        items_of(r.conflicts) == list_field(run.parsed_output, "conflicts"@),
        items_of(r.proposed_actions) == list_field(run.parsed_output, "proposed_actions"@),
        items_of(r.drafts) == list_field(run.parsed_output, "drafts"@),
        items_of(r.questions_for_user) == list_field(run.parsed_output, "questions_for_user"@),
        r.stdout_snippet@ == cut(run.stdout@, MAX_STDOUT_BYTES as nat),
        r.stderr_snippet@ == cut(run.stderr@, MAX_STDERR_BYTES as nat),
{
    let summary = match &run.parsed_output {
        Some(output) => match output.get("summary") {
            Some(value) => CodexSummary::Value(value),
            None => CodexSummary::Text(""),
        },
        None => CodexSummary::Text(run.result_text.as_str()),
    };
    CodexAnswer {
        summary,
        findings: list_of(&run.parsed_output, "findings"),
        conflicts: list_of(&run.parsed_output, "conflicts"),
        proposed_actions: list_of(&run.parsed_output, "proposed_actions"),
        drafts: list_of(&run.parsed_output, "drafts"),
        questions_for_user: list_of(&run.parsed_output, "questions_for_user"),
        stdout_snippet: output_snippet(run.stdout.as_str(), MAX_STDOUT_BYTES),
        stderr_snippet: output_snippet(run.stderr.as_str(), MAX_STDERR_BYTES),
    }
}

/// The harness is given no more than names: every piece of context is marked as
/// private, and says nothing beyond the reference that the user named.
pub proof fn context_is_only_named(
    proposal: CodexProposal,
    request: CodexRunTaskRequest,
    rating: TaskRating,
    i: int,
)
    requires
        is_proposal(proposal, request, rating),
        0 <= i < proposal.allowed_context@.len(),
    ensures
        proposal.allowed_context@[i].pii,
        proposal.allowed_context@[i].record_ref@ == request.context_refs@[i]@,
        proposal.allowed_context@[i].summary@ == "(Summary for "@ + request.context_refs@[i]@
            + " pending user approval)"@,
{
    assert(is_context_item(proposal.allowed_context@[i], request.context_refs@[i]@));
}

} // verus!
