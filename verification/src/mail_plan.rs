//! The steps of a turn that is grounded in mail: every list, search and read is
//! admitted immediately before it runs, and the budget of the plan is kept.

use crate::gate::{denied_result, is_denied_result};
use crate::selection::{saturating_u64, saturating_u8};
use crate::types::{
    operation_key, operational, quoted_once, retry_allowed, EvidenceContribution, EvidenceIntent,
    EvidenceOperation, EvidencePlan, EvidenceResults, ExecutionStatus, FailureCode,
    MailBodyEvidence, MailHeaderEvidence, OperationResult, ValidatedMailId,
};
use crate::validator::{validated, EvidenceValidator};
use crate::web_plan::{counted, is_suppressed, EvidenceTurnOutcome};
use vstd::prelude::*;

verus! {

/// The intent inside all quoted analyses.
pub open spec fn innermost(intent: EvidenceIntent) -> EvidenceIntent
    decreases intent,
{
    match intent {
        EvidenceIntent::AnalyzeQuotedEvidence { intent: inner } => innermost(*inner),
        _ => intent,
    }
}

/// The intent is about mail.
pub open spec fn about_mail(intent: EvidenceIntent) -> bool {
    let wanted = innermost(intent);
    wanted is MailLatestHeaders || wanted is MailLatestContent || wanted is MailTargeted
}

/// The intent is about the web.
pub open spec fn about_web(intent: EvidenceIntent) -> bool {
    let wanted = innermost(intent);
    wanted is WebDirectPage || wanted is WebFact
}

pub fn is_mail_intent(intent: &EvidenceIntent) -> (r: bool)
    ensures
        r == about_mail(*intent),
    decreases intent,
{
    match intent {
        EvidenceIntent::MailLatestHeaders { .. } => true,
        EvidenceIntent::MailLatestContent { .. } => true,
        EvidenceIntent::MailTargeted { .. } => true,
        EvidenceIntent::AnalyzeQuotedEvidence { intent } => is_mail_intent(&**intent),
        _ => false,
    }
}

pub fn is_web_intent(intent: &EvidenceIntent) -> (r: bool)
    ensures
        r == about_web(*intent),
    decreases intent,
{
    match intent {
        EvidenceIntent::WebDirectPage { .. } => true,
        EvidenceIntent::WebFact { .. } => true,
        EvidenceIntent::AnalyzeQuotedEvidence { intent } => is_web_intent(&**intent),
        _ => false,
    }
}

/// The operation that a turn about mail begins with.
pub open spec fn opens_mail(intent: EvidenceIntent, operation: EvidenceOperation) -> bool {
    match intent {
        EvidenceIntent::MailLatestHeaders { count, unread_only } => operation
            == (EvidenceOperation::MailList { limit: count, unread_only }),
        EvidenceIntent::MailLatestContent { count, unread_only, .. } => operation
            == (EvidenceOperation::MailList { limit: count, unread_only }),
        EvidenceIntent::MailTargeted { query, .. } => operation == (EvidenceOperation::MailSearch {
            normalized_query: query,
            limit: 10,
        }),
        _ => false,
    }
}

pub fn first_mail_operation(intent: &EvidenceIntent) -> (r: EvidenceOperation)
    requires
        about_mail(*intent),
    ensures
        opens_mail(innermost(*intent), r),
        r is MailList || r is MailSearch,
    decreases intent,
{
    match intent {
        EvidenceIntent::MailLatestHeaders { count, unread_only } => EvidenceOperation::MailList {
            limit: *count,
            unread_only: *unread_only,
        },
        EvidenceIntent::MailLatestContent { count, unread_only, .. } => EvidenceOperation::MailList {
            limit: *count,
            unread_only: *unread_only,
        },
        EvidenceIntent::MailTargeted { query, .. } => EvidenceOperation::MailSearch {
            normalized_query: query.clone(),
            limit: 10,
        },
        EvidenceIntent::AnalyzeQuotedEvidence { intent } => first_mail_operation(&**intent),
        _ => EvidenceOperation::MailList { limit: 0, unread_only: false },
    }
}

/// A turn between two steps.
#[derive(Debug, PartialEq, Eq)]
pub struct MailTurn {
    /// The headers whose messages may be read next.
    pub headers: Vec<MailHeaderEvidence>,
    /// How many messages the intent asks to read.
    pub wanted: u8,
    /// The messages that were asked for.
    pub seen: Vec<ValidatedMailId>,
    pub body_attempts: usize,
    pub operations_executed: usize,
    pub approvals_denied: usize,
    pub results: EvidenceResults,
}

/// What a turn does next.
#[derive(Debug, PartialEq, Eq)]
pub enum MailStep {
    /// Ask whether the list or the search that opens the turn may run.
    AskFirst { operation: EvidenceOperation },
    /// Run the list or the search.
    RunFirst { operation: EvidenceOperation },
    /// Take the next step of the turn.
    Proceed(MailTurn),
    /// Ask whether the message may be read.
    AskRead { turn: MailTurn, message_id: ValidatedMailId },
    /// Read the message.
    RunRead { turn: MailTurn, message_id: ValidatedMailId },
    /// Ask whether the message may be read again.
    AskRetry {
        turn: MailTurn,
        message_id: ValidatedMailId,
        first: OperationResult<MailBodyEvidence>,
    },
    /// Read the message again.
    RunRetry {
        turn: MailTurn,
        message_id: ValidatedMailId,
        first: OperationResult<MailBodyEvidence>,
    },
    Finished(EvidenceTurnOutcome),
}

/// How many messages are read, once the headers are known.
pub open spec fn bodies_wanted(intent: EvidenceIntent, headers: int) -> u8 {
    match intent {
        EvidenceIntent::MailLatestContent { count, .. } => count,
        EvidenceIntent::MailTargeted { needs_content, .. } => if needs_content && headers == 1 {
            1
        } else {
            0
        },
        _ => 0,
    }
}

/// The result of the first operation on record: a list or a search.
pub open spec fn records_first(
    operation: EvidenceOperation,
    result: OperationResult<Vec<MailHeaderEvidence>>,
    results: EvidenceResults,
) -> bool {
    &&& results.mail_bodies@.len() == 0
    &&& results.web_searches@.len() == 0
    &&& results.web_fetches@.len() == 0
    &&& results.conflicts@.len() == 0
    &&& if operation is MailSearch {
        results.mail_search@ == seq![result] && results.mail_list@.len() == 0
    } else {
        results.mail_list@ == seq![result] && results.mail_search@.len() == 0
    }
}

pub fn push_list_or_search(
    operation: &EvidenceOperation,
    result: OperationResult<Vec<MailHeaderEvidence>>,
    results: &mut EvidenceResults,
)
    requires
        operation is MailList || operation is MailSearch,
    ensures
        if operation is MailSearch {
            final(results).mail_search@ == old(results).mail_search@.push(result) && *final(results)
                == (EvidenceResults { mail_search: final(results).mail_search, ..*old(results) })
        } else {
            final(results).mail_list@ == old(results).mail_list@.push(result) && *final(results)
                == (EvidenceResults { mail_list: final(results).mail_list, ..*old(results) })
        },
{
    match operation {
        EvidenceOperation::MailSearch { .. } => results.mail_search.push(result),
        _ => results.mail_list.push(result),
    }
}

pub open spec fn headers_in(result: OperationResult<Vec<MailHeaderEvidence>>) -> Seq<
    MailHeaderEvidence,
> {
    match result.value {
        Some(headers) => headers@,
        None => Seq::empty(),
    }
}

fn clone_headers(headers: &Vec<MailHeaderEvidence>) -> (r: Vec<MailHeaderEvidence>)
    ensures
        r@ == headers@,
{
    let mut out: Vec<MailHeaderEvidence> = Vec::new();
    let mut i: usize = 0;
    while i < headers.len()
        invariant
            i <= headers@.len(),
            out@.len() == i,
            forall|k: int| 0 <= k < i ==> out@[k] == headers@[k],
        decreases headers@.len() - i,
    {
        out.push(headers[i].clone());
        i = i + 1;
    }
    proof {
        assert(out@ =~= headers@);
    }
    out
}

/// The turn after its first operation, which ran or was denied.
pub open spec fn turn_opens(
    plan: EvidencePlan,
    operation: EvidenceOperation,
    result: OperationResult<Vec<MailHeaderEvidence>>,
    ran: bool,
    turn: MailTurn,
) -> bool {
    &&& turn.headers@ == headers_in(result)
    &&& turn.wanted == bodies_wanted(operational(plan.intent), headers_in(result).len() as int)
    &&& turn.seen@.len() == 0
    &&& turn.body_attempts == 0
    &&& turn.operations_executed == if ran {
        1
    } else {
        0int
    }
    &&& turn.approvals_denied == if ran {
        0
    } else {
        1int
    }
    &&& records_first(operation, result, turn.results)
}

fn open_turn(
    plan: &EvidencePlan,
    operation: &EvidenceOperation,
    result: OperationResult<Vec<MailHeaderEvidence>>,
    ran: bool,
) -> (r: MailTurn)
    requires
        operation is MailList || operation is MailSearch,
    ensures
        turn_opens(*plan, *operation, result, ran, r),
{
    let headers = match &result.value {
        Some(list) => clone_headers(list),
        None => Vec::new(),
    };
    proof {
        assert(headers@ =~= headers_in(result));
    }
    let wanted_intent: &EvidenceIntent = match &plan.intent {
        EvidenceIntent::AnalyzeQuotedEvidence { intent } => &**intent,
        _ => &plan.intent,
    };
    let wanted: u8 = match wanted_intent {
        EvidenceIntent::MailLatestContent { count, .. } => *count,
        EvidenceIntent::MailTargeted { needs_content, .. } => if *needs_content && headers.len()
            == 1 {
            1
        } else {
            0
        },
        _ => 0,
    };
    let mut results = EvidenceResults::none();
    push_list_or_search(operation, result, &mut results);
    proof {
        if operation is MailSearch {
            assert(results.mail_search@ =~= seq![result]);
        } else {
            assert(results.mail_list@ =~= seq![result]);
        }
    }
    MailTurn {
        headers,
        wanted,
        seen: Vec::new(),
        body_attempts: 0,
        operations_executed: if ran {
            1
        } else {
            0
        },
        approvals_denied: if ran {
            0
        } else {
            1
        },
        results,
    }
}

/// The first step of a turn: the list or the search that opens it is asked for.
pub open spec fn mail_turn_begins(plan: EvidencePlan, step: MailStep) -> bool {
    step matches MailStep::AskFirst { operation } && opens_mail(innermost(plan.intent), operation)
}

pub fn start_mail_turn(plan: &EvidencePlan) -> (r: MailStep)
    requires
        about_mail(plan.intent),
    ensures
        mail_turn_begins(*plan, r),
{
    MailStep::AskFirst { operation: first_mail_operation(&plan.intent) }
}

/// What follows the decision on the list or the search: it runs, or it is
/// recorded as denied and nothing is found.
pub open spec fn first_is_decided(
    plan: EvidencePlan,
    operation: EvidenceOperation,
    allowed: bool,
    step: MailStep,
) -> bool {
    if allowed {
        step == (MailStep::RunFirst { operation })
    } else {
        exists|result: OperationResult<Vec<MailHeaderEvidence>>| #[trigger]
            is_denied_result(result, operation_key(operation)) && (step matches MailStep::Proceed(
                turn,
            ) && turn_opens(plan, operation, result, false, turn))
    }
}

pub fn first_decided(plan: &EvidencePlan, operation: EvidenceOperation, allowed: bool) -> (r:
    MailStep)
    requires
        operation is MailList || operation is MailSearch,
    ensures
        first_is_decided(*plan, operation, allowed, r),
{
    if allowed {
        MailStep::RunFirst { operation }
    } else {
        let result: OperationResult<Vec<MailHeaderEvidence>> = denied_result(&operation);
        let ghost refused = result;
        let turn = open_turn(plan, &operation, result, false);
        proof {
            assert(is_denied_result(refused, operation_key(operation)));
        }
        MailStep::Proceed(turn)
    }
}

/// What follows the list or the search: the turn goes on with what it brought.
pub open spec fn first_is_taken(
    plan: EvidencePlan,
    operation: EvidenceOperation,
    result: OperationResult<Vec<MailHeaderEvidence>>,
    step: MailStep,
) -> bool {
    step matches MailStep::Proceed(turn) && turn_opens(plan, operation, result, true, turn)
}

pub fn first_done(
    plan: &EvidencePlan,
    operation: &EvidenceOperation,
    result: OperationResult<Vec<MailHeaderEvidence>>,
) -> (r: MailStep)
    requires
        operation is MailList || operation is MailSearch,
    ensures
        first_is_taken(*plan, *operation, result, r),
{
    MailStep::Proceed(open_turn(plan, operation, result, true))
}

pub open spec fn was_asked(seen: Seq<ValidatedMailId>, id: Seq<char>) -> bool {
    exists|i: int| 0 <= i < seen.len() && (#[trigger] seen[i])@ == id
}

fn knows_message(seen: &Vec<ValidatedMailId>, id: &ValidatedMailId) -> (r: bool)
    ensures
        r == was_asked(seen@, id@),
{
    let mut i: usize = 0;
    while i < seen.len()
        invariant
            i <= seen@.len(),
            forall|k: int| 0 <= k < i ==> (#[trigger] seen@[k])@ != id@,
        decreases seen@.len() - i,
    {
        if seen[i].same(id) {
            return true;
        }
        i = i + 1;
    }
    false
}

/// A turn with one more body on record.
pub open spec fn one_more_body(before: EvidenceResults, after: EvidenceResults) -> bool {
    &&& after.mail_bodies@.len() == before.mail_bodies@.len() + 1
    &&& after.mail_bodies@.drop_last() == before.mail_bodies@
    &&& after == (EvidenceResults { mail_bodies: after.mail_bodies, ..before })
}

/// The turn with this result of a read on record.
pub open spec fn body_is_kept(
    turn: MailTurn,
    result: OperationResult<MailBodyEvidence>,
    step: MailStep,
) -> bool {
    &&& step matches MailStep::Proceed(next)
    &&& one_more_body(turn.results, next.results)
    &&& next.results.mail_bodies@.last() == result
    &&& next == (MailTurn { results: next.results, ..turn })
}

fn keep_body(turn: MailTurn, result: OperationResult<MailBodyEvidence>) -> (r: MailStep)
    ensures
        body_is_kept(turn, result, r),
{
    let ghost was = turn;
    let mut next = turn;
    next.results.mail_bodies.push(result);
    proof {
        assert(next.results.mail_bodies@.drop_last() =~= was.results.mail_bodies@);
    }
    MailStep::Proceed(next)
}

/// No more messages are read: as many as wanted were, the budget is spent, or
/// there is no other.
pub open spec fn reading_is_over(plan: EvidencePlan, turn: MailTurn) -> bool {
    turn.headers@.len() == 0 || turn.body_attempts >= turn.wanted || turn.body_attempts
        >= plan.budget.mail_body_attempts
}

pub open spec fn mail_turn_ends(
    turn_id: Seq<char>,
    plan: EvidencePlan,
    turn: MailTurn,
    outcome: EvidenceTurnOutcome,
) -> bool {
    &&& validated(outcome.validation, turn_id, plan, turn.results)
    &&& outcome.operations_executed == turn.operations_executed
    &&& outcome.approvals_denied == turn.approvals_denied
}

/// What a turn does next: it ends, puts a message that was asked for before on
/// record as a duplicate, or asks for the next message at the cost of an attempt.
pub open spec fn mail_proceeds(
    turn_id: Seq<char>,
    plan: EvidencePlan,
    turn: MailTurn,
    step: MailStep,
) -> bool {
    if reading_is_over(plan, turn) {
        step matches MailStep::Finished(outcome) && mail_turn_ends(turn_id, plan, turn, outcome)
    } else {
        let id = turn.headers@[0].connector_id;
        if was_asked(turn.seen@, id@) {
            &&& step matches MailStep::Proceed(next)
            &&& next.headers@ == turn.headers@.drop_first()
            &&& one_more_body(turn.results, next.results)
            &&& is_suppressed(next.results.mail_bodies@.last(), "mail_read:"@ + id@)
            &&& next == (MailTurn { headers: next.headers, results: next.results, ..turn })
        } else {
            &&& step matches MailStep::AskRead { turn: next, message_id }
            &&& message_id == id
            &&& next.headers@ == turn.headers@.drop_first()
            &&& next.seen@ == turn.seen@.push(id)
            &&& next == (MailTurn {
                headers: next.headers,
                seen: next.seen,
                body_attempts: (turn.body_attempts + 1) as usize,
                ..turn
            })
        }
    }
}

pub fn proceed_mail(turn_id: &str, plan: &EvidencePlan, turn: MailTurn) -> (r: MailStep)
    requires
        quoted_once(plan.intent),
    ensures
        mail_proceeds(turn_id@, *plan, turn, r),
{
    if turn.headers.len() == 0 || turn.body_attempts >= turn.wanted as usize || turn.body_attempts
        >= plan.budget.mail_body_attempts as usize {
        return MailStep::Finished(
            EvidenceTurnOutcome {
                validation: EvidenceValidator::validate(turn_id, plan, turn.results),
                operations_executed: turn.operations_executed,
                approvals_denied: turn.approvals_denied,
            },
        );
    }
    let ghost was = turn;
    let mut next = turn;
    let header = next.headers.remove(0);
    proof {
        assert(next.headers@ =~= was.headers@.drop_first());
    }
    let message_id = header.connector_id;
    if knows_message(&next.seen, &message_id) {
        let operation = EvidenceOperation::MailRead { message_id };
        next.results.mail_bodies.push(OperationResult::suppressed_duplicate(operation.key()));
        proof {
            assert(next.results.mail_bodies@.drop_last() =~= was.results.mail_bodies@);
        }
        MailStep::Proceed(next)
    } else {
        next.seen.push(message_id.clone());
        next.body_attempts = next.body_attempts + 1;
        MailStep::AskRead { turn: next, message_id }
    }
}

/// What follows the decision on a read.
pub open spec fn read_is_decided(
    turn: MailTurn,
    message_id: ValidatedMailId,
    allowed: bool,
    step: MailStep,
) -> bool {
    if allowed {
        &&& step matches MailStep::RunRead { turn: next, message_id: id }
        &&& id == message_id
        &&& next == (MailTurn {
            operations_executed: counted(turn.operations_executed, 1),
            ..turn
        })
    } else {
        exists|result: OperationResult<MailBodyEvidence>| #[trigger]
            is_denied_result(result, "mail_read:"@ + message_id@) && body_is_kept(
                (MailTurn { approvals_denied: counted(turn.approvals_denied, 1), ..turn }),
                result,
                step,
            )
    }
}

pub fn read_decided(turn: MailTurn, message_id: ValidatedMailId, allowed: bool) -> (r: MailStep)
    ensures
        read_is_decided(turn, message_id, allowed, r),
{
    let mut next = turn;
    if allowed {
        next.operations_executed = next.operations_executed.saturating_add(1);
        MailStep::RunRead { turn: next, message_id }
    } else {
        next.approvals_denied = next.approvals_denied.saturating_add(1);
        let operation = EvidenceOperation::MailRead { message_id };
        let result: OperationResult<MailBodyEvidence> = denied_result(&operation);
        let ghost refused = result;
        let step = keep_body(next, result);
        proof {
            assert(is_denied_result(refused, "mail_read:"@ + message_id@));
        }
        step
    }
}

/// How many attempts at reading are left.
pub open spec fn attempts_left(plan: EvidencePlan, turn: MailTurn) -> u8 {
    if turn.body_attempts <= plan.budget.mail_body_attempts {
        (plan.budget.mail_body_attempts - turn.body_attempts) as u8
    } else {
        0
    }
}

/// What follows a read.
pub open spec fn read_is_taken(
    plan: EvidencePlan,
    turn: MailTurn,
    message_id: ValidatedMailId,
    result: OperationResult<MailBodyEvidence>,
    step: MailStep,
) -> bool {
    if retry_allowed(result, attempts_left(plan, turn)) {
        step matches MailStep::AskRetry { turn: next, message_id: id, first } && next == turn && id
            == message_id && first == result
    } else {
        body_is_kept(turn, result, step)
    }
}

pub fn read_done(
    plan: &EvidencePlan,
    turn: MailTurn,
    message_id: ValidatedMailId,
    result: OperationResult<MailBodyEvidence>,
) -> (r: MailStep)
    ensures
        read_is_taken(*plan, turn, message_id, result, r),
{
    let budget: usize = plan.budget.mail_body_attempts as usize;
    let left: u8 = if turn.body_attempts <= budget {
        (budget - turn.body_attempts) as u8
    } else {
        0
    };
    if result.retry_permitted(left) {
        MailStep::AskRetry { turn, message_id, first: result }
    } else {
        keep_body(turn, result)
    }
}

/// What follows the decision on a retry: it runs at the cost of an attempt, or
/// the message is recorded as denied.
pub open spec fn reread_is_decided(
    turn: MailTurn,
    message_id: ValidatedMailId,
    first: OperationResult<MailBodyEvidence>,
    allowed: bool,
    step: MailStep,
) -> bool {
    if allowed {
        &&& step matches MailStep::RunRetry { turn: next, message_id: id, first: kept }
        &&& id == message_id
        &&& kept == first
        &&& next == (MailTurn {
            operations_executed: counted(turn.operations_executed, 1),
            body_attempts: counted(turn.body_attempts, 1),
            ..turn
        })
    } else {
        exists|result: OperationResult<MailBodyEvidence>| #[trigger]
            is_denied_result(
                (OperationResult { attempts: 1, ..result }),
                "mail_read:"@ + message_id@,
            ) && result.attempts == first.attempts && body_is_kept(
                (MailTurn { approvals_denied: counted(turn.approvals_denied, 1), ..turn }),
                result,
                step,
            )
    }
}

pub fn reread_decided(
    turn: MailTurn,
    message_id: ValidatedMailId,
    first: OperationResult<MailBodyEvidence>,
    allowed: bool,
) -> (r: MailStep)
    ensures
        reread_is_decided(turn, message_id, first, allowed, r),
{
    let mut next = turn;
    if allowed {
        next.operations_executed = next.operations_executed.saturating_add(1);
        next.body_attempts = next.body_attempts.saturating_add(1);
        MailStep::RunRetry { turn: next, message_id, first }
    } else {
        next.approvals_denied = next.approvals_denied.saturating_add(1);
        let operation = EvidenceOperation::MailRead { message_id };
        let mut result: OperationResult<MailBodyEvidence> = denied_result(&operation);
        let ghost refused = result;
        result.attempts = first.attempts;
        let ghost kept = result;
        let step = keep_body(next, result);
        proof {
            assert((OperationResult { attempts: 1, ..kept }) == refused);
            assert(is_denied_result(
                (OperationResult { attempts: 1, ..kept }),
                "mail_read:"@ + message_id@,
            ));
        }
        step
    }
}

/// The result of a second read, with the effort of both.
pub open spec fn reread(
    first: OperationResult<MailBodyEvidence>,
    retry: OperationResult<MailBodyEvidence>,
) -> OperationResult<MailBodyEvidence> {
    OperationResult {
        attempts: saturating_u8(first.attempts, retry.attempts),
        duration_ms: saturating_u64(first.duration_ms, retry.duration_ms),
        ..retry
    }
}

pub fn reread_done(
    turn: MailTurn,
    first: OperationResult<MailBodyEvidence>,
    retry: OperationResult<MailBodyEvidence>,
) -> (r: MailStep)
    ensures
        body_is_kept(turn, reread(first, retry), r),
{
    let mut result = retry;
    result.attempts = first.attempts.saturating_add(result.attempts);
    result.duration_ms = first.duration_ms.saturating_add(result.duration_ms);
    keep_body(turn, result)
}

/// A turn about mail on a machine without the mail connector.
pub open spec fn unavailable_outcome(
    turn_id: Seq<char>,
    plan: EvidencePlan,
    operation: EvidenceOperation,
    allowed: bool,
    outcome: EvidenceTurnOutcome,
) -> bool {
    exists|result: OperationResult<Vec<MailHeaderEvidence>>, results: EvidenceResults| #[trigger]
        records_first(operation, result, results) && result.key@ == operation_key(operation)
            && result.attempts == 1 && result.execution == (if allowed {
            ExecutionStatus::Failed(FailureCode::ConnectorUnavailable)
        } else {
            ExecutionStatus::Denied
        }) && result.contribution is Empty && result.value is None && result.duration_ms == 0
            && result.invalid_items == 0 && validated(outcome.validation, turn_id, plan, results)
            && outcome.operations_executed == 0 && outcome.approvals_denied == (if allowed {
            0int
        } else {
            1int
        })
}

pub fn unavailable_mail_turn(
    turn_id: &str,
    plan: &EvidencePlan,
    operation: &EvidenceOperation,
    allowed: bool,
) -> (r: EvidenceTurnOutcome)
    requires
        quoted_once(plan.intent),
        operation is MailList || operation is MailSearch,
    ensures
        unavailable_outcome(turn_id@, *plan, *operation, allowed, r),
{
    let result: OperationResult<Vec<MailHeaderEvidence>> = if allowed {
        OperationResult::without_value(
            operation.key(),
            ExecutionStatus::Failed(FailureCode::ConnectorUnavailable),
            EvidenceContribution::Empty,
        )
    } else {
        denied_result(operation)
    };
    let ghost kept = result;
    let mut results = EvidenceResults::none();
    push_list_or_search(operation, result, &mut results);
    proof {
        if operation is MailSearch {
            assert(results.mail_search@ =~= seq![kept]);
        } else {
            assert(results.mail_list@ =~= seq![kept]);
        }
        assert(records_first(*operation, kept, results));
    }
    EvidenceTurnOutcome {
        validation: EvidenceValidator::validate(turn_id, plan, results),
        operations_executed: 0,
        approvals_denied: if allowed {
            0
        } else {
            1
        },
    }
}

/// No message is asked for while the budget is spent: a read spends an attempt
/// when it is asked for, and another when it is tried again.
pub proof fn reads_stay_within_the_budget(
    turn_id: Seq<char>,
    plan: EvidencePlan,
    turn: MailTurn,
    step: MailStep,
)
    requires
        mail_proceeds(turn_id, plan, turn, step),
    ensures
        step is AskRead ==> step->AskRead_turn.body_attempts <= plan.budget.mail_body_attempts
            && step->AskRead_turn.body_attempts <= turn.wanted,
        turn.body_attempts >= plan.budget.mail_body_attempts ==> step is Finished,
{
}

/// A retry is asked for only where an attempt is left for it, and never twice
/// for one message.
pub proof fn rereads_stay_within_the_budget(
    plan: EvidencePlan,
    turn: MailTurn,
    message_id: ValidatedMailId,
    result: OperationResult<MailBodyEvidence>,
    step: MailStep,
)
    requires
        read_is_taken(plan, turn, message_id, result, step),
    ensures
        step is AskRetry ==> turn.body_attempts < plan.budget.mail_body_attempts && result.attempts
            < 2,
{
}

} // verus!
