//! Laws of a turn that is grounded in mail: what opens it, which messages are
//! read, and what is counted.

use crate::mail_plan::{
    about_mail, about_web, first_is_decided, first_is_taken, innermost, mail_proceeds,
    mail_turn_begins, read_is_decided, read_is_taken, reread, reread_is_decided,
    unavailable_outcome, MailStep, MailTurn,
};
use crate::types::{
    operational, EvidenceIntent, EvidenceOperation, EvidencePlan, EvidenceResults, ExecutionStatus,
    FailureCode, MailBodyEvidence, MailHeaderEvidence, OperationResult, ValidatedMailId,
};
use crate::validator::validated;
use crate::web_plan::EvidenceTurnOutcome;
use vstd::prelude::*;

verus! {

/// Every layer of quoted analysis is looked through, and what is found under them
/// is about mail or about the web, not both.
pub proof fn quoted_analyses_are_looked_through(intent: EvidenceIntent)
    ensures
        !(innermost(intent) is AnalyzeQuotedEvidence),
        intent matches EvidenceIntent::AnalyzeQuotedEvidence { intent: inner } ==> innermost(intent)
            == innermost(*inner) && about_mail(intent) == about_mail(*inner) && about_web(intent)
            == about_web(*inner),
        !(intent is AnalyzeQuotedEvidence) ==> innermost(intent) == intent,
        intent is MailLatestHeaders || intent is MailLatestContent || intent is MailTargeted
            ==> about_mail(intent),
        intent is WebDirectPage || intent is WebFact ==> about_web(intent),
        about_mail(intent) != about_web(intent),
    decreases intent,
{
    if let EvidenceIntent::AnalyzeQuotedEvidence { intent: inner } = intent {
        quoted_analyses_are_looked_through(*inner);
    }
}

/// A turn opens with a question: for the latest messages, whether as many of them
/// as were asked for may be listed; for a message that was described, whether ten
/// may be searched for with that description.
pub proof fn mail_turns_open_with_a_question(plan: EvidencePlan, step: MailStep)
    requires
        mail_turn_begins(plan, step),
    ensures
        step is AskFirst,
        plan.intent matches EvidenceIntent::MailLatestHeaders { count, unread_only }
            ==> step->AskFirst_operation == (EvidenceOperation::MailList {
            limit: count,
            unread_only,
        }),
        plan.intent matches EvidenceIntent::MailLatestContent { count, unread_only, .. }
            ==> step->AskFirst_operation == (EvidenceOperation::MailList {
            limit: count,
            unread_only,
        }),
        plan.intent matches EvidenceIntent::MailTargeted { query, .. } ==> step->AskFirst_operation
            == (EvidenceOperation::MailSearch { normalized_query: query, limit: 10 }),
{
}

/// What was allowed runs, and what was denied does not: the turn goes on without
/// headers, with one denial and nothing run.
pub proof fn denied_listings_bring_no_messages(
    plan: EvidencePlan,
    operation: EvidenceOperation,
    allowed: bool,
    step: MailStep,
)
    requires
        first_is_decided(plan, operation, allowed, step),
    ensures
        allowed ==> step == (MailStep::RunFirst { operation }),
        !allowed ==> (step matches MailStep::Proceed(turn) && turn.headers@.len() == 0
            && turn.operations_executed == 0 && turn.approvals_denied == 1 && turn.body_attempts
            == 0 && turn.seen@.len() == 0 && turn.results.mail_bodies@.len() == 0
            && turn.results.mail_list@.len() + turn.results.mail_search@.len() == 1),
{
}

/// What was listed is kept where it belongs, and its headers are what may be read.
/// The messages that are wanted are those asked for; of a described one, one, and
/// only where its content is needed and it was the only one found.
pub proof fn listings_decide_what_is_read(
    plan: EvidencePlan,
    operation: EvidenceOperation,
    result: OperationResult<Vec<MailHeaderEvidence>>,
    step: MailStep,
)
    requires
        first_is_taken(plan, operation, result, step),
    ensures
        step matches MailStep::Proceed(turn) && {
            let found: int = if result.value is Some {
                result.value->0@.len() as int
            } else {
                0
            };
            &&& result.value is Some ==> turn.headers@ == result.value->0@
            &&& result.value is None ==> turn.headers@.len() == 0
            &&& turn.operations_executed == 1
            &&& turn.approvals_denied == 0
            &&& turn.body_attempts == 0
            &&& turn.seen@.len() == 0
            &&& operation is MailSearch ==> turn.results.mail_search@ =~= seq![result]
                && turn.results.mail_list@.len() == 0
            &&& !(operation is MailSearch) ==> turn.results.mail_list@ =~= seq![result]
                && turn.results.mail_search@.len() == 0
            &&& turn.results.mail_bodies@.len() == 0
            &&& turn.results.web_searches@.len() == 0
            &&& turn.results.web_fetches@.len() == 0
            &&& operational(plan.intent) is MailLatestHeaders ==> turn.wanted == 0
            &&& operational(plan.intent) matches EvidenceIntent::MailLatestContent { count, .. }
                ==> turn.wanted == count
            &&& operational(plan.intent) matches EvidenceIntent::MailTargeted {
                needs_content,
                ..
            } ==> turn.wanted == if needs_content && found == 1 {
                1int
            } else {
                0
            }
        },
{
}

/// The next header is taken from the front. The turn ends exactly where no header
/// is left or no read is; a message that was asked for before is reported as a
/// duplicate without a read, and any other is asked for.
pub proof fn messages_are_read_in_order(
    turn_id: Seq<char>,
    plan: EvidencePlan,
    turn: MailTurn,
    step: MailStep,
)
    requires
        mail_proceeds(turn_id, plan, turn, step),
        turn.body_attempts < usize::MAX,
    ensures
        step is Finished <==> turn.headers@.len() == 0 || turn.body_attempts >= turn.wanted
            || turn.body_attempts >= plan.budget.mail_body_attempts,
        step is Finished || step is AskRead || step is Proceed,
        step matches MailStep::Finished(outcome) ==> validated(
            outcome.validation,
            turn_id,
            plan,
            turn.results,
        ) && outcome.operations_executed == turn.operations_executed && outcome.approvals_denied
            == turn.approvals_denied,
        step matches MailStep::AskRead { turn: next, message_id } ==> {
            &&& message_id == turn.headers@[0].connector_id
            &&& forall|i: int|
                0 <= i < turn.seen@.len() ==> (#[trigger] turn.seen@[i])@ != message_id@
            &&& next.seen@ =~= turn.seen@ + seq![message_id]
            &&& next.headers@ =~= turn.headers@.subrange(1, turn.headers@.len() as int)
            &&& next.body_attempts == turn.body_attempts + 1
            &&& next.wanted == turn.wanted
            &&& next.operations_executed == turn.operations_executed
            &&& next.approvals_denied == turn.approvals_denied
            &&& next.results == turn.results
        },
        step matches MailStep::Proceed(next) ==> {
            let last = next.results.mail_bodies@.last();
            &&& exists|i: int|
                0 <= i < turn.seen@.len() && (#[trigger] turn.seen@[i])@
                    == turn.headers@[0].connector_id@
            &&& next.headers@ =~= turn.headers@.subrange(1, turn.headers@.len() as int)
            &&& next.results.mail_bodies@.len() == turn.results.mail_bodies@.len() + 1
            &&& next.results.mail_bodies@.drop_last() == turn.results.mail_bodies@
            &&& last.key@ == "mail_read:"@ + turn.headers@[0].connector_id@
            &&& last.attempts == 0
            &&& last.execution is Succeeded
            &&& last.contribution is Duplicate
            &&& last.value is None
            &&& last.duration_ms == 0
            &&& next.body_attempts == turn.body_attempts
            &&& next.seen == turn.seen
            &&& next.operations_executed == turn.operations_executed
            &&& next.approvals_denied == turn.approvals_denied
        },
{
}

/// An allowed read runs and is counted; a denied one is counted as denied, and
/// reported as such at the end of what was read.
pub proof fn reads_wait_for_their_approval(
    turn: MailTurn,
    message_id: ValidatedMailId,
    allowed: bool,
    step: MailStep,
)
    requires
        read_is_decided(turn, message_id, allowed, step),
        turn.operations_executed < usize::MAX,
        turn.approvals_denied < usize::MAX,
    ensures
        allowed ==> (step matches MailStep::RunRead { turn: next, message_id: id } && id
            == message_id && next.operations_executed == turn.operations_executed + 1
            && next.approvals_denied == turn.approvals_denied && next.results == turn.results
            && next.headers == turn.headers && next.seen == turn.seen && next.body_attempts
            == turn.body_attempts && next.wanted == turn.wanted),
        !allowed ==> (step matches MailStep::Proceed(next) && next.operations_executed
            == turn.operations_executed && next.approvals_denied == turn.approvals_denied + 1
            && next.results.mail_bodies@.len() == turn.results.mail_bodies@.len() + 1
            && next.results.mail_bodies@.drop_last() == turn.results.mail_bodies@
            && next.results.mail_bodies@.last().key@ == "mail_read:"@ + message_id@
            && next.results.mail_bodies@.last().execution is Denied
            && next.results.mail_bodies@.last().value is None && next.headers == turn.headers
            && next.seen == turn.seen && next.body_attempts == turn.body_attempts),
{
}

/// A second read is asked for exactly after a fault that may pass by itself, once,
/// where a read is left; anything else is kept as it came.
pub proof fn passing_faults_are_read_again(
    plan: EvidencePlan,
    turn: MailTurn,
    message_id: ValidatedMailId,
    result: OperationResult<MailBodyEvidence>,
    step: MailStep,
)
    requires
        read_is_taken(plan, turn, message_id, result, step),
    ensures
        step is AskRetry <==> turn.body_attempts < plan.budget.mail_body_attempts
            && result.attempts <= 1 && (result.execution is TimedOut || (
        result.execution matches ExecutionStatus::Failed(failure) && (
        failure is ConnectionReset || failure is RateLimited || failure is Http5xx))),
        step matches MailStep::AskRetry { turn: next, message_id: id, first } ==> next == turn
            && id == message_id && first == result,
        !(step is AskRetry) ==> (step matches MailStep::Proceed(next)
            && next.results.mail_bodies@.len() == turn.results.mail_bodies@.len() + 1
            && next.results.mail_bodies@.drop_last() == turn.results.mail_bodies@
            && next.results.mail_bodies@.last() == result && next.headers == turn.headers
            && next.seen == turn.seen && next.body_attempts == turn.body_attempts
            && next.operations_executed == turn.operations_executed && next.approvals_denied
            == turn.approvals_denied),
{
}

/// An allowed second read is counted as a read and as an attempt; a denied one
/// leaves the message unread, with the attempts of the first.
pub proof fn second_reads_wait_for_their_approval(
    turn: MailTurn,
    message_id: ValidatedMailId,
    first: OperationResult<MailBodyEvidence>,
    allowed: bool,
    step: MailStep,
)
    requires
        reread_is_decided(turn, message_id, first, allowed, step),
        turn.operations_executed < usize::MAX,
        turn.approvals_denied < usize::MAX,
        turn.body_attempts < usize::MAX,
    ensures
        allowed ==> (step matches MailStep::RunRetry { turn: next, message_id: id, first: kept }
            && id == message_id && kept == first && next.operations_executed
            == turn.operations_executed + 1 && next.body_attempts == turn.body_attempts + 1
            && next.approvals_denied == turn.approvals_denied && next.results == turn.results),
        !allowed ==> (step matches MailStep::Proceed(next) && next.approvals_denied
            == turn.approvals_denied + 1 && next.operations_executed == turn.operations_executed
            && next.body_attempts == turn.body_attempts && next.results.mail_bodies@.len()
            == turn.results.mail_bodies@.len() + 1 && next.results.mail_bodies@.drop_last()
            == turn.results.mail_bodies@ && next.results.mail_bodies@.last().execution is Denied
            && next.results.mail_bodies@.last().value is None
            && next.results.mail_bodies@.last().attempts == first.attempts
            && next.results.mail_bodies@.last().key@ == "mail_read:"@ + message_id@),
{
}

/// A second read adds its attempts and its time to those of the first, and is
/// otherwise what is kept.
pub proof fn second_reads_add_up(
    first: OperationResult<MailBodyEvidence>,
    retry: OperationResult<MailBodyEvidence>,
)
    ensures
        reread(first, retry).key == retry.key,
        reread(first, retry).invalid_items == retry.invalid_items,
        reread(first, retry).execution == retry.execution,
        reread(first, retry).contribution == retry.contribution,
        reread(first, retry).value == retry.value,
        first.attempts + retry.attempts <= 255 ==> reread(first, retry).attempts == first.attempts
            + retry.attempts,
        first.attempts + retry.attempts >= 255 ==> reread(first, retry).attempts == 255,
        first.duration_ms + retry.duration_ms <= u64::MAX ==> reread(first, retry).duration_ms
            == first.duration_ms + retry.duration_ms,
        first.duration_ms + retry.duration_ms >= u64::MAX ==> reread(first, retry).duration_ms
            == u64::MAX,
{
}

/// Without a mail store nothing runs: an allowed turn fails for want of the
/// connector, and one that was not allowed is denied.
pub proof fn missing_stores_run_nothing(
    turn_id: Seq<char>,
    plan: EvidencePlan,
    operation: EvidenceOperation,
    allowed: bool,
    outcome: EvidenceTurnOutcome,
)
    requires
        unavailable_outcome(turn_id, plan, operation, allowed, outcome),
    ensures
        outcome.operations_executed == 0,
        outcome.approvals_denied == if allowed {
            0int
        } else {
            1
        },
        exists|results: EvidenceResults|
            {
                let listed = if operation is MailSearch {
                    results.mail_search@
                } else {
                    results.mail_list@
                };
                &&& #[trigger] validated(outcome.validation, turn_id, plan, results)
                &&& results.mail_bodies@.len() == 0
                &&& results.web_fetches@.len() == 0
                &&& listed.len() == 1
                &&& listed[0].value is None
                &&& listed[0].attempts == 1
                &&& listed[0].execution == if allowed {
                    ExecutionStatus::Failed(FailureCode::ConnectorUnavailable)
                } else {
                    ExecutionStatus::Denied
                }
            },
{
}

} // verus!
