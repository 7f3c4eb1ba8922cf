//! What holds of a whole turn about mail, from its first question to the policy
//! on, whatever the policy decides and whatever the mailbox answers.

use crate::gate::is_denied_result;
use crate::mail_plan::{
    body_is_kept, first_is_decided, first_is_taken, headers_in, mail_proceeds, mail_turn_begins,
    read_is_decided, read_is_taken, reread, reread_is_decided, turn_opens, was_asked, MailStep,
    MailTurn,
};
use crate::types::{
    operation_key, EvidenceOperation, EvidencePlan, MailBodyEvidence, MailHeaderEvidence,
    OperationResult, ValidatedMailId,
};
use crate::web_plan::counted;
use vstd::prelude::*;

verus! {

/// What is done between two steps of a turn.
pub ghost enum MailMove {
    FirstDecided(bool),
    FirstDone(OperationResult<Vec<MailHeaderEvidence>>),
    Next,
    ReadDecided(bool),
    ReadDone(OperationResult<MailBodyEvidence>),
    RetryDecided(bool),
    RetryDone(OperationResult<MailBodyEvidence>),
}

/// One step of a turn leads to the next.
pub open spec fn leads_to(
    turn_id: Seq<char>,
    plan: EvidencePlan,
    before: MailStep,
    done: MailMove,
    after: MailStep,
) -> bool {
    match (before, done) {
        (MailStep::AskFirst { operation }, MailMove::FirstDecided(allowed)) => first_is_decided(
            plan,
            operation,
            allowed,
            after,
        ),
        (MailStep::RunFirst { operation }, MailMove::FirstDone(result)) => first_is_taken(
            plan,
            operation,
            result,
            after,
        ),
        (MailStep::Proceed(turn), MailMove::Next) => mail_proceeds(turn_id, plan, turn, after),
        (
            MailStep::AskRead { turn, message_id },
            MailMove::ReadDecided(allowed),
        ) => read_is_decided(turn, message_id, allowed, after),
        (MailStep::RunRead { turn, message_id }, MailMove::ReadDone(result)) => read_is_taken(
            plan,
            turn,
            message_id,
            result,
            after,
        ),
        (
            MailStep::AskRetry { turn, message_id, first },
            MailMove::RetryDecided(allowed),
        ) => reread_is_decided(turn, message_id, first, allowed, after),
        (MailStep::RunRetry { turn, first, .. }, MailMove::RetryDone(retry)) => body_is_kept(
            turn,
            reread(first, retry),
            after,
        ),
        _ => false,
    }
}

/// The steps of a turn as far as it has come, and what was done between them.
pub open spec fn is_mail_run(
    turn_id: Seq<char>,
    plan: EvidencePlan,
    steps: Seq<MailStep>,
    moves: Seq<MailMove>,
) -> bool {
    &&& steps.len() == moves.len() + 1
    &&& mail_turn_begins(plan, steps[0])
    &&& forall|i: int|
        0 <= i < moves.len() ==> leads_to(
            turn_id,
            plan,
            steps[i],
            #[trigger] moves[i],
            steps[i + 1],
        )
}

pub open spec fn is_read(done: MailMove) -> bool {
    done is ReadDone || done is RetryDone
}

/// How many reads ran before the step `n`.
pub open spec fn reads_run(moves: Seq<MailMove>, n: int) -> int
    decreases n,
{
    if n <= 0 {
        0
    } else {
        reads_run(moves, n - 1) + if is_read(moves[n - 1]) {
            1int
        } else {
            0
        }
    }
}

/// How many operations of the mailbox ran before the step `n`: the list or the
/// search, and the reads.
pub open spec fn operations_run(moves: Seq<MailMove>, n: int) -> int
    decreases n,
{
    if n <= 0 {
        0
    } else {
        operations_run(moves, n - 1) + if moves[n - 1] is FirstDone || is_read(moves[n - 1]) {
            1int
        } else {
            0
        }
    }
}

pub open spec fn is_denial(done: MailMove) -> bool {
    ||| done == MailMove::FirstDecided(false)
    ||| done == MailMove::ReadDecided(false)
    ||| done == MailMove::RetryDecided(false)
}

/// How often the policy said no before the step `n`.
pub open spec fn denials(moves: Seq<MailMove>, n: int) -> int
    decreases n,
{
    if n <= 0 {
        0
    } else {
        denials(moves, n - 1) + if is_denial(moves[n - 1]) {
            1int
        } else {
            0
        }
    }
}

/// The headers that the list or the search brought before the step `n`.
pub open spec fn found_before(moves: Seq<MailMove>, n: int) -> Seq<MailHeaderEvidence>
    decreases n,
{
    if n <= 0 {
        Seq::empty()
    } else {
        match moves[n - 1] {
            MailMove::FirstDone(result) => headers_in(result),
            _ => found_before(moves, n - 1),
        }
    }
}

/// The message that a step asks for or reads.
pub open spec fn message_of(step: MailStep) -> Option<ValidatedMailId> {
    match step {
        MailStep::AskRead { message_id, .. } => Some(message_id),
        MailStep::RunRead { message_id, .. } => Some(message_id),
        MailStep::AskRetry { message_id, .. } => Some(message_id),
        MailStep::RunRetry { message_id, .. } => Some(message_id),
        _ => None,
    }
}

/// The list or the search that a step asks for or runs.
pub open spec fn first_of(step: MailStep) -> Option<EvidenceOperation> {
    match step {
        MailStep::AskFirst { operation } => Some(operation),
        MailStep::RunFirst { operation } => Some(operation),
        _ => None,
    }
}

/// The message has a header among these.
pub open spec fn is_listed(headers: Seq<MailHeaderEvidence>, id: ValidatedMailId) -> bool {
    exists|i: int| 0 <= i < headers.len() && (#[trigger] headers[i]).connector_id == id
}

spec fn turn_of(step: MailStep) -> Option<MailTurn> {
    match step {
        MailStep::Proceed(turn) => Some(turn),
        MailStep::AskRead { turn, .. } => Some(turn),
        MailStep::RunRead { turn, .. } => Some(turn),
        MailStep::AskRetry { turn, .. } => Some(turn),
        MailStep::RunRetry { turn, .. } => Some(turn),
        _ => None,
    }
}

/// The reads that a step has allowed for and that have not run.
spec fn reads_due(step: MailStep) -> int {
    match step {
        MailStep::AskRead { .. } => 1,
        MailStep::RunRead { .. } => 1,
        MailStep::RunRetry { .. } => 1,
        _ => 0,
    }
}

spec fn is_sound_turn(
    plan: EvidencePlan,
    found: Seq<MailHeaderEvidence>,
    turn: MailTurn,
) -> bool {
    &&& turn.body_attempts <= plan.budget.mail_body_attempts
    &&& forall|i: int|
        0 <= i < turn.headers@.len() ==> is_listed(found, (#[trigger] turn.headers@[i]).connector_id)
}

/// What holds at a step of a run, of the headers that were found and the reads
/// that ran before it.
spec fn is_sound(
    plan: EvidencePlan,
    found: Seq<MailHeaderEvidence>,
    step: MailStep,
    run: int,
) -> bool {
    &&& first_of(step) is Some ==> run == 0
    &&& turn_of(step) matches Some(turn) ==> is_sound_turn(plan, found, turn) && run + reads_due(
        step,
    ) <= turn.body_attempts
    &&& step is Finished ==> run <= plan.budget.mail_body_attempts
    &&& message_of(step) matches Some(id) ==> is_listed(found, id) && was_asked(
        turn_of(step)->0.seen@,
        id@,
    )
    &&& step is AskRetry ==> turn_of(step)->0.body_attempts < plan.budget.mail_body_attempts
}

proof fn lemma_step(
    turn_id: Seq<char>,
    plan: EvidencePlan,
    found: Seq<MailHeaderEvidence>,
    before: MailStep,
    done: MailMove,
    after: MailStep,
    run: int,
)
    requires
        is_sound(plan, found, before, run),
        leads_to(turn_id, plan, before, done, after),
    ensures
        is_sound(
            plan,
            match done {
                MailMove::FirstDone(result) => headers_in(result),
                _ => found,
            },
            after,
            run + if is_read(done) {
                1int
            } else {
                0
            },
        ),
{
    match (before, done) {
        (MailStep::AskFirst { operation }, MailMove::FirstDecided(allowed)) => {
            if !allowed {
                let result = choose|result: OperationResult<Vec<MailHeaderEvidence>>| #[trigger]
                    is_denied_result(result, operation_key(operation)) && (
                    after matches MailStep::Proceed(turn) && turn_opens(
                        plan,
                        operation,
                        result,
                        false,
                        turn,
                    ));
                assert(result.value is None);
            }
        },
        (MailStep::RunFirst { operation }, MailMove::FirstDone(result)) => {
            let turn = after->Proceed_0;
            let headers = headers_in(result);
            assert forall|i: int| 0 <= i < turn.headers@.len() implies is_listed(
                headers,
                (#[trigger] turn.headers@[i]).connector_id,
            ) by {
                assert(headers[i] == turn.headers@[i]);
            }
        },
        (MailStep::Proceed(turn), MailMove::Next) => {
            match after {
                MailStep::Proceed(next) => {
                    assert forall|i: int| 0 <= i < next.headers@.len() implies is_listed(
                        found,
                        (#[trigger] next.headers@[i]).connector_id,
                    ) by {
                        assert(next.headers@[i] == turn.headers@[i + 1]);
                    }
                },
                MailStep::AskRead { turn: next, message_id } => {
                    assert forall|i: int| 0 <= i < next.headers@.len() implies is_listed(
                        found,
                        (#[trigger] next.headers@[i]).connector_id,
                    ) by {
                        assert(next.headers@[i] == turn.headers@[i + 1]);
                    }
                    assert(is_listed(found, turn.headers@[0].connector_id));
                    assert(next.seen@[turn.seen@.len() as int] == message_id);
                },
                _ => {},
            }
        },
        _ => {},
    }
}

proof fn lemma_run(
    turn_id: Seq<char>,
    plan: EvidencePlan,
    steps: Seq<MailStep>,
    moves: Seq<MailMove>,
    n: int,
)
    requires
        is_mail_run(turn_id, plan, steps, moves),
        0 <= n < steps.len(),
    ensures
        is_sound(plan, found_before(moves, n), steps[n], reads_run(moves, n)),
    decreases n,
{
    if n > 0 {
        lemma_run(turn_id, plan, steps, moves, n - 1);
        assert(leads_to(turn_id, plan, steps[n - 1], moves[n - 1], steps[n - 1 + 1]));
        lemma_step(
            turn_id,
            plan,
            found_before(moves, n - 1),
            steps[n - 1],
            moves[n - 1],
            steps[n],
            reads_run(moves, n - 1),
        );
    }
}

/// A turn reads no more often than the budget of the plan has it, retries
/// counted.
pub proof fn mail_turns_stay_within_the_budget(
    turn_id: Seq<char>,
    plan: EvidencePlan,
    steps: Seq<MailStep>,
    moves: Seq<MailMove>,
)
    requires
        is_mail_run(turn_id, plan, steps, moves),
    ensures
        reads_run(moves, moves.len() as int) <= plan.budget.mail_body_attempts,
{
    lemma_run(turn_id, plan, steps, moves, moves.len() as int);
}

/// Nothing runs that the policy did not allow right before: neither the list or
/// the search, nor a read, nor a second read. What runs is what was asked for, and
/// only messages that were found are read.
pub proof fn only_what_is_allowed_runs(
    turn_id: Seq<char>,
    plan: EvidencePlan,
    steps: Seq<MailStep>,
    moves: Seq<MailMove>,
    i: int,
)
    requires
        is_mail_run(turn_id, plan, steps, moves),
        0 <= i < moves.len(),
        moves[i] is FirstDone || is_read(moves[i]),
    ensures
        i > 0,
        moves[i] is FirstDone ==> moves[i - 1] == MailMove::FirstDecided(true) && first_of(steps[i])
            is Some && first_of(steps[i - 1]) == first_of(steps[i]),
        moves[i] is ReadDone ==> moves[i - 1] == MailMove::ReadDecided(true),
        moves[i] is RetryDone ==> moves[i - 1] == MailMove::RetryDecided(true),
        message_of(steps[i - 1]) == message_of(steps[i]),
        is_read(moves[i]) ==> (message_of(steps[i]) matches Some(id) && is_listed(
            found_before(moves, i),
            id,
        )),
{
    lemma_run(turn_id, plan, steps, moves, i);
    assert(leads_to(turn_id, plan, steps[i], moves[i], steps[i + 1]));
    if i > 0 {
        assert(leads_to(turn_id, plan, steps[i - 1], moves[i - 1], steps[i - 1 + 1]));
    }
}

/// A turn in which the list or the search was denied finds nothing and reads
/// nothing.
pub proof fn a_denied_turn_reads_nothing(
    turn_id: Seq<char>,
    plan: EvidencePlan,
    steps: Seq<MailStep>,
    moves: Seq<MailMove>,
)
    requires
        is_mail_run(turn_id, plan, steps, moves),
        moves.len() > 0,
        moves[0] == MailMove::FirstDecided(false),
    ensures
        forall|i: int|
            0 <= i < moves.len() ==> !((#[trigger] moves[i]) is FirstDone || is_read(moves[i])),
{
    assert forall|i: int| 0 <= i < moves.len() implies !((#[trigger] moves[i]) is FirstDone
        || is_read(moves[i])) by {
        lemma_denied(turn_id, plan, steps, moves, i);
        assert(leads_to(turn_id, plan, steps[i], moves[i], steps[i + 1]));
        if is_read(moves[i]) {
            only_what_is_allowed_runs(turn_id, plan, steps, moves, i);
        }
    }
}

proof fn lemma_denied(
    turn_id: Seq<char>,
    plan: EvidencePlan,
    steps: Seq<MailStep>,
    moves: Seq<MailMove>,
    n: int,
)
    requires
        is_mail_run(turn_id, plan, steps, moves),
        moves.len() > 0,
        moves[0] == MailMove::FirstDecided(false),
        0 <= n < steps.len(),
    ensures
        found_before(moves, n) == Seq::<MailHeaderEvidence>::empty(),
        n > 0 ==> first_of(steps[n]) is None,
    decreases n,
{
    if n > 0 {
        lemma_denied(turn_id, plan, steps, moves, n - 1);
        assert(leads_to(turn_id, plan, steps[n - 1], moves[n - 1], steps[n - 1 + 1]));
    }
}

/// The counts of a turn are what ran, or is about to run, and what was denied. A
/// message is denied at most once when it is asked for and once when it is tried
/// again.
spec fn is_tallied(step: MailStep, executed: int, denied: int) -> bool {
    match step {
        MailStep::AskFirst { .. } => executed == 0 && denied == 0,
        MailStep::RunFirst { .. } => executed == 0 && denied == 0,
        MailStep::Finished(outcome) => outcome.operations_executed == counted(0, executed)
            && outcome.approvals_denied == denied,
        _ => turn_of(step) matches Some(turn) && turn.operations_executed == counted(
            0,
            executed + if step is RunRead || step is RunRetry {
                1int
            } else {
                0
            },
        ) && turn.approvals_denied == denied && denied <= 1 + 2 * (turn.body_attempts - (if step
            is Proceed {
            0int
        } else {
            1
        })),
    }
}

proof fn lemma_step_tally(
    turn_id: Seq<char>,
    plan: EvidencePlan,
    found: Seq<MailHeaderEvidence>,
    before: MailStep,
    done: MailMove,
    after: MailStep,
    run: int,
    executed: int,
    denied: int,
)
    requires
        0 <= executed,
        0 <= denied,
        is_sound(plan, found, before, run),
        0 <= run,
        is_tallied(before, executed, denied),
        leads_to(turn_id, plan, before, done, after),
    ensures
        is_tallied(
            after,
            executed + if done is FirstDone || is_read(done) {
                1int
            } else {
                0
            },
            denied + if is_denial(done) {
                1int
            } else {
                0
            },
        ),
{
}

proof fn lemma_tally(
    turn_id: Seq<char>,
    plan: EvidencePlan,
    steps: Seq<MailStep>,
    moves: Seq<MailMove>,
    n: int,
)
    requires
        is_mail_run(turn_id, plan, steps, moves),
        0 <= n < steps.len(),
    ensures
        is_tallied(steps[n], operations_run(moves, n), denials(moves, n)),
        0 <= reads_run(moves, n) <= operations_run(moves, n),
        operations_run(moves, n) <= reads_run(moves, n) + if first_of(steps[n]) is Some {
            0int
        } else {
            1
        },
        0 <= denials(moves, n),
    decreases n,
{
    if n > 0 {
        lemma_tally(turn_id, plan, steps, moves, n - 1);
        lemma_run(turn_id, plan, steps, moves, n - 1);
        assert(leads_to(turn_id, plan, steps[n - 1], moves[n - 1], steps[n - 1 + 1]));
        lemma_step_tally(
            turn_id,
            plan,
            found_before(moves, n - 1),
            steps[n - 1],
            moves[n - 1],
            steps[n],
            reads_run(moves, n - 1),
            operations_run(moves, n - 1),
            denials(moves, n - 1),
        );
    }
}

/// Once a turn has ended, the operations that it counts are those that ran, the
/// denials are those of the policy, and the list or the search ran at most once.
pub proof fn mail_turns_count_what_ran(
    turn_id: Seq<char>,
    plan: EvidencePlan,
    steps: Seq<MailStep>,
    moves: Seq<MailMove>,
)
    requires
        is_mail_run(turn_id, plan, steps, moves),
    ensures
        operations_run(moves, moves.len() as int) <= reads_run(moves, moves.len() as int) + 1,
        steps.last() matches MailStep::Finished(outcome) ==> {
            let n = moves.len() as int;
            &&& outcome.operations_executed == operations_run(moves, n)
            &&& outcome.approvals_denied == denials(moves, n)
        },
{
    lemma_tally(turn_id, plan, steps, moves, moves.len() as int);
    mail_turns_stay_within_the_budget(turn_id, plan, steps, moves);
}

/// How often the message with an identifier was read before the step `n`.
pub open spec fn reads_of(
    steps: Seq<MailStep>,
    moves: Seq<MailMove>,
    id: Seq<char>,
    n: int,
) -> int
    decreases n,
{
    if n <= 0 {
        0
    } else {
        reads_of(steps, moves, id, n - 1) + read_of(steps[n - 1], moves[n - 1], id)
    }
}

pub open spec fn read_of(step: MailStep, done: MailMove, id: Seq<char>) -> int {
    match message_of(step) {
        Some(message) => if is_read(done) && message@ == id {
            1
        } else {
            0
        },
        None => 0,
    }
}

/// How often a message was read at most: not at all before it is asked for and
/// while its first read is to come, once while it is to be read again, and never
/// more than twice.
spec fn is_rare(step: MailStep, id: Seq<char>, count: int) -> bool {
    let mine = message_of(step) matches Some(message) && message@ == id;
    &&& 0 <= count <= 2
    &&& first_of(step) is Some ==> count == 0
    &&& turn_of(step) matches Some(turn) ==> (!was_asked(turn.seen@, id) ==> count == 0)
    &&& (step is AskRead || step is RunRead) && mine ==> count == 0
    &&& (step is AskRetry || step is RunRetry) && mine ==> count <= 1
    &&& mine ==> was_asked(turn_of(step)->0.seen@, id)
}

proof fn lemma_step_rare(
    turn_id: Seq<char>,
    plan: EvidencePlan,
    before: MailStep,
    done: MailMove,
    after: MailStep,
    id: Seq<char>,
    count: int,
)
    requires
        is_rare(before, id, count),
        leads_to(turn_id, plan, before, done, after),
    ensures
        is_rare(after, id, count + read_of(before, done, id)),
{
    match (before, done) {
        (MailStep::Proceed(turn), MailMove::Next) => {
            if let MailStep::AskRead { turn: next, message_id } = after {
                assert(next.seen@[turn.seen@.len() as int] == message_id);
                if was_asked(turn.seen@, id) {
                    let k = choose|k: int|
                        0 <= k < turn.seen@.len() && (#[trigger] turn.seen@[k])@ == id;
                    assert(next.seen@[k] == turn.seen@[k]);
                }
            }
        },
        _ => {},
    }
}

proof fn lemma_rare(
    turn_id: Seq<char>,
    plan: EvidencePlan,
    steps: Seq<MailStep>,
    moves: Seq<MailMove>,
    id: Seq<char>,
    n: int,
)
    requires
        is_mail_run(turn_id, plan, steps, moves),
        0 <= n < steps.len(),
    ensures
        is_rare(steps[n], id, reads_of(steps, moves, id, n)),
    decreases n,
{
    if n > 0 {
        lemma_rare(turn_id, plan, steps, moves, id, n - 1);
        assert(leads_to(turn_id, plan, steps[n - 1], moves[n - 1], steps[n - 1 + 1]));
        lemma_step_rare(
            turn_id,
            plan,
            steps[n - 1],
            moves[n - 1],
            steps[n],
            id,
            reads_of(steps, moves, id, n - 1),
        );
    }
}

/// No message is read more than twice in a turn: once, and once more where its
/// failure may pass.
pub proof fn messages_are_read_at_most_twice(
    turn_id: Seq<char>,
    plan: EvidencePlan,
    steps: Seq<MailStep>,
    moves: Seq<MailMove>,
    id: ValidatedMailId,
)
    requires
        is_mail_run(turn_id, plan, steps, moves),
    ensures
        reads_of(steps, moves, id@, moves.len() as int) <= 2,
{
    lemma_rare(turn_id, plan, steps, moves, id@, moves.len() as int);
}

/// What was asked for stays known.
proof fn lemma_stays_known(
    turn_id: Seq<char>,
    plan: EvidencePlan,
    steps: Seq<MailStep>,
    moves: Seq<MailMove>,
    i: int,
    j: int,
    id: ValidatedMailId,
)
    requires
        is_mail_run(turn_id, plan, steps, moves),
        0 <= i <= j < steps.len(),
        turn_of(steps[i]) matches Some(turn) && was_asked(turn.seen@, id@),
    ensures
        turn_of(steps[j]) matches Some(turn) ==> was_asked(turn.seen@, id@),
    decreases j - i,
{
    if i < j {
        assert(leads_to(turn_id, plan, steps[i], moves[i], steps[i + 1]));
        if turn_of(steps[i + 1]) is Some {
            let before = turn_of(steps[i])->0.seen@;
            let after = turn_of(steps[i + 1])->0.seen@;
            let k = choose|k: int| 0 <= k < before.len() && (#[trigger] before[k])@ == id@;
            assert(after[k] == before[k]);
            lemma_stays_known(turn_id, plan, steps, moves, i + 1, j, id);
        } else if i + 1 < j {
            assert(leads_to(turn_id, plan, steps[i + 1], moves[i + 1], steps[i + 1 + 1]));
        }
    }
}

/// A message is asked for once in a turn, however often it was found.
pub proof fn messages_are_asked_for_once(
    turn_id: Seq<char>,
    plan: EvidencePlan,
    steps: Seq<MailStep>,
    moves: Seq<MailMove>,
    i: int,
    j: int,
)
    requires
        is_mail_run(turn_id, plan, steps, moves),
        0 <= i < j < steps.len(),
        steps[i] is AskRead,
        steps[j] is AskRead,
    ensures
        message_of(steps[i])->0@ != message_of(steps[j])->0@,
{
    lemma_run(turn_id, plan, steps, moves, i);
    assert(leads_to(turn_id, plan, steps[j - 1], moves[j - 1], steps[j - 1 + 1]));
    assert(turn_of(steps[j - 1]) is Some);
    lemma_stays_known(turn_id, plan, steps, moves, i, j - 1, message_of(steps[i])->0);
}

/// How far a step is from the end of its turn: the list or the search that is to
/// come, the messages that wait, and what is left to do about the one taken up.
spec fn stage(step: MailStep) -> nat {
    match step {
        MailStep::AskFirst { .. } => 2,
        MailStep::RunFirst { .. } => 1,
        _ => 0,
    }
}

spec fn waiting(step: MailStep) -> nat {
    match turn_of(step) {
        Some(turn) => turn.headers@.len(),
        None => 0,
    }
}

spec fn pending(step: MailStep) -> nat {
    match step {
        MailStep::AskRead { .. } => 5,
        MailStep::RunRead { .. } => 4,
        MailStep::AskRetry { .. } => 3,
        MailStep::RunRetry { .. } => 2,
        MailStep::Proceed(_) => 1,
        _ => 0,
    }
}

/// A turn that is taken on from step to step for as long as it has not ended.
pub open spec fn goes_on(
    turn_id: Seq<char>,
    plan: EvidencePlan,
    steps: spec_fn(int) -> MailStep,
    moves: spec_fn(int) -> MailMove,
) -> bool {
    forall|i: int|
        0 <= i && !(steps(i) is Finished) ==> leads_to(
            turn_id,
            plan,
            steps(i),
            #[trigger] moves(i),
            steps(i + 1),
        )
}

proof fn lemma_reaches_the_end(
    turn_id: Seq<char>,
    plan: EvidencePlan,
    steps: spec_fn(int) -> MailStep,
    moves: spec_fn(int) -> MailMove,
    i: int,
) -> (n: int)
    requires
        0 <= i,
        goes_on(turn_id, plan, steps, moves),
    ensures
        0 <= n,
        steps(n) is Finished,
    decreases stage(steps(i)), waiting(steps(i)), pending(steps(i)),
{
    if steps(i) is Finished {
        i
    } else {
        let done = moves(i);
        assert(leads_to(turn_id, plan, steps(i), done, steps(i + 1)));
        lemma_reaches_the_end(turn_id, plan, steps, moves, i + 1)
    }
}

/// Every turn that is taken on comes to an end.
pub proof fn mail_turns_end(
    turn_id: Seq<char>,
    plan: EvidencePlan,
    steps: spec_fn(int) -> MailStep,
    moves: spec_fn(int) -> MailMove,
)
    requires
        goes_on(turn_id, plan, steps, moves),
    ensures
        exists|n: int| 0 <= n && #[trigger] steps(n) is Finished,
{
    let n = lemma_reaches_the_end(turn_id, plan, steps, moves, 0);
    assert(steps(n) is Finished);
}

} // verus!
