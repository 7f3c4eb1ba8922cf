//! What a turn that is grounded in the web counts, and how often it does a thing,
//! whatever the policy decides and whatever the searches and fetches bring.

use crate::selection::merged;
use crate::types::{
    operation_key, operational, CandidateId, EvidenceOperation, EvidencePlan, OperationResult,
    WebFetchEvidence,
};
use crate::web_plan::{
    counted, is_judged, may_retry, next_page, result_is_kept, was_seen, WebStep, WebTurn,
};
use crate::web_runs::{
    allowed_tries, fetched_page, fetches_run, is_allowed_try, is_open_place, is_web_run, leads_to,
    turn_of, web_turns_stay_within_the_budget, WebMove,
};
use vstd::prelude::*;

verus! {

/// How many requests the searches of a turn made.
pub open spec fn search_attempts(moves: Seq<WebMove>, n: int) -> int
    decreases n,
{
    if n <= 0 {
        0
    } else {
        search_attempts(moves, n - 1) + requests_of(moves[n - 1])
    }
}

pub open spec fn requests_of(done: WebMove) -> int {
    match done {
        WebMove::SearchDone(search) => search.attempts as int,
        _ => 0,
    }
}

/// How many searches ran.
pub open spec fn searches_run(moves: Seq<WebMove>, n: int) -> int
    decreases n,
{
    if n <= 0 {
        0
    } else {
        searches_run(moves, n - 1) + if moves[n - 1] is SearchDone {
            1int
        } else {
            0
        }
    }
}

pub open spec fn is_denial(done: WebMove) -> bool {
    ||| done == WebMove::SearchDecided(false)
    ||| done == WebMove::FetchDecided(false)
    ||| done == WebMove::RetryDecided(false)
}

/// How often the policy said no.
pub open spec fn denials(moves: Seq<WebMove>, n: int) -> int
    decreases n,
{
    if n <= 0 {
        0
    } else {
        denials(moves, n - 1) + if is_denial(moves[n - 1]) {
            1int
        } else {
            0
        }
    }
}

/// The counts of a turn are what was searched, allowed and denied so far.
spec fn is_tallied(step: WebStep, executed: int, denied: int) -> bool {
    match step {
        WebStep::Finished(outcome) => outcome.operations_executed == counted(0, executed)
            && outcome.approvals_denied == counted(0, denied),
        _ => turn_of(step) matches Some(turn) && turn.operations_executed == counted(0, executed)
            && turn.approvals_denied == counted(0, denied),
    }
}

proof fn lemma_kept_tally(
    plan: EvidencePlan,
    turn: WebTurn,
    place: int,
    result: OperationResult<WebFetchEvidence>,
    after: WebStep,
    executed: int,
    denied: int,
)
    requires
        result_is_kept(plan, turn, place, result, after),
        turn.operations_executed == counted(0, executed),
        turn.approvals_denied == counted(0, denied),
    ensures
        is_tallied(after, executed, denied),
{
}

proof fn lemma_fetched_tally(
    plan: EvidencePlan,
    turn: WebTurn,
    place: int,
    result: OperationResult<WebFetchEvidence>,
    after: WebStep,
    executed: int,
    denied: int,
)
    requires
        crate::web_plan::fetch_is_taken(plan, turn, place, result, after),
        turn.operations_executed == counted(0, executed),
        turn.approvals_denied == counted(0, denied),
    ensures
        is_tallied(after, executed, denied),
{
    let judged = choose|judged: OperationResult<WebFetchEvidence>| #[trigger]
        is_judged(
            operational(plan.intent),
            turn.batch@[place],
            result,
            judged,
        ) && if may_retry(plan, turn, judged) {
            after matches WebStep::AskRetry { turn: next, place: at, first } && next == turn && at
                == place && first == judged
        } else {
            result_is_kept(plan, turn, place, judged, after)
        };
    if !may_retry(plan, turn, judged) {
        lemma_kept_tally(plan, turn, place, judged, after, executed, denied);
    }
}

proof fn lemma_step_tally(
    turn_id: Seq<char>,
    plan: EvidencePlan,
    before: WebStep,
    done: WebMove,
    after: WebStep,
    executed: int,
    denied: int,
)
    requires
        0 <= executed,
        0 <= denied,
        is_tallied(before, executed, denied),
        leads_to(turn_id, plan, before, done, after),
    ensures
        is_tallied(
            after,
            executed + requests_of(done) + if is_allowed_try(done) {
                1int
            } else {
                0
            },
            denied + if is_denial(done) {
                1int
            } else {
                0
            },
        ),
{
    match (before, done) {
        (WebStep::RunBatch(turn), WebMove::FetchDone(place, result)) => {
            lemma_fetched_tally(plan, turn, place, result, after, executed, denied);
        },
        (WebStep::Await(turn), WebMove::FetchDone(place, result)) => {
            lemma_fetched_tally(plan, turn, place, result, after, executed, denied);
        },
        (WebStep::AskRetry { turn, place, first }, WebMove::RetryDecided(granted)) => {
            if !granted {
                let refused = WebTurn {
                    approvals_denied: counted(turn.approvals_denied, 1),
                    ..turn
                };
                lemma_kept_tally(
                    plan,
                    refused,
                    place as int,
                    first,
                    after,
                    executed,
                    denied + 1,
                );
            }
        },
        (WebStep::RunRetry { turn, place, first }, WebMove::RetryDone(retry)) => {
            let judged = choose|judged: OperationResult<WebFetchEvidence>| #[trigger]
                is_judged(
                    operational(plan.intent),
                    turn.batch@[place as int],
                    merged(first, retry),
                    judged,
                ) && result_is_kept(plan, turn, place as int, judged, after);
            lemma_kept_tally(plan, turn, place as int, judged, after, executed, denied);
        },
        _ => {},
    }
}

/// No search has run where one is still to be decided on or to run.
spec fn is_searched(step: WebStep, searched: int, requests: int) -> bool {
    match step {
        WebStep::AskSearch { .. } => searched == 0 && requests == 0,
        WebStep::RunSearch { .. } => searched == 0 && requests == 0,
        _ => searched <= 1 && requests <= 255,
    }
}

proof fn lemma_tally(
    turn_id: Seq<char>,
    plan: EvidencePlan,
    steps: Seq<WebStep>,
    moves: Seq<WebMove>,
    n: int,
)
    requires
        is_web_run(turn_id, plan, steps, moves),
        0 <= n < steps.len(),
    ensures
        is_tallied(steps[n], search_attempts(moves, n) + allowed_tries(moves, n), denials(moves, n)),
        is_searched(steps[n], searches_run(moves, n), search_attempts(moves, n)),
        0 <= search_attempts(moves, n),
        0 <= allowed_tries(moves, n),
        0 <= denials(moves, n),
        0 <= searches_run(moves, n),
    decreases n,
{
    if n > 0 {
        lemma_tally(turn_id, plan, steps, moves, n - 1);
        assert(leads_to(turn_id, plan, steps[n - 1], moves[n - 1], steps[n - 1 + 1]));
        lemma_step_tally(
            turn_id,
            plan,
            steps[n - 1],
            moves[n - 1],
            steps[n],
            search_attempts(moves, n - 1) + allowed_tries(moves, n - 1),
            denials(moves, n - 1),
        );
        lemma_step_search(turn_id, plan, steps[n - 1], moves[n - 1], steps[n]);
    }
}

/// A step that is not about a search leads to no search.
proof fn lemma_step_search(
    turn_id: Seq<char>,
    plan: EvidencePlan,
    before: WebStep,
    done: WebMove,
    after: WebStep,
)
    requires
        leads_to(turn_id, plan, before, done, after),
    ensures
        after !is AskSearch,
        after is RunSearch ==> before is AskSearch && !(done is SearchDone),
        done is SearchDone ==> before is RunSearch,
{
}

/// Once a turn has ended, the operations that it counts are the requests of its
/// search and the fetches that ran, and every denial is counted.
pub proof fn web_turns_count_what_ran(
    turn_id: Seq<char>,
    plan: EvidencePlan,
    steps: Seq<WebStep>,
    moves: Seq<WebMove>,
)
    requires
        is_web_run(turn_id, plan, steps, moves),
    ensures
        steps.last() matches WebStep::Finished(outcome) ==> {
            let n = moves.len() as int;
            &&& outcome.operations_executed == search_attempts(moves, n) + fetches_run(moves, n)
            &&& outcome.approvals_denied == counted(0, denials(moves, n))
        },
{
    let n = moves.len() as int;
    lemma_tally(turn_id, plan, steps, moves, n);
    web_turns_stay_within_the_budget(turn_id, plan, steps, moves);
}

/// A turn searches at most once.
pub proof fn web_turns_search_once(
    turn_id: Seq<char>,
    plan: EvidencePlan,
    steps: Seq<WebStep>,
    moves: Seq<WebMove>,
)
    requires
        is_web_run(turn_id, plan, steps, moves),
    ensures
        searches_run(moves, moves.len() as int) <= 1,
{
    lemma_tally(turn_id, plan, steps, moves, moves.len() as int);
}

/// The key under which a page is asked for.
pub open spec fn page_key(id: CandidateId) -> Seq<char> {
    operation_key(EvidenceOperation::WebFetch { candidate_id: id })
}

/// How often the page with a key was fetched.
pub open spec fn fetches_of(
    steps: Seq<WebStep>,
    moves: Seq<WebMove>,
    key: Seq<char>,
    n: int,
) -> int
    decreases n,
{
    if n <= 0 {
        0
    } else {
        fetches_of(steps, moves, key, n - 1) + fetch_of(steps[n - 1], moves[n - 1], key)
    }
}

pub open spec fn fetch_of(step: WebStep, done: WebMove, key: Seq<char>) -> int {
    match fetched_page(step, done) {
        Some(page) => if page_key(page.candidate_id) == key {
            1
        } else {
            0
        },
        None => 0,
    }
}

/// A page of the batch has its key on record, and no other page has it.
spec fn has_own_keys(turn: WebTurn) -> bool {
    &&& turn.done@.len() == turn.batch@.len()
    &&& forall|i: int|
        0 <= i < turn.batch@.len() ==> was_seen(
            turn.seen@,
            page_key((#[trigger] turn.batch@[i]).candidate_id),
        )
    &&& forall|i: int, j: int|
        0 <= i < j < turn.batch@.len() ==> page_key((#[trigger] turn.batch@[i]).candidate_id)
            != page_key((#[trigger] turn.batch@[j]).candidate_id)
}

/// How often the page with a key was fetched at most, at a point of a turn: not at
/// all before it is asked for and while its first result is to come, once while it
/// is to be fetched again, and never more than twice.
spec fn is_fetched_rarely(turn: WebTurn, tried: Option<int>, key: Seq<char>, count: int) -> bool {
    &&& has_own_keys(turn)
    &&& 0 <= count <= 2
    &&& !was_seen(turn.seen@, key) ==> count == 0
    &&& forall|i: int|
        0 <= i < turn.batch@.len() && turn.done@[i] is None && page_key(
            (#[trigger] turn.batch@[i]).candidate_id,
        ) == key ==> count <= if tried == Some(i) {
            1int
        } else {
            0
        }
}

spec fn is_rare(step: WebStep, key: Seq<char>, count: int) -> bool {
    match step {
        WebStep::Finished(_) => count <= 2,
        WebStep::AskFetch { turn, candidate } => {
            &&& is_fetched_rarely(turn, None, key, count)
            &&& page_key(candidate.candidate_id) == key ==> count == 0
            &&& was_seen(turn.seen@, page_key(candidate.candidate_id))
            &&& forall|i: int|
                0 <= i < turn.batch@.len() ==> page_key((#[trigger] turn.batch@[i]).candidate_id)
                    != page_key(candidate.candidate_id)
        },
        WebStep::AskRetry { turn, place, .. } => is_fetched_rarely(
            turn,
            Some(place as int),
            key,
            count,
        ) && is_open_place(turn, place as int),
        WebStep::RunRetry { turn, place, .. } => is_fetched_rarely(
            turn,
            Some(place as int),
            key,
            count,
        ) && is_open_place(turn, place as int),
        _ => turn_of(step) matches Some(turn) && is_fetched_rarely(turn, None, key, count),
    }
}

proof fn lemma_next_page_rare(turn: WebTurn, after: WebStep, key: Seq<char>, count: int)
    requires
        turn.queue@.len() > 0,
        is_fetched_rarely(turn, None, key, count),
        next_page(turn, after),
    ensures
        is_rare(after, key, count),
{
    let candidate = turn.queue@[0];
    let asked = page_key(candidate.candidate_id);
    match after {
        WebStep::AskFetch { turn: next, .. } => {
            assert forall|k: Seq<char>| was_seen(turn.seen@, k) implies #[trigger] was_seen(
                next.seen@,
                k,
            ) by {
                let i = choose|i: int| 0 <= i < turn.seen@.len() && (#[trigger] turn.seen@[i])@ == k;
                assert(next.seen@[i] == next.seen@.drop_last()[i]);
                assert(next.seen@[i]@ == k);
            }
            assert(next.seen@[next.seen@.len() - 1]@ == asked);
            assert(was_seen(next.seen@, asked));
            assert forall|i: int| 0 <= i < turn.batch@.len() implies page_key(
                (#[trigger] turn.batch@[i]).candidate_id,
            ) != asked by {
                assert(was_seen(turn.seen@, page_key(turn.batch@[i].candidate_id)));
            }
        },
        _ => {},
    }
}

/// The result of a page is final: the page is not fetched again.
proof fn lemma_kept_rare(
    plan: EvidencePlan,
    turn: WebTurn,
    place: int,
    result: OperationResult<WebFetchEvidence>,
    after: WebStep,
    key: Seq<char>,
    count: int,
)
    requires
        result_is_kept(plan, turn, place, result, after),
        is_open_place(turn, place),
        has_own_keys(turn),
        0 <= count <= 2,
        !was_seen(turn.seen@, key) ==> count == 0,
        forall|i: int|
            0 <= i < turn.batch@.len() && i != place && turn.done@[i] is None && page_key(
                (#[trigger] turn.batch@[i]).candidate_id,
            ) == key ==> count <= 0,
    ensures
        is_rare(after, key, count),
{
}

proof fn lemma_fetched_rare(
    plan: EvidencePlan,
    turn: WebTurn,
    place: int,
    result: OperationResult<WebFetchEvidence>,
    after: WebStep,
    key: Seq<char>,
    count: int,
)
    requires
        crate::web_plan::fetch_is_taken(plan, turn, place, result, after),
        is_open_place(turn, place),
        is_fetched_rarely(turn, None, key, count),
    ensures
        is_rare(
            after,
            key,
            count + if page_key(turn.batch@[place].candidate_id) == key {
                1int
            } else {
                0
            },
        ),
{
    let page = turn.batch@[place];
    assert(was_seen(turn.seen@, page_key(page.candidate_id)));
    let judged = choose|judged: OperationResult<WebFetchEvidence>| #[trigger]
        is_judged(
            operational(plan.intent),
            turn.batch@[place],
            result,
            judged,
        ) && if may_retry(plan, turn, judged) {
            after matches WebStep::AskRetry { turn: next, place: at, first } && next == turn && at
                == place && first == judged
        } else {
            result_is_kept(plan, turn, place, judged, after)
        };
    let more = count + if page_key(page.candidate_id) == key {
        1int
    } else {
        0
    };
    assert forall|i: int|
        0 <= i < turn.batch@.len() && i != place && turn.done@[i] is None && page_key(
            (#[trigger] turn.batch@[i]).candidate_id,
        ) == key implies more <= 0 by {
        if i < place {
            assert(page_key(turn.batch@[i].candidate_id) != page_key(turn.batch@[place].candidate_id));
        } else {
            assert(page_key(turn.batch@[place].candidate_id) != page_key(turn.batch@[i].candidate_id));
        }
    }
    if !may_retry(plan, turn, judged) {
        lemma_kept_rare(plan, turn, place, judged, after, key, more);
    }
}

proof fn lemma_step_rare(
    turn_id: Seq<char>,
    plan: EvidencePlan,
    before: WebStep,
    done: WebMove,
    after: WebStep,
    key: Seq<char>,
    count: int,
)
    requires
        is_rare(before, key, count),
        leads_to(turn_id, plan, before, done, after),
    ensures
        is_rare(after, key, count + fetch_of(before, done, key)),
{
    match (before, done) {
        (WebStep::Proceed(turn), WebMove::Next) => {
            if after is AskFetch || (after is Proceed && after->Proceed_0.exploration_rounds
                == turn.exploration_rounds) {
                lemma_next_page_rare(turn, after, key, count);
            }
        },
        (WebStep::AskFetch { turn, candidate }, WebMove::FetchDecided(granted)) => {
            if granted {
                let next = after->Proceed_0;
                assert forall|i: int| 0 <= i < next.batch@.len() implies was_seen(
                    next.seen@,
                    page_key((#[trigger] next.batch@[i]).candidate_id),
                ) by {
                    if i < turn.batch@.len() {
                        assert(next.batch@[i] == turn.batch@[i]);
                    }
                }
                assert forall|i: int, j: int| 0 <= i < j < next.batch@.len() implies page_key(
                    (#[trigger] next.batch@[i]).candidate_id,
                ) != page_key((#[trigger] next.batch@[j]).candidate_id) by {
                    assert(next.batch@[i] == turn.batch@[i]);
                    if j < turn.batch@.len() {
                        assert(next.batch@[j] == turn.batch@[j]);
                    }
                }
                assert forall|i: int|
                    0 <= i < next.batch@.len() && next.done@[i] is None && page_key(
                        (#[trigger] next.batch@[i]).candidate_id,
                    ) == key implies count <= 0 by {
                    if i < turn.batch@.len() {
                        assert(next.batch@[i] == turn.batch@[i]);
                        assert(next.done@[i] == turn.done@[i]);
                    }
                }
            }
        },
        (WebStep::RunBatch(turn), WebMove::FetchDone(place, result)) => {
            lemma_fetched_rare(plan, turn, place, result, after, key, count);
        },
        (WebStep::Await(turn), WebMove::FetchDone(place, result)) => {
            lemma_fetched_rare(plan, turn, place, result, after, key, count);
        },
        (WebStep::AskRetry { turn, place, first }, WebMove::RetryDecided(granted)) => {
            if !granted {
                let refused = WebTurn {
                    approvals_denied: counted(turn.approvals_denied, 1),
                    ..turn
                };
                lemma_kept_rare(plan, refused, place as int, first, after, key, count);
            }
        },
        (WebStep::RunRetry { turn, place, first }, WebMove::RetryDone(retry)) => {
            let at = place as int;
            let page = turn.batch@[at];
            assert(was_seen(turn.seen@, page_key(page.candidate_id)));
            let judged = choose|judged: OperationResult<WebFetchEvidence>| #[trigger]
                is_judged(
                    operational(plan.intent),
                    turn.batch@[at],
                    merged(first, retry),
                    judged,
                ) && result_is_kept(plan, turn, at, judged, after);
            let more = count + fetch_of(before, done, key);
            assert forall|i: int|
                0 <= i < turn.batch@.len() && i != at && turn.done@[i] is None && page_key(
                    (#[trigger] turn.batch@[i]).candidate_id,
                ) == key implies more <= 0 by {
                if i < at {
                    assert(page_key(turn.batch@[i].candidate_id) != page_key(
                        turn.batch@[at].candidate_id,
                    ));
                } else {
                    assert(page_key(turn.batch@[at].candidate_id) != page_key(
                        turn.batch@[i].candidate_id,
                    ));
                }
            }
            lemma_kept_rare(plan, turn, at, judged, after, key, more);
        },
        _ => {},
    }
}

proof fn lemma_rare(
    turn_id: Seq<char>,
    plan: EvidencePlan,
    steps: Seq<WebStep>,
    moves: Seq<WebMove>,
    key: Seq<char>,
    n: int,
)
    requires
        is_web_run(turn_id, plan, steps, moves),
        0 <= n < steps.len(),
    ensures
        is_rare(steps[n], key, fetches_of(steps, moves, key, n)),
    decreases n,
{
    if n > 0 {
        lemma_rare(turn_id, plan, steps, moves, key, n - 1);
        assert(leads_to(turn_id, plan, steps[n - 1], moves[n - 1], steps[n - 1 + 1]));
        lemma_step_rare(
            turn_id,
            plan,
            steps[n - 1],
            moves[n - 1],
            steps[n],
            key,
            fetches_of(steps, moves, key, n - 1),
        );
    }
}

/// No page is fetched more than twice in a turn: once, and once more where its
/// failure may pass.
pub proof fn pages_are_fetched_at_most_twice(
    turn_id: Seq<char>,
    plan: EvidencePlan,
    steps: Seq<WebStep>,
    moves: Seq<WebMove>,
    id: CandidateId,
)
    requires
        is_web_run(turn_id, plan, steps, moves),
    ensures
        fetches_of(steps, moves, page_key(id), moves.len() as int) <= 2,
{
    lemma_rare(turn_id, plan, steps, moves, page_key(id), moves.len() as int);
}

} // verus!
