//! What holds of a whole acquisition, whatever the searches and fetches bring.

use crate::acquire::{
    acquisition_begins, acquisition_proceeds, assembled, begins_with, fetch_ends,
    found_in, result_of, tried_again, AcquireStep, Acquisition,
};
use crate::types::{
    CandidateId, EvidencePlan, OperationResult, WebCandidate, WebFetchEvidence, WebSearchResult,
};
use vstd::prelude::*;

verus! {

/// What is done between two steps of an acquisition.
pub ghost enum AcquireMove {
    Searched(OperationResult<WebSearchResult>),
    Next,
    Started,
    Fetched(int, OperationResult<WebFetchEvidence>),
    FetchedAgain(OperationResult<WebFetchEvidence>),
}

/// One step of an acquisition leads to the next.
pub open spec fn leads_to(
    plan: EvidencePlan,
    before: AcquireStep,
    done: AcquireMove,
    after: AcquireStep,
) -> bool {
    match (before, done) {
        (AcquireStep::Search { .. }, AcquireMove::Searched(search)) => after matches AcquireStep::Proceed(
            turn,
        ) && begins_with(turn, seq![search], found_in(search)),
        (AcquireStep::Proceed(turn), AcquireMove::Next) => acquisition_proceeds(plan, turn, after),
        (AcquireStep::Start(turn), AcquireMove::Started) => after == AcquireStep::Proceed(turn),
        (AcquireStep::Await(turn), AcquireMove::Fetched(place, result)) => 0 <= place
            < turn.running@.len() && fetch_ends(plan, turn, place, result, after),
        (
            AcquireStep::Retry { turn, candidate, first },
            AcquireMove::FetchedAgain(retry),
        ) => after matches AcquireStep::Proceed(next) && next.completed@ == turn.completed@.push(
            (candidate.candidate_id, tried_again(first, retry)),
        ) && next == (Acquisition { completed: next.completed, ..turn }),
        _ => false,
    }
}

/// The steps of an acquisition as far as it has come, and what was done between
/// them.
pub open spec fn is_acquire_run(
    plan: EvidencePlan,
    steps: Seq<AcquireStep>,
    moves: Seq<AcquireMove>,
) -> bool {
    &&& steps.len() == moves.len() + 1
    &&& exists|tavily_configured: bool| acquisition_begins(plan, tavily_configured, steps[0])
    &&& forall|i: int|
        0 <= i < moves.len() ==> leads_to(plan, steps[i], #[trigger] moves[i], steps[i + 1])
}

/// How many pages were taken up before the step `n`.
pub open spec fn pages_started(moves: Seq<AcquireMove>, n: int) -> nat
    decreases n,
{
    if n <= 0 {
        0
    } else {
        pages_started(moves, n - 1) + if moves[n - 1] is Started {
            1nat
        } else {
            0
        }
    }
}

pub open spec fn is_fetch(done: AcquireMove) -> bool {
    done is Fetched || done is FetchedAgain
}

/// How many fetches ran before the step `n`.
pub open spec fn fetches_run(moves: Seq<AcquireMove>, n: int) -> int
    decreases n,
{
    if n <= 0 {
        0
    } else {
        fetches_run(moves, n - 1) + if is_fetch(moves[n - 1]) {
            1int
        } else {
            0
        }
    }
}

/// A page that is being fetched, or whose result is known.
spec fn is_accounted_for(turn: Acquisition, retrying: Option<WebCandidate>, id: Seq<char>) -> bool {
    ||| result_of(turn.completed@, id) is Some
    ||| exists|i: int|
        0 <= i < turn.running@.len() && (#[trigger] turn.running@[i]).candidate_id@ == id
    ||| (retrying matches Some(candidate) && candidate.candidate_id@ == id)
}

spec fn is_sound_turn(
    plan: EvidencePlan,
    turn: Acquisition,
    retrying: Option<WebCandidate>,
    started: nat,
    run: int,
) -> bool {
    &&& turn.well_formed(plan)
    &&& turn.order@.len() == started
    &&& run + turn.running@.len() + (if retrying is Some {
        1int
    } else {
        0
    }) == turn.attempts_used
    &&& forall|i: int|
        0 <= i < turn.order@.len() ==> is_accounted_for(
            turn,
            retrying,
            (#[trigger] turn.order@[i])@,
        )
}

/// What holds at a step of a run, of the pages that were taken up and the
/// fetches that ran before it.
spec fn is_sound(plan: EvidencePlan, step: AcquireStep, started: nat, run: int) -> bool {
    match step {
        AcquireStep::Search { .. } => started == 0 && run == 0,
        AcquireStep::Proceed(turn) => is_sound_turn(plan, turn, None, started, run),
        AcquireStep::Start(turn) => is_sound_turn(plan, turn, None, started + 1, run),
        AcquireStep::Await(turn) => is_sound_turn(plan, turn, None, started, run)
            && turn.running@.len() > 0,
        AcquireStep::Retry { turn, candidate, .. } => is_sound_turn(
            plan,
            turn,
            Some(candidate),
            started,
            run,
        ),
        AcquireStep::Finished(results) => results.web_fetches@.len() == started && run
            <= plan.budget.web_fetch_attempts,
    }
}

proof fn lemma_assembled(
    order: Seq<CandidateId>,
    completed: Seq<(CandidateId, OperationResult<WebFetchEvidence>)>,
)
    requires
        forall|i: int| 0 <= i < order.len() ==> result_of(completed, (#[trigger] order[i])@) is Some,
    ensures
        assembled(order, completed).len() == order.len(),
    decreases order.len(),
{
    if order.len() > 0 {
        let before = order.drop_last();
        assert forall|i: int| 0 <= i < before.len() implies result_of(
            completed,
            (#[trigger] before[i])@,
        ) is Some by {
            assert(before[i] == order[i]);
        }
        lemma_assembled(before, completed);
        assert(order.last() == order[order.len() - 1]);
    }
}

/// A result that is added is found, and what was found before is found still.
proof fn lemma_added(
    completed: Seq<(CandidateId, OperationResult<WebFetchEvidence>)>,
    id: CandidateId,
    result: OperationResult<WebFetchEvidence>,
    other: Seq<char>,
)
    ensures
        result_of(completed, other) is Some ==> result_of(completed.push((id, result)), other)
            is Some,
        id@ == other ==> result_of(completed.push((id, result)), other) is Some,
    decreases completed.len(),
{
    let after = completed.push((id, result));
    if completed.len() == 0 {
        assert(after[0] == (id, result));
    } else {
        assert(after[0] == completed[0]);
        assert(after.drop_first() =~= completed.drop_first().push((id, result)));
        lemma_added(completed.drop_first(), id, result, other);
    }
}

proof fn lemma_fetched(
    plan: EvidencePlan,
    turn: Acquisition,
    place: int,
    result: OperationResult<WebFetchEvidence>,
    after: AcquireStep,
    started: nat,
    run: int,
)
    requires
        is_sound_turn(plan, turn, None, started, run),
        0 <= place < turn.running@.len(),
        fetch_ends(plan, turn, place, result, after),
    ensures
        is_sound(plan, after, started, run + 1),
{
    let candidate = turn.running@[place];
    let retrying = match after {
        AcquireStep::Retry { candidate, .. } => Some(candidate),
        _ => None,
    };
    let next = match after {
        AcquireStep::Retry { turn, .. } => turn,
        AcquireStep::Proceed(turn) => turn,
        _ => turn,
    };
    assert forall|i: int| 0 <= i < next.order@.len() implies is_accounted_for(
        next,
        retrying,
        (#[trigger] next.order@[i])@,
    ) by {
        let id = turn.order@[i]@;
        assert(is_accounted_for(turn, None, id));
        lemma_added(turn.completed@, candidate.candidate_id, result, id);
        if result_of(turn.completed@, id) is None {
            let k = choose|k: int|
                0 <= k < turn.running@.len() && (#[trigger] turn.running@[k]).candidate_id@ == id;
            if k < place {
                assert(next.running@[k] == turn.running@[k]);
            } else if k > place {
                assert(next.running@[k - 1] == turn.running@[k]);
            }
        }
    }
}

proof fn lemma_step(
    plan: EvidencePlan,
    before: AcquireStep,
    done: AcquireMove,
    after: AcquireStep,
    started: nat,
    run: int,
)
    requires
        is_sound(plan, before, started, run),
        leads_to(plan, before, done, after),
    ensures
        is_sound(
            plan,
            after,
            started + if done is Started {
                1nat
            } else {
                0
            },
            run + if is_fetch(done) {
                1int
            } else {
                0
            },
        ),
{
    match (before, done) {
        (AcquireStep::Proceed(turn), AcquireMove::Next) => {
            match after {
                AcquireStep::Proceed(next) => {
                    assert forall|i: int| 0 <= i < next.order@.len() implies is_accounted_for(
                        next,
                        None,
                        (#[trigger] next.order@[i])@,
                    ) by {
                        assert(is_accounted_for(turn, None, turn.order@[i]@));
                        lemma_same_pages(turn, next, turn.order@[i]@);
                    }
                },
                AcquireStep::Start(next) => {
                    assert forall|i: int| 0 <= i < next.order@.len() implies is_accounted_for(
                        next,
                        None,
                        (#[trigger] next.order@[i])@,
                    ) by {
                        if i < turn.order@.len() {
                            assert(next.order@[i] == turn.order@[i]);
                            assert(is_accounted_for(turn, None, turn.order@[i]@));
                            if result_of(turn.completed@, turn.order@[i]@) is None {
                                let k = choose|k: int|
                                    0 <= k < turn.running@.len() && (
                                    #[trigger] turn.running@[k]).candidate_id@ == turn.order@[i]@;
                                assert(next.running@[k] == turn.running@[k]);
                            }
                        } else {
                            assert(next.running@[turn.running@.len() as int].candidate_id
                                == next.order@[i]);
                        }
                    }
                },
                AcquireStep::Finished(results) => {
                    assert forall|i: int| 0 <= i < turn.order@.len() implies result_of(
                        turn.completed@,
                        (#[trigger] turn.order@[i])@,
                    ) is Some by {
                        assert(is_accounted_for(turn, None, turn.order@[i]@));
                    }
                    lemma_assembled(turn.order@, turn.completed@);
                },
                _ => {},
            }
        },
        (AcquireStep::Await(turn), AcquireMove::Fetched(place, result)) => {
            lemma_fetched(plan, turn, place, result, after, started, run);
        },
        (AcquireStep::Retry { turn, candidate, first }, AcquireMove::FetchedAgain(retry)) => {
            let next = after->Proceed_0;
            assert forall|i: int| 0 <= i < next.order@.len() implies is_accounted_for(
                next,
                None,
                (#[trigger] next.order@[i])@,
            ) by {
                let id = turn.order@[i]@;
                assert(is_accounted_for(turn, Some(candidate), id));
                lemma_added(turn.completed@, candidate.candidate_id, tried_again(first, retry), id);
                if result_of(next.completed@, id) is None {
                    let k = choose|k: int|
                        0 <= k < turn.running@.len() && (#[trigger] turn.running@[k]).candidate_id@
                            == id;
                    assert(next.running@[k] == turn.running@[k]);
                }
            }
        },
        _ => {},
    }
}

proof fn lemma_same_pages(turn: Acquisition, next: Acquisition, id: Seq<char>)
    requires
        is_accounted_for(turn, None, id),
        next.running == turn.running,
        next.completed == turn.completed,
    ensures
        is_accounted_for(next, None, id),
{
    if result_of(turn.completed@, id) is None {
        let k = choose|k: int|
            0 <= k < turn.running@.len() && (#[trigger] turn.running@[k]).candidate_id@ == id;
        assert(next.running@[k].candidate_id@ == id);
    }
}

proof fn lemma_run(
    plan: EvidencePlan,
    steps: Seq<AcquireStep>,
    moves: Seq<AcquireMove>,
    n: int,
)
    requires
        is_acquire_run(plan, steps, moves),
        0 <= n < steps.len(),
    ensures
        is_sound(plan, steps[n], pages_started(moves, n), fetches_run(moves, n)),
    decreases n,
{
    if n > 0 {
        lemma_run(plan, steps, moves, n - 1);
        assert(leads_to(plan, steps[n - 1], moves[n - 1], steps[n - 1 + 1]));
        lemma_step(
            plan,
            steps[n - 1],
            moves[n - 1],
            steps[n],
            pages_started(moves, n - 1),
            fetches_run(moves, n - 1),
        );
    }
}

/// An acquisition fetches no more often than its budget has it, retries counted.
pub proof fn acquisition_runs_stay_within_the_budget(
    plan: EvidencePlan,
    steps: Seq<AcquireStep>,
    moves: Seq<AcquireMove>,
)
    requires
        is_acquire_run(plan, steps, moves),
    ensures
        fetches_run(moves, moves.len() as int) <= plan.budget.web_fetch_attempts,
{
    lemma_run(plan, steps, moves, moves.len() as int);
}

/// No page is lost: an acquisition that has ended has a result for every page
/// that it took up.
pub proof fn every_page_is_reported(
    plan: EvidencePlan,
    steps: Seq<AcquireStep>,
    moves: Seq<AcquireMove>,
)
    requires
        is_acquire_run(plan, steps, moves),
    ensures
        steps.last() matches AcquireStep::Finished(results) ==> results.web_fetches@.len()
            == pages_started(moves, moves.len() as int),
{
    lemma_run(plan, steps, moves, moves.len() as int);
}

spec fn stage(step: AcquireStep) -> nat {
    if step is Search {
        1
    } else {
        0
    }
}

spec fn turn_of(step: AcquireStep) -> Option<Acquisition> {
    match step {
        AcquireStep::Proceed(turn) => Some(turn),
        AcquireStep::Start(turn) => Some(turn),
        AcquireStep::Await(turn) => Some(turn),
        AcquireStep::Retry { turn, .. } => Some(turn),
        _ => None,
    }
}

/// How far a step is from the end of its acquisition.
spec fn waiting(step: AcquireStep) -> nat {
    match turn_of(step) {
        Some(turn) => turn.queue@.len(),
        None => 0,
    }
}

spec fn pending(step: AcquireStep) -> nat {
    match step {
        AcquireStep::Start(turn) => 3 * turn.running@.len() + 3,
        AcquireStep::Proceed(turn) => 3 * turn.running@.len() + 2,
        AcquireStep::Await(turn) => 3 * turn.running@.len() + 1,
        AcquireStep::Retry { turn, .. } => 3 * turn.running@.len() + 3,
        _ => 0,
    }
}

/// An acquisition that is taken on from step to step for as long as it has not
/// ended.
pub open spec fn goes_on(
    plan: EvidencePlan,
    steps: spec_fn(int) -> AcquireStep,
    moves: spec_fn(int) -> AcquireMove,
) -> bool {
    forall|i: int|
        0 <= i && !(steps(i) is Finished) ==> leads_to(
            plan,
            steps(i),
            #[trigger] moves(i),
            steps(i + 1),
        )
}

proof fn lemma_reaches_the_end(
    plan: EvidencePlan,
    steps: spec_fn(int) -> AcquireStep,
    moves: spec_fn(int) -> AcquireMove,
    i: int,
) -> (n: int)
    requires
        0 <= i,
        goes_on(plan, steps, moves),
    ensures
        0 <= n,
        steps(n) is Finished,
    decreases stage(steps(i)), waiting(steps(i)), pending(steps(i)),
{
    if steps(i) is Finished {
        i
    } else {
        let done = moves(i);
        assert(leads_to(plan, steps(i), done, steps(i + 1)));
        lemma_reaches_the_end(plan, steps, moves, i + 1)
    }
}

/// Every acquisition that is taken on comes to an end.
pub proof fn acquisitions_end(
    plan: EvidencePlan,
    steps: spec_fn(int) -> AcquireStep,
    moves: spec_fn(int) -> AcquireMove,
)
    requires
        goes_on(plan, steps, moves),
    ensures
        exists|n: int| 0 <= n && #[trigger] steps(n) is Finished,
{
    let n = lemma_reaches_the_end(plan, steps, moves, 0);
    assert(steps(n) is Finished);
}

} // verus!
