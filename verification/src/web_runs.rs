//! What holds of a whole turn that is grounded in the web, whatever the policy
//! decides and whatever the searches and fetches bring.

use crate::ranking::providers_for;
use crate::selection::merged;
use crate::types::{
    operational, quoted_once, EvidenceOperation, EvidencePlan, OperationResult, ProviderSet,
    WebCandidate, WebFetchEvidence, WebSearchResult,
};
use crate::web_plan::{
    all_done, counted, fetch_is_decided, fetch_is_taken, is_judged, may_retry, parallel, query_of,
    result_is_kept, retry_is_decided, retry_is_taken, search_is_decided, search_is_taken,
    turn_begins, turn_proceeds, WebStep, WebTurn,
};
use vstd::prelude::*;

verus! {

/// What is done between two steps of a turn.
pub ghost enum WebMove {
    SearchDecided(bool),
    SearchDone(OperationResult<WebSearchResult>),
    Next,
    FetchDecided(bool),
    FetchDone(int, OperationResult<WebFetchEvidence>),
    RetryDecided(bool),
    RetryDone(OperationResult<WebFetchEvidence>),
}

/// A page of the batch whose result is still to come.
pub open spec fn is_open_place(turn: WebTurn, place: int) -> bool {
    0 <= place < turn.batch@.len() && turn.done@[place] is None
}

/// One step of a turn leads to the next: each question is answered once, and
/// each page of a batch is handed back once.
pub open spec fn leads_to(
    turn_id: Seq<char>,
    plan: EvidencePlan,
    before: WebStep,
    done: WebMove,
    after: WebStep,
) -> bool {
    match (before, done) {
        (
            WebStep::AskSearch { turn, operation },
            WebMove::SearchDecided(allowed),
        ) => search_is_decided(turn, operation, allowed, after),
        (WebStep::RunSearch { turn, .. }, WebMove::SearchDone(search)) => search_is_taken(
            plan,
            turn,
            search,
            after,
        ),
        (WebStep::Proceed(turn), WebMove::Next) => turn_proceeds(turn_id, plan, turn, after),
        (
            WebStep::AskFetch { turn, candidate },
            WebMove::FetchDecided(allowed),
        ) => fetch_is_decided(turn, candidate, allowed, after),
        (WebStep::RunBatch(turn), WebMove::FetchDone(place, result)) => is_open_place(turn, place)
            && fetch_is_taken(plan, turn, place, result, after),
        (WebStep::Await(turn), WebMove::FetchDone(place, result)) => is_open_place(turn, place)
            && fetch_is_taken(plan, turn, place, result, after),
        (
            WebStep::AskRetry { turn, place, first },
            WebMove::RetryDecided(allowed),
        ) => retry_is_decided(plan, turn, place as int, first, allowed, after),
        (
            WebStep::RunRetry { turn, place, first },
            WebMove::RetryDone(retry),
        ) => retry_is_taken(plan, turn, place as int, first, retry, after),
        _ => false,
    }
}

/// The steps of a turn as far as it has come, and what was done between them.
pub open spec fn is_web_run(
    turn_id: Seq<char>,
    plan: EvidencePlan,
    steps: Seq<WebStep>,
    moves: Seq<WebMove>,
) -> bool {
    &&& quoted_once(plan.intent)
    &&& steps.len() == moves.len() + 1
    &&& turn_begins(turn_id, plan, steps[0])
    &&& forall|i: int|
        0 <= i < moves.len() ==> leads_to(
            turn_id,
            plan,
            steps[i],
            #[trigger] moves[i],
            steps[i + 1],
        )
}

/// The pages that the policy allowed before the step `n`.
pub open spec fn allowed_pages(steps: Seq<WebStep>, moves: Seq<WebMove>, n: int) -> Seq<
    WebCandidate,
>
    decreases n,
{
    if n <= 0 {
        Seq::empty()
    } else {
        let before = allowed_pages(steps, moves, n - 1);
        match (steps[n - 1], moves[n - 1]) {
            (
                WebStep::AskFetch { candidate, .. },
                WebMove::FetchDecided(true),
            ) => before.push(candidate),
            _ => before,
        }
    }
}

pub open spec fn is_allowed_try(done: WebMove) -> bool {
    done == WebMove::FetchDecided(true) || done == WebMove::RetryDecided(true)
}

pub open spec fn is_fetch(done: WebMove) -> bool {
    done is FetchDone || done is RetryDone
}

/// How often the policy allowed a page to be fetched, or fetched again.
pub open spec fn allowed_tries(moves: Seq<WebMove>, n: int) -> int
    decreases n,
{
    if n <= 0 {
        0
    } else {
        allowed_tries(moves, n - 1) + if is_allowed_try(moves[n - 1]) {
            1int
        } else {
            0
        }
    }
}

/// How many fetches ran.
pub open spec fn fetches_run(moves: Seq<WebMove>, n: int) -> int
    decreases n,
{
    if n <= 0 {
        0
    } else {
        fetches_run(moves, n - 1) + if is_fetch(moves[n - 1]) {
            1int
        } else {
            0
        }
    }
}

/// How many pages of a batch have no result yet.
pub open spec fn open_places(done: Seq<Option<OperationResult<WebFetchEvidence>>>) -> nat
    decreases done.len(),
{
    if done.len() == 0 {
        0
    } else {
        open_places(done.drop_last()) + if done.last() is None {
            1nat
        } else {
            0
        }
    }
}

proof fn lemma_closed_place(
    done: Seq<Option<OperationResult<WebFetchEvidence>>>,
    place: int,
    result: OperationResult<WebFetchEvidence>,
)
    requires
        0 <= place < done.len(),
        done[place] is None,
    ensures
        open_places(done) >= 1,
        open_places(done.update(place, Some(result))) == open_places(done) - 1,
    decreases done.len(),
{
    let after = done.update(place, Some(result));
    if place == done.len() - 1 {
        assert(after.drop_last() =~= done.drop_last());
    } else {
        lemma_closed_place(done.drop_last(), place, result);
        assert(after.drop_last() =~= done.drop_last().update(place, Some(result)));
    }
}

proof fn lemma_all_done(done: Seq<Option<OperationResult<WebFetchEvidence>>>)
    ensures
        all_done(done) == (open_places(done) == 0),
        open_places(done) <= done.len(),
    decreases done.len(),
{
    if done.len() > 0 {
        lemma_all_done(done.drop_last());
        if all_done(done) {
            assert(done.last() is Some);
            assert forall|i: int| 0 <= i < done.drop_last().len() implies (
            #[trigger] done.drop_last()[i]) is Some by {
                assert(done[i] is Some);
            }
        } else if all_done(done.drop_last()) && done.last() is Some {
            assert forall|i: int| 0 <= i < done.len() implies (#[trigger] done[i]) is Some by {
                if i < done.len() - 1 {
                    assert(done.drop_last()[i] is Some);
                }
            }
        }
    }
}

proof fn lemma_none_done(done: Seq<Option<OperationResult<WebFetchEvidence>>>)
    requires
        forall|i: int| 0 <= i < done.len() ==> (#[trigger] done[i]) is None,
    ensures
        open_places(done) == done.len(),
    decreases done.len(),
{
    if done.len() > 0 {
        assert(done.last() is None);
        assert forall|i: int| 0 <= i < done.drop_last().len() implies (
        #[trigger] done.drop_last()[i]) is None by {
            assert(done[i] is None);
        }
        lemma_none_done(done.drop_last());
    }
}

/// The search is for the question of the plan, with the open providers.
pub open spec fn is_own_search(plan: EvidencePlan, query: Seq<char>, providers: ProviderSet) -> bool {
    query == query_of(operational(plan.intent)) && providers.0@ == providers_for(false)
}

/// A batch of allowed pages within the budget.
spec fn is_sound_turn(plan: EvidencePlan, turn: WebTurn, tries: int, allowed: Seq<WebCandidate>) -> bool {
    &&& turn.well_formed(plan)
    &&& turn.attempts_used == tries
    &&& forall|i: int|
        0 <= i < turn.batch@.len() ==> allowed.contains(#[trigger] turn.batch@[i])
}

spec fn none_done(turn: WebTurn) -> bool {
    forall|i: int| 0 <= i < turn.done@.len() ==> (#[trigger] turn.done@[i]) is None
}

/// What holds at a step of a run, of the tries that were allowed and the
/// fetches that ran before it.
spec fn is_sound(
    plan: EvidencePlan,
    step: WebStep,
    tries: int,
    run: int,
    allowed: Seq<WebCandidate>,
) -> bool {
    match step {
        WebStep::AskSearch { turn, operation } => {
            &&& is_sound_turn(plan, turn, tries, allowed)
            &&& turn.batch@.len() == 0
            &&& run == tries
            &&& operation matches EvidenceOperation::WebSearch { normalized_query, provider_set }
            &&& is_own_search(plan, normalized_query@, provider_set)
        },
        WebStep::RunSearch { turn, query, providers } => {
            &&& is_sound_turn(plan, turn, tries, allowed)
            &&& turn.batch@.len() == 0
            &&& run == tries
            &&& is_own_search(plan, query@, providers)
        },
        WebStep::Proceed(turn) => {
            &&& is_sound_turn(plan, turn, tries, allowed)
            &&& none_done(turn)
            &&& run + turn.done@.len() == tries
        },
        WebStep::AskFetch { turn, .. } => {
            &&& is_sound_turn(plan, turn, tries, allowed)
            &&& none_done(turn)
            &&& run + turn.done@.len() == tries
            &&& turn.attempts_used < plan.budget.web_fetch_attempts
            &&& turn.batch@.len() < parallel(plan.budget.max_parallel_fetches)
        },
        WebStep::RunBatch(turn) => {
            &&& is_sound_turn(plan, turn, tries, allowed)
            &&& turn.batch@.len() > 0
            &&& none_done(turn)
            &&& run + turn.done@.len() == tries
        },
        WebStep::Await(turn) => {
            &&& is_sound_turn(plan, turn, tries, allowed)
            &&& run + open_places(turn.done@) == tries
            &&& open_places(turn.done@) > 0
        },
        WebStep::AskRetry { turn, place, .. } => {
            &&& is_sound_turn(plan, turn, tries, allowed)
            &&& is_open_place(turn, place as int)
            &&& run + open_places(turn.done@) == tries + 1
            &&& turn.attempts_used < plan.budget.web_fetch_attempts
        },
        WebStep::RunRetry { turn, place, .. } => {
            &&& is_sound_turn(plan, turn, tries, allowed)
            &&& is_open_place(turn, place as int)
            &&& run + open_places(turn.done@) == tries
        },
        WebStep::Finished(_) => run == tries <= plan.budget.web_fetch_attempts,
    }
}

proof fn lemma_kept(
    plan: EvidencePlan,
    turn: WebTurn,
    place: int,
    result: OperationResult<WebFetchEvidence>,
    after: WebStep,
    tries: int,
    run: int,
    allowed: Seq<WebCandidate>,
)
    requires
        is_sound_turn(plan, turn, tries, allowed),
        is_open_place(turn, place),
        result_is_kept(plan, turn, place, result, after),
        run + open_places(turn.done@) == tries + 1,
    ensures
        is_sound(plan, after, tries, run, allowed),
{
    let done = turn.done@.update(place, Some(result));
    lemma_closed_place(turn.done@, place, result);
    lemma_all_done(done);
}

/// Soundness is kept from step to step.
proof fn lemma_step(
    turn_id: Seq<char>,
    plan: EvidencePlan,
    before: WebStep,
    done: WebMove,
    after: WebStep,
    tries: int,
    run: int,
    allowed: Seq<WebCandidate>,
)
    requires
        is_sound(plan, before, tries, run, allowed),
        leads_to(turn_id, plan, before, done, after),
    ensures
        is_sound(
            plan,
            after,
            tries + if is_allowed_try(done) {
                1int
            } else {
                0
            },
            run + if is_fetch(done) {
                1int
            } else {
                0
            },
            match (before, done) {
                (
                    WebStep::AskFetch { candidate, .. },
                    WebMove::FetchDecided(true),
                ) => allowed.push(candidate),
                _ => allowed,
            },
        ),
{
    match (before, done) {
        (WebStep::AskFetch { turn, candidate }, WebMove::FetchDecided(granted)) => {
            if granted {
                let next = after->Proceed_0;
                let more = allowed.push(candidate);
                assert forall|i: int| 0 <= i < next.batch@.len() implies more.contains(
                    #[trigger] next.batch@[i],
                ) by {
                    if i < turn.batch@.len() {
                        assert(allowed.contains(turn.batch@[i]));
                        let k = choose|k: int| 0 <= k < allowed.len() && allowed[k] == turn.batch@[i];
                        assert(more[k] == turn.batch@[i]);
                    } else {
                        assert(more[allowed.len() as int] == candidate);
                    }
                }
            }
        },
        (WebStep::RunBatch(turn), WebMove::FetchDone(place, result)) => {
            lemma_none_done(turn.done@);
            lemma_fetched(plan, turn, place, result, after, tries, run, allowed);
        },
        (WebStep::Await(turn), WebMove::FetchDone(place, result)) => {
            lemma_fetched(plan, turn, place, result, after, tries, run, allowed);
        },
        (WebStep::AskRetry { turn, place, first }, WebMove::RetryDecided(granted)) => {
            if !granted {
                let refused = WebTurn {
                    approvals_denied: counted(turn.approvals_denied, 1),
                    ..turn
                };
                lemma_kept(plan, refused, place as int, first, after, tries, run, allowed);
            }
        },
        (WebStep::RunRetry { turn, place, first }, WebMove::RetryDone(retry)) => {
            let judged = choose|judged: OperationResult<WebFetchEvidence>| #[trigger]
                is_judged(
                    operational(plan.intent),
                    turn.batch@[place as int],
                    merged(first, retry),
                    judged,
                ) && result_is_kept(plan, turn, place as int, judged, after);
            lemma_kept(plan, turn, place as int, judged, after, tries, run + 1, allowed);
        },
        _ => {},
    }
}

proof fn lemma_fetched(
    plan: EvidencePlan,
    turn: WebTurn,
    place: int,
    result: OperationResult<WebFetchEvidence>,
    after: WebStep,
    tries: int,
    run: int,
    allowed: Seq<WebCandidate>,
)
    requires
        is_sound_turn(plan, turn, tries, allowed),
        is_open_place(turn, place),
        fetch_is_taken(plan, turn, place, result, after),
        run + open_places(turn.done@) == tries,
    ensures
        is_sound(plan, after, tries, run + 1, allowed),
{
    let judged = choose|judged: OperationResult<WebFetchEvidence>| #[trigger]
        is_judged(
            operational(plan.intent),
            turn.batch@[place],
            result,
            judged,
        ) && if may_retry(plan, turn, judged) {
            after matches WebStep::AskRetry { turn: next, place: at, first } && next == turn && at
                == place && first == judged
        } else {
            result_is_kept(plan, turn, place, judged, after)
        };
    if !may_retry(plan, turn, judged) {
        lemma_kept(plan, turn, place, judged, after, tries, run + 1, allowed);
    }
}

proof fn lemma_run(
    turn_id: Seq<char>,
    plan: EvidencePlan,
    steps: Seq<WebStep>,
    moves: Seq<WebMove>,
    n: int,
)
    requires
        is_web_run(turn_id, plan, steps, moves),
        0 <= n < steps.len(),
    ensures
        is_sound(
            plan,
            steps[n],
            allowed_tries(moves, n),
            fetches_run(moves, n),
            allowed_pages(steps, moves, n),
        ),
    decreases n,
{
    if n > 0 {
        lemma_run(turn_id, plan, steps, moves, n - 1);
        assert(leads_to(turn_id, plan, steps[n - 1], moves[n - 1], steps[n - 1 + 1]));
        lemma_step(
            turn_id,
            plan,
            steps[n - 1],
            moves[n - 1],
            steps[n],
            allowed_tries(moves, n - 1),
            fetches_run(moves, n - 1),
            allowed_pages(steps, moves, n - 1),
        );
    }
}

/// A turn fetches no more often than the policy allowed, and the policy is
/// asked for no more than the budget of the plan. Once the turn has ended,
/// everything that was allowed has run.
pub proof fn web_turns_stay_within_the_budget(
    turn_id: Seq<char>,
    plan: EvidencePlan,
    steps: Seq<WebStep>,
    moves: Seq<WebMove>,
)
    requires
        is_web_run(turn_id, plan, steps, moves),
    ensures
        fetches_run(moves, moves.len() as int) <= allowed_tries(moves, moves.len() as int)
            <= plan.budget.web_fetch_attempts,
        steps.last() is Finished ==> fetches_run(moves, moves.len() as int) == allowed_tries(
            moves,
            moves.len() as int,
        ),
{
    let n = moves.len() as int;
    lemma_run(turn_id, plan, steps, moves, n);
    match steps[n] {
        WebStep::AskRetry { turn, place, .. } => {
            lemma_some_open(turn.done@, place as int);
        },
        _ => {},
    }
}

proof fn lemma_some_open(done: Seq<Option<OperationResult<WebFetchEvidence>>>, place: int)
    requires
        0 <= place < done.len(),
        done[place] is None,
    ensures
        open_places(done) >= 1,
{
    lemma_all_done(done);
}

/// The page that a fetch of a turn is about.
pub open spec fn fetched_page(step: WebStep, done: WebMove) -> Option<WebCandidate> {
    match (step, done) {
        (WebStep::RunBatch(turn), WebMove::FetchDone(place, _)) => Some(turn.batch@[place]),
        (WebStep::Await(turn), WebMove::FetchDone(place, _)) => Some(turn.batch@[place]),
        (WebStep::RunRetry { turn, place, .. }, WebMove::RetryDone(_)) => Some(
            turn.batch@[place as int],
        ),
        _ => None,
    }
}

/// Nothing runs that the policy was not asked about: a page is fetched only
/// after it was allowed, and a search runs, or a page is fetched again, only
/// right after that was allowed. What is searched for is the question of the plan.
pub proof fn only_what_is_allowed_runs(
    turn_id: Seq<char>,
    plan: EvidencePlan,
    steps: Seq<WebStep>,
    moves: Seq<WebMove>,
    i: int,
)
    requires
        is_web_run(turn_id, plan, steps, moves),
        0 <= i < moves.len(),
    ensures
        fetched_page(steps[i], moves[i]) matches Some(page) ==> allowed_pages(
            steps,
            moves,
            i,
        ).contains(page),
        moves[i] is SearchDone ==> i > 0 && moves[i - 1] == WebMove::SearchDecided(true) && (
        steps[i] matches WebStep::RunSearch { query, providers, .. } && is_own_search(
            plan,
            query@,
            providers,
        )),
        moves[i] is RetryDone ==> i > 0 && moves[i - 1] == WebMove::RetryDecided(true),
{
    lemma_run(turn_id, plan, steps, moves, i);
    assert(leads_to(turn_id, plan, steps[i], moves[i], steps[i + 1]));
    if i > 0 {
        assert(leads_to(turn_id, plan, steps[i - 1], moves[i - 1], steps[i - 1 + 1]));
    }
}

/// How far a step is from the end of its turn: the search that is to come, the
/// rounds of exploration that are left, the pages that wait, and what is left to
/// do about the pages that were taken up.
spec fn stage(step: WebStep) -> nat {
    match step {
        WebStep::AskSearch { .. } => 2,
        WebStep::RunSearch { .. } => 1,
        _ => 0,
    }
}

pub open spec fn turn_of(step: WebStep) -> Option<WebTurn> {
    match step {
        WebStep::AskSearch { turn, .. } => Some(turn),
        WebStep::RunSearch { turn, .. } => Some(turn),
        WebStep::Proceed(turn) => Some(turn),
        WebStep::AskFetch { turn, .. } => Some(turn),
        WebStep::RunBatch(turn) => Some(turn),
        WebStep::Await(turn) => Some(turn),
        WebStep::AskRetry { turn, .. } => Some(turn),
        WebStep::RunRetry { turn, .. } => Some(turn),
        WebStep::Finished(_) => None,
    }
}

spec fn rounds_left(plan: EvidencePlan, step: WebStep) -> nat {
    match turn_of(step) {
        Some(turn) => if turn.exploration_rounds < plan.budget.optional_exploration_rounds {
            (plan.budget.optional_exploration_rounds - turn.exploration_rounds) as nat
        } else {
            0
        },
        None => 0,
    }
}

spec fn waiting(step: WebStep) -> nat {
    match turn_of(step) {
        Some(turn) => turn.queue@.len(),
        None => 0,
    }
}

spec fn pending(step: WebStep) -> nat {
    match step {
        WebStep::AskFetch { turn, .. } => 3 * turn.batch@.len() + 6,
        WebStep::Proceed(turn) => if turn.batch@.len() == 0 {
            1
        } else {
            3 * turn.batch@.len() + 2
        },
        WebStep::RunBatch(turn) => 3 * open_places(turn.done@) + 1,
        WebStep::Await(turn) => 3 * open_places(turn.done@) + 1,
        WebStep::AskRetry { turn, .. } => 3 * open_places(turn.done@),
        WebStep::RunRetry { turn, .. } => (3 * open_places(turn.done@) - 1) as nat,
        _ => 0,
    }
}

/// The second step is nearer to the end than the first.
spec fn is_nearer(plan: EvidencePlan, before: WebStep, after: WebStep) -> bool {
    ||| stage(after) < stage(before)
    ||| {
        &&& stage(after) == stage(before)
        &&& rounds_left(plan, after) < rounds_left(plan, before)
    }
    ||| {
        &&& stage(after) == stage(before)
        &&& rounds_left(plan, after) == rounds_left(plan, before)
        &&& waiting(after) < waiting(before)
    }
    ||| {
        &&& stage(after) == stage(before)
        &&& rounds_left(plan, after) == rounds_left(plan, before)
        &&& waiting(after) == waiting(before)
        &&& pending(after) < pending(before)
    }
}

proof fn lemma_kept_is_nearer(
    plan: EvidencePlan,
    turn: WebTurn,
    place: int,
    result: OperationResult<WebFetchEvidence>,
    after: WebStep,
)
    requires
        turn.well_formed(plan),
        is_open_place(turn, place),
        result_is_kept(plan, turn, place, result, after),
    ensures
        stage(after) == 0,
        turn_of(after) matches Some(next) && next.queue == turn.queue && next.exploration_rounds
            == turn.exploration_rounds,
        open_places(turn.done@) >= 1,
        pending(after) < 3 * open_places(turn.done@) - 1,
{
    lemma_closed_place(turn.done@, place, result);
    lemma_all_done(turn.done@.update(place, Some(result)));
}

proof fn lemma_step_is_nearer(
    turn_id: Seq<char>,
    plan: EvidencePlan,
    before: WebStep,
    done: WebMove,
    after: WebStep,
    tries: int,
    run: int,
    allowed: Seq<WebCandidate>,
)
    requires
        is_sound(plan, before, tries, run, allowed),
        leads_to(turn_id, plan, before, done, after),
    ensures
        is_nearer(plan, before, after),
{
    match (before, done) {
        (WebStep::Proceed(turn), WebMove::Next) => {
            if after is RunBatch {
                lemma_none_done(turn.done@);
            }
        },
        (WebStep::RunBatch(turn), WebMove::FetchDone(place, result)) => {
            lemma_fetch_is_nearer(plan, turn, place, result, after);
        },
        (WebStep::Await(turn), WebMove::FetchDone(place, result)) => {
            lemma_fetch_is_nearer(plan, turn, place, result, after);
        },
        (WebStep::AskRetry { turn, place, first }, WebMove::RetryDecided(granted)) => {
            lemma_some_open(turn.done@, place as int);
            if !granted {
                let refused = WebTurn {
                    approvals_denied: counted(turn.approvals_denied, 1),
                    ..turn
                };
                lemma_kept_is_nearer(plan, refused, place as int, first, after);
            }
        },
        (WebStep::RunRetry { turn, place, first }, WebMove::RetryDone(retry)) => {
            let judged = choose|judged: OperationResult<WebFetchEvidence>| #[trigger]
                is_judged(
                    operational(plan.intent),
                    turn.batch@[place as int],
                    merged(first, retry),
                    judged,
                ) && result_is_kept(plan, turn, place as int, judged, after);
            lemma_kept_is_nearer(plan, turn, place as int, judged, after);
        },
        _ => {},
    }
}

proof fn lemma_fetch_is_nearer(
    plan: EvidencePlan,
    turn: WebTurn,
    place: int,
    result: OperationResult<WebFetchEvidence>,
    after: WebStep,
)
    requires
        turn.well_formed(plan),
        is_open_place(turn, place),
        fetch_is_taken(plan, turn, place, result, after),
    ensures
        stage(after) == 0,
        turn_of(after) matches Some(next) && next.queue == turn.queue && next.exploration_rounds
            == turn.exploration_rounds,
        pending(after) < 3 * open_places(turn.done@) + 1,
{
    let judged = choose|judged: OperationResult<WebFetchEvidence>| #[trigger]
        is_judged(
            operational(plan.intent),
            turn.batch@[place],
            result,
            judged,
        ) && if may_retry(plan, turn, judged) {
            after matches WebStep::AskRetry { turn: next, place: at, first } && next == turn && at
                == place && first == judged
        } else {
            result_is_kept(plan, turn, place, judged, after)
        };
    if !may_retry(plan, turn, judged) {
        lemma_kept_is_nearer(plan, turn, place, judged, after);
    }
}

proof fn lemma_reaches_the_end(
    turn_id: Seq<char>,
    plan: EvidencePlan,
    steps: spec_fn(int) -> WebStep,
    moves: spec_fn(int) -> WebMove,
    i: int,
    tries: int,
    run: int,
    allowed: Seq<WebCandidate>,
) -> (n: int)
    requires
        0 <= i,
        is_sound(plan, steps(i), tries, run, allowed),
        goes_on(turn_id, plan, steps, moves),
    ensures
        0 <= n,
        steps(n) is Finished,
    decreases
            stage(steps(i)),
            rounds_left(plan, steps(i)),
            waiting(steps(i)),
            pending(steps(i)),
{
    if steps(i) is Finished {
        i
    } else {
        let done = moves(i);
        assert(leads_to(turn_id, plan, steps(i), done, steps(i + 1)));
        lemma_step(turn_id, plan, steps(i), done, steps(i + 1), tries, run, allowed);
        lemma_step_is_nearer(turn_id, plan, steps(i), done, steps(i + 1), tries, run, allowed);
        lemma_reaches_the_end(
            turn_id,
            plan,
            steps,
            moves,
            i + 1,
            tries + if is_allowed_try(done) {
                1int
            } else {
                0
            },
            run + if is_fetch(done) {
                1int
            } else {
                0
            },
            match (steps(i), done) {
                (
                    WebStep::AskFetch { candidate, .. },
                    WebMove::FetchDecided(true),
                ) => allowed.push(candidate),
                _ => allowed,
            },
        )
    }
}

/// A turn that is taken on from step to step for as long as it has not ended.
pub open spec fn goes_on(
    turn_id: Seq<char>,
    plan: EvidencePlan,
    steps: spec_fn(int) -> WebStep,
    moves: spec_fn(int) -> WebMove,
) -> bool {
    forall|i: int|
        0 <= i && !(steps(i) is Finished) ==> leads_to(
            turn_id,
            plan,
            steps(i),
            #[trigger] moves(i),
            steps(i + 1),
        )
}

/// Every turn that is taken on comes to an end.
pub proof fn web_turns_end(
    turn_id: Seq<char>,
    plan: EvidencePlan,
    steps: spec_fn(int) -> WebStep,
    moves: spec_fn(int) -> WebMove,
)
    requires
        quoted_once(plan.intent),
        turn_begins(turn_id, plan, steps(0)),
        goes_on(turn_id, plan, steps, moves),
    ensures
        exists|n: int| 0 <= n && #[trigger] steps(n) is Finished,
{
    let n = lemma_reaches_the_end(turn_id, plan, steps, moves, 0, 0, 0, Seq::empty());
    assert(steps(n) is Finished);
}

} // verus!
