//! Laws of acquiring web evidence: what is asked first, which pages are started,
//! and in which order the results are reported.

use crate::acquire::{
    acquisition_begins, acquisition_proceeds, assembled, begins_with, fetch_ends, reached,
    result_of, tried_again, AcquireStep, Acquisition,
};
use crate::ranking::{deduplicated, is_direct_candidate};
use crate::types::{
    operational, CandidateId, EvidencePlan, ExecutionStatus, OperationResult, WebCandidate,
    WebFetchEvidence, WebProvider,
};
use crate::weburl::{candidate_url_valid, normalized_url_text};
use vstd::prelude::*;

verus! {

/// A question is searched for in its own words, by the paid provider and the open
/// one where the former is configured, and by the encyclopedia and the open one
/// where it is not.
pub proof fn questions_are_searched_for(
    plan: EvidencePlan,
    tavily_configured: bool,
    step: AcquireStep,
)
    requires
        acquisition_begins(plan, tavily_configured, step),
        operational(plan.intent) is WebFact,
    ensures
        step matches AcquireStep::Search { query, providers } && query@ == operational(
            plan.intent,
        )->WebFact_query@ && providers.0@.len() == 2 && providers.0@[0] == (
        if tavily_configured {
            WebProvider::Tavily
        } else {
            WebProvider::Wikipedia
        }) && providers.0@[1] == WebProvider::DuckDuckGo,
{
}

/// A page that was named is queued without a search, and alone, where its address
/// may be fetched at all.
pub proof fn named_pages_are_queued(
    plan: EvidencePlan,
    tavily_configured: bool,
    step: AcquireStep,
)
    requires
        acquisition_begins(plan, tavily_configured, step),
        operational(plan.intent) is WebDirectPage,
    ensures
        step matches AcquireStep::Proceed(turn) && {
            let url = operational(plan.intent)->WebDirectPage_url;
            &&& turn.searches@.len() == 0
            &&& turn.order@.len() == 0
            &&& turn.running@.len() == 0
            &&& turn.completed@.len() == 0
            &&& turn.attempts_used == 0
            &&& turn.queue@.len() == if candidate_url_valid(url) {
                1int
            } else {
                0
            }
            &&& candidate_url_valid(url) ==> {
                &&& turn.queue@[0].requested_url == url
                &&& turn.queue@[0].provider is Direct
                &&& turn.queue@[0].rank == 1
                &&& turn.queue@[0].title@ == url.text@
                &&& turn.queue@[0].snippet@.len() == 0
            }
        },
{
    let url = operational(plan.intent)->WebDirectPage_url;
    let candidate = choose|candidate: WebCandidate| #[trigger]
        is_direct_candidate(candidate, url) && begins_with(
            step->Proceed_0,
            Seq::empty(),
            seq![candidate],
        );
    let one = seq![candidate];
    reveal_with_fuel(deduplicated, 3);
    assert(one.drop_last() =~= Seq::<WebCandidate>::empty());
}

/// An intent that is not about the web ends at once with no results at all.
pub proof fn other_intents_acquire_nothing(
    plan: EvidencePlan,
    tavily_configured: bool,
    step: AcquireStep,
)
    requires
        acquisition_begins(plan, tavily_configured, step),
        !(operational(plan.intent) is WebDirectPage),
        !(operational(plan.intent) is WebFact),
    ensures
        step matches AcquireStep::Finished(results) && results.web_searches@.len() == 0
            && results.web_fetches@.len() == 0 && results.mail_list@.len() == 0
            && results.mail_search@.len() == 0 && results.mail_bodies@.len() == 0
            && results.conflicts@.len() == 0,
{
}

proof fn lemma_first_result(
    completed: Seq<(CandidateId, OperationResult<WebFetchEvidence>)>,
    id: Seq<char>,
    k: int,
)
    requires
        0 <= k <= completed.len(),
        forall|j: int| 0 <= j < k ==> (#[trigger] completed[j]).0@ != id,
        k < completed.len() ==> completed[k].0@ == id,
    ensures
        result_of(completed, id) == if k < completed.len() {
            Some(completed[k].1)
        } else {
            None
        },
    decreases completed.len(),
{
    if completed.len() > 0 && k > 0 {
        assert(completed[0].0@ != id);
        assert forall|j: int| 0 <= j < k - 1 implies (
        #[trigger] completed.drop_first()[j]).0@ != id by {
            assert(completed[j + 1].0@ != id);
        }
        lemma_first_result(completed.drop_first(), id, k - 1);
    }
}

/// The results stand in the order in which the pages were started: the page
/// started last adds its own at the end, and leaves the others as they were. Only
/// its contribution may change: to a duplicate, where an earlier page of the turn
/// succeeded at the same final address.
pub proof fn results_stand_in_starting_order(
    order: Seq<CandidateId>,
    completed: Seq<(CandidateId, OperationResult<WebFetchEvidence>)>,
    id: CandidateId,
    k: int,
)
    requires
        0 <= k < completed.len(),
        completed[k].0@ == id@,
        forall|j: int| 0 <= j < k ==> (#[trigger] completed[j]).0@ != id@,
    ensures
        assembled(Seq::empty(), completed).len() == 0,
        assembled(order.push(id), completed).drop_last() == assembled(order, completed),
        assembled(order.push(id), completed).len() == assembled(order, completed).len() + 1,
        ({
            let before = assembled(order, completed);
            let found = completed[k].1;
            let last = assembled(order.push(id), completed).last();
            &&& last.key == found.key
            &&& last.attempts == found.attempts
            &&& last.execution == found.execution
            &&& last.value == found.value
            &&& last.duration_ms == found.duration_ms
            &&& last.invalid_items == found.invalid_items
            &&& last.contribution == found.contribution || last.contribution is Duplicate
            &&& found.execution is Succeeded && found.value is Some && (exists|i: int|
                #![trigger before[i]]
                0 <= i < before.len() && before[i].execution is Succeeded && before[i].value
                    is Some && normalized_url_text(before[i].value->0.final_url)
                    == normalized_url_text(found.value->0.final_url))
                ==> last.contribution is Duplicate
            &&& !(found.execution is Succeeded) || found.value is None ==> last.contribution
                == found.contribution
            &&& found.value is Some && (forall|i: int|
                #![trigger before[i]]
                0 <= i < before.len() && before[i].execution is Succeeded && before[i].value
                    is Some ==> normalized_url_text(before[i].value->0.final_url)
                    != normalized_url_text(found.value->0.final_url)) ==> last.contribution
                == found.contribution
        }),
{
    let whole = order.push(id);
    assert(whole.drop_last() =~= order);
    lemma_first_result(completed, id@, k);
    let before = assembled(order, completed);
    assert(assembled(whole, completed).drop_last() =~= before);
    let found = completed[k].1;
    if found.value is Some {
        let address = normalized_url_text(found.value->0.final_url);
        assert forall|i: int| 0 <= i < before.len() implies (reached(#[trigger] before[i], address)
            <==> before[i].execution is Succeeded && before[i].value is Some
            && normalized_url_text(before[i].value->0.final_url) == address) by {}
        if exists|i: int|
            #![trigger before[i]]
            0 <= i < before.len() && before[i].execution is Succeeded && before[i].value is Some
                && normalized_url_text(before[i].value->0.final_url) == address {
            let i = choose|i: int|
                #![trigger before[i]]
                0 <= i < before.len() && before[i].execution is Succeeded && before[i].value
                    is Some && normalized_url_text(before[i].value->0.final_url) == address;
            assert(reached(before[i], address));
        }
    }
}

/// A page that is not done yet is left out of the results.
pub proof fn unfinished_pages_are_left_out(
    order: Seq<CandidateId>,
    completed: Seq<(CandidateId, OperationResult<WebFetchEvidence>)>,
    id: CandidateId,
)
    requires
        forall|j: int| 0 <= j < completed.len() ==> (#[trigger] completed[j]).0@ != id@,
    ensures
        assembled(order.push(id), completed) == assembled(order, completed),
{
    assert(order.push(id).drop_last() =~= order);
    lemma_first_result(completed, id@, completed.len() as int);
}

/// The first of the queue is started where a place and an attempt are free and it
/// was not started before; the acquisition waits where it can start nothing and
/// something runs, and ends where nothing runs either.
pub proof fn pages_are_started_in_order(plan: EvidencePlan, turn: Acquisition, step: AcquireStep)
    requires
        acquisition_proceeds(plan, turn, step),
        turn.attempts_used < u8::MAX,
    ensures
        ({
            let places: int = if plan.budget.max_parallel_fetches >= 2 {
                2
            } else {
                1
            };
            let may_start = turn.running@.len() < places && turn.attempts_used
                < plan.budget.web_fetch_attempts && turn.queue@.len() > 0;
            &&& step is Finished <==> !may_start && turn.running@.len() == 0
            &&& step is Await <==> !may_start && turn.running@.len() > 0
            &&& step is Start || step is Proceed <==> may_start
        }),
        step matches AcquireStep::Await(next) ==> next == turn,
        step matches AcquireStep::Start(next) ==> {
            &&& next.queue@ =~= turn.queue@.subrange(1, turn.queue@.len() as int)
            &&& next.running@ =~= turn.running@ + seq![turn.queue@[0]]
            &&& next.order@ =~= turn.order@ + seq![turn.queue@[0].candidate_id]
            &&& next.attempts_used == turn.attempts_used + 1
            &&& next.completed == turn.completed
            &&& next.searches == turn.searches
            &&& forall|i: int|
                0 <= i < turn.order@.len() ==> (#[trigger] turn.order@[i])@
                    != turn.queue@[0].candidate_id@
        },
        step matches AcquireStep::Proceed(next) ==> {
            &&& next.queue@ =~= turn.queue@.subrange(1, turn.queue@.len() as int)
            &&& next.running == turn.running
            &&& next.order == turn.order
            &&& next.attempts_used == turn.attempts_used
            &&& next.completed == turn.completed
            &&& next.searches == turn.searches
            &&& exists|i: int|
                0 <= i < turn.order@.len() && (#[trigger] turn.order@[i])@
                    == turn.queue@[0].candidate_id@
        },
        step matches AcquireStep::Finished(results) ==> {
            &&& results.web_searches == turn.searches
            &&& results.web_fetches@ == assembled(turn.order@, turn.completed@)
            &&& results.mail_list@.len() == 0
            &&& results.mail_search@.len() == 0
            &&& results.mail_bodies@.len() == 0
            &&& results.conflicts@.len() == 0
        },
{
}

/// A page is fetched a second time exactly after a time-out, a reset, a limit of
/// the rate or a fault of the server, where an attempt is left; what it came to
/// otherwise is kept under its name. Either way its place is free.
pub proof fn passing_faults_are_fetched_again(
    plan: EvidencePlan,
    turn: Acquisition,
    place: int,
    result: OperationResult<WebFetchEvidence>,
    step: AcquireStep,
)
    requires
        0 <= place < turn.running@.len(),
        turn.attempts_used < u8::MAX,
        fetch_ends(plan, turn, place, result, step),
    ensures
        step is Retry || step is Proceed,
        step is Retry <==> turn.attempts_used < plan.budget.web_fetch_attempts && result.attempts
            <= 1 && (result.execution is TimedOut || (
        result.execution matches ExecutionStatus::Failed(failure) && (
        failure is ConnectionReset || failure is RateLimited || failure is Http5xx))),
        step matches AcquireStep::Retry { turn: next, candidate, first } ==> {
            &&& candidate == turn.running@[place]
            &&& first == result
            &&& next.attempts_used == turn.attempts_used + 1
            &&& next.running@ =~= turn.running@.subrange(0, place) + turn.running@.subrange(
                place + 1,
                turn.running@.len() as int,
            )
            &&& next.completed == turn.completed
            &&& next.queue == turn.queue
            &&& next.order == turn.order
        },
        step matches AcquireStep::Proceed(next) ==> {
            &&& next.attempts_used == turn.attempts_used
            &&& next.running@ =~= turn.running@.subrange(0, place) + turn.running@.subrange(
                place + 1,
                turn.running@.len() as int,
            )
            &&& next.completed@.len() == turn.completed@.len() + 1
            &&& next.completed@.drop_last() =~= turn.completed@
            &&& next.completed@.last().0 == turn.running@[place].candidate_id
            &&& next.completed@.last().1 == result
            &&& next.queue == turn.queue
            &&& next.order == turn.order
        },
{
}

/// A second fetch adds its attempts and its time to those of the first, and
/// decides what came of the page.
pub proof fn second_fetches_add_up(
    first: OperationResult<WebFetchEvidence>,
    retry: OperationResult<WebFetchEvidence>,
)
    ensures
        tried_again(first, retry).key == first.key,
        tried_again(first, retry).invalid_items == first.invalid_items,
        tried_again(first, retry).execution == retry.execution,
        tried_again(first, retry).contribution == retry.contribution,
        tried_again(first, retry).value == retry.value,
        first.attempts + retry.attempts <= 255 ==> tried_again(first, retry).attempts
            == first.attempts + retry.attempts,
        first.attempts + retry.attempts >= 255 ==> tried_again(first, retry).attempts == 255,
        first.duration_ms + retry.duration_ms <= u64::MAX ==> tried_again(first, retry).duration_ms
            == first.duration_ms + retry.duration_ms,
        first.duration_ms + retry.duration_ms >= u64::MAX ==> tried_again(first, retry).duration_ms
            == u64::MAX,
{
}

} // verus!
