//! Laws of a turn that is grounded in the web: what opens it, which pages are
//! fetched together, and how their results are recorded.

use crate::conflicts::{are_conflicts, contract_met};
use crate::ranking::prepared;
use crate::types::{
    operational, EvidenceConflict, EvidenceIntent, EvidenceOperation, EvidencePlan, EvidenceResults,
    ExecutionStatus, OperationResult, ValidatedReference, VerificationLevel, WebCandidate,
    WebFetchEvidence, WebProvider, WebSearchResult,
};
use crate::validator::validated;
use crate::web_plan::{
    all_links, are_linked, ends, fetch_is_decided, fetch_is_taken, is_judged, parallel, query_of,
    recorded, result_is_kept, retry_is_decided, search_is_decided, search_is_taken, settled,
    turn_begins, turn_proceeds, EvidenceTurnOutcome, WebStep, WebTurn,
};
use vstd::prelude::*;

verus! {

/// One or two pages are fetched at a time, as the budget says.
pub proof fn one_or_two_pages_at_a_time(limit: u8)
    ensures
        parallel(limit) == if limit >= 2 {
            2int
        } else {
            1
        },
{
}

/// A question opens with asking whether its own words may be searched for, by the
/// encyclopedia and the open provider.
pub proof fn web_turns_ask_before_they_search(
    turn_id: Seq<char>,
    plan: EvidencePlan,
    step: WebStep,
)
    requires
        turn_begins(turn_id, plan, step),
        operational(plan.intent) is WebFact,
    ensures
        step matches WebStep::AskSearch { turn, operation } && {
            &&& operation is WebSearch
            &&& operation->WebSearch_normalized_query == operational(plan.intent)->WebFact_query
            &&& operation->WebSearch_provider_set.0@ =~= seq![
                WebProvider::Wikipedia,
                WebProvider::DuckDuckGo,
            ]
            &&& turn.queue@.len() == 0
            &&& turn.seen@.len() == 0
            &&& turn.batch@.len() == 0
            &&& turn.attempts_used == 0
            &&& turn.exploration_rounds == 0
            &&& turn.operations_executed == 0
            &&& turn.approvals_denied == 0
            &&& turn.results.web_searches@.len() == 0
            &&& turn.results.web_fetches@.len() == 0
        },
{
}

/// A page that was named opens the turn without a search, queued alone.
pub proof fn named_pages_need_no_search(turn_id: Seq<char>, plan: EvidencePlan, step: WebStep)
    requires
        turn_begins(turn_id, plan, step),
        operational(plan.intent) is WebDirectPage,
    ensures
        step matches WebStep::Proceed(turn) && turn.operations_executed == 0
            && turn.approvals_denied == 0 && turn.attempts_used == 0
            && turn.results.web_searches@.len() == 0 && turn.results.web_fetches@.len() == 0
            && exists|candidate: WebCandidate|
            #![trigger prepared(Seq::<char>::empty(), seq![candidate])]
            candidate.requested_url == operational(plan.intent)->WebDirectPage_url
                && candidate.provider is Direct && candidate.rank == 1 && turn.queue@ == prepared(
                Seq::<char>::empty(),
                seq![candidate],
            ),
{
}

/// An allowed search runs with the words and providers that were asked for; a
/// denied one leaves nothing to fetch, and is counted and reported as denied.
pub proof fn searches_wait_for_their_approval(
    turn: WebTurn,
    operation: EvidenceOperation,
    allowed: bool,
    step: WebStep,
)
    requires
        search_is_decided(turn, operation, allowed, step),
        turn.approvals_denied < usize::MAX,
    ensures
        allowed ==> (step matches WebStep::RunSearch { turn: next, query, providers } && next
            == turn && operation is WebSearch && query == operation->WebSearch_normalized_query
            && providers == operation->WebSearch_provider_set),
        !allowed ==> (step matches WebStep::Proceed(next) && next.queue@.len() == 0
            && next.operations_executed == turn.operations_executed && next.approvals_denied
            == turn.approvals_denied + 1 && next.results.web_searches@.len()
            == turn.results.web_searches@.len() + 1 && next.results.web_searches@.drop_last()
            == turn.results.web_searches@ && next.results.web_searches@.last().execution is Denied
            && next.results.web_searches@.last().value is None && next.results.web_fetches
            == turn.results.web_fetches && next.attempts_used == turn.attempts_used),
{
}

/// What a search found is queued and reported in the order of the question; its
/// attempts are what ran. Nothing is queued where nothing was found.
pub proof fn found_pages_are_queued(
    plan: EvidencePlan,
    turn: WebTurn,
    search: OperationResult<WebSearchResult>,
    step: WebStep,
)
    requires
        search_is_taken(plan, turn, search, step),
        turn.operations_executed + search.attempts <= usize::MAX,
    ensures
        step matches WebStep::Proceed(next) && {
            let kept = next.results.web_searches@.last();
            &&& next.operations_executed == turn.operations_executed + search.attempts
            &&& next.approvals_denied == turn.approvals_denied
            &&& next.results.web_searches@.len() == turn.results.web_searches@.len() + 1
            &&& next.results.web_searches@.drop_last() == turn.results.web_searches@
            &&& kept.key == search.key
            &&& kept.attempts == search.attempts
            &&& kept.execution == search.execution
            &&& kept.contribution == search.contribution
            &&& kept.duration_ms == search.duration_ms
            &&& kept.invalid_items == search.invalid_items
            &&& kept.value is Some <==> search.value is Some
            &&& search.value is Some ==> kept.value->0.providers == search.value->0.providers
            &&& search.value is Some && operational(plan.intent) is WebFact
                ==> kept.value->0.candidates@ == prepared(
                operational(plan.intent)->WebFact_query@,
                search.value->0.candidates@,
            )
            &&& operational(plan.intent) is WebFact && search.value is Some ==> next.queue@
                == prepared(
                operational(plan.intent)->WebFact_query@,
                kept.value->0.candidates@,
            )
            &&& next.results.web_fetches == turn.results.web_fetches
            &&& next.seen == turn.seen
            &&& next.batch == turn.batch
            &&& next.attempts_used == turn.attempts_used
        },
{
}

/// The links that may be followed are those of the fetched pages, in the order of
/// the pages and of each page.
pub proof fn links_stand_in_page_order(
    fetches: Seq<OperationResult<WebFetchEvidence>>,
    fetch: OperationResult<WebFetchEvidence>,
)
    ensures
        all_links(Seq::empty()).len() == 0,
        fetch.value is None ==> all_links(fetches.push(fetch)) == all_links(fetches),
        fetch.value is Some ==> all_links(fetches.push(fetch)) == all_links(fetches)
            + fetch.value->0.links@,
{
    assert(fetches.push(fetch).drop_last() =~= fetches);
    if fetch.value is None {
        assert(all_links(fetches.push(fetch)) =~= all_links(fetches));
    }
}

/// A candidate made of a link goes to where the link goes, under its label; its
/// rank is its place.
pub proof fn linked_pages_are_ranked_by_place(
    references: Seq<ValidatedReference>,
    candidates: Seq<WebCandidate>,
    i: int,
)
    requires
        are_linked(references, candidates),
        0 <= i < candidates.len(),
    ensures
        candidates.len() == references.len(),
        candidates[i].requested_url == references[i].url,
        candidates[i].title == references[i].label,
        candidates[i].snippet@.len() == 0,
        candidates[i].provider is DuckDuckGo,
        i < u16::MAX ==> candidates[i].rank == i + 1,
{
    let candidate = candidates[i];
    assert(candidate == candidates[i]);
}

/// The turn goes on as long as the question is open, an attempt is left and there
/// is something to fetch: the pages of a full batch, or of the last one, are
/// fetched; otherwise the first page of the queue is taken.
pub proof fn pages_are_fetched_in_batches(
    turn_id: Seq<char>,
    plan: EvidencePlan,
    turn: WebTurn,
    step: WebStep,
)
    requires
        turn_proceeds(turn_id, plan, turn, step),
    ensures
        step is RunBatch <==> turn.batch@.len() > 0 && (turn.batch@.len() >= 2
            || plan.budget.max_parallel_fetches <= 1 || turn.attempts_used
            >= plan.budget.web_fetch_attempts || turn.queue@.len() == 0),
        step matches WebStep::RunBatch(next) ==> next == turn,
        turn.batch@.len() == 0 && (contract_met(
            operational(plan.intent),
            turn.results.web_fetches@,
        ) || turn.attempts_used >= plan.budget.web_fetch_attempts) ==> step is Finished,
        turn.batch@.len() > 0 ==> !(step is Finished),
        step is Finished && turn.queue@.len() > 0 ==> contract_met(
            operational(plan.intent),
            turn.results.web_fetches@,
        ) || turn.attempts_used >= plan.budget.web_fetch_attempts,
        step matches WebStep::Finished(outcome) ==> outcome.operations_executed
            == turn.operations_executed && outcome.approvals_denied == turn.approvals_denied,
        step matches WebStep::AskFetch { turn: next, candidate } ==> {
            let key = "web_fetch:"@ + candidate.candidate_id@;
            &&& turn.attempts_used < plan.budget.web_fetch_attempts
            &&& turn.batch@.len() <= 1
            &&& candidate == turn.queue@[0]
            &&& next.queue@ =~= turn.queue@.subrange(1, turn.queue@.len() as int)
            &&& forall|i: int| 0 <= i < turn.seen@.len() ==> (#[trigger] turn.seen@[i])@ != key
            &&& next.seen@.len() == turn.seen@.len() + 1
            &&& next.seen@.drop_last() == turn.seen@
            &&& next.seen@.last()@ == key
            &&& next.results == turn.results
            &&& next.batch == turn.batch
            &&& next.attempts_used == turn.attempts_used
            &&& next.operations_executed == turn.operations_executed
            &&& next.approvals_denied == turn.approvals_denied
        },
        step is Proceed && turn.queue@.len() > 0 ==> {
            let next = step->Proceed_0;
            let key = "web_fetch:"@ + turn.queue@[0].candidate_id@;
            let last = next.results.web_fetches@.last();
            &&& exists|i: int| 0 <= i < turn.seen@.len() && (#[trigger] turn.seen@[i])@ == key
            &&& next.queue@ =~= turn.queue@.subrange(1, turn.queue@.len() as int)
            &&& next.results.web_fetches@.drop_last() == turn.results.web_fetches@
            &&& next.results.web_fetches@.len() == turn.results.web_fetches@.len() + 1
            &&& last.key@ == key
            &&& last.attempts == 0
            &&& last.contribution is Duplicate
            &&& last.value is None
            &&& next.attempts_used == turn.attempts_used
            &&& next.operations_executed == turn.operations_executed
        },
        step is Proceed && turn.queue@.len() == 0 && turn.exploration_rounds < u8::MAX ==> {
            let next = step->Proceed_0;
            &&& turn.exploration_rounds < plan.budget.optional_exploration_rounds
            &&& next.exploration_rounds == turn.exploration_rounds + 1
            &&& next.queue@.len() > 0
            &&& next.results == turn.results
            &&& next.attempts_used == turn.attempts_used
            &&& exists|links: Seq<WebCandidate>| #[trigger]
                are_linked(all_links(turn.results.web_fetches@), links) && next.queue@ == prepared(
                    query_of(operational(plan.intent)),
                    links,
                )
        },
        operational(plan.intent) is WebFact ==> query_of(operational(plan.intent)) == operational(
            plan.intent,
        )->WebFact_query@,
{
}

/// Conflicts are looked for where the question asks for more than one source, and
/// only there; the answer is made of what the turn recorded.
pub proof fn conflicts_are_for_corroborated_questions(
    turn_id: Seq<char>,
    plan: EvidencePlan,
    turn: WebTurn,
    outcome: EvidenceTurnOutcome,
)
    requires
        ends(turn_id, plan, turn, outcome),
    ensures
        operational(plan.intent) is WebFact && operational(plan.intent)->WebFact_verification
            == VerificationLevel::Corroborated ==> exists|conflicts: Vec<EvidenceConflict>|
            are_conflicts(turn.results.web_fetches@, #[trigger] conflicts@) && validated(
                outcome.validation,
                turn_id,
                plan,
                (EvidenceResults { conflicts, ..turn.results }),
            ),
        !(operational(plan.intent) is WebFact && operational(plan.intent)->WebFact_verification
            == VerificationLevel::Corroborated) ==> validated(
            outcome.validation,
            turn_id,
            plan,
            turn.results,
        ),
{
}

/// An allowed page joins the batch, and costs an attempt; a denied one is reported
/// as denied, and costs none.
pub proof fn fetches_wait_for_their_approval(
    turn: WebTurn,
    candidate: WebCandidate,
    allowed: bool,
    step: WebStep,
)
    requires
        fetch_is_decided(turn, candidate, allowed, step),
        turn.operations_executed < usize::MAX,
        turn.approvals_denied < usize::MAX,
        turn.attempts_used < u8::MAX,
    ensures
        step is Proceed,
        allowed ==> (step matches WebStep::Proceed(next) && next.batch@ =~= turn.batch@ + seq![
            candidate,
        ] && next.done@.len() == turn.done@.len() + 1 && next.done@.last() is None
            && next.attempts_used == turn.attempts_used + 1 && next.operations_executed
            == turn.operations_executed + 1 && next.approvals_denied == turn.approvals_denied
            && next.results == turn.results && next.queue == turn.queue && next.seen == turn.seen),
        !allowed ==> (step matches WebStep::Proceed(next) && next.batch == turn.batch
            && next.attempts_used == turn.attempts_used && next.operations_executed
            == turn.operations_executed && next.approvals_denied == turn.approvals_denied + 1
            && next.results.web_fetches@.len() == turn.results.web_fetches@.len() + 1
            && next.results.web_fetches@.drop_last() == turn.results.web_fetches@
            && next.results.web_fetches@.last().key@ == "web_fetch:"@ + candidate.candidate_id@
            && next.results.web_fetches@.last().execution is Denied
            && next.results.web_fetches@.last().value is None && next.queue == turn.queue
            && next.seen == turn.seen),
{
}

/// A page that repeats an earlier one is recorded as a duplicate and otherwise as
/// it is: one at the same address, and, where one authoritative source is asked
/// for, one of the same publisher.
pub proof fn repeated_pages_are_recorded_as_duplicates(
    intent: EvidenceIntent,
    fetches: Seq<OperationResult<WebFetchEvidence>>,
    result: OperationResult<WebFetchEvidence>,
)
    ensures
        ({
            let kept = recorded(intent, fetches, result);
            let single = intent is WebFact && intent->WebFact_verification
                == VerificationLevel::SingleAuthoritative;
            &&& kept.key == result.key
            &&& kept.attempts == result.attempts
            &&& kept.execution == result.execution
            &&& kept.value == result.value
            &&& kept.duration_ms == result.duration_ms
            &&& kept.invalid_items == result.invalid_items
            &&& result.value is None ==> kept == result
            &&& result.value is Some && (exists|i: int|
                #![trigger fetches[i]]
                0 <= i < fetches.len() && fetches[i].value is Some && (
                fetches[i].value->0.final_url.text@ == result.value->0.final_url.text@ || single
                    && fetches[i].value->0.source_identity@ == result.value->0.source_identity@))
                ==> kept.contribution is Duplicate
            &&& (forall|i: int|
                #![trigger fetches[i]]
                0 <= i < fetches.len() && fetches[i].value is Some ==> result.value is Some
                    && fetches[i].value->0.final_url.text@ != result.value->0.final_url.text@ && !(
                single && fetches[i].value->0.source_identity@
                    == result.value->0.source_identity@)) ==> kept == result
        }),
{
    if let Some(evidence) = result.value {
        assert forall|i: int| 0 <= i < fetches.len() implies (crate::web_plan::repeats_page(
            intent,
            #[trigger] fetches[i],
            evidence,
        ) <==> fetches[i].value is Some && (fetches[i].value->0.final_url.text@
            == evidence.final_url.text@ || crate::web_plan::is_single(intent)
            && fetches[i].value->0.source_identity@ == evidence.source_identity@)) by {}
    }
}

/// The pages of a batch are recorded in the order of the batch, after those that
/// were recorded before.
pub proof fn batches_are_recorded_in_order(
    intent: EvidenceIntent,
    fetches: Seq<OperationResult<WebFetchEvidence>>,
    done: Seq<Option<OperationResult<WebFetchEvidence>>>,
    result: OperationResult<WebFetchEvidence>,
)
    ensures
        settled(intent, fetches, Seq::empty()) == fetches,
        settled(intent, fetches, done.push(Some(result))).drop_last() == settled(
            intent,
            fetches,
            done,
        ),
        settled(intent, fetches, done.push(Some(result))).last() == recorded(
            intent,
            settled(intent, fetches, done),
            result,
        ),
        settled(intent, fetches, done.push(Some(result))).len() == settled(
            intent,
            fetches,
            done,
        ).len() + 1,
{
    assert(done.push(Some(result)).drop_last() =~= done);
    assert(settled(intent, fetches, done.push(Some(result))).drop_last() =~= settled(
        intent,
        fetches,
        done,
    ));
}

/// A batch is recorded, and emptied, when the last of its results is there; until
/// then the turn waits with the result in its place.
pub proof fn batches_wait_for_their_last_page(
    plan: EvidencePlan,
    turn: WebTurn,
    place: int,
    result: OperationResult<WebFetchEvidence>,
    step: WebStep,
)
    requires
        result_is_kept(plan, turn, place, result, step),
        0 <= place < turn.done@.len(),
    ensures
        step is Proceed <==> forall|i: int|
            0 <= i < turn.done@.len() && i != place ==> (#[trigger] turn.done@[i]) is Some,
        step is Proceed || step is Await,
        step matches WebStep::Proceed(next) ==> {
            &&& next.batch@.len() == 0
            &&& next.done@.len() == 0
            &&& next.results.web_fetches@ == settled(
                operational(plan.intent),
                turn.results.web_fetches@,
                turn.done@.update(place, Some(result)),
            )
            &&& next.results.web_searches == turn.results.web_searches
            &&& next.attempts_used == turn.attempts_used
            &&& next.queue == turn.queue
            &&& next.seen == turn.seen
        },
        step matches WebStep::Await(next) ==> {
            &&& next.done@[place] == Some(result)
            &&& forall|i: int|
                0 <= i < turn.done@.len() && i != place ==> next.done@[i] == #[trigger] turn.done@[i]
            &&& next.batch == turn.batch
            &&& next.results == turn.results
            &&& next.attempts_used == turn.attempts_used
        },
{
    let done = turn.done@.update(place, Some(result));
    if forall|i: int|
        0 <= i < turn.done@.len() && i != place ==> (#[trigger] turn.done@[i]) is Some {
        assert forall|i: int| 0 <= i < done.len() implies (#[trigger] done[i]) is Some by {
            if i != place {
                assert(done[i] == turn.done@[i]);
            }
        }
    }
    if crate::web_plan::all_done(done) {
        assert forall|i: int| 0 <= i < turn.done@.len() && i != place implies (
        #[trigger] turn.done@[i]) is Some by {
            assert(done[i] is Some);
        }
    }
}

/// A page is asked for again exactly after a fault that may pass by itself, once,
/// where an attempt is left.
pub proof fn passing_faults_are_asked_again(
    plan: EvidencePlan,
    turn: WebTurn,
    place: int,
    result: OperationResult<WebFetchEvidence>,
    step: WebStep,
)
    requires
        fetch_is_taken(plan, turn, place, result, step),
    ensures
        exists|judged: OperationResult<WebFetchEvidence>|
            {
                &&& #[trigger] is_judged(
                    operational(plan.intent),
                    turn.batch@[place],
                    result,
                    judged,
                )
                &&& step is AskRetry <==> turn.attempts_used < plan.budget.web_fetch_attempts
                    && judged.attempts <= 1 && (judged.execution is TimedOut || (
                judged.execution matches ExecutionStatus::Failed(failure) && (
                failure is ConnectionReset || failure is RateLimited || failure is Http5xx)))
                &&& step matches WebStep::AskRetry { turn: next, place: at, first } ==> next == turn
                    && at == place && first == judged
                &&& !(step is AskRetry) ==> result_is_kept(plan, turn, place, judged, step)
            },
{
}

/// An allowed second fetch costs an attempt and runs; a denied one keeps what the
/// first came to.
pub proof fn second_fetches_wait_for_their_approval(
    plan: EvidencePlan,
    turn: WebTurn,
    place: int,
    first: OperationResult<WebFetchEvidence>,
    allowed: bool,
    step: WebStep,
)
    requires
        retry_is_decided(plan, turn, place, first, allowed, step),
        turn.operations_executed < usize::MAX,
        turn.approvals_denied < usize::MAX,
        turn.attempts_used < u8::MAX,
    ensures
        allowed ==> (step matches WebStep::RunRetry { turn: next, place: at, first: kept } && at
            == place && kept == first && next.attempts_used == turn.attempts_used + 1
            && next.operations_executed == turn.operations_executed + 1 && next.approvals_denied
            == turn.approvals_denied && next.batch == turn.batch && next.results == turn.results),
        !allowed ==> !(step is RunRetry),
        !allowed ==> (step matches WebStep::Proceed(next) ==> next.approvals_denied
            == turn.approvals_denied + 1 && next.attempts_used == turn.attempts_used
            && next.operations_executed == turn.operations_executed),
        !allowed ==> (step matches WebStep::Await(next) ==> next.approvals_denied
            == turn.approvals_denied + 1 && next.done@ == turn.done@.update(place, Some(first))),
{
}

} // verus!
