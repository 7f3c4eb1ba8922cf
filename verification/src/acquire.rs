//! The steps of acquiring web evidence for a plan without asking the policy: the
//! pages of a search are fetched as places become free, within the budget.

use crate::ranking::{
    deduplicate_candidates, deduplicated, direct_web_candidate, is_direct_candidate, providers_for,
    web_provider_set,
};
use crate::selection::{saturating_u64, saturating_u8};
use crate::types::{
    clone_candidates, operational, transient, CandidateId, EvidenceContribution, EvidenceIntent,
    EvidencePlan, EvidenceResults, ExecutionStatus, OperationResult, ProviderSet, WebCandidate,
    WebFetchEvidence, WebSearchResult,
};
use crate::web_plan::{no_results, parallel};
use crate::weburl::{normalized_url_string, normalized_url_text};
use vstd::prelude::*;

verus! {

/// An acquisition between two steps.
#[derive(Debug, PartialEq, Eq)]
pub struct Acquisition {
    pub searches: Vec<OperationResult<WebSearchResult>>,
    pub queue: Vec<WebCandidate>,
    /// The candidates whose fetch was started, in that order.
    pub order: Vec<CandidateId>,
    /// The candidates that are being fetched.
    pub running: Vec<WebCandidate>,
    pub attempts_used: u8,
    pub completed: Vec<(CandidateId, OperationResult<WebFetchEvidence>)>,
}

impl Acquisition {
    /// The attempts stay within the budget, and no more pages are fetched at a
    /// time than may be.
    pub open spec fn well_formed(&self, plan: EvidencePlan) -> bool {
        &&& self.attempts_used <= plan.budget.web_fetch_attempts
        &&& self.running@.len() <= parallel(plan.budget.max_parallel_fetches)
    }
}

/// What an acquisition does next.
#[derive(Debug, PartialEq, Eq)]
pub enum AcquireStep {
    /// Search for this with these providers.
    Search { query: String, providers: ProviderSet },
    /// Take the next step.
    Proceed(Acquisition),
    /// Begin to fetch the last of the running candidates.
    Start(Acquisition),
    /// Wait for one of the running candidates.
    Await(Acquisition),
    /// Fetch the candidate again.
    Retry {
        turn: Acquisition,
        candidate: WebCandidate,
        first: OperationResult<WebFetchEvidence>,
    },
    Finished(EvidenceResults),
}

pub open spec fn begins_with(
    turn: Acquisition,
    searches: Seq<OperationResult<WebSearchResult>>,
    candidates: Seq<WebCandidate>,
) -> bool {
    &&& turn.searches@ == searches
    &&& turn.queue@ == deduplicated(candidates)
    &&& turn.order@.len() == 0
    &&& turn.running@.len() == 0
    &&& turn.attempts_used == 0
    &&& turn.completed@.len() == 0
}

/// The first step: a page that was named is fetched, a question is searched
/// for, and any other intent has no web evidence.
pub open spec fn acquisition_begins(
    plan: EvidencePlan,
    tavily_configured: bool,
    step: AcquireStep,
) -> bool {
    match operational(plan.intent) {
        EvidenceIntent::WebDirectPage { url } => {
            &&& step matches AcquireStep::Proceed(turn)
            &&& exists|candidate: WebCandidate| #[trigger]
                is_direct_candidate(candidate, url) && begins_with(
                    turn,
                    Seq::empty(),
                    seq![candidate],
                )
        },
        EvidenceIntent::WebFact { query: asked, .. } => {
            &&& step matches AcquireStep::Search { query, providers }
            &&& query@ == asked@
            &&& providers.0@ == providers_for(tavily_configured)
        },
        _ => step matches AcquireStep::Finished(results) && no_results(results),
    }
}

fn begin(searches: Vec<OperationResult<WebSearchResult>>, candidates: Vec<WebCandidate>) -> (r:
    Acquisition)
    ensures
        begins_with(r, searches@, candidates@),
{
    let mut queue = candidates;
    deduplicate_candidates(&mut queue);
    Acquisition {
        searches,
        queue,
        order: Vec::new(),
        running: Vec::new(),
        attempts_used: 0,
        completed: Vec::new(),
    }
}

pub fn start_acquisition(plan: &EvidencePlan, tavily_configured: bool) -> (r: AcquireStep)
    ensures
        acquisition_begins(*plan, tavily_configured, r),
        r matches AcquireStep::Proceed(turn) ==> turn.well_formed(*plan),
{
    let intent: &EvidenceIntent = match &plan.intent {
        EvidenceIntent::AnalyzeQuotedEvidence { intent } => &**intent,
        _ => &plan.intent,
    };
    match intent {
        EvidenceIntent::WebDirectPage { url } => {
            let candidate = direct_web_candidate(url);
            let ghost named = candidate;
            let mut candidates: Vec<WebCandidate> = Vec::new();
            candidates.push(candidate);
            let searches: Vec<OperationResult<WebSearchResult>> = Vec::new();
            proof {
                assert(candidates@ =~= seq![named]);
                assert(searches@ =~= Seq::empty());
                assert(is_direct_candidate(named, *url));
            }
            AcquireStep::Proceed(begin(searches, candidates))
        },
        EvidenceIntent::WebFact { query, .. } => AcquireStep::Search {
            query: query.clone(),
            providers: web_provider_set(tavily_configured),
        },
        _ => AcquireStep::Finished(EvidenceResults::none()),
    }
}

pub open spec fn found_in(search: OperationResult<WebSearchResult>) -> Seq<WebCandidate> {
    match search.value {
        Some(found) => found.candidates@,
        None => Seq::empty(),
    }
}

/// The acquisition goes on with what a search found.
pub fn acquisition_searched(plan: &EvidencePlan, search: OperationResult<WebSearchResult>) -> (r:
    AcquireStep)
    ensures
        r matches AcquireStep::Proceed(turn) && begins_with(
            turn,
            seq![search],
            found_in(search),
        ) && turn.well_formed(*plan),
{
    let candidates: Vec<WebCandidate> = match &search.value {
        Some(found) => clone_candidates(&found.candidates),
        None => Vec::new(),
    };
    proof {
        assert(candidates@ =~= found_in(search));
    }
    let mut searches: Vec<OperationResult<WebSearchResult>> = Vec::new();
    let ghost kept = search;
    searches.push(search);
    proof {
        assert(searches@ =~= seq![kept]);
    }
    AcquireStep::Proceed(begin(searches, candidates))
}

pub open spec fn was_started(order: Seq<CandidateId>, id: Seq<char>) -> bool {
    exists|i: int| 0 <= i < order.len() && (#[trigger] order[i])@ == id
}

fn knows_candidate(order: &Vec<CandidateId>, id: &CandidateId) -> (r: bool)
    ensures
        r == was_started(order@, id@),
{
    let mut i: usize = 0;
    while i < order.len()
        invariant
            i <= order@.len(),
            forall|k: int| 0 <= k < i ==> (#[trigger] order@[k])@ != id@,
        decreases order@.len() - i,
    {
        if order[i].same(id) {
            return true;
        }
        i = i + 1;
    }
    false
}

/// The first result of a candidate.
pub open spec fn result_of(
    completed: Seq<(CandidateId, OperationResult<WebFetchEvidence>)>,
    id: Seq<char>,
) -> Option<OperationResult<WebFetchEvidence>>
    decreases completed.len(),
{
    if completed.len() == 0 {
        None
    } else if completed[0].0@ == id {
        Some(completed[0].1)
    } else {
        result_of(completed.drop_first(), id)
    }
}

/// A page that was reached before under the same address.
pub open spec fn reached_before(
    fetches: Seq<OperationResult<WebFetchEvidence>>,
    address: Seq<char>,
) -> bool {
    exists|i: int| 0 <= i < fetches.len() && reached(#[trigger] fetches[i], address)
}

pub open spec fn reached(fetch: OperationResult<WebFetchEvidence>, address: Seq<char>) -> bool {
    match fetch.value {
        Some(evidence) => fetch.execution is Succeeded && normalized_url_text(evidence.final_url)
            == address,
        None => false,
    }
}

pub open spec fn marked(
    fetches: Seq<OperationResult<WebFetchEvidence>>,
    result: OperationResult<WebFetchEvidence>,
) -> OperationResult<WebFetchEvidence> {
    match result.value {
        Some(evidence) => if result.execution is Succeeded && reached_before(
            fetches,
            normalized_url_text(evidence.final_url),
        ) {
            OperationResult { contribution: EvidenceContribution::Duplicate, ..result }
        } else {
            result
        },
        None => result,
    }
}

/// The results in the order in which the fetches were started, a page that was
/// reached twice marked as a duplicate.
pub open spec fn assembled(
    order: Seq<CandidateId>,
    completed: Seq<(CandidateId, OperationResult<WebFetchEvidence>)>,
) -> Seq<OperationResult<WebFetchEvidence>>
    decreases order.len(),
{
    if order.len() == 0 {
        Seq::empty()
    } else {
        let before = assembled(order.drop_last(), completed);
        match result_of(completed, order.last()@) {
            Some(result) => before.push(marked(before, result)),
            None => before,
        }
    }
}

fn is_reached_before(fetches: &Vec<OperationResult<WebFetchEvidence>>, address: &str) -> (r: bool)
    ensures
        r == reached_before(fetches@, address@),
{
    let mut i: usize = 0;
    while i < fetches.len()
        invariant
            i <= fetches@.len(),
            forall|k: int| 0 <= k < i ==> !reached(#[trigger] fetches@[k], address@),
        decreases fetches@.len() - i,
    {
        match (&fetches[i].execution, &fetches[i].value) {
            (ExecutionStatus::Succeeded, Some(evidence)) => {
                let normal = normalized_url_string(&evidence.final_url);
                if crate::text::same(normal.as_str(), address) {
                    assert(reached(fetches@[i as int], address@));
                    return true;
                }
            },
            _ => {},
        }
        i = i + 1;
    }
    false
}

fn take_result(
    completed: &mut Vec<(CandidateId, OperationResult<WebFetchEvidence>)>,
    id: &CandidateId,
) -> (r: Option<OperationResult<WebFetchEvidence>>)
    ensures
        match r {
            Some(result) => result_of(old(completed)@, id@) == Some(result),
            None => result_of(old(completed)@, id@) is None,
        },
        forall|other: Seq<char>|
            other != id@ ==> result_of(final(completed)@, other) == #[trigger] result_of(
                old(completed)@,
                other,
            ),
{
    let ghost start = completed@;
    let mut i: usize = 0;
    proof {
        assert(start.skip(0) =~= start);
    }
    while i < completed.len()
        invariant
            i <= completed@.len(),
            completed@ == start,
            start == old(completed)@,
            result_of(start, id@) == result_of(start.skip(i as int), id@),
            forall|k: int| 0 <= k < i ==> (#[trigger] start[k]).0@ != id@,
        decreases completed@.len() - i,
    {
        proof {
            let rest = start.skip(i as int);
            assert(rest[0] == start[i as int]);
            assert(rest.drop_first() =~= start.skip(i as int + 1));
        }
        if completed[i].0.same(id) {
            let entry = completed.remove(i);
            proof {
                assert forall|other: Seq<char>| other != id@ implies result_of(completed@, other)
                    == #[trigger] result_of(start, other) by {
                    lemma_removal(start, i as int, other);
                    assert(completed@ =~= start.remove(i as int));
                }
            }
            return Some(entry.1);
        }
        i = i + 1;
    }
    None
}

proof fn lemma_removal(
    list: Seq<(CandidateId, OperationResult<WebFetchEvidence>)>,
    i: int,
    other: Seq<char>,
)
    requires
        0 <= i < list.len(),
        list[i].0@ != other,
    ensures
        result_of(list.remove(i), other) == result_of(list, other),
    decreases list.len(),
{
    if i == 0 {
        assert(list.remove(0) =~= list.drop_first());
    } else {
        assert(list.remove(i)[0] == list[0]);
        assert(list.remove(i).drop_first() =~= list.drop_first().remove(i - 1));
        lemma_removal(list.drop_first(), i - 1, other);
    }
}

/// No candidate was started twice.
pub open spec fn started_once(order: Seq<CandidateId>) -> bool {
    forall|i: int, j: int| 0 <= i < j < order.len() ==> (#[trigger] order[i])@ != (
    #[trigger] order[j])@
}

fn assemble(
    order: &Vec<CandidateId>,
    completed: Vec<(CandidateId, OperationResult<WebFetchEvidence>)>,
) -> (r: Vec<OperationResult<WebFetchEvidence>>)
    requires
        started_once(order@),
    ensures
        r@ == assembled(order@, completed@),
{
    let ghost all = completed@;
    let mut rest = completed;
    let mut out: Vec<OperationResult<WebFetchEvidence>> = Vec::new();
    let mut i: usize = 0;
    proof {
        assert(order@.take(0) =~= Seq::empty());
        assert(out@ =~= Seq::empty());
    }
    while i < order.len()
        invariant
            i <= order@.len(),
            started_once(order@),
            out@ == assembled(order@.take(i as int), all),
            forall|k: int|
                i <= k < order@.len() ==> result_of(rest@, (#[trigger] order@[k])@) == result_of(
                    all,
                    order@[k]@,
                ),
        decreases order@.len() - i,
    {
        proof {
            let next = order@.take(i as int + 1);
            assert(next.drop_last() =~= order@.take(i as int));
            assert(next.last() == order@[i as int]);
        }
        let ghost earlier = rest@;
        let found = take_result(&mut rest, &order[i]);
        proof {
            assert forall|k: int| i + 1 <= k < order@.len() implies result_of(
                rest@,
                (#[trigger] order@[k])@,
            ) == result_of(all, order@[k]@) by {
                assert(order@[i as int]@ != order@[k]@);
                assert(result_of(earlier, order@[k]@) == result_of(all, order@[k]@));
            }
        }
        if let Some(mut result) = found {
            let repeated = match (&result.execution, &result.value) {
                (ExecutionStatus::Succeeded, Some(evidence)) => {
                    let normal = normalized_url_string(&evidence.final_url);
                    is_reached_before(&out, normal.as_str())
                },
                _ => false,
            };
            if repeated {
                result.contribution = EvidenceContribution::Duplicate;
            }
            out.push(result);
        }
        i = i + 1;
    }
    proof {
        assert(order@.take(order@.len() as int) =~= order@);
    }
    out
}

/// All that was acquired.
pub open spec fn acquired(turn: Acquisition, results: EvidenceResults) -> bool {
    &&& results.mail_list@.len() == 0
    &&& results.mail_search@.len() == 0
    &&& results.mail_bodies@.len() == 0
    &&& results.conflicts@.len() == 0
    &&& results.web_searches == turn.searches
    &&& results.web_fetches@ == assembled(turn.order@, turn.completed@)
}

/// What an acquisition does next: it starts a fetch while a place and an attempt
/// are free, waits for the running ones, and ends when there are none.
pub open spec fn acquisition_proceeds(
    plan: EvidencePlan,
    turn: Acquisition,
    step: AcquireStep,
) -> bool {
    if turn.running@.len() < parallel(plan.budget.max_parallel_fetches) && turn.attempts_used
        < plan.budget.web_fetch_attempts && turn.queue@.len() > 0 {
        let candidate = turn.queue@[0];
        if was_started(turn.order@, candidate.candidate_id@) {
            &&& step matches AcquireStep::Proceed(next)
            &&& next.queue@ == turn.queue@.drop_first()
            &&& next == (Acquisition { queue: next.queue, ..turn })
        } else {
            &&& step matches AcquireStep::Start(next)
            &&& next.queue@ == turn.queue@.drop_first()
            &&& next.order@ == turn.order@.push(candidate.candidate_id)
            &&& next.running@ == turn.running@.push(candidate)
            &&& next == (Acquisition {
                queue: next.queue,
                order: next.order,
                running: next.running,
                attempts_used: (turn.attempts_used + 1) as u8,
                ..turn
            })
        }
    } else if turn.running@.len() == 0 {
        step matches AcquireStep::Finished(results) && acquired(turn, results)
    } else {
        step matches AcquireStep::Await(next) && next == turn
    }
}

pub fn proceed_acquisition(plan: &EvidencePlan, turn: Acquisition) -> (r: AcquireStep)
    requires
        turn.well_formed(*plan),
        started_once(turn.order@),
    ensures
        acquisition_proceeds(*plan, turn, r),
        match r {
            AcquireStep::Proceed(next) => next.well_formed(*plan) && started_once(next.order@),
            AcquireStep::Start(next) => next.well_formed(*plan) && started_once(next.order@),
            AcquireStep::Await(next) => next.well_formed(*plan) && started_once(next.order@),
            _ => true,
        },
{
    let limit: usize = if plan.budget.max_parallel_fetches < 2 {
        1
    } else {
        2
    };
    if turn.running.len() < limit && turn.attempts_used < plan.budget.web_fetch_attempts
        && turn.queue.len() > 0 {
        let ghost was = turn;
        let mut next = turn;
        let candidate = next.queue.remove(0);
        proof {
            assert(next.queue@ =~= was.queue@.drop_first());
        }
        if knows_candidate(&next.order, &candidate.candidate_id) {
            return AcquireStep::Proceed(next);
        }
        next.attempts_used = next.attempts_used + 1;
        next.order.push(candidate.candidate_id.clone());
        next.running.push(candidate);
        proof {
            assert forall|i: int, j: int| 0 <= i < j < next.order@.len() implies (
            #[trigger] next.order@[i])@ != (#[trigger] next.order@[j])@ by {
                assert(next.order@[i] == was.order@[i]);
                if j < was.order@.len() {
                    assert(next.order@[j] == was.order@[j]);
                }
            }
        }
        return AcquireStep::Start(next);
    }
    if turn.running.len() == 0 {
        let mut results = EvidenceResults::none();
        results.web_searches = turn.searches;
        results.web_fetches = assemble(&turn.order, turn.completed);
        return AcquireStep::Finished(results);
    }
    AcquireStep::Await(turn)
}

/// What follows a fetch that ended: it is tried once more where its failure may
/// pass and an attempt is left, else its result stands.
pub open spec fn fetch_ends(
    plan: EvidencePlan,
    turn: Acquisition,
    place: int,
    result: OperationResult<WebFetchEvidence>,
    step: AcquireStep,
) -> bool {
    let candidate = turn.running@[place];
    if transient(result.execution) && turn.attempts_used < plan.budget.web_fetch_attempts
        && result.attempts < 2 {
        &&& step matches AcquireStep::Retry { turn: next, candidate: again, first }
        &&& again == candidate
        &&& first == result
        &&& next.running@ == turn.running@.remove(place)
        &&& next == (Acquisition {
            running: next.running,
            attempts_used: (turn.attempts_used + 1) as u8,
            ..turn
        })
    } else {
        &&& step matches AcquireStep::Proceed(next)
        &&& next.running@ == turn.running@.remove(place)
        &&& next.completed@ == turn.completed@.push((candidate.candidate_id, result))
        &&& next == (Acquisition { running: next.running, completed: next.completed, ..turn })
    }
}

pub fn acquisition_fetched(
    plan: &EvidencePlan,
    turn: Acquisition,
    place: usize,
    result: OperationResult<WebFetchEvidence>,
) -> (r: AcquireStep)
    requires
        turn.well_formed(*plan),
        place < turn.running@.len(),
    ensures
        fetch_ends(*plan, turn, place as int, result, r),
        match r {
            AcquireStep::Proceed(next) => next.well_formed(*plan) && next.order == turn.order,
            AcquireStep::Retry { turn: next, .. } => next.well_formed(*plan) && next.order
                == turn.order,
            _ => true,
        },
{
    let mut next = turn;
    let candidate = next.running.remove(place);
    if result.execution.retryable() && next.attempts_used < plan.budget.web_fetch_attempts
        && result.attempts < 2 {
        next.attempts_used = next.attempts_used + 1;
        return AcquireStep::Retry { turn: next, candidate, first: result };
    }
    next.completed.push((candidate.candidate_id, result));
    AcquireStep::Proceed(next)
}

/// The outcome of a second try, with the effort of both.
pub open spec fn tried_again(
    first: OperationResult<WebFetchEvidence>,
    retry: OperationResult<WebFetchEvidence>,
) -> OperationResult<WebFetchEvidence> {
    OperationResult {
        attempts: saturating_u8(first.attempts, retry.attempts),
        execution: retry.execution,
        contribution: retry.contribution,
        value: retry.value,
        duration_ms: saturating_u64(first.duration_ms, retry.duration_ms),
        ..first
    }
}

pub fn acquisition_retried(
    turn: Acquisition,
    candidate: WebCandidate,
    first: OperationResult<WebFetchEvidence>,
    retry: OperationResult<WebFetchEvidence>,
) -> (r: AcquireStep)
    ensures
        r matches AcquireStep::Proceed(next) && next.completed@ == turn.completed@.push(
            (candidate.candidate_id, tried_again(first, retry)),
        ) && next == (Acquisition { completed: next.completed, ..turn }),
{
    let mut next = turn;
    let mut result = first;
    result.attempts = result.attempts.saturating_add(retry.attempts);
    result.duration_ms = result.duration_ms.saturating_add(retry.duration_ms);
    result.execution = retry.execution;
    result.contribution = retry.contribution;
    result.value = retry.value;
    next.completed.push((candidate.candidate_id, result));
    AcquireStep::Proceed(next)
}

/// An acquisition never spends more attempts than its budget has, and never
/// fetches more than two pages at a time.
pub proof fn acquisitions_stay_within_the_budget(
    plan: EvidencePlan,
    turn: Acquisition,
    step: AcquireStep,
)
    requires
        turn.well_formed(plan),
        acquisition_proceeds(plan, turn, step),
        step is Start,
    ensures
        step->Start_0.attempts_used <= plan.budget.web_fetch_attempts,
        step->Start_0.running@.len() <= 2,
{
}

} // verus!
