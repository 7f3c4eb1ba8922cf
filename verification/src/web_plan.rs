//! The steps of a turn that is grounded in the web: every search and fetch is
//! admitted immediately before it runs, and the budget of the plan is kept.

use crate::conflicts::{are_conflicts, contract_met, detect_web_conflicts, web_contract_satisfied};
use crate::gate::{denied_result, is_denied_result};
use crate::ranking::{
    direct_web_candidate, is_direct_candidate, is_linked_candidate, linked_web_candidate,
    prepare_web_candidates, prepared, providers_for, web_provider_set,
};
use crate::selection::{
    apply_passage_selection, apply_ranked_authority, merge_retry, merged, selection_applies,
    with_ranked_authority,
};
use crate::types::{
    clone_candidates, operation_key, operational, quoted_once, transient, EvidenceConflict,
    EvidenceContribution, EvidenceIntent, EvidenceOperation, EvidencePlan, EvidenceResults,
    OperationKey, OperationResult, ProviderSet, ValidatedReference, ValidationOutcome,
    VerificationLevel, WebCandidate, WebFetchEvidence, WebSearchResult,
};
use crate::validator::{validated, EvidenceValidator};
use vstd::prelude::*;

verus! {

/// What a turn that needed evidence came to.
#[derive(Debug, PartialEq, Eq)]
pub struct EvidenceTurnOutcome {
    pub validation: ValidationOutcome,
    pub operations_executed: usize,
    pub approvals_denied: usize,
}

/// A turn between two steps.
#[derive(Debug, PartialEq, Eq)]
pub struct WebTurn {
    /// What may be fetched next.
    pub queue: Vec<WebCandidate>,
    /// The keys of the fetches that were asked for.
    pub seen: Vec<OperationKey>,
    pub attempts_used: u8,
    pub exploration_rounds: u8,
    pub operations_executed: usize,
    pub approvals_denied: usize,
    pub results: EvidenceResults,
    /// The pages that are fetched together.
    pub batch: Vec<WebCandidate>,
    /// What came of the pages of the batch, as far as it is known.
    pub done: Vec<Option<OperationResult<WebFetchEvidence>>>,
}

impl WebTurn {
    /// The attempts stay within the budget, no more pages are fetched together
    /// than may be, and every page of the batch has a place for its result.
    pub open spec fn well_formed(&self, plan: EvidencePlan) -> bool {
        &&& self.attempts_used <= plan.budget.web_fetch_attempts
        &&& self.batch@.len() <= parallel(plan.budget.max_parallel_fetches)
        &&& self.done@.len() == self.batch@.len()
    }
}

/// What a turn does next.
#[derive(Debug, PartialEq, Eq)]
pub enum WebStep {
    /// Ask whether the search may run.
    AskSearch { turn: WebTurn, operation: EvidenceOperation },
    /// Search for this with these providers.
    RunSearch { turn: WebTurn, query: String, providers: ProviderSet },
    /// Take the next step of the turn.
    Proceed(WebTurn),
    /// Ask whether the page may be fetched.
    AskFetch { turn: WebTurn, candidate: WebCandidate },
    /// Fetch the pages of the batch.
    RunBatch(WebTurn),
    /// Wait for the other pages of the batch.
    Await(WebTurn),
    /// Ask whether a page of the batch may be fetched again.
    AskRetry { turn: WebTurn, place: usize, first: OperationResult<WebFetchEvidence> },
    /// Fetch a page of the batch again.
    RunRetry { turn: WebTurn, place: usize, first: OperationResult<WebFetchEvidence> },
    Finished(EvidenceTurnOutcome),
}

/// One or two pages are fetched at a time.
pub open spec fn parallel(limit: u8) -> int {
    if limit < 1 {
        1
    } else if limit > 2 {
        2
    } else {
        limit as int
    }
}

fn parallel_fetches(limit: u8) -> (r: usize)
    ensures
        r == parallel(limit),
        1 <= r <= 2,
{
    if limit < 1 {
        1
    } else if limit > 2 {
        2
    } else {
        limit as usize
    }
}

/// The question of an intent, empty for a page that is named by its address.
pub open spec fn query_of(intent: EvidenceIntent) -> Seq<char> {
    match intent {
        EvidenceIntent::WebFact { query, .. } => query@,
        _ => Seq::empty(),
    }
}

fn query_text(intent: &EvidenceIntent) -> (r: String)
    ensures
        r@ == query_of(*intent),
{
    match intent {
        EvidenceIntent::WebFact { query, .. } => query.clone(),
        _ => {
            let empty: Vec<char> = Vec::new();
            proof {
                assert(empty@ =~= Seq::empty());
            }
            crate::text::string_of(&empty)
        },
    }
}

fn operational_intent(plan: &EvidencePlan) -> (r: &EvidenceIntent)
    ensures
        *r == operational(plan.intent),
{
    match &plan.intent {
        EvidenceIntent::AnalyzeQuotedEvidence { intent } => &**intent,
        _ => &plan.intent,
    }
}

pub open spec fn no_results(results: EvidenceResults) -> bool {
    &&& results.mail_list@.len() == 0
    &&& results.mail_search@.len() == 0
    &&& results.mail_bodies@.len() == 0
    &&& results.web_searches@.len() == 0
    &&& results.web_fetches@.len() == 0
    &&& results.conflicts@.len() == 0
}

/// A turn in which nothing was done yet.
pub open spec fn is_fresh(turn: WebTurn) -> bool {
    &&& turn.seen@.len() == 0
    &&& turn.attempts_used == 0
    &&& turn.exploration_rounds == 0
    &&& turn.operations_executed == 0
    &&& turn.approvals_denied == 0
    &&& no_results(turn.results)
    &&& turn.batch@.len() == 0
    &&& turn.done@.len() == 0
}

pub open spec fn is_corroborated(intent: EvidenceIntent) -> bool {
    match intent {
        EvidenceIntent::WebFact { verification, .. } => verification
            == VerificationLevel::Corroborated,
        _ => false,
    }
}

pub open spec fn is_single(intent: EvidenceIntent) -> bool {
    match intent {
        EvidenceIntent::WebFact { verification, .. } => verification
            == VerificationLevel::SingleAuthoritative,
        _ => false,
    }
}

/// The end of a turn: the conflicts of a corroborated question are found, and
/// all that was fetched is validated.
pub open spec fn ends(
    turn_id: Seq<char>,
    plan: EvidencePlan,
    turn: WebTurn,
    outcome: EvidenceTurnOutcome,
) -> bool {
    &&& outcome.operations_executed == turn.operations_executed
    &&& outcome.approvals_denied == turn.approvals_denied
    &&& if is_corroborated(operational(plan.intent)) {
        exists|conflicts: Vec<EvidenceConflict>|
            are_conflicts(turn.results.web_fetches@, #[trigger] conflicts@) && validated(
                outcome.validation,
                turn_id,
                plan,
                (EvidenceResults { conflicts, ..turn.results }),
            )
    } else {
        validated(outcome.validation, turn_id, plan, turn.results)
    }
}

fn finish(turn_id: &str, plan: &EvidencePlan, turn: WebTurn) -> (r: EvidenceTurnOutcome)
    requires
        quoted_once(plan.intent),
    ensures
        ends(turn_id@, *plan, turn, r),
{
    let ghost was = turn;
    let mut results = turn.results;
    let corroborated = match operational_intent(plan) {
        EvidenceIntent::WebFact { verification, .. } => matches!(verification, VerificationLevel::Corroborated),
        _ => false,
    };
    if corroborated {
        results.conflicts = detect_web_conflicts(&results.web_fetches);
    }
    let ghost conflicts = results.conflicts;
    proof {
        if corroborated {
            assert(are_conflicts(was.results.web_fetches@, conflicts@));
            assert(results == (EvidenceResults { conflicts, ..was.results }));
        }
    }
    EvidenceTurnOutcome {
        validation: EvidenceValidator::validate(turn_id, plan, results),
        operations_executed: turn.operations_executed,
        approvals_denied: turn.approvals_denied,
    }
}

fn fresh_turn() -> (r: WebTurn)
    ensures
        is_fresh(r),
        r.queue@.len() == 0,
{
    WebTurn {
        queue: Vec::new(),
        seen: Vec::new(),
        attempts_used: 0,
        exploration_rounds: 0,
        operations_executed: 0,
        approvals_denied: 0,
        results: EvidenceResults::none(),
        batch: Vec::new(),
        done: Vec::new(),
    }
}

/// The first step of a turn: a page that was named is fetched, a question is
/// searched for with the open providers, and any other intent has no web
/// evidence.
pub open spec fn turn_begins(
    turn_id: Seq<char>,
    plan: EvidencePlan,
    step: WebStep,
) -> bool {
    match operational(plan.intent) {
        EvidenceIntent::WebDirectPage { url } => {
            &&& step matches WebStep::Proceed(turn)
            &&& is_fresh(turn)
            &&& exists|candidate: WebCandidate| #[trigger]
                is_direct_candidate(candidate, url) && turn.queue@ == prepared(
                    Seq::empty(),
                    seq![candidate],
                )
        },
        EvidenceIntent::WebFact { query, .. } => {
            &&& step matches WebStep::AskSearch { turn, operation }
            &&& is_fresh(turn)
            &&& turn.queue@.len() == 0
            &&& operation matches EvidenceOperation::WebSearch { normalized_query, provider_set }
            &&& normalized_query == query
            &&& provider_set.0@ == providers_for(false)
        },
        _ => {
            &&& step matches WebStep::Finished(outcome)
            &&& exists|turn: WebTurn| #[trigger]
                is_fresh(turn) && ends(turn_id, plan, turn, outcome)
        },
    }
}

pub fn start_web_turn(turn_id: &str, plan: &EvidencePlan) -> (r: WebStep)
    requires
        quoted_once(plan.intent),
    ensures
        turn_begins(turn_id@, *plan, r),
        r matches WebStep::Proceed(turn) ==> turn.well_formed(*plan),
        r matches WebStep::AskSearch { turn, .. } ==> turn.well_formed(*plan),
{
    let mut turn = fresh_turn();
    match operational_intent(plan) {
        EvidenceIntent::WebDirectPage { url } => {
            let candidate = direct_web_candidate(url);
            let ghost named = candidate;
            let mut queue: Vec<WebCandidate> = Vec::new();
            queue.push(candidate);
            proof {
                assert(queue@ =~= seq![named]);
            }
            let none: Vec<char> = Vec::new();
            proof {
                assert(none@ =~= Seq::empty());
            }
            let query = crate::text::string_of(&none);
            prepare_web_candidates(query.as_str(), &mut queue);
            turn.queue = queue;
            proof {
                assert(is_direct_candidate(named, *url));
            }
            WebStep::Proceed(turn)
        },
        EvidenceIntent::WebFact { query, .. } => {
            let provider_set = web_provider_set(false);
            WebStep::AskSearch {
                turn,
                operation: EvidenceOperation::WebSearch {
                    normalized_query: query.clone(),
                    provider_set,
                },
            }
        },
        _ => {
            let ghost empty = turn;
            let outcome = finish(turn_id, plan, turn);
            proof {
                assert(is_fresh(empty));
            }
            WebStep::Finished(outcome)
        },
    }
}

pub open spec fn counted(a: usize, b: int) -> usize {
    if a + b <= usize::MAX {
        (a + b) as usize
    } else {
        usize::MAX
    }
}

/// Two turns that differ in the queue, the searches and the counts alone.
pub open spec fn same_fetches(before: WebTurn, after: WebTurn) -> bool {
    &&& after.seen == before.seen
    &&& after.attempts_used == before.attempts_used
    &&& after.exploration_rounds == before.exploration_rounds
    &&& after.results.web_fetches == before.results.web_fetches
    &&& after.batch == before.batch
    &&& after.done == before.done
}

/// What follows the decision on a search: it runs, or it is recorded as denied
/// and nothing is found.
pub open spec fn search_is_decided(
    turn: WebTurn,
    operation: EvidenceOperation,
    allowed: bool,
    step: WebStep,
) -> bool {
    if allowed {
        &&& step matches WebStep::RunSearch { turn: next, query, providers }
        &&& next == turn
        &&& operation matches EvidenceOperation::WebSearch { normalized_query, provider_set }
        &&& query == normalized_query
        &&& providers == provider_set
    } else {
        &&& step matches WebStep::Proceed(next)
        &&& same_fetches(turn, next)
        &&& next.queue@.len() == 0
        &&& next.operations_executed == turn.operations_executed
        &&& next.approvals_denied == counted(turn.approvals_denied, 1)
        &&& next.results.web_searches@.len() == turn.results.web_searches@.len() + 1
        &&& next.results.web_searches@.drop_last() == turn.results.web_searches@
        &&& is_denied_result(next.results.web_searches@.last(), operation_key(operation))
        &&& next.results == (EvidenceResults {
            web_searches: next.results.web_searches,
            ..turn.results
        })
    }
}

pub fn search_decided(turn: WebTurn, operation: EvidenceOperation, allowed: bool) -> (r: WebStep)
    requires
        operation is WebSearch,
    ensures
        search_is_decided(turn, operation, allowed, r),
        forall|plan: EvidencePlan| #[trigger]
            turn.well_formed(plan) ==> match r {
                WebStep::RunSearch { turn: next, .. } => next.well_formed(plan),
                WebStep::Proceed(next) => next.well_formed(plan),
                _ => true,
            },
{
    if allowed {
        match operation {
            EvidenceOperation::WebSearch { normalized_query, provider_set } => WebStep::RunSearch {
                turn,
                query: normalized_query,
                providers: provider_set,
            },
            _ => WebStep::Proceed(turn),
        }
    } else {
        let ghost was = turn;
        let mut next = turn;
        next.queue = Vec::new();
        next.approvals_denied = next.approvals_denied.saturating_add(1);
        next.results.web_searches.push(denied_result(&operation));
        proof {
            assert(next.results.web_searches@.drop_last() =~= was.results.web_searches@);
        }
        WebStep::Proceed(next)
    }
}

/// The candidates of a search in the order in which they are fetched.
pub open spec fn found_candidates(query: Seq<char>, search: OperationResult<WebSearchResult>) -> Seq<
    WebCandidate,
> {
    match search.value {
        Some(found) => prepared(query, found.candidates@),
        None => Seq::empty(),
    }
}

/// The search as it is kept: with its candidates in that order.
pub open spec fn search_is_kept(
    query: Seq<char>,
    search: OperationResult<WebSearchResult>,
    kept: OperationResult<WebSearchResult>,
) -> bool {
    match (search.value, kept.value) {
        (Some(found), Some(value)) => {
            &&& value.providers == found.providers
            &&& value.candidates@ == prepared(query, found.candidates@)
            &&& kept == (OperationResult { value: kept.value, ..search })
        },
        (None, None) => kept == search,
        _ => false,
    }
}

/// What follows a search: its candidates are queued.
pub open spec fn search_is_taken(
    plan: EvidencePlan,
    turn: WebTurn,
    search: OperationResult<WebSearchResult>,
    step: WebStep,
) -> bool {
    let query = query_of(operational(plan.intent));
    &&& step matches WebStep::Proceed(next)
    &&& same_fetches(turn, next)
    &&& next.queue@ == prepared(query, found_candidates(query, search))
    &&& next.operations_executed == counted(turn.operations_executed, search.attempts as int)
    &&& next.approvals_denied == turn.approvals_denied
    &&& next.results.web_searches@.len() == turn.results.web_searches@.len() + 1
    &&& next.results.web_searches@.drop_last() == turn.results.web_searches@
    &&& search_is_kept(query, search, next.results.web_searches@.last())
    &&& next.results == (EvidenceResults {
        web_searches: next.results.web_searches,
        ..turn.results
    })
}

pub fn search_done(
    plan: &EvidencePlan,
    turn: WebTurn,
    search: OperationResult<WebSearchResult>,
) -> (r: WebStep)
    ensures
        search_is_taken(*plan, turn, search, r),
        turn.well_formed(*plan) ==> (r matches WebStep::Proceed(next) && next.well_formed(*plan)),
{
    let ghost was = turn;
    let ghost given = search;
    let query = query_text(operational_intent(plan));
    let mut next = turn;
    let mut kept = search;
    next.operations_executed = next.operations_executed.saturating_add(kept.attempts as usize);
    let mut queue: Vec<WebCandidate> = Vec::new();
    match kept.value.take() {
        Some(mut found) => {
            let mut candidates = clone_candidates(&found.candidates);
            prepare_web_candidates(query.as_str(), &mut candidates);
            queue = clone_candidates(&candidates);
            found.candidates = candidates;
            kept.value = Some(found);
        },
        None => {},
    }
    proof {
        assert(queue@ =~= found_candidates(query@, given));
    }
    prepare_web_candidates(query.as_str(), &mut queue);
    next.queue = queue;
    next.results.web_searches.push(kept);
    proof {
        assert(next.results.web_searches@.drop_last() =~= was.results.web_searches@);
    }
    WebStep::Proceed(next)
}

/// The references of the pages that were fetched, in their order.
pub open spec fn all_links(fetches: Seq<OperationResult<WebFetchEvidence>>) -> Seq<
    ValidatedReference,
>
    decreases fetches.len(),
{
    if fetches.len() == 0 {
        Seq::empty()
    } else {
        all_links(fetches.drop_last()) + (match fetches.last().value {
            Some(evidence) => evidence.links@,
            None => Seq::empty(),
        })
    }
}

pub open spec fn are_linked(references: Seq<ValidatedReference>, candidates: Seq<WebCandidate>) -> bool {
    &&& candidates.len() == references.len()
    &&& forall|i: int|
        0 <= i < candidates.len() ==> is_linked_candidate(
            #[trigger] candidates[i],
            references[i],
            crate::ranking::capped16((i + 1) as nat),
        )
}

fn linked_candidates(fetches: &Vec<OperationResult<WebFetchEvidence>>) -> (r: Vec<WebCandidate>)
    ensures
        are_linked(all_links(fetches@), r@),
{
    let mut out: Vec<WebCandidate> = Vec::new();
    let mut i: usize = 0;
    proof {
        assert(fetches@.take(0) =~= Seq::empty());
    }
    while i < fetches.len()
        invariant
            i <= fetches@.len(),
            are_linked(all_links(fetches@.take(i as int)), out@),
        decreases fetches@.len() - i,
    {
        let ghost before = all_links(fetches@.take(i as int));
        proof {
            let next = fetches@.take(i as int + 1);
            assert(next.drop_last() =~= fetches@.take(i as int));
            assert(next.last() == fetches@[i as int]);
        }
        match &fetches[i].value {
            Some(evidence) => {
                let mut k: usize = 0;
                proof {
                    assert(before + evidence.links@.take(0) =~= before);
                }
                while k < evidence.links.len()
                    invariant
                        k <= evidence.links@.len(),
                        are_linked(before + evidence.links@.take(k as int), out@),
                    decreases evidence.links@.len() - k,
                {
                    let ghost earlier = out@;
                    let place: usize = out.len();
                    let rank: u16 = if place < 65535 {
                        (place + 1) as u16
                    } else {
                        65535
                    };
                    out.push(linked_web_candidate(&evidence.links[k], rank));
                    proof {
                        let list = before + evidence.links@.take(k as int + 1);
                        assert(list =~= (before + evidence.links@.take(k as int)).push(
                            evidence.links@[k as int],
                        ));
                        assert forall|q: int| 0 <= q < out@.len() implies is_linked_candidate(
                            #[trigger] out@[q],
                            list[q],
                            crate::ranking::capped16((q + 1) as nat),
                        ) by {
                            if q < earlier.len() {
                                assert(out@[q] == earlier[q]);
                            }
                        }
                    }
                    k = k + 1;
                }
                proof {
                    assert(evidence.links@.take(evidence.links@.len() as int) =~= evidence.links@);
                }
            },
            None => {
                proof {
                    assert(before + Seq::empty() =~= before);
                }
            },
        }
        i = i + 1;
    }
    proof {
        assert(fetches@.take(fetches@.len() as int) =~= fetches@);
    }
    out
}

pub open spec fn was_seen(seen: Seq<OperationKey>, key: Seq<char>) -> bool {
    exists|i: int| 0 <= i < seen.len() && (#[trigger] seen[i])@ == key
}

fn knows_key(seen: &Vec<OperationKey>, key: &OperationKey) -> (r: bool)
    ensures
        r == was_seen(seen@, key@),
{
    let mut i: usize = 0;
    while i < seen.len()
        invariant
            i <= seen@.len(),
            forall|k: int| 0 <= k < i ==> (#[trigger] seen@[k])@ != key@,
        decreases seen@.len() - i,
    {
        if crate::text::same(seen[i].as_str(), key.as_str()) {
            return true;
        }
        i = i + 1;
    }
    false
}

pub open spec fn is_suppressed<T>(result: OperationResult<T>, key: Seq<char>) -> bool {
    &&& result.key@ == key
    &&& result.attempts == 0
    &&& result.execution is Succeeded
    &&& result.contribution is Duplicate
    &&& result.value is None
    &&& result.duration_ms == 0
    &&& result.invalid_items == 0
}

/// A turn with one more fetch on record, and nothing else changed but the queue,
/// the keys and the counts.
pub open spec fn one_more_fetch(before: WebTurn, after: WebTurn) -> bool {
    &&& after.results.web_fetches@.len() == before.results.web_fetches@.len() + 1
    &&& after.results.web_fetches@.drop_last() == before.results.web_fetches@
    &&& after.results == (EvidenceResults {
        web_fetches: after.results.web_fetches,
        ..before.results
    })
}

/// The next page of the queue is asked for, or put on record as a duplicate.
pub open spec fn next_page(turn: WebTurn, step: WebStep) -> bool {
    let candidate = turn.queue@[0];
    let key = operation_key(EvidenceOperation::WebFetch { candidate_id: candidate.candidate_id });
    if was_seen(turn.seen@, key) {
        &&& step matches WebStep::Proceed(next)
        &&& next.queue@ == turn.queue@.drop_first()
        &&& one_more_fetch(turn, next)
        &&& is_suppressed(next.results.web_fetches@.last(), key)
        &&& next == (WebTurn { queue: next.queue, results: next.results, ..turn })
    } else {
        &&& step matches WebStep::AskFetch { turn: next, candidate: asked }
        &&& asked == candidate
        &&& next.queue@ == turn.queue@.drop_first()
        &&& next.seen@.len() == turn.seen@.len() + 1
        &&& next.seen@.drop_last() == turn.seen@
        &&& next.seen@.last()@ == key
        &&& next == (WebTurn { queue: next.queue, seen: next.seen, ..turn })
    }
}

/// What a turn does next: it ends when the intent is met or the budget spent,
/// explores the references of fetched pages when the queue is empty, and else
/// fills the batch and runs it.
pub open spec fn turn_proceeds(
    turn_id: Seq<char>,
    plan: EvidencePlan,
    turn: WebTurn,
    step: WebStep,
) -> bool {
    let intent = operational(plan.intent);
    let budget = plan.budget;
    if turn.batch@.len() == 0 {
        if contract_met(intent, turn.results.web_fetches@) || turn.attempts_used
            >= budget.web_fetch_attempts {
            step matches WebStep::Finished(outcome) && ends(turn_id, plan, turn, outcome)
        } else if turn.queue@.len() == 0 {
            if turn.exploration_rounds >= budget.optional_exploration_rounds {
                step matches WebStep::Finished(outcome) && ends(turn_id, plan, turn, outcome)
            } else {
                exists|links: Seq<WebCandidate>| #[trigger]
                    are_linked(all_links(turn.results.web_fetches@), links) && {
                        let queue = prepared(query_of(intent), links);
                        if queue.len() == 0 {
                            step matches WebStep::Finished(outcome) && ends(
                                turn_id,
                                plan,
                                turn,
                                outcome,
                            )
                        } else {
                            &&& step matches WebStep::Proceed(next)
                            &&& next.queue@ == queue
                            &&& next == (WebTurn {
                                queue: next.queue,
                                exploration_rounds: (turn.exploration_rounds + 1) as u8,
                                ..turn
                            })
                        }
                    }
            }
        } else {
            next_page(turn, step)
        }
    } else if turn.batch@.len() >= parallel(budget.max_parallel_fetches) || turn.attempts_used
        >= budget.web_fetch_attempts || turn.queue@.len() == 0 {
        step matches WebStep::RunBatch(next) && next == turn
    } else {
        next_page(turn, step)
    }
}

fn ask_next_page(turn: WebTurn) -> (r: WebStep)
    requires
        turn.queue@.len() > 0,
    ensures
        next_page(turn, r),
{
    let ghost was = turn;
    let mut next = turn;
    let candidate = next.queue.remove(0);
    proof {
        assert(next.queue@ =~= was.queue@.drop_first());
    }
    let operation = EvidenceOperation::WebFetch { candidate_id: candidate.candidate_id.clone() };
    let key = operation.key();
    if knows_key(&next.seen, &key) {
        next.results.web_fetches.push(OperationResult::suppressed_duplicate(key));
        proof {
            assert(next.results.web_fetches@.drop_last() =~= was.results.web_fetches@);
        }
        WebStep::Proceed(next)
    } else {
        next.seen.push(key);
        proof {
            assert(next.seen@.drop_last() =~= was.seen@);
        }
        WebStep::AskFetch { turn: next, candidate }
    }
}

pub fn proceed(turn_id: &str, plan: &EvidencePlan, turn: WebTurn) -> (r: WebStep)
    requires
        quoted_once(plan.intent),
    ensures
        turn_proceeds(turn_id@, *plan, turn, r),
        turn.well_formed(*plan) ==> match r {
            WebStep::Proceed(next) => next.well_formed(*plan),
            WebStep::AskFetch { turn: next, .. } => next.well_formed(*plan)
                && next.attempts_used < plan.budget.web_fetch_attempts && next.batch@.len()
                < parallel(plan.budget.max_parallel_fetches),
            WebStep::RunBatch(next) => next.well_formed(*plan),
            _ => true,
        },
{
    let limit = parallel_fetches(plan.budget.max_parallel_fetches);
    if turn.batch.len() == 0 {
        let intent = operational_intent(plan);
        if web_contract_satisfied(intent, &turn.results.web_fetches) || turn.attempts_used
            >= plan.budget.web_fetch_attempts {
            return WebStep::Finished(finish(turn_id, plan, turn));
        }
        if turn.queue.len() == 0 {
            if turn.exploration_rounds >= plan.budget.optional_exploration_rounds {
                return WebStep::Finished(finish(turn_id, plan, turn));
            }
            let query = query_text(intent);
            let mut links = linked_candidates(&turn.results.web_fetches);
            let ghost referred = links@;
            prepare_web_candidates(query.as_str(), &mut links);
            proof {
                assert(are_linked(all_links(turn.results.web_fetches@), referred));
            }
            if links.len() == 0 {
                return WebStep::Finished(finish(turn_id, plan, turn));
            }
            let mut next = turn;
            next.queue = links;
            next.exploration_rounds = next.exploration_rounds + 1;
            return WebStep::Proceed(next);
        }
        return ask_next_page(turn);
    }
    if turn.batch.len() >= limit || turn.attempts_used >= plan.budget.web_fetch_attempts
        || turn.queue.len() == 0 {
        return WebStep::RunBatch(turn);
    }
    ask_next_page(turn)
}

/// What follows the decision on a page: it joins the batch at the cost of an
/// attempt, or it is recorded as denied.
pub open spec fn fetch_is_decided(
    turn: WebTurn,
    candidate: WebCandidate,
    allowed: bool,
    step: WebStep,
) -> bool {
    &&& step matches WebStep::Proceed(next)
    &&& if allowed {
        &&& next.batch@ == turn.batch@.push(candidate)
        &&& next.done@ == turn.done@.push(None)
        &&& next == (WebTurn {
            attempts_used: (turn.attempts_used + 1) as u8,
            operations_executed: counted(turn.operations_executed, 1),
            batch: next.batch,
            done: next.done,
            ..turn
        })
    } else {
        &&& one_more_fetch(turn, next)
        &&& is_denied_result(
            next.results.web_fetches@.last(),
            operation_key(EvidenceOperation::WebFetch { candidate_id: candidate.candidate_id }),
        )
        &&& next == (WebTurn {
            approvals_denied: counted(turn.approvals_denied, 1),
            results: next.results,
            ..turn
        })
    }
}

pub fn fetch_decided(
    plan: &EvidencePlan,
    turn: WebTurn,
    candidate: WebCandidate,
    allowed: bool,
) -> (r: WebStep)
    requires
        turn.well_formed(*plan),
        turn.attempts_used < plan.budget.web_fetch_attempts,
        turn.batch@.len() < parallel(plan.budget.max_parallel_fetches),
    ensures
        fetch_is_decided(turn, candidate, allowed, r),
        r matches WebStep::Proceed(next) && next.well_formed(*plan),
{
    let ghost was = turn;
    let mut next = turn;
    if allowed {
        next.attempts_used = next.attempts_used + 1;
        next.operations_executed = next.operations_executed.saturating_add(1);
        next.batch.push(candidate);
        next.done.push(None);
    } else {
        let operation = EvidenceOperation::WebFetch {
            candidate_id: candidate.candidate_id.clone(),
        };
        next.approvals_denied = next.approvals_denied.saturating_add(1);
        next.results.web_fetches.push(denied_result(&operation));
        proof {
            assert(next.results.web_fetches@.drop_last() =~= was.results.web_fetches@);
        }
    }
    WebStep::Proceed(next)
}

/// A page once its authority and its passages are those for the intent.
pub open spec fn is_judged(
    intent: EvidenceIntent,
    candidate: WebCandidate,
    result: OperationResult<WebFetchEvidence>,
    judged: OperationResult<WebFetchEvidence>,
) -> bool {
    selection_applies(
        intent,
        (OperationResult {
            value: with_ranked_authority(query_of(intent), candidate, result.value),
            ..result
        }),
        judged,
    )
}

fn judge(
    intent: &EvidenceIntent,
    candidate: &WebCandidate,
    result: OperationResult<WebFetchEvidence>,
) -> (r: OperationResult<WebFetchEvidence>)
    ensures
        is_judged(*intent, *candidate, result, r),
{
    let query = query_text(intent);
    let mut judged = result;
    apply_ranked_authority(query.as_str(), candidate, &mut judged);
    apply_passage_selection(intent, &mut judged);
    judged
}

/// A page that was fetched before, or of a publisher that was, where one
/// publisher is enough.
pub open spec fn repeats(
    intent: EvidenceIntent,
    fetches: Seq<OperationResult<WebFetchEvidence>>,
    evidence: WebFetchEvidence,
) -> bool {
    exists|i: int| 0 <= i < fetches.len() && repeats_page(intent, #[trigger] fetches[i], evidence)
}

pub open spec fn repeats_page(
    intent: EvidenceIntent,
    prior: OperationResult<WebFetchEvidence>,
    evidence: WebFetchEvidence,
) -> bool {
    match prior.value {
        Some(page) => page.final_url.text@ == evidence.final_url.text@ || (
        page.source_identity@ == evidence.source_identity@ && is_single(intent)),
        None => false,
    }
}

/// A result as it is put on record.
pub open spec fn recorded(
    intent: EvidenceIntent,
    fetches: Seq<OperationResult<WebFetchEvidence>>,
    result: OperationResult<WebFetchEvidence>,
) -> OperationResult<WebFetchEvidence> {
    match result.value {
        Some(evidence) => if repeats(intent, fetches, evidence) {
            OperationResult { contribution: EvidenceContribution::Duplicate, ..result }
        } else {
            result
        },
        None => result,
    }
}

/// The record once the results of a batch are added in the order of the batch.
pub open spec fn settled(
    intent: EvidenceIntent,
    fetches: Seq<OperationResult<WebFetchEvidence>>,
    done: Seq<Option<OperationResult<WebFetchEvidence>>>,
) -> Seq<OperationResult<WebFetchEvidence>>
    decreases done.len(),
{
    if done.len() == 0 {
        fetches
    } else {
        let before = settled(intent, fetches, done.drop_last());
        match done.last() {
            Some(result) => before.push(recorded(intent, before, result)),
            None => before,
        }
    }
}

fn repeats_any(
    intent: &EvidenceIntent,
    fetches: &Vec<OperationResult<WebFetchEvidence>>,
    evidence: &WebFetchEvidence,
) -> (r: bool)
    ensures
        r == repeats(*intent, fetches@, *evidence),
{
    let single = match intent {
        EvidenceIntent::WebFact { verification, .. } => matches!(verification, VerificationLevel::SingleAuthoritative),
        _ => false,
    };
    let mut i: usize = 0;
    while i < fetches.len()
        invariant
            i <= fetches@.len(),
            single == is_single(*intent),
            forall|k: int|
                0 <= k < i ==> !repeats_page(*intent, #[trigger] fetches@[k], *evidence),
        decreases fetches@.len() - i,
    {
        if let Some(page) = &fetches[i].value {
            if page.final_url.same(&evidence.final_url) || (page.source_identity.same(
                &evidence.source_identity,
            ) && single) {
                assert(repeats_page(*intent, fetches@[i as int], *evidence));
                return true;
            }
        }
        i = i + 1;
    }
    false
}

fn settle(
    intent: &EvidenceIntent,
    fetches: &mut Vec<OperationResult<WebFetchEvidence>>,
    done: Vec<Option<OperationResult<WebFetchEvidence>>>,
)
    ensures
        final(fetches)@ == settled(*intent, old(fetches)@, done@),
{
    let ghost start = fetches@;
    let ghost all = done@;
    let mut rest = done;
    let ghost mut taken: int = 0;
    proof {
        assert(all.take(0) =~= Seq::empty());
        assert(all.skip(0) =~= all);
    }
    while rest.len() > 0
        invariant
            0 <= taken <= all.len(),
            rest@ == all.skip(taken),
            fetches@ == settled(*intent, start, all.take(taken)),
        decreases rest@.len(),
    {
        let slot = rest.remove(0);
        proof {
            assert(slot == all[taken]);
            let next = all.take(taken + 1);
            assert(next.drop_last() =~= all.take(taken));
            assert(next.last() == all[taken]);
            assert(rest@ =~= all.skip(taken + 1));
        }
        if let Some(mut result) = slot {
            let repeated = match &result.value {
                Some(evidence) => repeats_any(intent, fetches, evidence),
                None => false,
            };
            if repeated {
                result.contribution = EvidenceContribution::Duplicate;
            }
            fetches.push(result);
        }
        proof {
            taken = taken + 1;
        }
    }
    proof {
        assert(all.take(taken) =~= all);
    }
}

pub open spec fn all_done(done: Seq<Option<OperationResult<WebFetchEvidence>>>) -> bool {
    forall|i: int| 0 <= i < done.len() ==> (#[trigger] done[i]) is Some
}

fn everything_done(done: &Vec<Option<OperationResult<WebFetchEvidence>>>) -> (r: bool)
    ensures
        r == all_done(done@),
{
    let mut i: usize = 0;
    while i < done.len()
        invariant
            i <= done@.len(),
            forall|k: int| 0 <= k < i ==> (#[trigger] done@[k]) is Some,
        decreases done@.len() - i,
    {
        if done[i].is_none() {
            assert(done@[i as int] is None);
            return false;
        }
        i = i + 1;
    }
    true
}

/// What follows once a result of the batch is final: the other pages are
/// awaited, or the batch is put on record.
pub open spec fn result_is_kept(
    plan: EvidencePlan,
    turn: WebTurn,
    place: int,
    result: OperationResult<WebFetchEvidence>,
    step: WebStep,
) -> bool {
    let done = turn.done@.update(place, Some(result));
    if all_done(done) {
        &&& step matches WebStep::Proceed(next)
        &&& next.results.web_fetches@ == settled(
            operational(plan.intent),
            turn.results.web_fetches@,
            done,
        )
        &&& next.results == (EvidenceResults {
            web_fetches: next.results.web_fetches,
            ..turn.results
        })
        &&& next.batch@.len() == 0
        &&& next.done@.len() == 0
        &&& next == (WebTurn {
            results: next.results,
            batch: next.batch,
            done: next.done,
            ..turn
        })
    } else {
        &&& step matches WebStep::Await(next)
        &&& next.done@ == done
        &&& next == (WebTurn { done: next.done, ..turn })
    }
}

fn keep_result(
    plan: &EvidencePlan,
    turn: WebTurn,
    place: usize,
    result: OperationResult<WebFetchEvidence>,
) -> (r: WebStep)
    requires
        turn.well_formed(*plan),
        place < turn.batch@.len(),
    ensures
        result_is_kept(*plan, turn, place as int, result, r),
        r matches WebStep::Proceed(next) ==> next.well_formed(*plan),
        r matches WebStep::Await(next) ==> next.well_formed(*plan),
{
    let mut next = turn;
    next.done.set(place, Some(result));
    if everything_done(&next.done) {
        let mut done: Vec<Option<OperationResult<WebFetchEvidence>>> = Vec::new();
        std::mem::swap(&mut done, &mut next.done);
        let mut fetches: Vec<OperationResult<WebFetchEvidence>> = Vec::new();
        std::mem::swap(&mut fetches, &mut next.results.web_fetches);
        settle(operational_intent(plan), &mut fetches, done);
        next.results.web_fetches = fetches;
        next.batch = Vec::new();
        WebStep::Proceed(next)
    } else {
        WebStep::Await(next)
    }
}

/// The page may be fetched once more: its failure may pass, it was tried once,
/// and the budget has an attempt left.
pub open spec fn may_retry(
    plan: EvidencePlan,
    turn: WebTurn,
    result: OperationResult<WebFetchEvidence>,
) -> bool {
    transient(result.execution) && result.attempts < 2 && turn.attempts_used
        < plan.budget.web_fetch_attempts
}

/// What follows a fetch of the batch.
pub open spec fn fetch_is_taken(
    plan: EvidencePlan,
    turn: WebTurn,
    place: int,
    result: OperationResult<WebFetchEvidence>,
    step: WebStep,
) -> bool {
    exists|judged: OperationResult<WebFetchEvidence>| #[trigger]
        is_judged(operational(plan.intent), turn.batch@[place], result, judged) && if may_retry(
            plan,
            turn,
            judged,
        ) {
            step matches WebStep::AskRetry { turn: next, place: at, first } && next == turn && at
                == place && first == judged
        } else {
            result_is_kept(plan, turn, place, judged, step)
        }
}

pub fn fetch_done(
    plan: &EvidencePlan,
    turn: WebTurn,
    place: usize,
    result: OperationResult<WebFetchEvidence>,
) -> (r: WebStep)
    requires
        turn.well_formed(*plan),
        place < turn.batch@.len(),
    ensures
        fetch_is_taken(*plan, turn, place as int, result, r),
        match r {
            WebStep::Proceed(next) => next.well_formed(*plan),
            WebStep::Await(next) => next.well_formed(*plan),
            WebStep::AskRetry { turn: next, place: at, .. } => next.well_formed(*plan)
                && next.attempts_used < plan.budget.web_fetch_attempts && at < next.batch@.len(),
            _ => true,
        },
{
    let judged = judge(operational_intent(plan), &turn.batch[place], result);
    if judged.execution.retryable() && judged.attempts < 2 && turn.attempts_used
        < plan.budget.web_fetch_attempts {
        WebStep::AskRetry { turn, place, first: judged }
    } else {
        keep_result(plan, turn, place, judged)
    }
}

/// What follows the decision on a retry: it runs at the cost of an attempt, or
/// the first result stands.
pub open spec fn retry_is_decided(
    plan: EvidencePlan,
    turn: WebTurn,
    place: int,
    first: OperationResult<WebFetchEvidence>,
    allowed: bool,
    step: WebStep,
) -> bool {
    if allowed {
        &&& step matches WebStep::RunRetry { turn: next, place: at, first: kept }
        &&& next == (WebTurn {
            attempts_used: (turn.attempts_used + 1) as u8,
            operations_executed: counted(turn.operations_executed, 1),
            ..turn
        })
        &&& at == place
        &&& kept == first
    } else {
        result_is_kept(
            plan,
            (WebTurn { approvals_denied: counted(turn.approvals_denied, 1), ..turn }),
            place,
            first,
            step,
        )
    }
}

pub fn retry_decided(
    plan: &EvidencePlan,
    turn: WebTurn,
    place: usize,
    first: OperationResult<WebFetchEvidence>,
    allowed: bool,
) -> (r: WebStep)
    requires
        turn.well_formed(*plan),
        place < turn.batch@.len(),
        turn.attempts_used < plan.budget.web_fetch_attempts,
    ensures
        retry_is_decided(*plan, turn, place as int, first, allowed, r),
        match r {
            WebStep::Proceed(next) => next.well_formed(*plan),
            WebStep::Await(next) => next.well_formed(*plan),
            WebStep::RunRetry { turn: next, place: at, .. } => next.well_formed(*plan) && at
                < next.batch@.len(),
            _ => true,
        },
{
    let mut next = turn;
    if allowed {
        next.attempts_used = next.attempts_used + 1;
        next.operations_executed = next.operations_executed.saturating_add(1);
        WebStep::RunRetry { turn: next, place, first }
    } else {
        next.approvals_denied = next.approvals_denied.saturating_add(1);
        keep_result(plan, next, place, first)
    }
}

/// What follows a retry: its outcome stands, with the effort of both tries.
pub open spec fn retry_is_taken(
    plan: EvidencePlan,
    turn: WebTurn,
    place: int,
    first: OperationResult<WebFetchEvidence>,
    retry: OperationResult<WebFetchEvidence>,
    step: WebStep,
) -> bool {
    exists|judged: OperationResult<WebFetchEvidence>| #[trigger]
        is_judged(
            operational(plan.intent),
            turn.batch@[place],
            merged(first, retry),
            judged,
        ) && result_is_kept(plan, turn, place, judged, step)
}

pub fn retry_done(
    plan: &EvidencePlan,
    turn: WebTurn,
    place: usize,
    first: OperationResult<WebFetchEvidence>,
    retry: OperationResult<WebFetchEvidence>,
) -> (r: WebStep)
    requires
        turn.well_formed(*plan),
        place < turn.batch@.len(),
    ensures
        retry_is_taken(*plan, turn, place as int, first, retry, r),
        match r {
            WebStep::Proceed(next) => next.well_formed(*plan),
            WebStep::Await(next) => next.well_formed(*plan),
            _ => true,
        },
{
    let mut result = first;
    merge_retry(&mut result, retry);
    let judged = judge(operational_intent(plan), &turn.batch[place], result);
    keep_result(plan, turn, place, judged)
}

/// A page is put to the policy before it can join a batch, and joining it
/// spends an attempt of the budget: a turn never spends more than it has.
pub proof fn admissions_spend_the_budget(
    plan: EvidencePlan,
    turn: WebTurn,
    candidate: WebCandidate,
    allowed: bool,
    step: WebStep,
)
    requires
        turn.well_formed(plan),
        turn.attempts_used < plan.budget.web_fetch_attempts,
        turn.batch@.len() < parallel(plan.budget.max_parallel_fetches),
        fetch_is_decided(turn, candidate, allowed, step),
    ensures
        step->Proceed_0.attempts_used <= plan.budget.web_fetch_attempts,
        allowed ==> step->Proceed_0.attempts_used == turn.attempts_used + 1,
        !allowed ==> step->Proceed_0.batch == turn.batch && step->Proceed_0.attempts_used
            == turn.attempts_used,
{
}

/// A page whose key was seen is not asked for again: it is put on record as a
/// duplicate without an admission and without an attempt.
pub proof fn duplicates_cost_nothing(turn: WebTurn, step: WebStep)
    requires
        turn.queue@.len() > 0,
        next_page(turn, step),
        was_seen(
            turn.seen@,
            operation_key(
                EvidenceOperation::WebFetch { candidate_id: turn.queue@[0].candidate_id },
            ),
        ),
    ensures
        step is Proceed,
        step->Proceed_0.attempts_used == turn.attempts_used,
        step->Proceed_0.approvals_denied == turn.approvals_denied,
        step->Proceed_0.batch == turn.batch,
        step->Proceed_0.results.web_fetches@.last().contribution is Duplicate,
{
}

/// A result that was tried twice is not tried a third time.
pub proof fn a_retry_is_the_last_try(
    plan: EvidencePlan,
    turn: WebTurn,
    first: OperationResult<WebFetchEvidence>,
    retry: OperationResult<WebFetchEvidence>,
)
    requires
        first.attempts >= 1,
        retry.attempts >= 1,
    ensures
        !may_retry(plan, turn, merged(first, retry)),
{
}

} // verus!
