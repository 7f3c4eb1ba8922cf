//! Turns what the operations returned into a bundle of usable evidence, a
//! question back, or an account of what is missing.

use crate::planner::{required_sources, sources_for};
use crate::text::{any_term, chars_of, contains_any, lower, lowercase, trim, trimmed};
use crate::types::{
    operational, quoted_once, BodyState, CitationTarget, Completeness, EvidenceBundle,
    EvidenceConflict, EvidenceContribution, EvidenceCounts, EvidenceExclusion, EvidenceId,
    EvidenceIntent, EvidencePlan, EvidenceRequirement, EvidenceResults, EvidenceShortfall,
    ExecutionStatus, FailureCode, MailBodyEvidence, MailBundleItem, MailHeaderEvidence,
    OperationResult, RecoveryKind, RecoveryOutcome, ShortfallReason, ValidationOutcome,
    WebBundleItem, EVIDENCE_SCHEMA_VERSION,
};
use crate::validation_laws::{
    bundles_carry_the_turn, mail_items_show_what_was_returned, returned_body, returned_header,
    web_items_show_what_was_fetched,
};
use crate::web_validator::{validate_web, web_outcome};
use vstd::prelude::*;

verus! {

/// A count in eight bits, the greatest where it does not fit.
pub open spec fn capped(value: nat) -> u8 {
    if value <= 255 {
        value as u8
    } else {
        255
    }
}

pub fn usize_to_u8(value: usize) -> (r: u8)
    ensures
        r == capped(value as nat),
{
    if value <= 255 {
        value as u8
    } else {
        255
    }
}

pub open spec fn least(a: u8, b: u8) -> u8 {
    if a <= b {
        a
    } else {
        b
    }
}

pub fn min_of(a: u8, b: u8) -> (r: u8)
    ensures
        r == least(a, b),
{
    if a <= b {
        a
    } else {
        b
    }
}

/// `a` less `b`, and zero where `b` is greater.
pub open spec fn monus(a: u8, b: u8) -> u8 {
    if a >= b {
        (a - b) as u8
    } else {
        0
    }
}

pub fn minus(a: u8, b: u8) -> (r: u8)
    ensures
        r == monus(a, b),
{
    if a >= b {
        a - b
    } else {
        0
    }
}

pub open spec fn instruction_markers() -> Seq<&'static str> {
    seq![
        "ignore previous instructions",
        "ignore all instructions",
        "system prompt",
        "<|system|>",
        "assistant: call",
        "execute this tool",
    ]
}

/// Content that reads like an instruction to the assistant.
pub open spec fn instruction_like(value: Seq<char>) -> bool {
    contains_any(lowercase(value), instruction_markers())
}

pub fn contains_instruction_like(value: &str) -> (r: bool)
    ensures
        r == instruction_like(value@),
{
    let lowered = lower(value);
    let markers = [
        "ignore previous instructions",
        "ignore all instructions",
        "system prompt",
        "<|system|>",
        "assistant: call",
        "execute this tool",
    ];
    proof {
        assert(markers@ =~= instruction_markers());
    }
    any_term(&lowered, &markers)
}

pub fn is_blank(value: &str) -> (r: bool)
    ensures
        r == (trim(value@).len() == 0),
{
    let chars = chars_of(value);
    let core = trimmed(&chars);
    core.len() == 0
}

pub open spec fn exclusion_reason() -> Seq<char> {
    "instruction-like content excluded from ordinary synthesis"@
}

pub fn exclusion(id: &EvidenceId) -> (r: EvidenceExclusion)
    ensures
        r.evidence_id == *id,
        r.reason@ == exclusion_reason(),
{
    EvidenceExclusion {
        evidence_id: id.clone(),
        reason: "instruction-like content excluded from ordinary synthesis".to_owned(),
    }
}

/// The exclusions name the given evidence, in order, with the one reason.
pub open spec fn excludes(exclusions: Seq<EvidenceExclusion>, ids: Seq<EvidenceId>) -> bool {
    &&& exclusions.len() == ids.len()
    &&& forall|i: int|
        0 <= i < ids.len() ==> (#[trigger] exclusions[i]).evidence_id == ids[i]
            && exclusions[i].reason@ == exclusion_reason()
}

/// Headers count where the operation succeeded, or where it could read some of them.
pub open spec fn headers_usable(result: OperationResult<Vec<MailHeaderEvidence>>) -> bool {
    ||| result.execution is Succeeded
    ||| (result.execution == ExecutionStatus::Failed(FailureCode::ParseFailure)
        && result.contribution is Partial)
}

pub fn usable_mail_headers(result: &OperationResult<Vec<MailHeaderEvidence>>) -> (r: bool)
    ensures
        r == headers_usable(*result),
{
    match result.execution {
        ExecutionStatus::Succeeded => true,
        ExecutionStatus::Failed(FailureCode::ParseFailure) => matches!(
            result.contribution,
            EvidenceContribution::Partial
        ),
        _ => false,
    }
}

/// The headers of all usable results, in order.
pub open spec fn collected_headers(
    list: Seq<OperationResult<Vec<MailHeaderEvidence>>>,
) -> Seq<MailHeaderEvidence>
    decreases list.len(),
{
    if list.len() == 0 {
        Seq::empty()
    } else {
        let before = collected_headers(list.drop_last());
        match list.last().value {
            Some(headers) => if headers_usable(list.last()) {
                before + headers@
            } else {
                before
            },
            None => before,
        }
    }
}

/// A header with this connector id is among them.
pub open spec fn has_connector(headers: Seq<MailHeaderEvidence>, id: Seq<char>) -> bool {
    exists|k: int| 0 <= k < headers.len() && (#[trigger] headers[k]).connector_id@ == id
}

/// The first header of each message.
pub open spec fn distinct(headers: Seq<MailHeaderEvidence>) -> Seq<MailHeaderEvidence>
    decreases headers.len(),
{
    if headers.len() == 0 {
        headers
    } else {
        let before = distinct(headers.drop_last());
        if has_connector(before, headers.last().connector_id@) {
            before
        } else {
            before.push(headers.last())
        }
    }
}

fn knows_connector(headers: &Vec<MailHeaderEvidence>, header: &MailHeaderEvidence) -> (r: bool)
    ensures
        r == has_connector(headers@, header.connector_id@),
{
    let mut k: usize = 0;
    while k < headers.len()
        invariant
            k <= headers@.len(),
            forall|j: int| 0 <= j < k ==> (#[trigger] headers@[j]).connector_id@ != header.connector_id@,
        decreases headers@.len() - k,
    {
        if headers[k].connector_id.same(&header.connector_id) {
            assert(headers@[k as int].connector_id@ == header.connector_id@);
            return true;
        }
        k = k + 1;
    }
    false
}

/// The headers without repeated messages.
pub fn distinct_headers(headers: &Vec<MailHeaderEvidence>) -> (r: Vec<MailHeaderEvidence>)
    ensures
        r@ == distinct(headers@),
{
    let mut out: Vec<MailHeaderEvidence> = Vec::new();
    let mut i: usize = 0;
    proof {
        assert(out@ =~= distinct(headers@.take(0)));
    }
    while i < headers.len()
        invariant
            i <= headers@.len(),
            out@ == distinct(headers@.take(i as int)),
        decreases headers@.len() - i,
    {
        proof {
            let next = headers@.take(i as int + 1);
            assert(next.drop_last() =~= headers@.take(i as int));
            assert(next.last() == headers@[i as int]);
        }
        if !knows_connector(&out, &headers[i]) {
            out.push(headers[i].clone());
        }
        i = i + 1;
    }
    proof {
        assert(headers@.take(headers@.len() as int) =~= headers@);
    }
    out
}

fn collect_headers(list: &Vec<OperationResult<Vec<MailHeaderEvidence>>>) -> (r: Vec<
    MailHeaderEvidence,
>)
    ensures
        r@ == distinct(collected_headers(list@)),
{
    let mut all: Vec<MailHeaderEvidence> = Vec::new();
    let mut i: usize = 0;
    proof {
        assert(all@ =~= collected_headers(list@.take(0)));
    }
    while i < list.len()
        invariant
            i <= list@.len(),
            all@ == collected_headers(list@.take(i as int)),
        decreases list@.len() - i,
    {
        proof {
            let next = list@.take(i as int + 1);
            assert(next.drop_last() =~= list@.take(i as int));
            assert(next.last() == list@[i as int]);
        }
        if let Some(headers) = &list[i].value {
            if usable_mail_headers(&list[i]) {
                let ghost start = all@;
                let mut k: usize = 0;
                while k < headers.len()
                    invariant
                        k <= headers@.len(),
                        all@ == start + headers@.take(k as int),
                    decreases headers@.len() - k,
                {
                    all.push(headers[k].clone());
                    proof {
                        assert(start + headers@.take(k as int + 1) =~= (start + headers@.take(
                            k as int,
                        )).push(headers@[k as int]));
                    }
                    k = k + 1;
                }
                proof {
                    assert(headers@.take(headers@.len() as int) =~= headers@);
                }
            }
        }
        i = i + 1;
    }
    proof {
        assert(list@.take(list@.len() as int) =~= list@);
    }
    distinct_headers(&all)
}

/// How many items of the results could not be read, at most 255.
pub open spec fn invalid_items(list: Seq<OperationResult<Vec<MailHeaderEvidence>>>, start: u8) -> u8
    decreases list.len(),
{
    if list.len() == 0 {
        start
    } else {
        let before = invalid_items(list.drop_last(), start);
        if before + list.last().invalid_items <= 255 {
            (before + list.last().invalid_items) as u8
        } else {
            255
        }
    }
}

fn add_invalid(list: &Vec<OperationResult<Vec<MailHeaderEvidence>>>, start: u8) -> (r: u8)
    ensures
        r == invalid_items(list@, start),
{
    let mut total: u8 = start;
    let mut i: usize = 0;
    proof {
        assert(list@.take(0) =~= Seq::empty());
    }
    while i < list.len()
        invariant
            i <= list@.len(),
            total == invalid_items(list@.take(i as int), start),
        decreases list@.len() - i,
    {
        proof {
            let next = list@.take(i as int + 1);
            assert(next.drop_last() =~= list@.take(i as int));
            assert(next.last() == list@[i as int]);
        }
        let more: u8 = list[i].invalid_items;
        total = if total <= 255 - more {
            total + more
        } else {
            255
        };
        i = i + 1;
    }
    proof {
        assert(list@.take(list@.len() as int) =~= list@);
    }
    total
}

/// The unreadable items of lists and searches together.
pub open spec fn malformed_count(
    list: Seq<OperationResult<Vec<MailHeaderEvidence>>>,
    search: Seq<OperationResult<Vec<MailHeaderEvidence>>>,
) -> u8 {
    invalid_items(search, invalid_items(list, 0))
}

pub fn invalid_mail_header_count(results: &EvidenceResults) -> (r: u8)
    ensures
        r == malformed_count(results.mail_list@, results.mail_search@),
{
    let listed = add_invalid(&results.mail_list, 0);
    add_invalid(&results.mail_search, listed)
}

/// One shortfall, none where nothing is missing.
pub open spec fn shortfall_of(
    requirement: EvidenceRequirement,
    missing_count: u8,
    reason: ShortfallReason,
) -> Seq<EvidenceShortfall> {
    if missing_count == 0 {
        Seq::empty()
    } else {
        seq![EvidenceShortfall { requirement, missing_count, reason }]
    }
}

pub fn shortfall(
    requirement: EvidenceRequirement,
    missing_count: u8,
    reason: ShortfallReason,
) -> (r: Vec<EvidenceShortfall>)
    ensures
        r@ == shortfall_of(requirement, missing_count, reason),
{
    let mut out: Vec<EvidenceShortfall> = Vec::new();
    if missing_count != 0 {
        out.push(EvidenceShortfall { requirement, missing_count, reason });
    }
    proof {
        assert(out@ =~= shortfall_of(requirement, missing_count, reason));
    }
    out
}

/// What is missing, put down to the causes in order; what no cause explains
/// counts as empty.
pub open spec fn allocated(
    requirement: EvidenceRequirement,
    causes: Seq<(u8, ShortfallReason)>,
    remaining: u8,
) -> Seq<EvidenceShortfall>
    decreases causes.len(),
{
    if causes.len() == 0 {
        shortfall_of(requirement, remaining, ShortfallReason::Empty)
    } else {
        let count = least(causes[0].0, remaining);
        shortfall_of(requirement, count, causes[0].1) + allocated(
            requirement,
            causes.drop_first(),
            monus(remaining, count),
        )
    }
}

fn allocate(
    requirement: EvidenceRequirement,
    causes: &Vec<(u8, ShortfallReason)>,
    remaining: u8,
) -> (r: Vec<EvidenceShortfall>)
    ensures
        r@ == allocated(requirement, causes@, remaining),
{
    let mut out: Vec<EvidenceShortfall> = Vec::new();
    let mut left: u8 = remaining;
    let mut i: usize = 0;
    proof {
        assert(causes@.skip(0) =~= causes@);
        assert(out@ + allocated(requirement, causes@, left) =~= allocated(
            requirement,
            causes@,
            remaining,
        ));
    }
    while i < causes.len()
        invariant
            i <= causes@.len(),
            out@ + allocated(requirement, causes@.skip(i as int), left) == allocated(
                requirement,
                causes@,
                remaining,
            ),
        decreases causes@.len() - i,
    {
        let ghost before = out@;
        let count = min_of(causes[i].0, left);
        let reason = causes[i].1;
        if count > 0 {
            out.push(EvidenceShortfall { requirement, missing_count: count, reason });
        }
        proof {
            assert(causes@.skip(i as int)[0] == causes@[i as int]);
            assert(causes@.skip(i as int).drop_first() =~= causes@.skip(i as int + 1));
            let rest = allocated(requirement, causes@.skip(i as int + 1), monus(left, count));
            assert(out@ =~= before + shortfall_of(requirement, count, reason));
            assert(before + (shortfall_of(requirement, count, reason) + rest) =~= out@ + rest);
        }
        left = minus(left, count);
        i = i + 1;
    }
    let ghost before = out@;
    if left > 0 {
        out.push(
            EvidenceShortfall { requirement, missing_count: left, reason: ShortfallReason::Empty },
        );
    }
    proof {
        assert(causes@.skip(causes@.len() as int) =~= Seq::empty());
        assert(out@ =~= before + shortfall_of(requirement, left, ShortfallReason::Empty));
    }
    out
}

/// What is missing of the requested headers.
pub open spec fn header_shortfalls(requested: u8, acquired: u8, malformed: u8) -> Seq<
    EvidenceShortfall,
> {
    allocated(
        EvidenceRequirement::MailHeaders { count: requested },
        seq![(malformed, ShortfallReason::Malformed)],
        monus(requested, acquired),
    )
}

pub fn mail_header_shortfalls(
    results: &EvidenceResults,
    requested_count: u8,
    acquired_count: u8,
) -> (r: Vec<EvidenceShortfall>)
    ensures
        r@ == header_shortfalls(
            requested_count,
            acquired_count,
            malformed_count(results.mail_list@, results.mail_search@),
        ),
{
    let mut causes: Vec<(u8, ShortfallReason)> = Vec::new();
    causes.push((invalid_mail_header_count(results), ShortfallReason::Malformed));
    proof {
        assert(causes@ =~= seq![
            (
                malformed_count(results.mail_list@, results.mail_search@),
                ShortfallReason::Malformed,
            ),
        ]);
    }
    allocate(
        EvidenceRequirement::MailHeaders { count: requested_count },
        &causes,
        minus(requested_count, acquired_count),
    )
}

/// How many results satisfy a condition.
pub open spec fn count_bodies(
    bodies: Seq<OperationResult<MailBodyEvidence>>,
    condition: spec_fn(OperationResult<MailBodyEvidence>) -> bool,
) -> nat
    decreases bodies.len(),
{
    if bodies.len() == 0 {
        0
    } else {
        count_bodies(bodies.drop_last(), condition) + if condition(bodies.last()) {
            1nat
        } else {
            0nat
        }
    }
}

pub open spec fn body_denied() -> spec_fn(OperationResult<MailBodyEvidence>) -> bool {
    |r: OperationResult<MailBodyEvidence>| r.execution is Denied
}

pub open spec fn body_unavailable() -> spec_fn(OperationResult<MailBodyEvidence>) -> bool {
    |r: OperationResult<MailBodyEvidence>|
        r.value is Some && r.value->0.body_state is UnavailableLocally
}

pub open spec fn body_empty() -> spec_fn(OperationResult<MailBodyEvidence>) -> bool {
    |r: OperationResult<MailBodyEvidence>|
        r.value is Some && (r.value->0.body_state is Empty || (r.value->0.body_state is Readable
            && trim(r.value->0.body@).len() == 0))
}

pub open spec fn body_duplicate() -> spec_fn(OperationResult<MailBodyEvidence>) -> bool {
    |r: OperationResult<MailBodyEvidence>| r.contribution is Duplicate && r.attempts == 0
}

/// The causes of missing bodies, in the order in which they are charged.
pub open spec fn body_causes(
    bodies: Seq<OperationResult<MailBodyEvidence>>,
    requested: u8,
    excluded: u8,
    batch: u8,
    malformed: u8,
) -> Seq<(u8, ShortfallReason)> {
    seq![
        (monus(requested, batch), ShortfallReason::BatchLimit),
        (malformed, ShortfallReason::Malformed),
        (capped(count_bodies(bodies, body_denied())), ShortfallReason::Denied),
        (capped(count_bodies(bodies, body_unavailable())), ShortfallReason::BodyUnavailable),
        (capped(count_bodies(bodies, body_empty())), ShortfallReason::Empty),
        (capped(count_bodies(bodies, body_duplicate())), ShortfallReason::Duplicate),
        (excluded, ShortfallReason::ExcludedAsInstruction),
    ]
}

/// What is missing of the requested bodies.
pub open spec fn body_shortfalls(
    bodies: Seq<OperationResult<MailBodyEvidence>>,
    requested: u8,
    acquired: u8,
    excluded: u8,
    batch: u8,
    malformed: u8,
) -> Seq<EvidenceShortfall> {
    allocated(
        EvidenceRequirement::MailBodies { count: requested },
        body_causes(bodies, requested, excluded, batch, malformed),
        monus(requested, acquired),
    )
}

pub fn mail_body_shortfalls(
    results: &EvidenceResults,
    requested_count: u8,
    acquired_count: u8,
    excluded_count: u8,
    batch_count: u8,
    malformed_count: u8,
) -> (r: Vec<EvidenceShortfall>)
    ensures
        r@ == body_shortfalls(
            results.mail_bodies@,
            requested_count,
            acquired_count,
            excluded_count,
            batch_count,
            malformed_count,
        ),
{
    let bodies = &results.mail_bodies;
    let mut denied: usize = 0;
    let mut unavailable: usize = 0;
    let mut empty: usize = 0;
    let mut duplicate: usize = 0;
    let mut i: usize = 0;
    proof {
        assert(bodies@.take(0) =~= Seq::empty());
    }
    while i < bodies.len()
        invariant
            i <= bodies@.len(),
            denied <= i,
            unavailable <= i,
            empty <= i,
            duplicate <= i,
            denied == count_bodies(bodies@.take(i as int), body_denied()),
            unavailable == count_bodies(bodies@.take(i as int), body_unavailable()),
            empty == count_bodies(bodies@.take(i as int), body_empty()),
            duplicate == count_bodies(bodies@.take(i as int), body_duplicate()),
        decreases bodies@.len() - i,
    {
        proof {
            let next = bodies@.take(i as int + 1);
            assert(next.drop_last() =~= bodies@.take(i as int));
            assert(next.last() == bodies@[i as int]);
        }
        let result = &bodies[i];
        if matches!(result.execution, ExecutionStatus::Denied) {
            denied = denied + 1;
        }
        if let Some(body) = &result.value {
            match body.body_state {
                BodyState::UnavailableLocally => {
                    unavailable = unavailable + 1;
                },
                BodyState::Empty => {
                    empty = empty + 1;
                },
                BodyState::Readable => {
                    if is_blank(body.body.as_str()) {
                        empty = empty + 1;
                    }
                },
            }
        }
        if matches!(result.contribution, EvidenceContribution::Duplicate) && result.attempts == 0 {
            duplicate = duplicate + 1;
        }
        i = i + 1;
    }
    proof {
        assert(bodies@.take(bodies@.len() as int) =~= bodies@);
    }
    let mut causes: Vec<(u8, ShortfallReason)> = Vec::new();
    causes.push((minus(requested_count, batch_count), ShortfallReason::BatchLimit));
    causes.push((malformed_count, ShortfallReason::Malformed));
    causes.push((usize_to_u8(denied), ShortfallReason::Denied));
    causes.push((usize_to_u8(unavailable), ShortfallReason::BodyUnavailable));
    causes.push((usize_to_u8(empty), ShortfallReason::Empty));
    causes.push((usize_to_u8(duplicate), ShortfallReason::Duplicate));
    causes.push((excluded_count, ShortfallReason::ExcludedAsInstruction));
    proof {
        assert(causes@ =~= body_causes(
            bodies@,
            requested_count,
            excluded_count,
            batch_count,
            malformed_count,
        ));
    }
    allocate(
        EvidenceRequirement::MailBodies { count: requested_count },
        &causes,
        minus(requested_count, acquired_count),
    )
}

pub open spec fn statuses<T>(list: Seq<OperationResult<T>>) -> Seq<ExecutionStatus> {
    Seq::new(list.len(), |i: int| list[i].execution)
}

fn push_statuses<T>(list: &Vec<OperationResult<T>>, out: &mut Vec<ExecutionStatus>)
    ensures
        final(out)@ == old(out)@ + statuses(list@),
{
    let ghost start = out@;
    let mut i: usize = 0;
    while i < list.len()
        invariant
            i <= list@.len(),
            out@ == start + statuses(list@).take(i as int),
        decreases list@.len() - i,
    {
        out.push(list[i].execution);
        proof {
            assert(start + statuses(list@).take(i as int + 1) =~= (start + statuses(list@).take(
                i as int,
            )).push(list@[i as int].execution));
        }
        i = i + 1;
    }
    proof {
        assert(statuses(list@).take(list@.len() as int) =~= statuses(list@));
    }
}

pub open spec fn any_body_state(
    bodies: Seq<OperationResult<MailBodyEvidence>>,
    state: BodyState,
) -> bool {
    exists|i: int|
        0 <= i < bodies.len() && (#[trigger] bodies[i]).value is Some
            && bodies[i].value->0.body_state == state
}

fn has_body_state(bodies: &Vec<OperationResult<MailBodyEvidence>>, state: BodyState) -> (r: bool)
    ensures
        r == any_body_state(bodies@, state),
{
    let mut i: usize = 0;
    while i < bodies.len()
        invariant
            i <= bodies@.len(),
            forall|k: int|
                0 <= k < i ==> !((#[trigger] bodies@[k]).value is Some
                    && bodies@[k].value->0.body_state == state),
        decreases bodies@.len() - i,
    {
        if let Some(body) = &bodies[i].value {
            if body.body_state == state {
                assert(bodies@[i as int].value is Some);
                return true;
            }
        }
        i = i + 1;
    }
    false
}

pub open spec fn any_status(all: Seq<ExecutionStatus>, wanted: spec_fn(ExecutionStatus) -> bool) -> bool {
    exists|i: int| 0 <= i < all.len() && wanted(#[trigger] all[i])
}

pub open spec fn is_denied() -> spec_fn(ExecutionStatus) -> bool {
    |s: ExecutionStatus| s is Denied
}

pub open spec fn is_invalid_input() -> spec_fn(ExecutionStatus) -> bool {
    |s: ExecutionStatus| s == ExecutionStatus::Failed(FailureCode::InvalidInput)
}

pub open spec fn is_parse_failure() -> spec_fn(ExecutionStatus) -> bool {
    |s: ExecutionStatus| s == ExecutionStatus::Failed(FailureCode::ParseFailure)
}

pub open spec fn is_failure() -> spec_fn(ExecutionStatus) -> bool {
    |s: ExecutionStatus| s is Failed || s is TimedOut
}

/// Why no mail can be shown: the first cause that applies.
pub open spec fn recovery_kind(
    all: Seq<ExecutionStatus>,
    bodies: Seq<OperationResult<MailBodyEvidence>>,
    excluded_any: bool,
) -> RecoveryKind {
    if any_status(all, is_denied()) {
        RecoveryKind::Denied
    } else if any_status(all, is_invalid_input()) {
        RecoveryKind::InvalidInput
    } else if any_status(all, is_parse_failure()) {
        RecoveryKind::Malformed
    } else if any_status(all, is_failure()) || any_body_state(bodies, BodyState::UnavailableLocally) {
        RecoveryKind::Unavailable
    } else if any_body_state(bodies, BodyState::Empty) || excluded_any {
        RecoveryKind::NoUsableEvidence
    } else {
        RecoveryKind::Empty
    }
}

fn kind_of(
    all: &Vec<ExecutionStatus>,
    bodies: &Vec<OperationResult<MailBodyEvidence>>,
    excluded_any: bool,
) -> (r: RecoveryKind)
    ensures
        r == recovery_kind(all@, bodies@, excluded_any),
{
    let mut denied = false;
    let mut invalid = false;
    let mut malformed = false;
    let mut failed = false;
    let mut i: usize = 0;
    while i < all.len()
        invariant
            i <= all@.len(),
            denied == any_status(all@.take(i as int), is_denied()),
            invalid == any_status(all@.take(i as int), is_invalid_input()),
            malformed == any_status(all@.take(i as int), is_parse_failure()),
            failed == any_status(all@.take(i as int), is_failure()),
        decreases all@.len() - i,
    {
        let status = all[i];
        proof {
            let before = all@.take(i as int);
            let next = all@.take(i as int + 1);
            assert(next[i as int] == status);
            assert forall|f: spec_fn(ExecutionStatus) -> bool|
                #[trigger] any_status(next, f) == (any_status(before, f) || f(status)) by {
                if any_status(before, f) {
                    let w = choose|w: int| 0 <= w < before.len() && f(#[trigger] before[w]);
                    assert(next[w] == before[w]);
                }
                if any_status(next, f) {
                    let w = choose|w: int| 0 <= w < next.len() && f(#[trigger] next[w]);
                    if w < i {
                        assert(before[w] == next[w]);
                    }
                }
            }
        }
        match status {
            ExecutionStatus::Denied => {
                denied = true;
            },
            ExecutionStatus::Failed(FailureCode::InvalidInput) => {
                invalid = true;
                failed = true;
            },
            ExecutionStatus::Failed(FailureCode::ParseFailure) => {
                malformed = true;
                failed = true;
            },
            ExecutionStatus::Failed(_) => {
                failed = true;
            },
            ExecutionStatus::TimedOut => {
                failed = true;
            },
            ExecutionStatus::Succeeded => {},
        }
        i = i + 1;
    }
    proof {
        assert(all@.take(all@.len() as int) =~= all@);
    }
    if denied {
        RecoveryKind::Denied
    } else if invalid {
        RecoveryKind::InvalidInput
    } else if malformed {
        RecoveryKind::Malformed
    } else if failed || has_body_state(bodies, BodyState::UnavailableLocally) {
        RecoveryKind::Unavailable
    } else if has_body_state(bodies, BodyState::Empty) || excluded_any {
        RecoveryKind::NoUsableEvidence
    } else {
        RecoveryKind::Empty
    }
}

/// What the user is told where no mail can be shown.
pub open spec fn recovery_message(kind: RecoveryKind) -> Seq<char> {
    match kind {
        RecoveryKind::Empty =>
            "The Mail query succeeded but returned no matching evidence. You can broaden the request or try again later."@,
        RecoveryKind::InvalidInput =>
            "The Mail request was invalid and was not executed. Check the search terms or message selection and try again."@,
        RecoveryKind::Malformed =>
            "Mail returned malformed message metadata that could not be used safely. Refresh Mail and try again."@,
        RecoveryKind::Denied =>
            "Mail access was denied. You can approve access and retry when you are ready."@,
        RecoveryKind::Unavailable =>
            "Mail or the requested message body is currently unavailable. You can retry after Mail finishes syncing."@,
        RecoveryKind::NoUsableEvidence =>
            "Mail returned no content safe for ordinary synthesis. You can explicitly ask me to analyze the instructions as quoted data."@,
        RecoveryKind::VerificationShortfall => Seq::empty(),
    }
}

fn message_for(kind: RecoveryKind) -> (r: String)
    ensures
        r@ == recovery_message(kind),
{
    match kind {
        RecoveryKind::Empty =>
            "The Mail query succeeded but returned no matching evidence. You can broaden the request or try again later.".to_owned(),
        RecoveryKind::InvalidInput =>
            "The Mail request was invalid and was not executed. Check the search terms or message selection and try again.".to_owned(),
        RecoveryKind::Malformed =>
            "Mail returned malformed message metadata that could not be used safely. Refresh Mail and try again.".to_owned(),
        RecoveryKind::Denied =>
            "Mail access was denied. You can approve access and retry when you are ready.".to_owned(),
        RecoveryKind::Unavailable =>
            "Mail or the requested message body is currently unavailable. You can retry after Mail finishes syncing.".to_owned(),
        RecoveryKind::NoUsableEvidence =>
            "Mail returned no content safe for ordinary synthesis. You can explicitly ask me to analyze the instructions as quoted data.".to_owned(),
        RecoveryKind::VerificationShortfall => String::new(),
    }
}

/// The outcome where no mail can be shown.
pub open spec fn is_mail_recovery(
    outcome: ValidationOutcome,
    list: Seq<OperationResult<Vec<MailHeaderEvidence>>>,
    search: Seq<OperationResult<Vec<MailHeaderEvidence>>>,
    bodies: Seq<OperationResult<MailBodyEvidence>>,
    requested: EvidenceCounts,
    missing: Seq<EvidenceShortfall>,
    excluded: Seq<EvidenceId>,
) -> bool {
    match outcome {
        ValidationOutcome::Recovery(recovery) => {
            &&& recovery.kind == recovery_kind(
                statuses(list) + statuses(search) + statuses(bodies),
                bodies,
                excluded.len() > 0,
            )
            &&& recovery.requested == requested
            &&& recovery.message@ == recovery_message(recovery.kind)
            &&& recovery.missing@ == missing
            &&& excludes(recovery.exclusions@, excluded)
        },
        _ => false,
    }
}

pub fn mail_recovery(
    results: &EvidenceResults,
    requested: EvidenceCounts,
    missing: Vec<EvidenceShortfall>,
    exclusions: Vec<EvidenceExclusion>,
) -> (r: ValidationOutcome)
    ensures
        forall|excluded: Seq<EvidenceId>|
            excludes(exclusions@, excluded) ==> #[trigger] is_mail_recovery(
                r,
                results.mail_list@,
                results.mail_search@,
                results.mail_bodies@,
                requested,
                missing@,
                excluded,
            ),
{
    let mut all: Vec<ExecutionStatus> = Vec::new();
    push_statuses(&results.mail_list, &mut all);
    push_statuses(&results.mail_search, &mut all);
    push_statuses(&results.mail_bodies, &mut all);
    proof {
        assert(all@ =~= statuses(results.mail_list@) + statuses(results.mail_search@) + statuses(
            results.mail_bodies@,
        ));
    }
    let kind = kind_of(&all, &results.mail_bodies, exclusions.len() > 0);
    ValidationOutcome::Recovery(
        RecoveryOutcome { kind, requested, message: message_for(kind), missing, exclusions },
    )
}

/// A header and its body as they enter a bundle.
pub open spec fn bundle_item(header: MailHeaderEvidence, body: Option<MailBodyEvidence>) -> MailBundleItem {
    MailBundleItem {
        evidence_id: header.evidence_id,
        sender: header.sender,
        subject: header.subject,
        received_at: header.received_at,
        body: match body {
            Some(b) => Some(b.body),
            None => None,
        },
        body_state: match body {
            Some(b) => Some(b.body_state),
            None => None,
        },
        body_origin: match body {
            Some(b) => Some(b.body_origin),
            None => None,
        },
    }
}

pub fn mail_bundle_item(header: &MailHeaderEvidence, body: Option<&MailBodyEvidence>) -> (r: MailBundleItem)
    ensures
        r == bundle_item(
            *header,
            match body {
                Some(b) => Some(*b),
                None => None,
            },
        ),
{
    let (text, state, origin) = match body {
        Some(b) => (Some(b.body.clone()), Some(b.body_state), Some(b.body_origin)),
        None => (None, None, None),
    };
    MailBundleItem {
        evidence_id: header.evidence_id.clone(),
        sender: header.sender.clone(),
        subject: header.subject.clone(),
        received_at: header.received_at,
        body: text,
        body_state: state,
        body_origin: origin,
    }
}

/// The parts of a bundle that do not depend on its kind: a bundle is complete
/// exactly where nothing is missing.
pub open spec fn bundle_frame(
    bundle: EvidenceBundle,
    turn_id: Seq<char>,
    plan: EvidencePlan,
    requested: EvidenceCounts,
    acquired: EvidenceCounts,
    missing: Seq<EvidenceShortfall>,
    conflicts: Vec<EvidenceConflict>,
) -> bool {
    &&& bundle.version == EVIDENCE_SCHEMA_VERSION
    &&& bundle.turn_id@ == turn_id
    &&& bundle.intent == plan.intent
    &&& (bundle.completeness is Complete <==> missing.len() == 0)
    &&& bundle.requested == requested
    &&& bundle.acquired == acquired
    &&& bundle.missing@ == missing
    &&& bundle.conflicts == conflicts
}

struct ValidatedEvidence {
    requested: EvidenceCounts,
    acquired: EvidenceCounts,
    missing: Vec<EvidenceShortfall>,
    mail: Vec<MailBundleItem>,
    web: Vec<WebBundleItem>,
    exclusions: Vec<EvidenceExclusion>,
    conflicts: Vec<EvidenceConflict>,
    citations: Vec<CitationTarget>,
}

fn bundle(turn_id: &str, plan: &EvidencePlan, evidence: ValidatedEvidence) -> (r: EvidenceBundle)
    ensures
        bundle_frame(
            r,
            turn_id@,
            *plan,
            evidence.requested,
            evidence.acquired,
            evidence.missing@,
            evidence.conflicts,
        ),
        r.mail == evidence.mail,
        r.web == evidence.web,
        r.exclusions == evidence.exclusions,
        r.citation_allowlist == evidence.citations,
{
    EvidenceBundle {
        version: EVIDENCE_SCHEMA_VERSION,
        turn_id: turn_id.to_owned(),
        intent: plan.intent.clone(),
        completeness: if evidence.missing.len() == 0 {
            Completeness::Complete
        } else {
            Completeness::Partial
        },
        requested: evidence.requested,
        acquired: evidence.acquired,
        missing: evidence.missing,
        mail: evidence.mail,
        web: evidence.web,
        conflicts: evidence.conflicts,
        exclusions: evidence.exclusions,
        citation_allowlist: evidence.citations,
    }
}

pub open spec fn header_counts(count: u8) -> EvidenceCounts {
    EvidenceCounts { mail_headers: count, mail_bodies: 0, web_sources: 0 }
}

pub open spec fn mail_counts(headers: u8, bodies: u8) -> EvidenceCounts {
    EvidenceCounts { mail_headers: headers, mail_bodies: bodies, web_sources: 0 }
}

/// The items of the first `n` headers.
pub open spec fn header_items(headers: Seq<MailHeaderEvidence>, n: int) -> Seq<MailBundleItem> {
    let len = if headers.len() <= n {
        headers.len()
    } else {
        n as nat
    };
    Seq::new(len, |i: int| bundle_item(headers[i], None))
}

fn items_of(headers: &Vec<MailHeaderEvidence>, n: usize) -> (r: Vec<MailBundleItem>)
    ensures
        r@ == header_items(headers@, n as int),
{
    let mut out: Vec<MailBundleItem> = Vec::new();
    let mut i: usize = 0;
    while i < headers.len() && i < n
        invariant
            i <= headers@.len(),
            i <= n,
            out@.len() == i,
            forall|k: int| 0 <= k < i ==> #[trigger] out@[k] == bundle_item(headers@[k], None),
        decreases headers@.len() - i,
    {
        out.push(mail_bundle_item(&headers[i], None));
        i = i + 1;
    }
    proof {
        assert(out@ =~= header_items(headers@, n as int));
    }
    out
}

/// The outcome of a request for headers.
pub open spec fn headers_outcome(
    outcome: ValidationOutcome,
    turn_id: Seq<char>,
    plan: EvidencePlan,
    results: EvidenceResults,
    requested: u8,
) -> bool {
    let headers = distinct(collected_headers(results.mail_list@));
    let acquired = least(capped(headers.len()), requested);
    let malformed = malformed_count(results.mail_list@, results.mail_search@);
    if headers.len() == 0 {
        is_mail_recovery(
            outcome,
            results.mail_list@,
            results.mail_search@,
            results.mail_bodies@,
            header_counts(requested),
            header_shortfalls(requested, 0, malformed),
            Seq::empty(),
        )
    } else {
        match outcome {
            ValidationOutcome::Bundle(b) => {
                &&& bundle_frame(
                    *b,
                    turn_id,
                    plan,
                    header_counts(requested),
                    header_counts(acquired),
                    header_shortfalls(requested, acquired, malformed),
                    results.conflicts,
                )
                &&& b.mail@ == header_items(headers, requested as int)
                &&& b.web@.len() == 0
                &&& b.exclusions@.len() == 0
                &&& b.citation_allowlist@.len() == 0
            },
            _ => false,
        }
    }
}

pub fn validate_mail_headers(
    turn_id: &str,
    plan: &EvidencePlan,
    results: EvidenceResults,
    requested: u8,
) -> (r: ValidationOutcome)
    ensures
        headers_outcome(r, turn_id@, *plan, results, requested),
{
    let headers = collect_headers(&results.mail_list);
    if headers.len() == 0 {
        let missing = mail_header_shortfalls(&results, requested, 0);
        let none: Vec<EvidenceExclusion> = Vec::new();
        proof {
            assert(excludes(none@, Seq::empty()));
        }
        return mail_recovery(
            &results,
            EvidenceCounts { mail_headers: requested, mail_bodies: 0, web_sources: 0 },
            missing,
            none,
        );
    }
    let acquired = min_of(usize_to_u8(headers.len()), requested);
    let missing = mail_header_shortfalls(&results, requested, acquired);
    let mail = items_of(&headers, requested as usize);
    ValidationOutcome::Bundle(
        Box::new(
            bundle(
                turn_id,
                plan,
                ValidatedEvidence {
                    requested: EvidenceCounts {
                        mail_headers: requested,
                        mail_bodies: 0,
                        web_sources: 0,
                    },
                    acquired: EvidenceCounts {
                        mail_headers: acquired,
                        mail_bodies: 0,
                        web_sources: 0,
                    },
                    missing,
                    mail,
                    web: Vec::new(),
                    exclusions: Vec::new(),
                    conflicts: results.conflicts,
                    citations: Vec::new(),
                },
            ),
        ),
    )
}

/// The header that a body belongs to: the last one with its evidence id.
pub open spec fn header_for(headers: Seq<MailHeaderEvidence>, id: Seq<char>) -> Option<
    MailHeaderEvidence,
>
    decreases headers.len(),
{
    if headers.len() == 0 {
        None
    } else if headers.last().evidence_id@ == id {
        Some(headers.last())
    } else {
        header_for(headers.drop_last(), id)
    }
}

fn find_header(headers: &Vec<MailHeaderEvidence>, id: &EvidenceId) -> (r: Option<MailHeaderEvidence>)
    ensures
        r == header_for(headers@, id@),
{
    let mut i: usize = headers.len();
    proof {
        assert(headers@.take(headers@.len() as int) =~= headers@);
    }
    while i > 0
        invariant
            i <= headers@.len(),
            header_for(headers@, id@) == header_for(headers@.take(i as int), id@),
        decreases i,
    {
        proof {
            let cut = headers@.take(i as int);
            assert(cut.last() == headers@[i as int - 1]);
            assert(cut.drop_last() =~= headers@.take(i as int - 1));
        }
        if headers[i - 1].evidence_id.same(id) {
            return Some(headers[i - 1].clone());
        }
        i = i - 1;
    }
    None
}

pub open spec fn has_body_for(bodies: Seq<MailBodyEvidence>, id: Seq<char>) -> bool {
    exists|k: int| 0 <= k < bodies.len() && (#[trigger] bodies[k]).header_id@ == id
}

/// A readable body of a known message.
pub open spec fn body_acceptable(
    result: OperationResult<MailBodyEvidence>,
    headers: Seq<MailHeaderEvidence>,
) -> bool {
    &&& result.execution is Succeeded
    &&& result.value is Some
    &&& result.value->0.body_state is Readable
    &&& trim(result.value->0.body@).len() > 0
    &&& header_for(headers, result.value->0.header_id@) is Some
}

/// The first readable body of each known message, in order.
pub open spec fn accepted_bodies(
    results: Seq<OperationResult<MailBodyEvidence>>,
    headers: Seq<MailHeaderEvidence>,
) -> Seq<MailBodyEvidence>
    decreases results.len(),
{
    if results.len() == 0 {
        Seq::empty()
    } else {
        let before = accepted_bodies(results.drop_last(), headers);
        if body_acceptable(results.last(), headers) && !has_body_for(
            before,
            results.last().value->0.header_id@,
        ) {
            before.push(results.last().value->0)
        } else {
            before
        }
    }
}

/// Whether a body stays out of ordinary synthesis.
pub open spec fn body_excluded(body: MailBodyEvidence, allow_instructions: bool) -> bool {
    !allow_instructions && instruction_like(body.body@)
}

/// The bodies that may be used.
pub open spec fn kept_bodies(bodies: Seq<MailBodyEvidence>, allow_instructions: bool) -> Seq<
    MailBodyEvidence,
>
    decreases bodies.len(),
{
    if bodies.len() == 0 {
        bodies
    } else if body_excluded(bodies.last(), allow_instructions) {
        kept_bodies(bodies.drop_last(), allow_instructions)
    } else {
        kept_bodies(bodies.drop_last(), allow_instructions).push(bodies.last())
    }
}

/// The evidence that is left out as instruction-like.
pub open spec fn excluded_bodies(bodies: Seq<MailBodyEvidence>, allow_instructions: bool) -> Seq<
    EvidenceId,
>
    decreases bodies.len(),
{
    if bodies.len() == 0 {
        Seq::empty()
    } else if body_excluded(bodies.last(), allow_instructions) {
        excluded_bodies(bodies.drop_last(), allow_instructions).push(bodies.last().evidence_id)
    } else {
        excluded_bodies(bodies.drop_last(), allow_instructions)
    }
}

proof fn lemma_accepted_known(
    results: Seq<OperationResult<MailBodyEvidence>>,
    headers: Seq<MailHeaderEvidence>,
)
    ensures
        forall|k: int|
            0 <= k < accepted_bodies(results, headers).len() ==> header_for(
                headers,
                (#[trigger] accepted_bodies(results, headers)[k]).header_id@,
            ) is Some,
    decreases results.len(),
{
    if results.len() > 0 {
        lemma_accepted_known(results.drop_last(), headers);
    }
}

proof fn lemma_kept_known(
    bodies: Seq<MailBodyEvidence>,
    allow: bool,
    headers: Seq<MailHeaderEvidence>,
)
    requires
        forall|k: int|
            0 <= k < bodies.len() ==> header_for(headers, (#[trigger] bodies[k]).header_id@) is Some,
    ensures
        forall|k: int|
            0 <= k < kept_bodies(bodies, allow).len() ==> header_for(
                headers,
                (#[trigger] kept_bodies(bodies, allow)[k]).header_id@,
            ) is Some,
    decreases bodies.len(),
{
    if bodies.len() > 0 {
        assert forall|k: int| 0 <= k < bodies.drop_last().len() implies header_for(
            headers,
            (#[trigger] bodies.drop_last()[k]).header_id@,
        ) is Some by {
            assert(bodies.drop_last()[k] == bodies[k]);
        }
        assert(header_for(headers, bodies[bodies.len() - 1].header_id@) is Some);
        lemma_kept_known(bodies.drop_last(), allow, headers);
    }
}

/// The items of the first `n` bodies with their headers.
pub open spec fn body_items(
    bodies: Seq<MailBodyEvidence>,
    headers: Seq<MailHeaderEvidence>,
    n: int,
) -> Seq<MailBundleItem> {
    let len = if bodies.len() <= n {
        bodies.len()
    } else {
        n as nat
    };
    Seq::new(
        len,
        |i: int| bundle_item(header_for(headers, bodies[i].header_id@)->0, Some(bodies[i])),
    )
}

fn knows_body(bodies: &Vec<MailBodyEvidence>, id: &EvidenceId) -> (r: bool)
    ensures
        r == has_body_for(bodies@, id@),
{
    let mut k: usize = 0;
    while k < bodies.len()
        invariant
            k <= bodies@.len(),
            forall|j: int| 0 <= j < k ==> (#[trigger] bodies@[j]).header_id@ != id@,
        decreases bodies@.len() - k,
    {
        if bodies[k].header_id.same(id) {
            assert(bodies@[k as int].header_id@ == id@);
            return true;
        }
        k = k + 1;
    }
    false
}

fn accept_bodies(
    results: &Vec<OperationResult<MailBodyEvidence>>,
    headers: &Vec<MailHeaderEvidence>,
) -> (r: Vec<MailBodyEvidence>)
    ensures
        r@ == accepted_bodies(results@, headers@),
{
    let mut out: Vec<MailBodyEvidence> = Vec::new();
    let mut i: usize = 0;
    proof {
        assert(out@ =~= accepted_bodies(results@.take(0), headers@));
    }
    while i < results.len()
        invariant
            i <= results@.len(),
            out@ == accepted_bodies(results@.take(i as int), headers@),
        decreases results@.len() - i,
    {
        proof {
            let next = results@.take(i as int + 1);
            assert(next.drop_last() =~= results@.take(i as int));
            assert(next.last() == results@[i as int]);
        }
        if matches!(results[i].execution, ExecutionStatus::Succeeded) {
            if let Some(body) = &results[i].value {
                if matches!(body.body_state, BodyState::Readable) && !is_blank(body.body.as_str()) {
                    if find_header(headers, &body.header_id).is_some() {
                        if !knows_body(&out, &body.header_id) {
                            out.push(body.clone());
                        }
                    }
                }
            }
        }
        i = i + 1;
    }
    proof {
        assert(results@.take(results@.len() as int) =~= results@);
    }
    out
}

fn partition_bodies(bodies: &Vec<MailBodyEvidence>, allow: bool) -> (r: (
    Vec<MailBodyEvidence>,
    Vec<EvidenceExclusion>,
))
    ensures
        r.0@ == kept_bodies(bodies@, allow),
        excludes(r.1@, excluded_bodies(bodies@, allow)),
{
    let mut kept: Vec<MailBodyEvidence> = Vec::new();
    let mut exclusions: Vec<EvidenceExclusion> = Vec::new();
    let mut i: usize = 0;
    proof {
        assert(kept@ =~= kept_bodies(bodies@.take(0), allow));
        assert(excluded_bodies(bodies@.take(0), allow) =~= Seq::empty());
    }
    while i < bodies.len()
        invariant
            i <= bodies@.len(),
            kept@ == kept_bodies(bodies@.take(i as int), allow),
            excludes(exclusions@, excluded_bodies(bodies@.take(i as int), allow)),
        decreases bodies@.len() - i,
    {
        proof {
            let next = bodies@.take(i as int + 1);
            assert(next.drop_last() =~= bodies@.take(i as int));
            assert(next.last() == bodies@[i as int]);
        }
        if !allow && contains_instruction_like(bodies[i].body.as_str()) {
            exclusions.push(exclusion(&bodies[i].evidence_id));
        } else {
            kept.push(bodies[i].clone());
        }
        i = i + 1;
    }
    proof {
        assert(bodies@.take(bodies@.len() as int) =~= bodies@);
    }
    (kept, exclusions)
}

/// The outcome of a request for what messages say.
pub open spec fn content_outcome(
    outcome: ValidationOutcome,
    turn_id: Seq<char>,
    plan: EvidencePlan,
    list: Seq<OperationResult<Vec<MailHeaderEvidence>>>,
    search: Seq<OperationResult<Vec<MailHeaderEvidence>>>,
    bodies: Seq<OperationResult<MailBodyEvidence>>,
    conflicts: Vec<EvidenceConflict>,
    batch: u8,
    requested: u8,
    allow: bool,
) -> bool {
    let headers = distinct(collected_headers(list));
    let accepted = accepted_bodies(bodies, headers);
    let kept = kept_bodies(accepted, allow);
    let excluded = excluded_bodies(accepted, allow);
    let missing = body_shortfalls(
        bodies,
        requested,
        capped(kept.len()),
        capped(excluded.len()),
        batch,
        malformed_count(list, search),
    );
    if kept.len() == 0 {
        is_mail_recovery(
            outcome,
            list,
            search,
            bodies,
            mail_counts(requested, requested),
            missing,
            excluded,
        )
    } else {
        match outcome {
            ValidationOutcome::Bundle(b) => {
                &&& bundle_frame(
                    *b,
                    turn_id,
                    plan,
                    mail_counts(requested, requested),
                    mail_counts(
                        least(capped(headers.len()), batch),
                        least(capped(kept.len()), batch),
                    ),
                    missing,
                    conflicts,
                )
                &&& b.mail@ == body_items(kept, headers, batch as int)
                &&& b.web@.len() == 0
                &&& excludes(b.exclusions@, excluded)
                &&& b.citation_allowlist@.len() == 0
            },
            _ => false,
        }
    }
}

pub fn validate_mail_content(
    turn_id: &str,
    plan: &EvidencePlan,
    results: EvidenceResults,
    batch_count: u8,
    requested_count: u8,
    allow_instruction_analysis: bool,
) -> (r: ValidationOutcome)
    ensures
        content_outcome(
            r,
            turn_id@,
            *plan,
            results.mail_list@,
            results.mail_search@,
            results.mail_bodies@,
            results.conflicts,
            batch_count,
            requested_count,
            allow_instruction_analysis,
        ),
{
    let headers = collect_headers(&results.mail_list);
    let accepted = accept_bodies(&results.mail_bodies, &headers);
    let (kept, exclusions) = partition_bodies(&accepted, allow_instruction_analysis);
    let missing = mail_body_shortfalls(
        &results,
        requested_count,
        usize_to_u8(kept.len()),
        usize_to_u8(exclusions.len()),
        batch_count,
        invalid_mail_header_count(&results),
    );
    if kept.len() == 0 {
        return mail_recovery(
            &results,
            EvidenceCounts {
                mail_headers: requested_count,
                mail_bodies: requested_count,
                web_sources: 0,
            },
            missing,
            exclusions,
        );
    }
    let acquired_bodies = min_of(usize_to_u8(kept.len()), batch_count);
    let acquired_headers = min_of(usize_to_u8(headers.len()), batch_count);
    proof {
        lemma_accepted_known(results.mail_bodies@, headers@);
        lemma_kept_known(accepted@, allow_instruction_analysis, headers@);
    }
    let mut mail: Vec<MailBundleItem> = Vec::new();
    let mut i: usize = 0;
    while i < kept.len() && i < batch_count as usize
        invariant
            i <= kept@.len(),
            i <= batch_count,
            forall|k: int|
                0 <= k < kept@.len() ==> header_for(headers@, (#[trigger] kept@[k]).header_id@) is Some,
            mail@.len() == i,
            forall|k: int|
                0 <= k < i ==> #[trigger] mail@[k] == bundle_item(
                    header_for(headers@, kept@[k].header_id@)->0,
                    Some(kept@[k]),
                ),
        decreases kept@.len() - i,
    {
        proof {
            assert(header_for(headers@, kept@[i as int].header_id@) is Some);
        }
        if let Some(header) = find_header(&headers, &kept[i].header_id) {
            mail.push(mail_bundle_item(&header, Some(&kept[i])));
        }
        i = i + 1;
    }
    proof {
        assert(mail@ =~= body_items(kept@, headers@, batch_count as int));
    }
    ValidationOutcome::Bundle(
        Box::new(
            bundle(
                turn_id,
                plan,
                ValidatedEvidence {
                    requested: EvidenceCounts {
                        mail_headers: requested_count,
                        mail_bodies: requested_count,
                        web_sources: 0,
                    },
                    acquired: EvidenceCounts {
                        mail_headers: acquired_headers,
                        mail_bodies: acquired_bodies,
                        web_sources: 0,
                    },
                    missing,
                    mail,
                    web: Vec::new(),
                    exclusions,
                    conflicts: results.conflicts,
                    citations: Vec::new(),
                },
            ),
        ),
    )
}

/// The outcome of a request for particular messages.
pub open spec fn targeted_outcome(
    outcome: ValidationOutcome,
    turn_id: Seq<char>,
    plan: EvidencePlan,
    results: EvidenceResults,
    needs_content: bool,
    allow: bool,
) -> bool {
    let headers = distinct(collected_headers(results.mail_search@));
    if headers.len() > 1 {
        match outcome {
            ValidationOutcome::Clarification { headers: choices, prompt } => choices@ == headers
                && prompt@ == "Multiple messages match. Which one should I use?"@,
            _ => false,
        }
    } else if headers.len() == 0 {
        is_mail_recovery(
            outcome,
            results.mail_list@,
            results.mail_search@,
            results.mail_bodies@,
            mail_counts(
                1,
                if needs_content {
                    1
                } else {
                    0
                },
            ),
            shortfall_of(
                EvidenceRequirement::TargetedMail { needs_content },
                1,
                ShortfallReason::Empty,
            ),
            Seq::empty(),
        )
    } else if needs_content {
        content_outcome(
            outcome,
            turn_id,
            plan,
            results.mail_search@,
            Seq::empty(),
            results.mail_bodies@,
            results.conflicts,
            1,
            1,
            allow,
        )
    } else {
        match outcome {
            ValidationOutcome::Bundle(b) => {
                &&& bundle_frame(
                    *b,
                    turn_id,
                    plan,
                    header_counts(1),
                    header_counts(1),
                    Seq::empty(),
                    results.conflicts,
                )
                &&& b.mail@ == header_items(headers, 1)
                &&& b.web@.len() == 0
                &&& b.exclusions@.len() == 0
                &&& b.citation_allowlist@.len() == 0
            },
            _ => false,
        }
    }
}

pub fn validate_targeted_mail(
    turn_id: &str,
    plan: &EvidencePlan,
    results: EvidenceResults,
    needs_content: bool,
    allow_instruction_analysis: bool,
) -> (r: ValidationOutcome)
    ensures
        targeted_outcome(r, turn_id@, *plan, results, needs_content, allow_instruction_analysis),
{
    let headers = collect_headers(&results.mail_search);
    if headers.len() > 1 {
        return ValidationOutcome::Clarification {
            headers,
            prompt: "Multiple messages match. Which one should I use?".to_owned(),
        };
    }
    if headers.len() == 0 {
        let missing = shortfall(
            EvidenceRequirement::TargetedMail { needs_content },
            1,
            ShortfallReason::Empty,
        );
        let none: Vec<EvidenceExclusion> = Vec::new();
        proof {
            assert(excludes(none@, Seq::empty()));
        }
        return mail_recovery(
            &results,
            EvidenceCounts {
                mail_headers: 1,
                mail_bodies: if needs_content {
                    1
                } else {
                    0
                },
                web_sources: 0,
            },
            missing,
            none,
        );
    }
    if needs_content {
        let none: Vec<OperationResult<Vec<MailHeaderEvidence>>> = Vec::new();
        proof {
            assert(none@ =~= Seq::empty());
        }
        return validate_mail_content(
            turn_id,
            plan,
            EvidenceResults {
                mail_list: results.mail_search,
                mail_search: none,
                mail_bodies: results.mail_bodies,
                web_searches: Vec::new(),
                web_fetches: Vec::new(),
                conflicts: results.conflicts,
            },
            1,
            1,
            allow_instruction_analysis,
        );
    }
    let mail = items_of(&headers, 1);
    let missing: Vec<EvidenceShortfall> = Vec::new();
    proof {
        assert(missing@ =~= Seq::empty());
    }
    ValidationOutcome::Bundle(
        Box::new(
            bundle(
                turn_id,
                plan,
                ValidatedEvidence {
                    requested: EvidenceCounts { mail_headers: 1, mail_bodies: 0, web_sources: 0 },
                    acquired: EvidenceCounts { mail_headers: 1, mail_bodies: 0, web_sources: 0 },
                    missing,
                    mail,
                    web: Vec::new(),
                    exclusions: Vec::new(),
                    conflicts: results.conflicts,
                    citations: Vec::new(),
                },
            ),
        ),
    )
}

/// The outcome of a turn for an intent that is not a quoted analysis.
pub open spec fn outcome_for(
    outcome: ValidationOutcome,
    turn_id: Seq<char>,
    plan: EvidencePlan,
    intent: EvidenceIntent,
    results: EvidenceResults,
    allow: bool,
) -> bool {
    match intent {
        EvidenceIntent::MailLatestHeaders { count, .. } => headers_outcome(
            outcome,
            turn_id,
            plan,
            results,
            count,
        ),
        EvidenceIntent::MailLatestContent { count, requested_count, .. } => content_outcome(
            outcome,
            turn_id,
            plan,
            results.mail_list@,
            results.mail_search@,
            results.mail_bodies@,
            results.conflicts,
            count,
            requested_count,
            allow,
        ),
        EvidenceIntent::MailTargeted { needs_content, .. } => targeted_outcome(
            outcome,
            turn_id,
            plan,
            results,
            needs_content,
            allow,
        ),
        EvidenceIntent::WebDirectPage { .. } => web_outcome(
            outcome,
            turn_id,
            plan,
            intent,
            results,
            1,
            allow,
        ),
        EvidenceIntent::WebFact { verification, .. } => web_outcome(
            outcome,
            turn_id,
            plan,
            intent,
            results,
            required_sources(verification),
            allow,
        ),
        EvidenceIntent::AnalyzeQuotedEvidence { .. } => false,
    }
}

/// The outcome of a turn: a quoted analysis may use content that reads like
/// an instruction, any other intent may not.
pub open spec fn validated(
    outcome: ValidationOutcome,
    turn_id: Seq<char>,
    plan: EvidencePlan,
    results: EvidenceResults,
) -> bool {
    outcome_for(
        outcome,
        turn_id,
        plan,
        operational(plan.intent),
        results,
        plan.intent is AnalyzeQuotedEvidence,
    )
}

fn validate_intent(
    turn_id: &str,
    plan: &EvidencePlan,
    intent: &EvidenceIntent,
    results: EvidenceResults,
    allow: bool,
) -> (r: ValidationOutcome)
    requires
        !(intent is AnalyzeQuotedEvidence),
    ensures
        outcome_for(r, turn_id@, *plan, *intent, results, allow),
{
    match intent {
        EvidenceIntent::MailLatestHeaders { count, .. } => validate_mail_headers(
            turn_id,
            plan,
            results,
            *count,
        ),
        EvidenceIntent::MailLatestContent { count, requested_count, .. } => validate_mail_content(
            turn_id,
            plan,
            results,
            *count,
            *requested_count,
            allow,
        ),
        EvidenceIntent::MailTargeted { needs_content, .. } => validate_targeted_mail(
            turn_id,
            plan,
            results,
            *needs_content,
            allow,
        ),
        EvidenceIntent::WebFact { verification, .. } => validate_web(
            turn_id,
            plan,
            intent,
            results,
            sources_for(*verification),
            allow,
        ),
        _ => validate_web(turn_id, plan, intent, results, 1, allow),
    }
}

pub struct EvidenceValidator;

impl EvidenceValidator {
    pub fn validate(turn_id: &str, plan: &EvidencePlan, results: EvidenceResults) -> (r:
        ValidationOutcome)
        requires
            quoted_once(plan.intent),
        ensures
            validated(r, turn_id@, *plan, results),
            r matches ValidationOutcome::Bundle(b) ==> {
                &&& b.turn_id@ == turn_id@
                &&& b.intent == plan.intent
                &&& b.completeness is Complete <==> b.missing@.len() == 0
                &&& forall|k: int|
                    0 <= k < b.mail@.len() ==> ((#[trigger] b.mail@[k]).body is Some
                        <==> b.mail@[k].body_state is Some) && exists|header: MailHeaderEvidence|
                        #[trigger] returned_header(results, header) && b.mail@[k].evidence_id@
                            == header.evidence_id@ && b.mail@[k].sender@ == header.sender@
                            && b.mail@[k].subject@ == header.subject@ && b.mail@[k].received_at
                            == header.received_at
                &&& forall|k: int|
                    0 <= k < b.mail@.len() ==> ((#[trigger] b.mail@[k]).body matches Some(text)
                        ==> exists|body: MailBodyEvidence| #[trigger]
                        returned_body(results, body) && body.header_id@ == b.mail@[k].evidence_id@
                            && body.body@ == text@)
                &&& b.web@.len() > 0 ==> b.citation_allowlist@.len() == b.web@.len()
                &&& forall|k: int|
                    0 <= k < b.web@.len() ==> (#[trigger] b.web@[k]).evidence.evidence_id
                        == b.citation_allowlist@[k].evidence_id && b.web@[k].evidence.final_url
                        == b.citation_allowlist@[k].url
            },
    {
        let ghost given = results;
        let outcome = match &plan.intent {
            EvidenceIntent::AnalyzeQuotedEvidence { intent } => validate_intent(
                turn_id,
                plan,
                &**intent,
                results,
                true,
            ),
            _ => validate_intent(turn_id, plan, &plan.intent, results, false),
        };
        proof {
            if outcome is Bundle {
                let b = *outcome->Bundle_0;
                bundles_carry_the_turn(outcome, turn_id@, *plan, given);
                assert forall|k: int| 0 <= k < b.mail@.len() implies (
                (#[trigger] b.mail@[k]).body is Some <==> b.mail@[k].body_state is Some)
                    && exists|header: MailHeaderEvidence| #[trigger]
                    returned_header(given, header) && b.mail@[k].evidence_id@
                        == header.evidence_id@ && b.mail@[k].sender@ == header.sender@
                        && b.mail@[k].subject@ == header.subject@ && b.mail@[k].received_at
                        == header.received_at by {
                    mail_items_show_what_was_returned(outcome, turn_id@, *plan, given, k);
                }
                assert forall|k: int| 0 <= k < b.mail@.len() implies ((
                #[trigger] b.mail@[k]).body matches Some(text) ==> exists|body: MailBodyEvidence|
                    #[trigger] returned_body(given, body) && body.header_id@
                        == b.mail@[k].evidence_id@ && body.body@ == text@) by {
                    mail_items_show_what_was_returned(outcome, turn_id@, *plan, given, k);
                }
                if b.web@.len() > 0 {
                    web_items_show_what_was_fetched(outcome, turn_id@, *plan, given, 0);
                }
                assert forall|k: int| 0 <= k < b.web@.len() implies (
                #[trigger] b.web@[k]).evidence.evidence_id == b.citation_allowlist@[k].evidence_id
                    && b.web@[k].evidence.final_url == b.citation_allowlist@[k].url by {
                    web_items_show_what_was_fetched(outcome, turn_id@, *plan, given, k);
                }
            }
        }
        outcome
    }
}

/// The sum of what the shortfalls count as missing.
pub open spec fn total_missing(missing: Seq<EvidenceShortfall>) -> nat
    decreases missing.len(),
{
    if missing.len() == 0 {
        0
    } else {
        missing[0].missing_count as nat + total_missing(missing.drop_first())
    }
}

/// Whatever the causes, the shortfalls account for exactly what is missing.
pub proof fn shortfalls_account_for_all(
    requirement: EvidenceRequirement,
    causes: Seq<(u8, ShortfallReason)>,
    remaining: u8,
)
    ensures
        total_missing(allocated(requirement, causes, remaining)) == remaining,
        (allocated(requirement, causes, remaining).len() == 0) == (remaining == 0),
        forall|i: int|
            0 <= i < allocated(requirement, causes, remaining).len() ==> (#[trigger] allocated(
                requirement,
                causes,
                remaining,
            )[i]).missing_count > 0,
    decreases causes.len(),
{
    reveal_with_fuel(total_missing, 2);
    if causes.len() == 0 {
    } else {
        let count = least(causes[0].0, remaining);
        let head = shortfall_of(requirement, count, causes[0].1);
        let tail = allocated(requirement, causes.drop_first(), monus(remaining, count));
        shortfalls_account_for_all(requirement, causes.drop_first(), monus(remaining, count));
        if count == 0 {
            assert(head + tail =~= tail);
        } else {
            assert((head + tail).drop_first() =~= tail);
            assert forall|i: int| 0 <= i < (head + tail).len() implies (#[trigger] (head
                + tail)[i]).missing_count > 0 by {
                if i > 0 {
                    assert((head + tail)[i] == tail[i - 1]);
                }
            }
        }
    }
}

/// Requested bodies are either acquired or accounted for as missing.
pub proof fn requested_bodies_are_acquired_or_missing(
    bodies: Seq<OperationResult<MailBodyEvidence>>,
    requested: u8,
    acquired: u8,
    excluded: u8,
    batch: u8,
    malformed: u8,
)
    requires
        acquired <= requested,
    ensures
        acquired + total_missing(
            body_shortfalls(bodies, requested, acquired, excluded, batch, malformed),
        ) == requested,
{
    shortfalls_account_for_all(
        EvidenceRequirement::MailBodies { count: requested },
        body_causes(bodies, requested, excluded, batch, malformed),
        monus(requested, acquired),
    );
}

/// No message is counted twice, and none that was listed is lost.
pub proof fn distinct_headers_cover_each_message_once(headers: Seq<MailHeaderEvidence>)
    ensures
        forall|i: int, j: int|
            0 <= i < j < distinct(headers).len() ==> (#[trigger] distinct(headers)[i]).connector_id@
                != (#[trigger] distinct(headers)[j]).connector_id@,
        forall|i: int|
            0 <= i < headers.len() ==> has_connector(
                distinct(headers),
                (#[trigger] headers[i]).connector_id@,
            ),
    decreases headers.len(),
{
    if headers.len() > 0 {
        let rest = headers.drop_last();
        distinct_headers_cover_each_message_once(rest);
        assert forall|i: int| 0 <= i < headers.len() implies has_connector(
            distinct(headers),
            (#[trigger] headers[i]).connector_id@,
        ) by {
            if i < rest.len() {
                assert(rest[i] == headers[i]);
                assert(has_connector(distinct(rest), rest[i].connector_id@));
                let w = choose|w: int|
                    0 <= w < distinct(rest).len() && (#[trigger] distinct(rest)[w]).connector_id@
                        == rest[i].connector_id@;
                assert(distinct(headers)[w] == distinct(rest)[w]);
            } else if !has_connector(distinct(rest), headers.last().connector_id@) {
                assert(distinct(headers)[distinct(rest).len() as int] == headers.last());
            }
        }
    }
}

proof fn lemma_denied_collects_nothing(list: Seq<OperationResult<Vec<MailHeaderEvidence>>>)
    requires
        forall|i: int| 0 <= i < list.len() ==> (#[trigger] list[i]).execution is Denied,
    ensures
        collected_headers(list).len() == 0,
    decreases list.len(),
{
    if list.len() > 0 {
        assert(list[list.len() - 1].execution is Denied);
        assert forall|i: int| 0 <= i < list.drop_last().len() implies (#[trigger] list.drop_last()[i]).execution is Denied by {
            assert(list.drop_last()[i] == list[i]);
        }
        lemma_denied_collects_nothing(list.drop_last());
    }
}

/// Where every list operation was denied, no header reaches the answer, and
/// the outcome says that access was denied.
pub proof fn denied_mail_shows_nothing(
    outcome: ValidationOutcome,
    turn_id: Seq<char>,
    plan: EvidencePlan,
    results: EvidenceResults,
    requested: u8,
)
    requires
        results.mail_list@.len() > 0,
        forall|i: int|
            0 <= i < results.mail_list@.len() ==> (#[trigger] results.mail_list@[i]).execution is Denied,
        headers_outcome(outcome, turn_id, plan, results, requested),
    ensures
        outcome is Recovery,
        outcome->Recovery_0.kind is Denied,
{
    lemma_denied_collects_nothing(results.mail_list@);
    let all = statuses(results.mail_list@) + statuses(results.mail_search@) + statuses(
        results.mail_bodies@,
    );
    assert(results.mail_list@[0].execution is Denied);
    assert(all[0] == results.mail_list@[0].execution);
    assert(any_status(all, is_denied()));
}

/// Ordinary synthesis uses no body that reads like an instruction; a quoted
/// analysis uses all of them.
pub proof fn instruction_bodies_stay_out(bodies: Seq<MailBodyEvidence>)
    ensures
        forall|k: int|
            0 <= k < kept_bodies(bodies, false).len() ==> !instruction_like(
                (#[trigger] kept_bodies(bodies, false)[k]).body@,
            ),
        kept_bodies(bodies, true) == bodies,
        excluded_bodies(bodies, true).len() == 0,
    decreases bodies.len(),
{
    if bodies.len() > 0 {
        instruction_bodies_stay_out(bodies.drop_last());
        assert(bodies.drop_last().push(bodies.last()) =~= bodies);
    }
}

/// Each readable body is either kept or excluded.
pub proof fn bodies_are_kept_or_excluded(bodies: Seq<MailBodyEvidence>, allow: bool)
    ensures
        kept_bodies(bodies, allow).len() + excluded_bodies(bodies, allow).len() == bodies.len(),
    decreases bodies.len(),
{
    if bodies.len() > 0 {
        bodies_are_kept_or_excluded(bodies.drop_last(), allow);
    }
}

} // verus!
