//! Validation of fetched pages: which of them ground an answer, which of their
//! passages may be used, and what may be cited.

use crate::order::{sort_set, sorted_set};
use crate::text::{join, join_chars, push_all, push_text, string_of, texts, trim};
use crate::types::{
    is_readable, readable, CandidateId, CitationTarget, Completeness, EvidenceBundle,
    EvidenceContribution, EvidenceCounts, EvidenceExclusion, EvidenceId, EvidenceIntent,
    EvidencePassage, EvidencePlan, EvidenceRequirement, EvidenceResults, ExecutionStatus,
    OperationResult, RecoveryKind, RecoveryOutcome, ShortfallReason, SourceAuthority,
    SourceIdentity, ValidatedReference, ValidationOutcome, VerificationLevel, WebBundleItem,
    WebCandidate, WebFetchEvidence, WebSearchResult, EVIDENCE_SCHEMA_VERSION,
};
use crate::validator::{
    bundle_frame, capped, contains_instruction_like, excludes, exclusion, instruction_like,
    is_blank, least, min_of, minus, monus, shortfall, shortfall_of, usize_to_u8,
};
use crate::weburl::WebUrl;
use vstd::prelude::*;

verus! {

/// The candidates of all searches that succeeded, in order.
pub open spec fn searched(searches: Seq<OperationResult<WebSearchResult>>) -> Seq<WebCandidate>
    decreases searches.len(),
{
    if searches.len() == 0 {
        Seq::empty()
    } else {
        let before = searched(searches.drop_last());
        match searches.last().value {
            Some(search) => if searches.last().execution is Succeeded {
                before + search.candidates@
            } else {
                before
            },
            None => before,
        }
    }
}

/// The address under which a search found a candidate: the last one.
pub open spec fn found_url(candidates: Seq<WebCandidate>, id: Seq<char>) -> Option<WebUrl>
    decreases candidates.len(),
{
    if candidates.len() == 0 {
        None
    } else if candidates.last().candidate_id@ == id {
        Some(candidates.last().requested_url)
    } else {
        found_url(candidates.drop_last(), id)
    }
}

/// A fetched page links to the address.
pub open spec fn is_linked(fetches: Seq<OperationResult<WebFetchEvidence>>, url: Seq<char>) -> bool {
    exists|i: int, j: int|
        0 <= i < fetches.len() && (#[trigger] fetches[i]).value is Some && 0 <= j
            < fetches[i].value->0.links@.len() && (#[trigger] fetches[i].value->0.links@[j]).url.text@
            == url
}

/// The page is the one that was asked for, or one that a search or a fetched
/// page led to.
pub open spec fn was_requested(
    evidence: WebFetchEvidence,
    intent: EvidenceIntent,
    candidates: Seq<WebCandidate>,
    fetches: Seq<OperationResult<WebFetchEvidence>>,
) -> bool {
    match intent {
        EvidenceIntent::WebDirectPage { url } => evidence.requested_url.text@ == url.text@,
        EvidenceIntent::WebFact { .. } => {
            ||| (found_url(candidates, evidence.candidate_id@) is Some && found_url(
                candidates,
                evidence.candidate_id@,
            )->0.text@ == evidence.requested_url.text@)
            ||| is_linked(fetches, evidence.requested_url.text@)
        },
        _ => false,
    }
}

/// One source settles a question only where it speaks for itself.
pub open spec fn authority_suffices(evidence: WebFetchEvidence, intent: EvidenceIntent) -> bool {
    match intent {
        EvidenceIntent::WebFact { verification, .. } => verification is Corroborated
            || evidence.authority is FirstParty,
        _ => true,
    }
}

pub open spec fn has_text(passages: Seq<EvidencePassage>) -> bool {
    exists|i: int| 0 <= i < passages.len() && trim((#[trigger] passages[i]).text@).len() > 0
}

/// The page was read well enough to be evidence.
pub open spec fn legible(evidence: WebFetchEvidence) -> bool {
    &&& readable(evidence.extraction)
    &&& evidence.quality.low_quality_reason is None
    &&& has_text(evidence.passages@)
}

/// A fetch whose page may ground an answer.
pub open spec fn eligible(
    result: OperationResult<WebFetchEvidence>,
    intent: EvidenceIntent,
    candidates: Seq<WebCandidate>,
    fetches: Seq<OperationResult<WebFetchEvidence>>,
) -> bool {
    &&& result.execution is Succeeded
    &&& (result.contribution is Satisfied || result.contribution is Partial)
    &&& result.value is Some
    &&& was_requested(result.value->0, intent, candidates, fetches)
    &&& authority_suffices(result.value->0, intent)
    &&& legible(result.value->0)
}

pub open spec fn passage_excluded(passage: EvidencePassage, allow: bool) -> bool {
    !allow && instruction_like(passage.text@)
}

/// The passages that may be used.
pub open spec fn kept_passages(passages: Seq<EvidencePassage>, allow: bool) -> Seq<EvidencePassage>
    decreases passages.len(),
{
    if passages.len() == 0 {
        passages
    } else if passage_excluded(passages.last(), allow) {
        kept_passages(passages.drop_last(), allow)
    } else {
        kept_passages(passages.drop_last(), allow).push(passages.last())
    }
}

/// The passages that are left out as instruction-like.
pub open spec fn excluded_passages(passages: Seq<EvidencePassage>, allow: bool) -> Seq<EvidenceId>
    decreases passages.len(),
{
    if passages.len() == 0 {
        Seq::empty()
    } else if passage_excluded(passages.last(), allow) {
        excluded_passages(passages.drop_last(), allow).push(passages.last().passage_id)
    } else {
        excluded_passages(passages.drop_last(), allow)
    }
}

/// One of the chosen fetches is by this publisher.
pub open spec fn has_source(
    fetches: Seq<OperationResult<WebFetchEvidence>>,
    chosen: Seq<int>,
    identity: Seq<char>,
) -> bool {
    exists|k: int|
        0 <= k < chosen.len() && fetches[#[trigger] chosen[k]].value->0.source_identity@ == identity
}

/// After the first `n` fetches: the chosen ones, at most one per publisher, and
/// the passages left out.
pub open spec fn selection(
    fetches: Seq<OperationResult<WebFetchEvidence>>,
    intent: EvidenceIntent,
    candidates: Seq<WebCandidate>,
    allow: bool,
    n: int,
) -> (Seq<int>, Seq<EvidenceId>)
    decreases n,
{
    if n <= 0 {
        (Seq::empty(), Seq::empty())
    } else {
        let (chosen, excluded) = selection(fetches, intent, candidates, allow, n - 1);
        let result = fetches[n - 1];
        if eligible(result, intent, candidates, fetches) {
            let evidence = result.value->0;
            let left_out = excluded + excluded_passages(evidence.passages@, allow);
            if kept_passages(evidence.passages@, allow).len() > 0 && evidence.final_url.host is Some
                && !has_source(fetches, chosen, evidence.source_identity@) {
                (chosen.push(n - 1), left_out)
            } else {
                (chosen, left_out)
            }
        } else {
            (chosen, excluded)
        }
    }
}

/// The page as it enters the bundle: with the usable passages alone.
pub open spec fn sanitized(out: WebFetchEvidence, evidence: WebFetchEvidence, allow: bool) -> bool {
    &&& out.evidence_id == evidence.evidence_id
    &&& out.candidate_id == evidence.candidate_id
    &&& out.requested_url == evidence.requested_url
    &&& out.final_url == evidence.final_url
    &&& out.redirect_chain@ == evidence.redirect_chain@
    &&& out.http_status == evidence.http_status
    &&& out.content_type == evidence.content_type
    &&& out.bytes_read == evidence.bytes_read
    &&& out.characters_extracted == evidence.characters_extracted
    &&& out.extraction == evidence.extraction
    &&& out.quality == evidence.quality
    &&& out.page_owner_identity_bound == evidence.page_owner_identity_bound
    &&& out.authority == evidence.authority
    &&& out.source_identity == evidence.source_identity
    &&& out.passages@ == kept_passages(evidence.passages@, allow)
    &&& out.links@ == evidence.links@
}

pub open spec fn web_counts(count: u8) -> EvidenceCounts {
    EvidenceCounts { mail_headers: 0, mail_bodies: 0, web_sources: count }
}

/// A fetched page as a link: its host, and its address.
pub open spec fn link_text(url: WebUrl) -> Seq<char> {
    "["@ + crate::weburl::host_text(url) + "]("@ + url.text@ + ")"@
}

/// The links of the pages that were fetched for the request, usable or not.
pub open spec fn fetched_links(
    fetches: Seq<OperationResult<WebFetchEvidence>>,
    intent: EvidenceIntent,
    candidates: Seq<WebCandidate>,
    n: int,
) -> Seq<Seq<char>>
    decreases n,
{
    if n <= 0 {
        Seq::empty()
    } else {
        let before = fetched_links(fetches, intent, candidates, n - 1);
        let result = fetches[n - 1];
        if result.execution is Succeeded && result.value is Some && was_requested(
            result.value->0,
            intent,
            candidates,
            fetches,
        ) && result.value->0.final_url.host is Some {
            before.push(link_text(result.value->0.final_url))
        } else {
            before
        }
    }
}

pub open spec fn shortfall_message(links: Seq<Seq<char>>) -> Seq<char> {
    let suffix = if links.len() == 0 {
        Seq::empty()
    } else {
        " Sources fetched but not usable: "@ + join(sorted_set(links), ", "@) + "."@
    };
    "Verification Shortfall: I couldn't verify this request from fetched page evidence."@ + suffix
        + " You can retry or provide a direct authoritative URL."@
}

/// The outcome of a request to the web.
pub open spec fn web_outcome(
    outcome: ValidationOutcome,
    turn_id: Seq<char>,
    plan: EvidencePlan,
    intent: EvidenceIntent,
    results: EvidenceResults,
    requested: u8,
    allow: bool,
) -> bool {
    let fetches = results.web_fetches@;
    let candidates = searched(results.web_searches@);
    let (chosen, excluded) = selection(fetches, intent, candidates, allow, fetches.len() as int);
    let acquired = least(capped(chosen.len()), requested);
    let shown = if chosen.len() <= requested {
        chosen.len()
    } else {
        requested as nat
    };
    let missing = shortfall_of(
        EvidenceRequirement::FetchedSources { count: requested },
        monus(requested, acquired),
        ShortfallReason::VerificationFailed,
    );
    if chosen.len() == 0 {
        match outcome {
            ValidationOutcome::Recovery(recovery) => {
                &&& recovery.kind is VerificationShortfall
                &&& recovery.requested == web_counts(requested)
                &&& recovery.message@ == shortfall_message(
                    fetched_links(fetches, intent, candidates, fetches.len() as int),
                )
                &&& recovery.missing@ == missing
                &&& excludes(recovery.exclusions@, excluded)
            },
            _ => false,
        }
    } else {
        match outcome {
            ValidationOutcome::Bundle(b) => {
                &&& bundle_frame(
                    *b,
                    turn_id,
                    plan,
                    web_counts(requested),
                    web_counts(acquired),
                    missing,
                    results.conflicts,
                )
                &&& b.mail@.len() == 0
                &&& b.web@.len() == shown
                &&& b.citation_allowlist@.len() == shown
                &&& forall|i: int|
                    0 <= i < shown ==> sanitized(
                        (#[trigger] b.web@[i]).evidence,
                        fetches[chosen[i]].value->0,
                        allow,
                    )
                &&& forall|i: int|
                    0 <= i < shown ==> #[trigger] b.citation_allowlist@[i] == (CitationTarget {
                        evidence_id: fetches[chosen[i]].value->0.evidence_id,
                        url: fetches[chosen[i]].value->0.final_url,
                    })
                &&& excludes(b.exclusions@, excluded)
            },
            _ => false,
        }
    }
}

fn collect_searched(searches: &Vec<OperationResult<WebSearchResult>>) -> (r: Vec<WebCandidate>)
    ensures
        r@ == searched(searches@),
{
    let mut out: Vec<WebCandidate> = Vec::new();
    let mut i: usize = 0;
    proof {
        assert(out@ =~= searched(searches@.take(0)));
    }
    while i < searches.len()
        invariant
            i <= searches@.len(),
            out@ == searched(searches@.take(i as int)),
        decreases searches@.len() - i,
    {
        proof {
            let next = searches@.take(i as int + 1);
            assert(next.drop_last() =~= searches@.take(i as int));
            assert(next.last() == searches@[i as int]);
        }
        if let Some(search) = &searches[i].value {
            if matches!(searches[i].execution, ExecutionStatus::Succeeded) {
                let candidates = &search.candidates;
                let ghost start = out@;
                let mut k: usize = 0;
                while k < candidates.len()
                    invariant
                        k <= candidates@.len(),
                        out@ == start + candidates@.take(k as int),
                    decreases candidates@.len() - k,
                {
                    out.push(candidates[k].clone());
                    proof {
                        assert(start + candidates@.take(k as int + 1) =~= (start + candidates@.take(
                            k as int,
                        )).push(candidates@[k as int]));
                    }
                    k = k + 1;
                }
                proof {
                    assert(candidates@.take(candidates@.len() as int) =~= candidates@);
                }
            }
        }
        i = i + 1;
    }
    proof {
        assert(searches@.take(searches@.len() as int) =~= searches@);
    }
    out
}

fn find_url(candidates: &Vec<WebCandidate>, id: &CandidateId) -> (r: Option<WebUrl>)
    ensures
        r == found_url(candidates@, id@),
{
    let mut i: usize = candidates.len();
    proof {
        assert(candidates@.take(candidates@.len() as int) =~= candidates@);
    }
    while i > 0
        invariant
            i <= candidates@.len(),
            found_url(candidates@, id@) == found_url(candidates@.take(i as int), id@),
        decreases i,
    {
        proof {
            let cut = candidates@.take(i as int);
            assert(cut.last() == candidates@[i as int - 1]);
            assert(cut.drop_last() =~= candidates@.take(i as int - 1));
        }
        if candidates[i - 1].candidate_id.same(id) {
            return Some(candidates[i - 1].requested_url.clone());
        }
        i = i - 1;
    }
    None
}

fn links_to(fetches: &Vec<OperationResult<WebFetchEvidence>>, url: &WebUrl) -> (r: bool)
    ensures
        r == is_linked(fetches@, url.text@),
{
    let mut i: usize = 0;
    while i < fetches.len()
        invariant
            i <= fetches@.len(),
            forall|a: int, b: int|
                0 <= a < i && (#[trigger] fetches@[a]).value is Some && 0 <= b
                    < fetches@[a].value->0.links@.len() ==> (#[trigger] fetches@[a].value->0.links@[b]).url.text@
                    != url.text@,
        decreases fetches@.len() - i,
    {
        if let Some(evidence) = &fetches[i].value {
            let mut j: usize = 0;
            while j < evidence.links.len()
                invariant
                    i < fetches@.len(),
                    fetches@[i as int].value == Some(*evidence),
                    j <= evidence.links@.len(),
                    forall|b: int|
                        0 <= b < j ==> (#[trigger] evidence.links@[b]).url.text@ != url.text@,
                decreases evidence.links@.len() - j,
            {
                if evidence.links[j].url.same(url) {
                    assert(fetches@[i as int].value->0.links@[j as int].url.text@ == url.text@);
                    return true;
                }
                j = j + 1;
            }
        }
        i = i + 1;
    }
    false
}

fn requested(
    evidence: &WebFetchEvidence,
    intent: &EvidenceIntent,
    candidates: &Vec<WebCandidate>,
    fetches: &Vec<OperationResult<WebFetchEvidence>>,
) -> (r: bool)
    ensures
        r == was_requested(*evidence, *intent, candidates@, fetches@),
{
    match intent {
        EvidenceIntent::WebDirectPage { url } => evidence.requested_url.same(url),
        EvidenceIntent::WebFact { .. } => {
            let by_search = match find_url(candidates, &evidence.candidate_id) {
                Some(url) => url.same(&evidence.requested_url),
                None => false,
            };
            by_search || links_to(fetches, &evidence.requested_url)
        },
        _ => false,
    }
}

pub fn any_text(passages: &Vec<EvidencePassage>) -> (r: bool)
    ensures
        r == has_text(passages@),
{
    let mut i: usize = 0;
    while i < passages.len()
        invariant
            i <= passages@.len(),
            forall|k: int| 0 <= k < i ==> trim((#[trigger] passages@[k]).text@).len() == 0,
        decreases passages@.len() - i,
    {
        if !is_blank(passages[i].text.as_str()) {
            assert(trim(passages@[i as int].text@).len() > 0);
            return true;
        }
        i = i + 1;
    }
    false
}

pub fn is_legible(evidence: &WebFetchEvidence) -> (r: bool)
    ensures
        r == legible(*evidence),
{
    is_readable(evidence.extraction) && evidence.quality.low_quality_reason.is_none() && any_text(
        &evidence.passages,
    )
}

fn is_eligible(
    result: &OperationResult<WebFetchEvidence>,
    intent: &EvidenceIntent,
    candidates: &Vec<WebCandidate>,
    fetches: &Vec<OperationResult<WebFetchEvidence>>,
) -> (r: bool)
    ensures
        r == eligible(*result, *intent, candidates@, fetches@),
{
    if !matches!(result.execution, ExecutionStatus::Succeeded) {
        return false;
    }
    if !matches!(result.contribution, EvidenceContribution::Satisfied | EvidenceContribution::Partial) {
        return false;
    }
    match &result.value {
        Some(evidence) => {
            let authority = match intent {
                EvidenceIntent::WebFact { verification, .. } => matches!(
                    verification,
                    VerificationLevel::Corroborated
                ) || matches!(evidence.authority, SourceAuthority::FirstParty),
                _ => true,
            };
            requested(evidence, intent, candidates, fetches) && authority && is_legible(evidence)
        },
        None => false,
    }
}

fn split_passages(
    passages: &Vec<EvidencePassage>,
    allow: bool,
    exclusions: &mut Vec<EvidenceExclusion>,
    Ghost(ids): Ghost<Seq<EvidenceId>>,
) -> (r: Vec<EvidencePassage>)
    requires
        excludes(old(exclusions)@, ids),
    ensures
        r@ == kept_passages(passages@, allow),
        excludes(final(exclusions)@, ids + excluded_passages(passages@, allow)),
{
    let mut kept: Vec<EvidencePassage> = Vec::new();
    let mut i: usize = 0;
    proof {
        assert(kept@ =~= kept_passages(passages@.take(0), allow));
        assert(excluded_passages(passages@.take(0), allow) =~= Seq::empty());
        assert(ids + excluded_passages(passages@.take(0), allow) =~= ids);
    }
    while i < passages.len()
        invariant
            i <= passages@.len(),
            kept@ == kept_passages(passages@.take(i as int), allow),
            excludes(exclusions@, ids + excluded_passages(passages@.take(i as int), allow)),
        decreases passages@.len() - i,
    {
        proof {
            let next = passages@.take(i as int + 1);
            assert(next.drop_last() =~= passages@.take(i as int));
            assert(next.last() == passages@[i as int]);
        }
        let ghost before = excluded_passages(passages@.take(i as int), allow);
        if !allow && contains_instruction_like(passages[i].text.as_str()) {
            exclusions.push(exclusion(&passages[i].passage_id));
            proof {
                assert(ids + before.push(passages@[i as int].passage_id) =~= (ids + before).push(
                    passages@[i as int].passage_id,
                ));
            }
        } else {
            kept.push(passages[i].clone());
        }
        i = i + 1;
    }
    proof {
        assert(passages@.take(passages@.len() as int) =~= passages@);
    }
    kept
}

fn keep_passages(passages: &Vec<EvidencePassage>, allow: bool) -> (r: Vec<EvidencePassage>)
    ensures
        r@ == kept_passages(passages@, allow),
{
    let mut ignored: Vec<EvidenceExclusion> = Vec::new();
    proof {
        assert(excludes(ignored@, Seq::empty()));
    }
    split_passages(passages, allow, &mut ignored, Ghost(Seq::empty()))
}

pub open spec fn as_ints(v: Seq<usize>) -> Seq<int> {
    Seq::new(v.len(), |i: int| v[i] as int)
}

fn knows_source(
    fetches: &Vec<OperationResult<WebFetchEvidence>>,
    chosen: &Vec<usize>,
    identity: &SourceIdentity,
) -> (r: bool)
    requires
        forall|k: int|
            0 <= k < chosen@.len() ==> (#[trigger] chosen@[k]) < fetches@.len()
                && fetches@[chosen@[k] as int].value is Some,
    ensures
        r == has_source(fetches@, as_ints(chosen@), identity@),
{
    let mut k: usize = 0;
    while k < chosen.len()
        invariant
            k <= chosen@.len(),
            forall|j: int|
                0 <= j < chosen@.len() ==> (#[trigger] chosen@[j]) < fetches@.len()
                    && fetches@[chosen@[j] as int].value is Some,
            forall|j: int|
                0 <= j < k ==> fetches@[#[trigger] as_ints(chosen@)[j]].value->0.source_identity@
                    != identity@,
        decreases chosen@.len() - k,
    {
        let index: usize = chosen[k];
        if let Some(evidence) = &fetches[index].value {
            if evidence.source_identity.same(identity) {
                proof {
                    assert(as_ints(chosen@)[k as int] == index as int);
                }
                return true;
            }
        }
        k = k + 1;
    }
    false
}

fn select(
    fetches: &Vec<OperationResult<WebFetchEvidence>>,
    intent: &EvidenceIntent,
    candidates: &Vec<WebCandidate>,
    allow: bool,
) -> (r: (Vec<usize>, Vec<EvidenceExclusion>))
    ensures
        as_ints(r.0@) == selection(fetches@, *intent, candidates@, allow, fetches@.len() as int).0,
        excludes(
            r.1@,
            selection(fetches@, *intent, candidates@, allow, fetches@.len() as int).1,
        ),
        forall|k: int|
            0 <= k < r.0@.len() ==> (#[trigger] r.0@[k]) < fetches@.len()
                && fetches@[r.0@[k] as int].value is Some,
{
    let mut chosen: Vec<usize> = Vec::new();
    let mut exclusions: Vec<EvidenceExclusion> = Vec::new();
    let mut i: usize = 0;
    proof {
        assert(as_ints(chosen@) =~= Seq::empty());
        assert(excludes(exclusions@, Seq::empty()));
    }
    while i < fetches.len()
        invariant
            i <= fetches@.len(),
            as_ints(chosen@) == selection(fetches@, *intent, candidates@, allow, i as int).0,
            excludes(
                exclusions@,
                selection(fetches@, *intent, candidates@, allow, i as int).1,
            ),
            forall|k: int|
                0 <= k < chosen@.len() ==> (#[trigger] chosen@[k]) < fetches@.len()
                    && fetches@[chosen@[k] as int].value is Some,
        decreases fetches@.len() - i,
    {
        if is_eligible(&fetches[i], intent, candidates, fetches) {
            if let Some(evidence) = &fetches[i].value {
                let kept = split_passages(
                    &evidence.passages,
                    allow,
                    &mut exclusions,
                    Ghost(selection(fetches@, *intent, candidates@, allow, i as int).1),
                );
                if kept.len() > 0 && evidence.final_url.host.is_some() && !knows_source(
                    fetches,
                    &chosen,
                    &evidence.source_identity,
                ) {
                    let ghost before = chosen@;
                    chosen.push(i);
                    proof {
                        assert(as_ints(chosen@) =~= as_ints(before).push(i as int));
                        assert forall|k: int| 0 <= k < chosen@.len() implies (#[trigger] chosen@[k])
                            < fetches@.len() && fetches@[chosen@[k] as int].value is Some by {
                            if k < before.len() {
                                assert(chosen@[k] == before[k]);
                            }
                        }
                    }
                }
            }
        }
        i = i + 1;
    }
    (chosen, exclusions)
}

fn clone_urls(urls: &Vec<WebUrl>) -> (r: Vec<WebUrl>)
    ensures
        r@ == urls@,
{
    let mut out: Vec<WebUrl> = Vec::new();
    let mut i: usize = 0;
    while i < urls.len()
        invariant
            i <= urls@.len(),
            out@.len() == i,
            forall|k: int| 0 <= k < i ==> out@[k] == urls@[k],
        decreases urls@.len() - i,
    {
        out.push(urls[i].clone());
        i = i + 1;
    }
    out
}

pub fn clone_links(links: &Vec<ValidatedReference>) -> (r: Vec<ValidatedReference>)
    ensures
        r@ == links@,
{
    let mut out: Vec<ValidatedReference> = Vec::new();
    let mut i: usize = 0;
    while i < links.len()
        invariant
            i <= links@.len(),
            out@.len() == i,
            forall|k: int| 0 <= k < i ==> out@[k] == links@[k],
        decreases links@.len() - i,
    {
        out.push(links[i].clone());
        i = i + 1;
    }
    out
}

fn sanitize(evidence: &WebFetchEvidence, allow: bool) -> (r: WebFetchEvidence)
    ensures
        sanitized(r, *evidence, allow),
{
    WebFetchEvidence {
        evidence_id: evidence.evidence_id.clone(),
        candidate_id: evidence.candidate_id.clone(),
        requested_url: evidence.requested_url.clone(),
        final_url: evidence.final_url.clone(),
        redirect_chain: clone_urls(&evidence.redirect_chain),
        http_status: evidence.http_status,
        content_type: evidence.content_type.clone(),
        bytes_read: evidence.bytes_read,
        characters_extracted: evidence.characters_extracted,
        extraction: evidence.extraction,
        quality: evidence.quality,
        page_owner_identity_bound: evidence.page_owner_identity_bound,
        authority: evidence.authority,
        source_identity: evidence.source_identity.clone(),
        passages: keep_passages(&evidence.passages, allow),
        links: clone_links(&evidence.links),
    }
}

fn link_of(url: &WebUrl) -> (r: Vec<char>)
    ensures
        r@ == link_text(*url),
{
    let mut out: Vec<char> = Vec::new();
    push_text(&mut out, "[");
    let host = crate::weburl::host_chars(url);
    push_all(&mut out, &host);
    push_text(&mut out, "](");
    push_text(&mut out, url.text.as_str());
    push_text(&mut out, ")");
    proof {
        assert(out@ =~= link_text(*url));
    }
    out
}

fn unusable_message(
    fetches: &Vec<OperationResult<WebFetchEvidence>>,
    intent: &EvidenceIntent,
    candidates: &Vec<WebCandidate>,
) -> (r: String)
    ensures
        r@ == shortfall_message(
            fetched_links(fetches@, *intent, candidates@, fetches@.len() as int),
        ),
{
    let mut links: Vec<Vec<char>> = Vec::new();
    let mut i: usize = 0;
    proof {
        assert(texts(links@) =~= Seq::empty());
    }
    while i < fetches.len()
        invariant
            i <= fetches@.len(),
            texts(links@) == fetched_links(fetches@, *intent, candidates@, i as int),
        decreases fetches@.len() - i,
    {
        let ghost before = links@;
        if matches!(fetches[i].execution, ExecutionStatus::Succeeded) {
            if let Some(evidence) = &fetches[i].value {
                if requested(evidence, intent, candidates, fetches) && evidence.final_url.host.is_some() {
                    links.push(link_of(&evidence.final_url));
                    proof {
                        assert(texts(links@) =~= texts(before).push(link_text(evidence.final_url)));
                    }
                }
            }
        }
        i = i + 1;
    }
    let mut out: Vec<char> = Vec::new();
    push_text(
        &mut out,
        "Verification Shortfall: I couldn't verify this request from fetched page evidence.",
    );
    if links.len() > 0 {
        let ordered = sort_set(&links);
        let joined = join_chars(&ordered, ", ");
        push_text(&mut out, " Sources fetched but not usable: ");
        push_all(&mut out, &joined);
        push_text(&mut out, ".");
    }
    push_text(&mut out, " You can retry or provide a direct authoritative URL.");
    proof {
        assert(texts(links@).len() == links@.len());
        assert(out@ =~= shortfall_message(texts(links@)));
    }
    string_of(&out)
}

pub fn validate_web(
    turn_id: &str,
    plan: &EvidencePlan,
    intent: &EvidenceIntent,
    results: EvidenceResults,
    requested_sources: u8,
    allow_instruction_analysis: bool,
) -> (r: ValidationOutcome)
    ensures
        web_outcome(
            r,
            turn_id@,
            *plan,
            *intent,
            results,
            requested_sources,
            allow_instruction_analysis,
        ),
{
    let allow = allow_instruction_analysis;
    let candidates = collect_searched(&results.web_searches);
    let (chosen, exclusions) = select(&results.web_fetches, intent, &candidates, allow);
    proof {
        assert(as_ints(chosen@).len() == chosen@.len());
    }
    let acquired = min_of(usize_to_u8(chosen.len()), requested_sources);
    let missing = shortfall(
        EvidenceRequirement::FetchedSources { count: requested_sources },
        minus(requested_sources, acquired),
        ShortfallReason::VerificationFailed,
    );
    if chosen.len() == 0 {
        let message = unusable_message(&results.web_fetches, intent, &candidates);
        return ValidationOutcome::Recovery(
            RecoveryOutcome {
                kind: RecoveryKind::VerificationShortfall,
                requested: EvidenceCounts {
                    mail_headers: 0,
                    mail_bodies: 0,
                    web_sources: requested_sources,
                },
                message,
                missing,
                exclusions,
            },
        );
    }
    let mut web: Vec<WebBundleItem> = Vec::new();
    let mut citations: Vec<CitationTarget> = Vec::new();
    let mut i: usize = 0;
    while i < chosen.len() && i < requested_sources as usize
        invariant
            i <= chosen@.len(),
            i <= requested_sources,
            forall|k: int|
                0 <= k < chosen@.len() ==> (#[trigger] chosen@[k]) < results.web_fetches@.len()
                    && results.web_fetches@[chosen@[k] as int].value is Some,
            web@.len() == i,
            citations@.len() == i,
            forall|k: int|
                0 <= k < i ==> sanitized(
                    (#[trigger] web@[k]).evidence,
                    results.web_fetches@[as_ints(chosen@)[k]].value->0,
                    allow,
                ),
            forall|k: int|
                0 <= k < i ==> #[trigger] citations@[k] == (CitationTarget {
                    evidence_id: results.web_fetches@[as_ints(chosen@)[k]].value->0.evidence_id,
                    url: results.web_fetches@[as_ints(chosen@)[k]].value->0.final_url,
                }),
        decreases chosen@.len() - i,
    {
        let index: usize = chosen[i];
        proof {
            assert(as_ints(chosen@)[i as int] == index as int);
        }
        if let Some(evidence) = &results.web_fetches[index].value {
            web.push(WebBundleItem { evidence: sanitize(evidence, allow) });
            citations.push(
                CitationTarget {
                    evidence_id: evidence.evidence_id.clone(),
                    url: evidence.final_url.clone(),
                },
            );
        }
        i = i + 1;
    }
    ValidationOutcome::Bundle(
        Box::new(
            EvidenceBundle {
                version: EVIDENCE_SCHEMA_VERSION,
                turn_id: turn_id.to_owned(),
                intent: plan.intent.clone(),
                completeness: if missing.len() == 0 {
                    Completeness::Complete
                } else {
                    Completeness::Partial
                },
                requested: EvidenceCounts {
                    mail_headers: 0,
                    mail_bodies: 0,
                    web_sources: requested_sources,
                },
                acquired: EvidenceCounts { mail_headers: 0, mail_bodies: 0, web_sources: acquired },
                missing,
                mail: Vec::new(),
                web,
                conflicts: results.conflicts,
                exclusions,
                citation_allowlist: citations,
            },
        ),
    )
}

proof fn lemma_selection_distinct(
    fetches: Seq<OperationResult<WebFetchEvidence>>,
    intent: EvidenceIntent,
    candidates: Seq<WebCandidate>,
    allow: bool,
    n: int,
)
    requires
        0 <= n <= fetches.len(),
    ensures
        ({
            let chosen = selection(fetches, intent, candidates, allow, n).0;
            &&& forall|k: int|
                0 <= k < chosen.len() ==> 0 <= #[trigger] chosen[k] < n && eligible(
                    fetches[chosen[k]],
                    intent,
                    candidates,
                    fetches,
                )
            &&& forall|j: int, k: int|
                0 <= j < k < chosen.len() ==> fetches[#[trigger] chosen[j]].value->0.source_identity@
                    != fetches[#[trigger] chosen[k]].value->0.source_identity@
        }),
    decreases n,
{
    if n > 0 {
        lemma_selection_distinct(fetches, intent, candidates, allow, n - 1);
    }
}

/// Every page of a bundle was fetched successfully for this request, was
/// readable, and no two of them are by one publisher. A snippet of a search is
/// never evidence.
pub proof fn bundled_pages_are_fetched_and_independent(
    fetches: Seq<OperationResult<WebFetchEvidence>>,
    intent: EvidenceIntent,
    candidates: Seq<WebCandidate>,
    allow: bool,
)
    ensures
        ({
            let chosen = selection(fetches, intent, candidates, allow, fetches.len() as int).0;
            &&& forall|k: int|
                0 <= k < chosen.len() ==> 0 <= #[trigger] chosen[k] < fetches.len() && eligible(
                    fetches[chosen[k]],
                    intent,
                    candidates,
                    fetches,
                )
            &&& forall|j: int, k: int|
                0 <= j < k < chosen.len() ==> fetches[#[trigger] chosen[j]].value->0.source_identity@
                    != fetches[#[trigger] chosen[k]].value->0.source_identity@
        }),
{
    lemma_selection_distinct(fetches, intent, candidates, allow, fetches.len() as int);
}

/// No passage that reads like an instruction is kept for ordinary synthesis,
/// and a quoted analysis keeps all of them.
pub proof fn instruction_passages_stay_out(passages: Seq<EvidencePassage>)
    ensures
        forall|k: int|
            0 <= k < kept_passages(passages, false).len() ==> !instruction_like(
                (#[trigger] kept_passages(passages, false)[k]).text@,
            ),
        kept_passages(passages, true) == passages,
        excluded_passages(passages, true).len() == 0,
    decreases passages.len(),
{
    if passages.len() > 0 {
        let rest = passages.drop_last();
        instruction_passages_stay_out(rest);
        assert(rest.push(passages.last()) =~= passages);
        assert forall|k: int| 0 <= k < kept_passages(passages, false).len() implies !instruction_like(
            (#[trigger] kept_passages(passages, false)[k]).text@,
        ) by {
            if k < kept_passages(rest, false).len() {
                assert(kept_passages(passages, false)[k] == kept_passages(rest, false)[k]);
            }
        }
    }
}

} // verus!
