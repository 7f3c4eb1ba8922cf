//! Laws of fetching a page: which peers are asked, what ends a fetch, and what
//! the evidence says of the response.

use crate::address::{prohibited, IpAddress};
use crate::fetch::{
    answer_of, bounded_body, failure_of, fetch_begins, fetch_follows, is_failed_result,
    network_error, request_begins, request_is_resolved, FetchState, FetchStep, RequestStep,
    WebHttpResponse, WebNetworkError, WebRequest,
};
use crate::html::lossy_text;
use crate::identity::{evidence_name, passage_name, source_identity};
use crate::passages::{bounded_passages, MainContent};
use crate::ranking::base_authority;
use crate::text::{ascii_lowercase, collapse, contains};
use crate::types::{ExecutionStatus, FailureCode, OperationResult, WebCandidate, WebFetchEvidence};
use crate::weburl::{
    host_is_prohibited, normalized, normalized_url_text, resolved, shape_is_valid, WebUrl,
};
use vstd::prelude::*;

verus! {

/// What is kept of a body is a front of what came, of at most two million bytes,
/// and all of it where it is no longer than that.
pub proof fn bodies_are_kept_up_to_the_limit(body: Seq<u8>, chunk: Seq<u8>)
    ensures
        bounded_body(body, chunk).is_prefix_of(body + chunk),
        bounded_body(body, chunk).len() <= 2_000_000,
        body.len() + chunk.len() <= 2_000_000 ==> bounded_body(body, chunk) == body + chunk,
        body.len() + chunk.len() >= 2_000_000 ==> bounded_body(body, chunk).len() == 2_000_000,
{
}

/// A time-out is one whatever is said of it; a reset is known by its words, in
/// either case; what cannot be decoded is an invalid response.
pub proof fn network_faults_are_told_apart(timeout: bool, decode: bool, message: Seq<char>)
    ensures
        (network_error(timeout, decode, message) is TimedOut) == timeout,
        network_error(timeout, decode, message) is ConnectionReset <==> !timeout && (contains(
            ascii_lowercase(message),
            "connection reset"@,
        ) || contains(ascii_lowercase(message), "broken pipe"@)),
        network_error(timeout, decode, message) is InvalidResponse ==> decode,
        network_error(timeout, decode, message) is Failed ==> !decode && !timeout,
{
}

/// A network fault ends the fetch at the first attempt, with nothing read: as a
/// time-out, or as a failure that names it.
pub proof fn network_faults_end_the_fetch(
    result: OperationResult<WebFetchEvidence>,
    key: Seq<char>,
    error: WebNetworkError,
    duration_ms: u64,
)
    requires
        is_failed_result(result, key, failure_of(error), duration_ms),
    ensures
        result.key@ == key,
        result.attempts == 1,
        result.value is None,
        result.contribution is Empty,
        result.duration_ms == duration_ms,
        result.invalid_items == 0,
        error is TimedOut <==> result.execution is TimedOut,
        error is ConnectionReset <==> result.execution == ExecutionStatus::Failed(
            FailureCode::ConnectionReset,
        ),
        error is InvalidResponse <==> result.execution == ExecutionStatus::Failed(
            FailureCode::ParseFailure,
        ),
        error is Failed <==> result.execution == ExecutionStatus::Failed(
            FailureCode::OtherNormalized,
        ),
{
}

/// A name is resolved exactly for an address of a sound shape whose host may be
/// asked and whose host and port are known; it is the host of that address, and
/// its port.
pub proof fn names_are_resolved_for_allowed_hosts(url: WebUrl, redirect: bool, step: RequestStep)
    requires
        request_begins(url, redirect, step),
    ensures
        step is Resolve <==> shape_is_valid(url) && !host_is_prohibited(url) && url.host is Some
            && url.known_port is Some,
        step matches RequestStep::Resolve(request) ==> request.url == url && request.redirect
            == redirect && request.target.host@ == url.host->0@ && request.target.port
            == url.known_port->0,
        !shape_is_valid(url) || host_is_prohibited(url) ==> step == RequestStep::Answered(
            Err(
                if redirect {
                    FailureCode::RedirectUnsafe
                } else {
                    FailureCode::UnsafeDestination
                },
            ),
        ),
{
}

/// A connection is made exactly where the name resolves and every one of its
/// addresses may be asked; it is pinned to those addresses.
pub proof fn connections_are_pinned(
    request: WebRequest,
    resolution: Result<Seq<IpAddress>, WebNetworkError>,
    step: RequestStep,
)
    requires
        request_is_resolved(request, resolution, step),
    ensures
        step is Connect <==> (resolution matches Ok(addresses) && addresses.len() > 0 && forall|
            i: int,
        |
            0 <= i < addresses.len() ==> !prohibited(#[trigger] addresses[i])),
        step matches RequestStep::Connect { request: same, pinned } ==> same == request
            && resolution == Ok::<_, WebNetworkError>(pinned@),
        resolution is Ok && !(step is Connect) ==> step == RequestStep::Answered(
            Err(
                if request.redirect {
                    FailureCode::RedirectUnsafe
                } else {
                    FailureCode::UnsafeDestination
                },
            ),
        ),
        resolution is Err ==> step is Answered && step->Answered_0 is Err,
{
}

/// A reply is taken, unchanged, exactly where it came from one of the pinned
/// addresses and that address may be asked.
pub proof fn replies_come_from_pinned_peers(
    pinned: Seq<IpAddress>,
    response: Result<WebHttpResponse, WebNetworkError>,
    redirect: bool,
)
    ensures
        answer_of(pinned, response, redirect) is Ok <==> (response matches Ok(reply)
            && !prohibited(reply.peer) && exists|i: int|
            0 <= i < pinned.len() && #[trigger] pinned[i] == reply.peer),
        answer_of(pinned, response, redirect) matches Ok(reply) ==> response == Ok::<
            _,
            WebNetworkError,
        >(reply),
        response is Ok && answer_of(pinned, response, redirect) is Err ==> answer_of(
            pinned,
            response,
            redirect,
        ) == Err::<WebHttpResponse, _>(
            if redirect {
                FailureCode::RedirectUnsafe
            } else {
                FailureCode::UnsafeDestination
            },
        ),
{
    if let Ok(reply) = response {
        if pinned.contains(reply.peer) {
            let i = choose|i: int| 0 <= i < pinned.len() && pinned[i] == reply.peer;
            assert(pinned[i] == reply.peer);
        }
    }
}

/// A fetch begins at the normalized address of its candidate; without one it ends
/// as invalid input.
pub proof fn fetches_begin_at_the_candidate(
    candidate: WebCandidate,
    duration_ms: u64,
    step: FetchStep,
)
    requires
        fetch_begins(candidate, duration_ms, step),
    ensures
        step is Request <==> normalized(candidate.requested_url) is Some,
        step matches FetchStep::Request(state) ==> state.candidate == candidate && Some(
            state.current,
        ) == normalized(candidate.requested_url) && state.redirects@ == Seq::<WebUrl>::empty(),
        step matches FetchStep::Finished(result) ==> result.execution == ExecutionStatus::Failed(
            FailureCode::InvalidInput,
        ) && result.value is None && result.key@ == "web_fetch:"@ + candidate.candidate_id@,
{
    if let FetchStep::Request(state) = step {
        assert(state.redirects@ =~= Seq::<WebUrl>::empty());
    }
}

/// A redirect is followed up to five times, to what its location means at the
/// address that gave it; the address is added to those passed. Nothing else is
/// ever asked of the network again.
pub proof fn redirects_are_followed_in_order(
    state: FetchState,
    response: WebHttpResponse,
    duration_ms: u64,
    step: FetchStep,
)
    requires
        fetch_follows(state, Ok(response), duration_ms, step),
    ensures
        step matches FetchStep::Request(next) ==> {
            &&& 300 <= response.status <= 399
            &&& state.redirects@.len() <= 4
            &&& next.redirects@.len() == state.redirects@.len() + 1
            &&& next.redirects@.drop_last() == state.redirects@
            &&& next.redirects@.last() == next.current
            &&& next.candidate == state.candidate
            &&& response.location is Some
            &&& resolved(state.current.text@, response.location->0@) is Some
            &&& normalized(resolved(state.current.text@, response.location->0@)->0) == Some(
                next.current,
            )
        },
        300 <= response.status <= 399 ==> {
            &&& state.redirects@.len() >= 5 ==> (step matches FetchStep::Finished(result)
                && result.value is None && result.execution == ExecutionStatus::Failed(
                FailureCode::RedirectUnsafe,
            ))
            &&& state.redirects@.len() <= 4 && response.location is None ==> (
            step matches FetchStep::Finished(result) && result.value is None && result.execution
                == ExecutionStatus::Failed(FailureCode::ParseFailure))
            &&& state.redirects@.len() <= 4 && response.location is Some && step is Finished
                ==> step->Finished_0.execution == ExecutionStatus::Failed(
                FailureCode::RedirectUnsafe,
            ) && step->Finished_0.value is None && (resolved(
                state.current.text@,
                response.location->0@,
            ) is None || normalized(
                resolved(state.current.text@, response.location->0@)->0,
            ) is None)
        },
        !(300 <= response.status <= 399) ==> step is Finished && step->Finished_0.value is Some,
{
    if let FetchStep::Request(next) = step {
        assert(next.redirects@.drop_last() =~= state.redirects@);
    }
}

/// The evidence of a response names the candidate, the addresses and the response
/// as they were.
pub proof fn evidence_describes_the_response(
    state: FetchState,
    response: WebHttpResponse,
    duration_ms: u64,
    step: FetchStep,
)
    requires
        fetch_follows(state, Ok(response), duration_ms, step),
        !(300 <= response.status <= 399),
    ensures
        step matches FetchStep::Finished(result) && {
            let evidence = result.value->0;
            &&& result.key@ == "web_fetch:"@ + state.candidate.candidate_id@
            &&& result.attempts == 1
            &&& result.duration_ms == duration_ms
            &&& result.invalid_items == 0
            &&& evidence.evidence_id@ == evidence_name(normalized_url_text(state.current))
            &&& evidence.source_identity@ == source_identity(state.current)
            &&& evidence.authority == base_authority(state.candidate.provider, state.current)
            &&& evidence.candidate_id == state.candidate.candidate_id
            &&& evidence.requested_url == state.candidate.requested_url
            &&& evidence.final_url == state.current
            &&& evidence.redirect_chain@ == state.redirects@
            &&& evidence.http_status == response.status
            &&& evidence.content_type == response.content_type
            &&& evidence.bytes_read == response.body@.len()
            &&& !evidence.page_owner_identity_bound
            &&& evidence.quality.query_coverage_basis_points == 0
        },
{
}

/// A response outside the two hundreds is a failure of its own kind, and nothing
/// of its body is read.
pub proof fn refused_pages_are_not_read(
    state: FetchState,
    response: WebHttpResponse,
    duration_ms: u64,
    step: FetchStep,
)
    requires
        fetch_follows(state, Ok(response), duration_ms, step),
        response.status < 200 || response.status >= 400,
    ensures
        step matches FetchStep::Finished(result) && {
            let evidence = result.value->0;
            &&& response.status == 429 <==> result.execution == ExecutionStatus::Failed(
                FailureCode::RateLimited,
            )
            &&& response.status >= 500 <==> result.execution == ExecutionStatus::Failed(
                FailureCode::Http5xx(response.status),
            )
            &&& response.status < 500 && response.status != 429 <==> result.execution
                == ExecutionStatus::Failed(FailureCode::Http4xx(response.status))
            &&& result.contribution is Empty
            &&& evidence.extraction is Empty
            &&& evidence.passages@.len() == 0
            &&& evidence.links@.len() == 0
            &&& evidence.characters_extracted == 0
            &&& evidence.quality.useful_text_length == 0
            &&& evidence.quality.low_quality_reason is None
        },
{
}

/// A page of a type that is not text, data or markup is not read.
pub proof fn other_types_are_not_read(
    state: FetchState,
    response: WebHttpResponse,
    duration_ms: u64,
    step: FetchStep,
)
    requires
        fetch_follows(state, Ok(response), duration_ms, step),
        200 <= response.status <= 299,
    ensures
        step matches FetchStep::Finished(result) && (result.execution == ExecutionStatus::Failed(
            FailureCode::UnsupportedContentType,
        ) <==> response.content_type@.len() > 0 && !contains(response.content_type@, "text/"@)
            && !contains(response.content_type@, "json"@) && !contains(
            response.content_type@,
            "xml"@,
        )),
        step->Finished_0.execution == ExecutionStatus::Failed(FailureCode::UnsupportedContentType)
            ==> step->Finished_0.value->0.extraction is Unsupported
            && step->Finished_0.value->0.passages@.len() == 0
            && step->Finished_0.value->0.links@.len() == 0
            && step->Finished_0.contribution is Empty,
{
}

/// A page that was read succeeds exactly where it has a passage. It satisfies
/// unless its text is of low quality, and each passage is named by the address
/// and its place.
pub proof fn read_pages_show_their_passages(
    state: FetchState,
    response: WebHttpResponse,
    duration_ms: u64,
    step: FetchStep,
)
    requires
        fetch_follows(state, Ok(response), duration_ms, step),
        200 <= response.status <= 299,
        !(step->Finished_0.execution == ExecutionStatus::Failed(
            FailureCode::UnsupportedContentType,
        )),
    ensures
        step matches FetchStep::Finished(result) && {
            let evidence = result.value->0;
            &&& result.execution is Succeeded <==> evidence.passages@.len() > 0
            &&& evidence.passages@.len() == 0 ==> result.execution == ExecutionStatus::Failed(
                FailureCode::EmptyExtraction,
            ) && evidence.extraction is Empty && evidence.links@.len() == 0
            &&& result.contribution is Irrelevant
                <==> evidence.quality.low_quality_reason is Some
            &&& result.contribution is Satisfied <==> evidence.quality.low_quality_reason is None
                && evidence.passages@.len() > 0
            &&& evidence.passages@.len() > 0 && response.body_truncated ==> evidence.extraction
                is ReadableTruncated
            &&& evidence.extraction is Readable ==> !response.body_truncated
            &&& forall|i: int|
                0 <= i < evidence.passages@.len() ==> {
                    let passage = #[trigger] evidence.passages@[i];
                    passage.passage_id@ == passage_name(
                        normalized_url_text(state.current),
                        (i + 1) as nat,
                    ) && passage.truncated == (evidence.extraction is ReadableTruncated)
                }
        },
{
}

/// A page without markup has the text of its body, its spacing collapsed, cut into
/// passages, and no links.
pub proof fn plain_pages_are_read_whole(
    state: FetchState,
    response: WebHttpResponse,
    duration_ms: u64,
    step: FetchStep,
)
    requires
        fetch_follows(state, Ok(response), duration_ms, step),
        200 <= response.status <= 299,
        contains(response.content_type@, "text/"@) || contains(response.content_type@, "json"@)
            || contains(response.content_type@, "xml"@),
        !contains(response.content_type@, "html"@),
        response.content_type@.len() > 0,
    ensures
        step matches FetchStep::Finished(result) && {
            let evidence = result.value->0;
            let whole = collapse(lossy_text(response.body@));
            &&& evidence.passages@.len() == bounded_passages(seq![whole]).len()
            &&& forall|i: int|
                0 <= i < evidence.passages@.len() ==> (#[trigger] evidence.passages@[i]).text@
                    == bounded_passages(seq![whole])[i]
            &&& evidence.links@.len() == 0
            &&& whole.len() <= u64::MAX ==> evidence.quality.useful_text_length == whole.len()
            &&& evidence.quality.boilerplate_ratio_basis_points == 0
        },
{
    let evidence = step->Finished_0.value->0;
    let body = lossy_text(response.body@);
    let content = choose|content: MainContent|
        #[trigger] crate::fetch::is_read_as(
            content,
            response.content_type@,
            body,
            evidence.final_url,
        ) && crate::fetch::reads_content(evidence, content, body, response.body_truncated);
    assert(crate::fetch::is_read_as(content, response.content_type@, body, evidence.final_url));
    assert(crate::fetch::reads_content(evidence, content, body, response.body_truncated));
    if evidence.passages@.len() > 0 {
        assert(crate::html::link_models(evidence.links@).len() == evidence.links@.len());
    }
}

} // verus!
