//! Fetching a page: screened destinations, bounded redirects, and what the
//! response is read as.

use crate::address::{is_prohibited_ip, prohibited, IpAddress};
use crate::html::{
    extract_validated_links, keeps_utf8, link_models, lossy_text, page_links, text_of_bytes,
};
use crate::identity::{
    candidate_id_for_url_text, candidate_name, evidence_id_for_url, evidence_name,
    passage_id_for_url, passage_name, source_identity, source_identity_for,
};
use crate::page::{capped64, extract_main_content, is_main_content, parsed_page, total_length};
use crate::passages::{
    bounded_passages, extraction_low_quality_reason, low_quality, split_bounded_passages,
    MainContent, MAX_EXTRACTED_PASSAGES,
};
use crate::ranking::{
    authority_for, base_authority, direct_web_candidate, is_direct_candidate,
};
use crate::text::{
    ascii_lowercase, chars_of, collapse, collapsed, contains, has, lower_ascii, strings, texts,
};
use crate::types::{
    operation_key, EvidenceContribution, EvidenceOperation, EvidencePassage, ExecutionStatus,
    ExtractionQuality, ExtractionStatus, FailureCode, OperationResult, WebCandidate,
    WebFetchEvidence,
};
use crate::weburl::{
    has_prohibited_host, host_is_prohibited, normalize_url, normalized, normalized_url_text,
    parsed_url, resolved, shape_is_valid, validate_url_shape, WebUrl,
};
use vstd::prelude::*;

verus! {

pub const MAX_REDIRECTS: usize = 5;

pub const MAX_BODY_BYTES: usize = 2_000_000;

pub const MAX_LINKS: usize = 30;

#[derive(Clone, Copy, Debug, PartialEq, Eq, Structural)]
pub enum WebNetworkError {
    TimedOut,
    ConnectionReset,
    InvalidResponse,
    Failed,
}

/// A response as it came over the network.
#[derive(Debug, PartialEq, Eq)]
pub struct WebHttpResponse {
    pub status: u16,
    pub content_type: String,
    pub location: Option<String>,
    pub body: Vec<u8>,
    pub body_truncated: bool,
    pub peer: IpAddress,
}

/// The kind of a network error, from what the client reports of it.
pub open spec fn network_error(timeout: bool, decode: bool, message: Seq<char>) -> WebNetworkError {
    let lowered = ascii_lowercase(message);
    if timeout {
        WebNetworkError::TimedOut
    } else if contains(lowered, "connection reset"@) || contains(lowered, "broken pipe"@) {
        WebNetworkError::ConnectionReset
    } else if decode {
        WebNetworkError::InvalidResponse
    } else {
        WebNetworkError::Failed
    }
}

pub fn normalize_network_error(timeout: bool, decode: bool, message: &str) -> (r: WebNetworkError)
    ensures
        r == network_error(timeout, decode, message@),
{
    if timeout {
        return WebNetworkError::TimedOut;
    }
    let chars = chars_of(message);
    let lowered = lower_ascii(&chars);
    if has(&lowered, "connection reset") || has(&lowered, "broken pipe") {
        WebNetworkError::ConnectionReset
    } else if decode {
        WebNetworkError::InvalidResponse
    } else {
        WebNetworkError::Failed
    }
}

/// What of a body and a chunk behind it is kept.
pub open spec fn bounded_body(body: Seq<u8>, chunk: Seq<u8>) -> Seq<u8> {
    let whole = body + chunk;
    if whole.len() <= MAX_BODY_BYTES {
        whole
    } else {
        whole.take(MAX_BODY_BYTES as int)
    }
}

/// Adds a chunk to a body that is not full, and says whether it is full now.
pub fn append_bounded(body: &mut Vec<u8>, chunk: &[u8]) -> (r: bool)
    requires
        old(body)@.len() <= MAX_BODY_BYTES,
    ensures
        final(body)@ == bounded_body(old(body)@, chunk@),
        r == (old(body)@.len() + chunk@.len() >= MAX_BODY_BYTES),
{
    let ghost before = body@;
    let mut i: usize = 0;
    while i < chunk.len() && body.len() < MAX_BODY_BYTES
        invariant
            i <= chunk@.len(),
            before.len() <= MAX_BODY_BYTES,
            body@.len() <= MAX_BODY_BYTES,
            body@ =~= before + chunk@.take(i as int),
        decreases chunk@.len() - i,
    {
        body.push(chunk[i]);
        i = i + 1;
    }
    proof {
        assert(body@ =~= bounded_body(before, chunk@));
    }
    body.len() >= MAX_BODY_BYTES
}

pub open spec fn failure_of(error: WebNetworkError) -> FailureCode {
    match error {
        WebNetworkError::TimedOut => FailureCode::ConnectorUnavailable,
        WebNetworkError::ConnectionReset => FailureCode::ConnectionReset,
        WebNetworkError::InvalidResponse => FailureCode::ParseFailure,
        WebNetworkError::Failed => FailureCode::OtherNormalized,
    }
}

pub fn network_failure(error: WebNetworkError) -> (r: FailureCode)
    ensures
        r == failure_of(error),
{
    match error {
        WebNetworkError::TimedOut => FailureCode::ConnectorUnavailable,
        WebNetworkError::ConnectionReset => FailureCode::ConnectionReset,
        WebNetworkError::InvalidResponse => FailureCode::ParseFailure,
        WebNetworkError::Failed => FailureCode::OtherNormalized,
    }
}

/// Milliseconds, as far as they can be told.
pub fn elapsed_ms(millis: u128) -> (r: u64)
    ensures
        r == (if millis <= u64::MAX {
            millis as u64
        } else {
            u64::MAX
        }),
{
    if millis <= u64::MAX as u128 {
        millis as u64
    } else {
        u64::MAX
    }
}

/// A failure without a value. A connector that does not answer timed out.
pub open spec fn failed_execution(failure: FailureCode) -> ExecutionStatus {
    if failure == FailureCode::ConnectorUnavailable {
        ExecutionStatus::TimedOut
    } else {
        ExecutionStatus::Failed(failure)
    }
}

pub open spec fn is_failed_result<T>(
    result: OperationResult<T>,
    key: Seq<char>,
    failure: FailureCode,
    duration_ms: u64,
) -> bool {
    &&& result.key@ == key
    &&& result.attempts == 1
    &&& result.execution == failed_execution(failure)
    &&& result.contribution == EvidenceContribution::Empty
    &&& result.value is None
    &&& result.duration_ms == duration_ms
    &&& result.invalid_items == 0
}

pub fn failed_without_value<T>(
    operation: &EvidenceOperation,
    failure: FailureCode,
    duration_ms: u64,
) -> (r: OperationResult<T>)
    ensures
        is_failed_result(r, operation_key(*operation), failure, duration_ms),
{
    let execution = match failure {
        FailureCode::ConnectorUnavailable => ExecutionStatus::TimedOut,
        _ => ExecutionStatus::Failed(failure),
    };
    OperationResult {
        key: operation.key(),
        attempts: 1,
        execution,
        contribution: EvidenceContribution::Empty,
        value: None,
        duration_ms,
        invalid_items: 0,
    }
}

/// How an unsafe destination is reported, first or behind a redirect.
pub open spec fn unsafe_failure(redirect: bool) -> FailureCode {
    if redirect {
        FailureCode::RedirectUnsafe
    } else {
        FailureCode::UnsafeDestination
    }
}

fn unsafe_code(redirect: bool) -> (r: FailureCode)
    ensures
        r == unsafe_failure(redirect),
{
    if redirect {
        FailureCode::RedirectUnsafe
    } else {
        FailureCode::UnsafeDestination
    }
}

/// A host and a port to resolve.
#[derive(Debug, PartialEq, Eq)]
pub struct RequestTarget {
    pub host: String,
    pub port: u16,
}

/// The host and port of an address that may be asked.
pub open spec fn target_of(url: WebUrl, redirect: bool) -> Result<(Seq<char>, u16), FailureCode> {
    if !shape_is_valid(url) || host_is_prohibited(url) {
        Err(unsafe_failure(redirect))
    } else {
        match (url.host, url.known_port) {
            (Some(host), Some(port)) => Ok((host@, port)),
            _ => Err(FailureCode::UnsafeDestination),
        }
    }
}

/// The first step of a request: what to resolve.
pub fn request_target(url: &WebUrl, redirect: bool) -> (r: Result<RequestTarget, FailureCode>)
    ensures
        match r {
            Ok(target) => target_of(*url, redirect) == Ok::<(Seq<char>, u16), FailureCode>(
                (target.host@, target.port),
            ),
            Err(failure) => target_of(*url, redirect) == Err::<(Seq<char>, u16), FailureCode>(
                failure,
            ),
        },
{
    if validate_url_shape(url).is_err() || has_prohibited_host(url) {
        return Err(unsafe_code(redirect));
    }
    match (&url.host, url.known_port) {
        (Some(host), Some(port)) => Ok(RequestTarget { host: host.clone(), port }),
        _ => Err(FailureCode::UnsafeDestination),
    }
}

pub open spec fn any_prohibited(addresses: Seq<IpAddress>) -> bool {
    exists|i: int| 0 <= i < addresses.len() && prohibited(#[trigger] addresses[i])
}

/// The addresses that a request is pinned to: those that the name resolved to,
/// where there is one and none is prohibited.
pub open spec fn pinned_addresses(
    resolution: Result<Seq<IpAddress>, WebNetworkError>,
    redirect: bool,
) -> Result<Seq<IpAddress>, FailureCode> {
    match resolution {
        Ok(addresses) => if addresses.len() == 0 || any_prohibited(addresses) {
            Err(unsafe_failure(redirect))
        } else {
            Ok(addresses)
        },
        Err(error) => Err(failure_of(error)),
    }
}

pub open spec fn address_view(resolution: Result<Vec<IpAddress>, WebNetworkError>) -> Result<
    Seq<IpAddress>,
    WebNetworkError,
> {
    match resolution {
        Ok(addresses) => Ok(addresses@),
        Err(error) => Err(error),
    }
}

fn has_prohibited(addresses: &Vec<IpAddress>) -> (r: bool)
    ensures
        r == any_prohibited(addresses@),
{
    let mut i: usize = 0;
    while i < addresses.len()
        invariant
            i <= addresses@.len(),
            forall|k: int| 0 <= k < i ==> !prohibited(#[trigger] addresses@[k]),
        decreases addresses@.len() - i,
    {
        if is_prohibited_ip(addresses[i]) {
            return true;
        }
        i = i + 1;
    }
    false
}

/// The second step of a request: the addresses to connect to, all of them
/// allowed.
pub fn screen_addresses(resolution: Result<Vec<IpAddress>, WebNetworkError>, redirect: bool) -> (r:
    Result<Vec<IpAddress>, FailureCode>)
    ensures
        match r {
            Ok(addresses) => pinned_addresses(address_view(resolution), redirect) == Ok::<
                Seq<IpAddress>,
                FailureCode,
            >(addresses@) && addresses@.len() > 0 && !any_prohibited(addresses@),
            Err(failure) => pinned_addresses(address_view(resolution), redirect) == Err::<
                Seq<IpAddress>,
                FailureCode,
            >(failure),
        },
{
    match resolution {
        Ok(addresses) => {
            if addresses.len() == 0 || has_prohibited(&addresses) {
                Err(unsafe_code(redirect))
            } else {
                Ok(addresses)
            }
        },
        Err(error) => Err(network_failure(error)),
    }
}

/// The peer is one of the addresses that the request was pinned to, and allowed.
pub open spec fn peer_is_pinned(pinned: Seq<IpAddress>, peer: IpAddress) -> bool {
    pinned.contains(peer) && !prohibited(peer)
}

fn same_address(a: IpAddress, b: IpAddress) -> (r: bool)
    ensures
        r == (a == b),
{
    a == b
}

/// What is taken of a response to a request that was pinned to these addresses.
pub open spec fn answer_of(
    pinned: Seq<IpAddress>,
    response: Result<WebHttpResponse, WebNetworkError>,
    redirect: bool,
) -> Result<WebHttpResponse, FailureCode> {
    match response {
        Ok(reply) => if peer_is_pinned(pinned, reply.peer) {
            Ok(reply)
        } else {
            Err(unsafe_failure(redirect))
        },
        Err(error) => Err(failure_of(error)),
    }
}

/// The last step of a request: a response is taken from a pinned peer alone.
pub fn screen_response(
    pinned: &Vec<IpAddress>,
    response: Result<WebHttpResponse, WebNetworkError>,
    redirect: bool,
) -> (r: Result<WebHttpResponse, FailureCode>)
    ensures
        r == answer_of(pinned@, response, redirect),
{
    match response {
        Ok(reply) => {
            let mut found = false;
            let mut i: usize = 0;
            while i < pinned.len()
                invariant
                    i <= pinned@.len(),
                    found == exists|k: int| 0 <= k < i && #[trigger] pinned@[k] == reply.peer,
                decreases pinned@.len() - i,
            {
                if same_address(pinned[i], reply.peer) {
                    found = true;
                    assert(pinned@[i as int] == reply.peer);
                }
                i = i + 1;
            }
            if found && !is_prohibited_ip(reply.peer) {
                Ok(reply)
            } else {
                Err(unsafe_code(redirect))
            }
        },
        Err(error) => Err(network_failure(error)),
    }
}

/// A request on its way: the address that is asked, what its host resolves under,
/// and whether a redirect led there.
#[derive(Debug, PartialEq, Eq)]
pub struct WebRequest {
    pub url: WebUrl,
    pub target: RequestTarget,
    pub redirect: bool,
}

/// What a request does next.
#[derive(Debug, PartialEq, Eq)]
pub enum RequestStep {
    /// Resolve the host.
    Resolve(WebRequest),
    /// Ask the address at one of these peers.
    Connect { request: WebRequest, pinned: Vec<IpAddress> },
    Answered(Result<WebHttpResponse, FailureCode>),
}

/// The first step: a host is resolved, or the address is refused.
pub open spec fn request_begins(url: WebUrl, redirect: bool, step: RequestStep) -> bool {
    match target_of(url, redirect) {
        Ok((host, port)) => {
            &&& step matches RequestStep::Resolve(request)
            &&& request.url == url
            &&& request.target.host@ == host
            &&& request.target.port == port
            &&& request.redirect == redirect
        },
        Err(failure) => step == RequestStep::Answered(Err(failure)),
    }
}

pub fn start_request(url: &WebUrl, redirect: bool) -> (r: RequestStep)
    ensures
        request_begins(*url, redirect, r),
{
    match request_target(url, redirect) {
        Ok(target) => RequestStep::Resolve(WebRequest { url: url.clone(), target, redirect }),
        Err(failure) => RequestStep::Answered(Err(failure)),
    }
}

/// What follows the resolution of the host: the request is pinned to addresses
/// that are all allowed, or refused.
pub open spec fn request_is_resolved(
    request: WebRequest,
    resolution: Result<Seq<IpAddress>, WebNetworkError>,
    step: RequestStep,
) -> bool {
    match pinned_addresses(resolution, request.redirect) {
        Ok(addresses) => step matches RequestStep::Connect { request: same, pinned } && same
            == request && pinned@ == addresses,
        Err(failure) => step == RequestStep::Answered(Err(failure)),
    }
}

pub fn request_resolved(
    request: WebRequest,
    resolution: Result<Vec<IpAddress>, WebNetworkError>,
) -> (r: RequestStep)
    ensures
        request_is_resolved(request, address_view(resolution), r),
{
    match screen_addresses(resolution, request.redirect) {
        Ok(pinned) => RequestStep::Connect { request, pinned },
        Err(failure) => RequestStep::Answered(Err(failure)),
    }
}

/// What follows the response.
pub fn request_answered(
    request: &WebRequest,
    pinned: &Vec<IpAddress>,
    response: Result<WebHttpResponse, WebNetworkError>,
) -> (r: RequestStep)
    ensures
        r == RequestStep::Answered(answer_of(pinned@, response, request.redirect)),
{
    RequestStep::Answered(screen_response(pinned, response, request.redirect))
}

/// A status that is not one of success.
pub open spec fn status_failure(status: u16) -> Option<FailureCode> {
    if status == 429 {
        Some(FailureCode::RateLimited)
    } else if status >= 500 {
        Some(FailureCode::Http5xx(status))
    } else if !(200 <= status < 300) {
        Some(FailureCode::Http4xx(status))
    } else {
        None
    }
}

pub fn failure_of_status(status: u16) -> (r: Option<FailureCode>)
    ensures
        r == status_failure(status),
{
    if status == 429 {
        Some(FailureCode::RateLimited)
    } else if status >= 500 {
        Some(FailureCode::Http5xx(status))
    } else if !(200 <= status && status < 300) {
        Some(FailureCode::Http4xx(status))
    } else {
        None
    }
}

/// Text, JSON or XML, or nothing said.
pub open spec fn is_supported(content_type: Seq<char>) -> bool {
    content_type.len() == 0 || contains(content_type, "text/"@) || contains(content_type, "json"@)
        || contains(content_type, "xml"@)
}

pub fn supported_content_type(content_type: &str) -> (r: bool)
    ensures
        r == is_supported(content_type@),
{
    let chars = chars_of(content_type);
    chars.len() == 0 || has(&chars, "text/") || has(&chars, "json") || has(&chars, "xml")
}

pub open spec fn is_markup(content_type: Seq<char>) -> bool {
    contains(content_type, "html"@) || content_type.len() == 0
}

fn markup(content_type: &str) -> (r: bool)
    ensures
        r == is_markup(content_type@),
{
    let chars = chars_of(content_type);
    has(&chars, "html") || chars.len() == 0
}

/// What is read in a body: a page as markup, anything else as plain text.
pub open spec fn is_read_as(
    content: MainContent,
    content_type: Seq<char>,
    body: Seq<char>,
    url: WebUrl,
) -> bool {
    if is_markup(content_type) {
        is_main_content(content, parsed_page(body), url)
    } else {
        &&& strings(content.passages@) == bounded_passages(seq![collapse(body)])
        &&& content.useful_text_length == capped64(collapse(body).len())
        &&& content.boilerplate_ratio_basis_points == 0
    }
}

fn read_body(content_type: &str, body: &str, url: &WebUrl) -> (r: MainContent)
    ensures
        is_read_as(r, content_type@, body@, *url),
{
    if markup(content_type) {
        extract_main_content(body, url)
    } else {
        let chars = chars_of(body);
        let text = collapsed(&chars);
        let useful: u64 = text.len() as u64;
        let mut blocks: Vec<Vec<char>> = Vec::new();
        let ghost value = text@;
        blocks.push(text);
        proof {
            assert(texts(blocks@) =~= seq![value]);
        }
        MainContent {
            passages: split_bounded_passages(&blocks),
            useful_text_length: useful,
            boilerplate_ratio_basis_points: 0,
        }
    }
}

pub open spec fn passages_match(
    passages: Seq<EvidencePassage>,
    contents: Seq<Seq<char>>,
    url: Seq<char>,
    truncated: bool,
) -> bool {
    &&& passages.len() == contents.len()
    &&& forall|i: int|
        0 <= i < passages.len() ==> {
            let passage = #[trigger] passages[i];
            &&& passage.passage_id@ == passage_name(url, (i + 1) as nat)
            &&& passage.text@ == contents[i]
            &&& passage.truncated == truncated
        }
}

/// What the response says of the page, before its content is read.
pub open spec fn describes_response(
    evidence: WebFetchEvidence,
    candidate: WebCandidate,
    url: WebUrl,
    redirects: Seq<WebUrl>,
    response: WebHttpResponse,
) -> bool {
    &&& evidence.evidence_id@ == evidence_name(normalized_url_text(url))
    &&& evidence.candidate_id == candidate.candidate_id
    &&& evidence.requested_url == candidate.requested_url
    &&& evidence.final_url == url
    &&& evidence.redirect_chain@ == redirects
    &&& evidence.http_status == response.status
    &&& evidence.content_type == response.content_type
    &&& evidence.bytes_read == response.body@.len()
    &&& evidence.page_owner_identity_bound == false
    &&& evidence.authority == base_authority(candidate.provider, url)
    &&& evidence.source_identity@ == source_identity(url)
}

/// A page of which nothing was read.
pub open spec fn reads_nothing(evidence: WebFetchEvidence, extraction: ExtractionStatus) -> bool {
    &&& evidence.extraction == extraction
    &&& evidence.characters_extracted == 0
    &&& evidence.quality == no_quality()
    &&& evidence.passages@.len() == 0
    &&& evidence.links@.len() == 0
}

pub open spec fn no_quality() -> ExtractionQuality {
    ExtractionQuality {
        useful_text_length: 0,
        boilerplate_ratio_basis_points: 0,
        query_coverage_basis_points: 0,
        low_quality_reason: None,
    }
}

/// A page with the content that was read on it.
pub open spec fn reads_content(
    evidence: WebFetchEvidence,
    content: MainContent,
    body: Seq<char>,
    body_truncated: bool,
) -> bool {
    let contents = strings(content.passages@);
    let truncated = body_truncated || contents.len() >= MAX_EXTRACTED_PASSAGES;
    &&& evidence.characters_extracted == capped64(total_length(contents))
    &&& evidence.quality == (ExtractionQuality {
        useful_text_length: content.useful_text_length,
        boilerplate_ratio_basis_points: content.boilerplate_ratio_basis_points,
        query_coverage_basis_points: 0,
        low_quality_reason: low_quality(content.useful_text_length),
    })
    &&& if contents.len() == 0 {
        &&& evidence.extraction == ExtractionStatus::Empty
        &&& evidence.passages@.len() == 0
        &&& evidence.links@.len() == 0
    } else {
        &&& evidence.extraction == if truncated {
            ExtractionStatus::ReadableTruncated
        } else {
            ExtractionStatus::Readable
        }
        &&& passages_match(
            evidence.passages@,
            contents,
            normalized_url_text(evidence.final_url),
            truncated,
        )
        &&& link_models(evidence.links@) == if is_markup(evidence.content_type@) {
            page_links(body, evidence.final_url, MAX_LINKS as nat)
        } else {
            Seq::empty()
        }
    }
}

/// What a fetch contributes.
pub open spec fn fetch_contribution(
    evidence: WebFetchEvidence,
    execution: ExecutionStatus,
) -> EvidenceContribution {
    if evidence.quality.low_quality_reason is Some {
        EvidenceContribution::Irrelevant
    } else if execution is Succeeded && crate::types::readable(evidence.extraction) {
        EvidenceContribution::Satisfied
    } else {
        EvidenceContribution::Empty
    }
}

/// How a response is reported: its status, its type and what was read decide.
pub open spec fn fetch_execution(
    evidence: WebFetchEvidence,
    response: WebHttpResponse,
    execution: ExecutionStatus,
) -> bool {
    match status_failure(response.status) {
        Some(failure) => execution == ExecutionStatus::Failed(failure) && reads_nothing(
            evidence,
            ExtractionStatus::Empty,
        ),
        None => if !is_supported(response.content_type@) {
            execution == ExecutionStatus::Failed(FailureCode::UnsupportedContentType)
                && reads_nothing(evidence, ExtractionStatus::Unsupported)
        } else {
            &&& exists|content: MainContent|
                #[trigger] is_read_as(
                    content,
                    response.content_type@,
                    lossy_text(response.body@),
                    evidence.final_url,
                ) && reads_content(
                    evidence,
                    content,
                    lossy_text(response.body@),
                    response.body_truncated,
                )
            &&& execution == if evidence.passages@.len() == 0 {
                ExecutionStatus::Failed(FailureCode::EmptyExtraction)
            } else {
                ExecutionStatus::Succeeded
            }
        },
    }
}

/// The result of a fetch that was answered.
pub open spec fn is_fetch_result(
    result: OperationResult<WebFetchEvidence>,
    candidate: WebCandidate,
    url: WebUrl,
    redirects: Seq<WebUrl>,
    response: WebHttpResponse,
    duration_ms: u64,
) -> bool {
    &&& result.key@ == operation_key(
        EvidenceOperation::WebFetch { candidate_id: candidate.candidate_id },
    )
    &&& result.attempts == 1
    &&& result.duration_ms == duration_ms
    &&& result.invalid_items == 0
    &&& result.value matches Some(evidence)
    &&& describes_response(evidence, candidate, url, redirects, response)
    &&& fetch_execution(evidence, response, result.execution)
    &&& result.contribution == fetch_contribution(evidence, result.execution)
}

fn text_lengths(list: &Vec<String>) -> (r: u64)
    ensures
        r == capped64(total_length(strings(list@))),
{
    let mut sum: u64 = 0;
    let mut full = false;
    let ghost model = strings(list@);
    let mut i: usize = 0;
    proof {
        assert(model.take(0) =~= Seq::empty());
    }
    while i < list.len()
        invariant
            i <= list@.len(),
            model == strings(list@),
            full == (total_length(model.take(i as int)) > u64::MAX),
            !full ==> sum == total_length(model.take(i as int)),
        decreases list@.len() - i,
    {
        proof {
            let next = model.take(i as int + 1);
            assert(next.drop_last() =~= model.take(i as int));
            assert(next.last() == list@[i as int]@);
        }
        let chars = chars_of(list[i].as_str());
        let length: u64 = chars.len() as u64;
        if !full {
            if length <= u64::MAX - sum {
                sum = sum + length;
            } else {
                full = true;
            }
        }
        i = i + 1;
    }
    proof {
        assert(model.take(model.len() as int) =~= model);
    }
    if full {
        u64::MAX
    } else {
        sum
    }
}

fn passages_of(contents: &Vec<String>, url: &WebUrl, truncated: bool) -> (r: Vec<EvidencePassage>)
    ensures
        passages_match(r@, strings(contents@), normalized_url_text(*url), truncated),
{
    let mut out: Vec<EvidencePassage> = Vec::new();
    let mut i: usize = 0;
    let n: usize = contents.len();
    while i < n
        invariant
            i <= n,
            n == contents@.len(),
            passages_match(
                out@,
                strings(contents@).take(i as int),
                normalized_url_text(*url),
                truncated,
            ),
        decreases n - i,
    {
        let ghost before = out@;
        out.push(
            EvidencePassage {
                passage_id: passage_id_for_url(url, i + 1),
                text: contents[i].clone(),
                truncated,
            },
        );
        proof {
            assert forall|k: int| 0 <= k < out@.len() implies {
                let passage = #[trigger] out@[k];
                &&& passage.passage_id@ == passage_name(normalized_url_text(*url), (k + 1) as nat)
                &&& passage.text@ == strings(contents@).take(i as int + 1)[k]
                &&& passage.truncated == truncated
            } by {
                if k < i {
                    assert(out@[k] == before[k]);
                    assert(strings(contents@).take(i as int)[k] == strings(contents@).take(
                        i as int + 1,
                    )[k]);
                }
            }
        }
        i = i + 1;
    }
    proof {
        assert(strings(contents@).take(n as int) =~= strings(contents@));
    }
    out
}

/// Reads the response to a fetch.
pub fn fetch_result(
    candidate: &WebCandidate,
    url: &WebUrl,
    redirects: Vec<WebUrl>,
    response: &WebHttpResponse,
    duration_ms: u64,
) -> (r: OperationResult<WebFetchEvidence>)
    ensures
        is_fetch_result(r, *candidate, *url, redirects@, *response, duration_ms),
        status_failure(response.status) is None && is_supported(response.content_type@)
            ==> keeps_utf8(response.body@),
{
    let operation = EvidenceOperation::WebFetch { candidate_id: candidate.candidate_id.clone() };
    let bytes: u64 = response.body.len() as u64;
    let mut evidence = WebFetchEvidence {
        evidence_id: evidence_id_for_url(url),
        candidate_id: candidate.candidate_id.clone(),
        requested_url: candidate.requested_url.clone(),
        final_url: url.clone(),
        redirect_chain: redirects,
        http_status: response.status,
        content_type: response.content_type.clone(),
        bytes_read: bytes,
        characters_extracted: 0,
        extraction: ExtractionStatus::Empty,
        quality: ExtractionQuality {
            useful_text_length: 0,
            boilerplate_ratio_basis_points: 0,
            query_coverage_basis_points: 0,
            low_quality_reason: None,
        },
        page_owner_identity_bound: false,
        authority: authority_for(candidate.provider, url),
        source_identity: source_identity_for(url),
        passages: Vec::new(),
        links: Vec::new(),
    };
    let execution = match failure_of_status(response.status) {
        Some(failure) => ExecutionStatus::Failed(failure),
        None => if !supported_content_type(response.content_type.as_str()) {
            evidence.extraction = ExtractionStatus::Unsupported;
            ExecutionStatus::Failed(FailureCode::UnsupportedContentType)
        } else {
            let body = text_of_bytes(response.body.as_slice());
            let content = read_body(response.content_type.as_str(), body.as_str(), url);
            evidence.characters_extracted = text_lengths(&content.passages);
            evidence.quality = ExtractionQuality {
                useful_text_length: content.useful_text_length,
                boilerplate_ratio_basis_points: content.boilerplate_ratio_basis_points,
                query_coverage_basis_points: 0,
                low_quality_reason: extraction_low_quality_reason(&content),
            };
            let ghost read = content;
            proof {
                assert(strings(content.passages@).len() == content.passages@.len());
            }
            let outcome = if content.passages.len() == 0 {
                ExecutionStatus::Failed(FailureCode::EmptyExtraction)
            } else {
                let truncated = response.body_truncated || content.passages.len()
                    >= MAX_EXTRACTED_PASSAGES;
                evidence.extraction = if truncated {
                    ExtractionStatus::ReadableTruncated
                } else {
                    ExtractionStatus::Readable
                };
                evidence.passages = passages_of(&content.passages, url, truncated);
                if markup(response.content_type.as_str()) {
                    evidence.links = extract_validated_links(body.as_str(), url, MAX_LINKS);
                } else {
                    proof {
                        assert(link_models(evidence.links@) =~= Seq::empty());
                    }
                }
                ExecutionStatus::Succeeded
            };
            proof {
                assert(reads_content(
                    evidence,
                    read,
                    lossy_text(response.body@),
                    response.body_truncated,
                ));
                assert(is_read_as(
                    read,
                    response.content_type@,
                    lossy_text(response.body@),
                    evidence.final_url,
                ));
            }
            outcome
        },
    };
    let contribution = if evidence.quality.low_quality_reason.is_some() {
        EvidenceContribution::Irrelevant
    } else if matches!(execution, ExecutionStatus::Succeeded) && crate::types::is_readable(
        evidence.extraction,
    ) {
        EvidenceContribution::Satisfied
    } else {
        EvidenceContribution::Empty
    };
    OperationResult {
        key: operation.key(),
        attempts: 1,
        execution,
        contribution,
        value: Some(evidence),
        duration_ms,
        invalid_items: 0,
    }
}

/// A fetch that waits for the answer to a request.
#[derive(Debug, PartialEq, Eq)]
pub struct FetchState {
    pub candidate: WebCandidate,
    pub current: WebUrl,
    pub redirects: Vec<WebUrl>,
}

/// What a fetch does next.
#[derive(Debug, PartialEq, Eq)]
pub enum FetchStep {
    /// Request the current address of the state.
    Request(FetchState),
    Finished(OperationResult<WebFetchEvidence>),
}

pub open spec fn fetch_key(candidate: WebCandidate) -> Seq<char> {
    operation_key(EvidenceOperation::WebFetch { candidate_id: candidate.candidate_id })
}

/// The first step: the canonical form of the requested address is asked.
pub open spec fn fetch_begins(candidate: WebCandidate, duration_ms: u64, step: FetchStep) -> bool {
    match normalized(candidate.requested_url) {
        Some(url) => step matches FetchStep::Request(state) && state.candidate == candidate
            && state.current == url && state.redirects@.len() == 0,
        None => step matches FetchStep::Finished(result) && is_failed_result(
            result,
            fetch_key(candidate),
            FailureCode::InvalidInput,
            duration_ms,
        ),
    }
}

pub fn start_fetch(candidate: &WebCandidate, duration_ms: u64) -> (r: FetchStep)
    ensures
        fetch_begins(*candidate, duration_ms, r),
{
    match normalize_url(&candidate.requested_url) {
        Ok(current) => FetchStep::Request(
            FetchState { candidate: candidate.clone(), current, redirects: Vec::new() },
        ),
        Err(failure) => {
            let operation = EvidenceOperation::WebFetch {
                candidate_id: candidate.candidate_id.clone(),
            };
            FetchStep::Finished(failed_without_value(&operation, failure, duration_ms))
        },
    }
}

/// The request of a fetch: of its current address, as one behind a redirect once a
/// redirect was followed.
pub fn fetch_request(state: &FetchState) -> (r: RequestStep)
    ensures
        request_begins(state.current, state.redirects@.len() > 0, r),
{
    start_request(&state.current, state.redirects.len() > 0)
}

/// Where a redirect leads, or why it is not followed.
pub open spec fn redirect_target(
    current: WebUrl,
    followed: int,
    location: Option<String>,
) -> Result<WebUrl, FailureCode> {
    if followed >= MAX_REDIRECTS {
        Err(FailureCode::RedirectUnsafe)
    } else {
        match location {
            None => Err(FailureCode::ParseFailure),
            Some(reference) => match resolved(current.text@, reference@) {
                Some(next) => match normalized(next) {
                    Some(url) => Ok(url),
                    None => Err(FailureCode::RedirectUnsafe),
                },
                None => Err(FailureCode::RedirectUnsafe),
            },
        }
    }
}

fn follow_redirect(current: &WebUrl, followed: usize, location: &Option<String>) -> (r: Result<
    WebUrl,
    FailureCode,
>)
    ensures
        r == redirect_target(*current, followed as int, *location),
{
    if followed >= MAX_REDIRECTS {
        return Err(FailureCode::RedirectUnsafe);
    }
    match location {
        None => Err(FailureCode::ParseFailure),
        Some(reference) => match current.join(reference.as_str()) {
            Some(next) => match normalize_url(&next) {
                Ok(url) => Ok(url),
                Err(_) => Err(FailureCode::RedirectUnsafe),
            },
            None => Err(FailureCode::RedirectUnsafe),
        },
    }
}

pub open spec fn is_redirect(status: u16) -> bool {
    300 <= status < 400
}

/// What follows a reply to the request of a state.
pub open spec fn fetch_follows(
    state: FetchState,
    reply: Result<WebHttpResponse, FailureCode>,
    duration_ms: u64,
    step: FetchStep,
) -> bool {
    match reply {
        Err(failure) => step matches FetchStep::Finished(result) && is_failed_result(
            result,
            fetch_key(state.candidate),
            failure,
            duration_ms,
        ),
        Ok(response) => if is_redirect(response.status) {
            match redirect_target(
                state.current,
                state.redirects@.len() as int,
                response.location,
            ) {
                Ok(url) => step matches FetchStep::Request(next) && next.candidate
                    == state.candidate && next.current == url && next.redirects@
                    == state.redirects@.push(url),
                Err(failure) => step matches FetchStep::Finished(result) && is_failed_result(
                    result,
                    fetch_key(state.candidate),
                    failure,
                    duration_ms,
                ),
            }
        } else {
            step matches FetchStep::Finished(result) && is_fetch_result(
                result,
                state.candidate,
                state.current,
                state.redirects@,
                response,
                duration_ms,
            )
        },
    }
}

/// The next step of a fetch whose request was answered.
pub fn continue_fetch(
    state: FetchState,
    reply: Result<WebHttpResponse, FailureCode>,
    duration_ms: u64,
) -> (r: FetchStep)
    ensures
        fetch_follows(state, reply, duration_ms, r),
{
    let operation = EvidenceOperation::WebFetch {
        candidate_id: state.candidate.candidate_id.clone(),
    };
    match reply {
        Err(failure) => FetchStep::Finished(failed_without_value(&operation, failure, duration_ms)),
        Ok(response) => {
            if 300 <= response.status && response.status < 400 {
                match follow_redirect(&state.current, state.redirects.len(), &response.location) {
                    Ok(url) => {
                        let mut redirects = state.redirects;
                        redirects.push(url.clone());
                        FetchStep::Request(
                            FetchState { candidate: state.candidate, current: url, redirects },
                        )
                    },
                    Err(failure) => FetchStep::Finished(
                        failed_without_value(&operation, failure, duration_ms),
                    ),
                }
            } else {
                FetchStep::Finished(
                    fetch_result(
                        &state.candidate,
                        &state.current,
                        state.redirects,
                        &response,
                        duration_ms,
                    ),
                )
            }
        },
    }
}

/// The candidate of a page that is named by its address, or the failure of a
/// fetch of a text that is no address.
pub fn direct_fetch(url: &str) -> (r: Result<WebCandidate, OperationResult<WebFetchEvidence>>)
    ensures
        match (parsed_url(url@), r) {
            (Some(parsed), Ok(candidate)) => is_direct_candidate(candidate, parsed),
            (None, Err(result)) => is_failed_result(
                result,
                "web_fetch:"@ + candidate_name(url@),
                FailureCode::InvalidInput,
                0,
            ),
            _ => false,
        },
{
    match WebUrl::parse(url) {
        Some(parsed) => Ok(direct_web_candidate(&parsed)),
        None => {
            let operation = EvidenceOperation::WebFetch {
                candidate_id: candidate_id_for_url_text(url),
            };
            Err(failed_without_value(&operation, FailureCode::InvalidInput, 0))
        },
    }
}

} // verus!
