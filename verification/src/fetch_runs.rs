//! What holds of a whole fetch, whatever its hosts resolve to and whatever the
//! peers answer.

use crate::address::{prohibited, IpAddress};
use crate::fetch::{
    answer_of, any_prohibited, failed_execution, fetch_begins, fetch_follows, peer_is_pinned,
    pinned_addresses, request_begins, request_is_resolved, target_of, unsafe_failure, FetchStep,
    RequestStep, WebHttpResponse, WebNetworkError, MAX_REDIRECTS,
};
use crate::types::{FailureCode, WebCandidate};
use crate::weburl::{host_is_prohibited, shape_is_valid, WebUrl};
use vstd::prelude::*;

verus! {

/// What the network brings to a request: what the host resolves to, and what is
/// answered where it is asked.
pub ghost struct Exchange {
    pub resolution: Result<Seq<IpAddress>, WebNetworkError>,
    pub response: Result<WebHttpResponse, WebNetworkError>,
}

/// The addresses that a request may connect to; none where it is refused before.
pub open spec fn connected_to(url: WebUrl, redirect: bool, exchange: Exchange) -> Seq<IpAddress> {
    match (target_of(url, redirect), pinned_addresses(exchange.resolution, redirect)) {
        (Ok(_), Ok(pinned)) => pinned,
        _ => Seq::empty(),
    }
}

/// The reply that a request ends with: the address, what it resolves to and the
/// peer are screened in this order.
pub open spec fn screened(url: WebUrl, redirect: bool, exchange: Exchange) -> Result<
    WebHttpResponse,
    FailureCode,
> {
    match target_of(url, redirect) {
        Err(failure) => Err(failure),
        Ok(_) => match pinned_addresses(exchange.resolution, redirect) {
            Err(failure) => Err(failure),
            Ok(pinned) => answer_of(pinned, exchange.response, redirect),
        },
    }
}

/// The steps of a request for an exchange, of which those after the answer say
/// the same.
pub open spec fn is_request_run(
    url: WebUrl,
    redirect: bool,
    exchange: Exchange,
    first: RequestStep,
    second: RequestStep,
    third: RequestStep,
) -> bool {
    &&& request_begins(url, redirect, first)
    &&& match first {
        RequestStep::Resolve(request) => request_is_resolved(request, exchange.resolution, second),
        _ => second == first,
    }
    &&& match second {
        RequestStep::Connect { request, pinned } => third == RequestStep::Answered(
            answer_of(pinned@, exchange.response, request.redirect),
        ),
        _ => third == second,
    }
}

/// A request ends with its screened reply, connects to nothing but the addresses
/// that it was pinned to, and all of those are allowed.
pub proof fn requests_are_screened(
    url: WebUrl,
    redirect: bool,
    exchange: Exchange,
    first: RequestStep,
    second: RequestStep,
    third: RequestStep,
)
    requires
        is_request_run(url, redirect, exchange, first, second, third),
    ensures
        third == RequestStep::Answered(screened(url, redirect, exchange)),
        second matches RequestStep::Connect { request, pinned } ==> request.url == url && pinned@
            == connected_to(url, redirect, exchange) && pinned@.len() > 0 && !any_prohibited(pinned@),
{
}

/// A request is refused for where it leads: its address, what that resolves to, or
/// the peer that answers is not allowed.
pub open spec fn is_refused(url: WebUrl, exchange: Exchange) -> bool {
    ||| !shape_is_valid(url)
    ||| host_is_prohibited(url)
    ||| url.known_port is Some && (exchange.resolution matches Ok(addresses) && (addresses.len()
        == 0 || any_prohibited(addresses) || (exchange.response matches Ok(reply)
        && !peer_is_pinned(addresses, reply.peer))))
}

/// One step of a fetch leads to the next: the reply to its request is the screened
/// one, as behind a redirect once a redirect was followed.
pub open spec fn fetch_leads_to(before: FetchStep, exchange: Exchange, after: FetchStep) -> bool {
    before matches FetchStep::Request(state) && {
        let redirect = state.redirects@.len() > 0;
        let reply = screened(state.current, redirect, exchange);
        exists|duration_ms: u64| #[trigger] fetch_follows(state, reply, duration_ms, after)
    }
}

/// The steps of a fetch as far as it has come, and what the network brought
/// between them.
pub open spec fn is_fetch_run(
    candidate: WebCandidate,
    steps: Seq<FetchStep>,
    exchanges: Seq<Exchange>,
) -> bool {
    &&& steps.len() == exchanges.len() + 1
    &&& exists|duration_ms: u64| fetch_begins(candidate, duration_ms, steps[0])
    &&& forall|i: int|
        0 <= i < exchanges.len() ==> fetch_leads_to(steps[i], #[trigger] exchanges[i], steps[i + 1])
}

proof fn lemma_fetch_run(
    candidate: WebCandidate,
    steps: Seq<FetchStep>,
    exchanges: Seq<Exchange>,
    n: int,
)
    requires
        is_fetch_run(candidate, steps, exchanges),
        0 <= n < steps.len(),
    ensures
        steps[n] matches FetchStep::Request(state) ==> state.candidate == candidate
            && state.redirects@.len() == n && n <= MAX_REDIRECTS,
        steps[n] is Finished ==> n <= MAX_REDIRECTS + 1,
    decreases n,
{
    if n > 0 {
        lemma_fetch_run(candidate, steps, exchanges, n - 1);
        assert(fetch_leads_to(steps[n - 1], exchanges[n - 1], steps[n - 1 + 1]));
    }
}

/// A fetch follows a bounded number of redirects, whatever the pages answer: it
/// ends with the sixth reply at the latest, and asks for its own page throughout.
pub proof fn redirects_are_bounded(
    candidate: WebCandidate,
    steps: Seq<FetchStep>,
    exchanges: Seq<Exchange>,
)
    requires
        is_fetch_run(candidate, steps, exchanges),
    ensures
        exchanges.len() <= MAX_REDIRECTS + 1,
        exchanges.len() == MAX_REDIRECTS + 1 ==> steps.last() is Finished,
        steps.last() matches FetchStep::Request(state) ==> state.candidate == candidate
            && state.redirects@.len() == exchanges.len(),
{
    lemma_fetch_run(candidate, steps, exchanges, exchanges.len() as int);
}

/// Every address that a fetch connects to is allowed, at its first request and
/// behind every redirect. No host is asked that is written as a prohibited
/// address, and a response is read only from a peer that was pinned and is
/// allowed.
pub proof fn fetches_stay_on_allowed_addresses(
    candidate: WebCandidate,
    steps: Seq<FetchStep>,
    exchanges: Seq<Exchange>,
    i: int,
)
    requires
        is_fetch_run(candidate, steps, exchanges),
        0 <= i < exchanges.len(),
    ensures
        steps[i] matches FetchStep::Request(state) && {
            let addresses = connected_to(state.current, i > 0, exchanges[i]);
            &&& forall|k: int| 0 <= k < addresses.len() ==> !prohibited(#[trigger] addresses[k])
            &&& addresses.len() > 0 ==> shape_is_valid(state.current) && !host_is_prohibited(
                state.current,
            )
            &&& screened(state.current, i > 0, exchanges[i]) matches Ok(reply)
                ==> addresses.contains(reply.peer) && !prohibited(reply.peer)
        },
{
    lemma_fetch_run(candidate, steps, exchanges, i);
    assert(fetch_leads_to(steps[i], exchanges[i], steps[i + 1]));
}

/// A fetch that is refused for where it leads ends there, and says that a redirect
/// was unsafe exactly if a redirect was followed.
pub proof fn refusals_tell_redirects_apart(
    candidate: WebCandidate,
    steps: Seq<FetchStep>,
    exchanges: Seq<Exchange>,
    i: int,
)
    requires
        is_fetch_run(candidate, steps, exchanges),
        0 <= i < exchanges.len(),
    ensures
        steps[i] matches FetchStep::Request(state) && (is_refused(state.current, exchanges[i])
            ==> (steps[i + 1] matches FetchStep::Finished(result) && result.value is None
            && result.execution == failed_execution(
            if i > 0 {
                FailureCode::RedirectUnsafe
            } else {
                FailureCode::UnsafeDestination
            },
        ))),
        steps[i] matches FetchStep::Request(state) && (screened(
            state.current,
            i > 0,
            exchanges[i],
        ) == Err::<WebHttpResponse, FailureCode>(FailureCode::RedirectUnsafe) <==> i > 0
            && is_refused(state.current, exchanges[i])),
{
    lemma_fetch_run(candidate, steps, exchanges, i);
    assert(fetch_leads_to(steps[i], exchanges[i], steps[i + 1]));
    let state = steps[i]->Request_0;
    if is_refused(state.current, exchanges[i]) {
        assert(screened(state.current, i > 0, exchanges[i]) == Err::<WebHttpResponse, FailureCode>(
            unsafe_failure(i > 0),
        ));
    }
}

} // verus!
