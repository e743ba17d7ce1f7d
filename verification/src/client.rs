//! Sending: what a request waits for, and what becomes of the answer.

use crate::error::{deadline_elapsed, deadline_inner, HttpDispatchError};
use crate::headers::{all_text, as_text, text_fields, value_fields, values_of};
use crate::payload::HttpClientPayload;
use crate::response::{Async, HttpResponse, ReceivedResponse};
use crate::signed::SignedRequest;
use crate::translation::{
    carries, law_the_method_alone_decides_on_the_verb, law_the_whole_request_is_carried,
    own_values, parsed_uri, refusal, try_translate_request, within_limits, PreparedRequest,
    TranslatedRequest,
};
use std::time::Duration;
use tokio_timer::timeout;
use vstd::prelude::*;

verus! {

/// What a request is waiting for: hyper's answer, hyper's answer before a
/// deadline, or nothing, since it was refused before it was sent.
pub enum ClientFutureInner<H, T> {
    /// Hyper's answer.
    Hyper(H),
    /// Hyper's answer before a deadline.
    HyperWithTimeout(T),
    /// The request was refused.
    Error(String),
}

/// A future that will resolve to an `HttpResponse`.
pub struct HttpClientFuture<H, T>(pub ClientFutureInner<H, T>);

/// A future of a request that has yet to be sent: without a deadline, or within
/// some time.
pub type UnsentFuture<S> = HttpClientFuture<PreparedRequest<S>, (PreparedRequest<S>, Duration)>;

/// Whether `future` is what becomes of a request that was prepared, or refused
/// with a text.
pub open spec fn awaits<S>(
    future: UnsentFuture<S>,
    prepared: Result<PreparedRequest<S>, Seq<char>>,
    timeout: Option<Duration>,
) -> bool {
    match prepared {
        Err(text) => future.0 matches ClientFutureInner::Error(e) && e@ == text,
        Ok(p) => match timeout {
            None => future.0 == ClientFutureInner::<
                PreparedRequest<S>,
                (PreparedRequest<S>, Duration),
            >::Hyper(p),
            Some(duration) => future.0 == ClientFutureInner::<
                PreparedRequest<S>,
                (PreparedRequest<S>, Duration),
            >::HyperWithTimeout((p, duration)),
        },
    }
}

/// Whether `future` is what becomes of `request`: a refused request waits for
/// nothing, any other is sent as it is, within the timeout where there is one.
pub open spec fn dispatched<S>(
    future: UnsentFuture<S>,
    request: SignedRequest<S>,
    default_agent: Seq<char>,
    timeout: Option<Duration>,
) -> bool {
    match refusal(request, default_agent) {
        Some(text) => awaits(future, Err(text), timeout),
        None => exists|p: PreparedRequest<S>|
            carries(p, request, default_agent) && #[trigger] awaits(future, Ok(p), timeout),
    }
}

/// The future of a request that was prepared, or refused.
pub fn dispatch_prepared<S>(
    prepared: Result<PreparedRequest<S>, String>,
    timeout: Option<Duration>,
) -> (future: UnsentFuture<S>)
    ensures
        match prepared {
            Ok(p) => awaits(future, Ok(p), timeout),
            Err(text) => awaits(future, Err(text@), timeout),
        },
{
    let inner: ClientFutureInner<PreparedRequest<S>, (PreparedRequest<S>, Duration)> =
        match prepared {
        Ok(request) => match timeout {
            None => ClientFutureInner::Hyper(request),
            Some(duration) => ClientFutureInner::HyperWithTimeout((request, duration)),
        },
        Err(text) => ClientFutureInner::Error(text),
    };
    HttpClientFuture(inner)
}

/// The future of a request that was translated, or refused.
pub fn dispatch_translated<S>(
    translated: Result<TranslatedRequest<S>, String>,
    timeout: Option<Duration>,
) -> (future: UnsentFuture<S>)
    ensures
        match translated {
            Err(text) => awaits(future, Err(text@), timeout),
            Ok(t) => match parsed_uri(t.final_uri@) {
                Ok(uri) => awaits(
                    future,
                    Ok(
                        PreparedRequest {
                            method: t.method,
                            uri,
                            headers: t.headers,
                            payload: HttpClientPayload { inner: t.payload },
                        },
                    ),
                    timeout,
                ),
                Err(text) => awaits(future, Err("error building request: "@ + text), timeout),
            },
        },
{
    match translated {
        Ok(t) => dispatch_prepared(t.build(), timeout),
        Err(text) => dispatch_prepared(Err(text), timeout),
    }
}

/// Dispatches a signed request. Nothing comes back for a request whose headers
/// are beyond what a header map holds.
pub fn try_dispatch<S>(
    request: SignedRequest<S>,
    user_agent: &str,
    timeout: Option<Duration>,
) -> (future: Option<UnsentFuture<S>>)
    ensures
        future is Some <==> within_limits(request, user_agent@),
        future matches Some(f) ==> dispatched(f, request, user_agent@, timeout),
{
    match try_translate_request(request, user_agent) {
        Some(translated) => {
            let ghost result = translated;
            let future: UnsentFuture<S> = dispatch_translated(translated, timeout);
            proof {
                if result is Ok && parsed_uri(request.uri()) is Ok {
                    let t = result->Ok_0;
                    let p = PreparedRequest {
                        method: t.method,
                        uri: parsed_uri(request.uri())->Ok_0,
                        headers: t.headers,
                        payload: HttpClientPayload { inner: t.payload },
                    };
                    assert(carries(p, request, user_agent@));
                    assert(awaits(future, Ok(p), timeout));
                }
            }
            Some(future)
        },
        None => None,
    }
}

/// Dispatches a signed request.
pub fn dispatch<S>(
    request: SignedRequest<S>,
    user_agent: &str,
    timeout: Option<Duration>,
) -> (future: UnsentFuture<S>)
    requires
        within_limits(request, user_agent@),
    ensures
        dispatched(future, request, user_agent@, timeout),
{
    try_dispatch(request, user_agent, timeout).unwrap()
}

/// What polling hyper gave.
pub type HyperPoll<S> = Result<Async<ReceivedResponse<S>>, hyper::Error>;

/// What polling hyper under a deadline gave.
pub type DeadlinePoll<S> = Result<Async<ReceivedResponse<S>>, timeout::Error<hyper::Error>>;

/// The response that has come, where one has.
pub open spec fn received<S>(future: HttpClientFuture<HyperPoll<S>, DeadlinePoll<S>>) -> Option<
    ReceivedResponse<S>,
> {
    match future.0 {
        ClientFutureInner::Hyper(Ok(Async::Ready(response))) => Some(response),
        ClientFutureInner::HyperWithTimeout(Ok(Async::Ready(response))) => Some(response),
        _ => None,
    }
}

/// Whether the outcome is the response that was received, read.
pub open spec fn is_read<S>(
    outcome: Result<Async<HttpResponse<S>>, HttpDispatchError>,
    response: ReceivedResponse<S>,
) -> bool {
    outcome matches Ok(Async::Ready(read)) && read.is_read_from(response)
}

/// Whether `outcome` is what the future comes to, given what polling gave.
pub open spec fn answers<S>(
    future: HttpClientFuture<HyperPoll<S>, DeadlinePoll<S>>,
    outcome: Result<Async<HttpResponse<S>>, HttpDispatchError>,
) -> bool {
    match future.0 {
        ClientFutureInner::Error(message) => outcome == Err::<
            Async<HttpResponse<S>>,
            HttpDispatchError,
        >(HttpDispatchError::ClientFutureError(message)),
        ClientFutureInner::Hyper(Ok(Async::Ready(response))) => is_read(outcome, response),
        ClientFutureInner::Hyper(Ok(Async::NotReady)) => outcome == Ok::<
            Async<HttpResponse<S>>,
            HttpDispatchError,
        >(Async::NotReady),
        ClientFutureInner::Hyper(Err(err)) => {
            &&& outcome matches Err(HttpDispatchError::HyperError(s))
            &&& vstd::string::to_string_from_display_ensures(&err, s)
        },
        ClientFutureInner::HyperWithTimeout(Ok(Async::Ready(response))) => is_read(
            outcome,
            response,
        ),
        ClientFutureInner::HyperWithTimeout(Ok(Async::NotReady)) => outcome == Ok::<
            Async<HttpResponse<S>>,
            HttpDispatchError,
        >(Async::NotReady),
        ClientFutureInner::HyperWithTimeout(Err(err)) => if deadline_elapsed(err) {
            outcome == Err::<Async<HttpResponse<S>>, HttpDispatchError>(
                HttpDispatchError::Timeout,
            )
        } else {
            match deadline_inner(err) {
                Some(inner) => {
                    &&& outcome matches Err(HttpDispatchError::HyperError(s))
                    &&& vstd::string::to_string_from_display_ensures(&inner, s)
                },
                None => {
                    &&& outcome matches Err(HttpDispatchError::DeadlineError(s))
                    &&& vstd::string::to_string_from_display_ensures(&err, s)
                },
            }
        },
    }
}

impl<S> HttpClientFuture<HyperPoll<S>, DeadlinePoll<S>> {
    /// Goes on from what polling gave.
    pub fn poll(self) -> (outcome: Result<Async<HttpResponse<S>>, HttpDispatchError>)
        requires
            received(self) matches Some(response) ==> all_text(value_fields(response.headers)),
        ensures
            answers(self, outcome),
    {
        match self.0 {
            ClientFutureInner::Error(message) => Err(HttpDispatchError::ClientFutureError(message)),
            ClientFutureInner::Hyper(polled) => match polled {
                Ok(Async::Ready(response)) => Ok(Async::Ready(HttpResponse::from_hyper(response))),
                Ok(Async::NotReady) => Ok(Async::NotReady),
                Err(err) => Err(HttpDispatchError::from(err)),
            },
            ClientFutureInner::HyperWithTimeout(polled) => match polled {
                Ok(Async::Ready(response)) => Ok(Async::Ready(HttpResponse::from_hyper(response))),
                Ok(Async::NotReady) => Ok(Async::NotReady),
                Err(err) => Err(HttpDispatchError::from_deadline(err)),
            },
        }
    }
}


/// A refused request is answered with the reason: its future waits for nothing,
/// and comes to an error that says why, however often it is polled.
pub proof fn law_refused_requests_are_told_why<S>(
    unsent: UnsentFuture<S>,
    request: SignedRequest<S>,
    default_agent: Seq<char>,
    timeout: Option<Duration>,
    future: HttpClientFuture<HyperPoll<S>, DeadlinePoll<S>>,
    outcome: Result<Async<HttpResponse<S>>, HttpDispatchError>,
)
    requires
        dispatched(unsent, request, default_agent, timeout),
        unsent.0 matches ClientFutureInner::Error(text) && future.0 == ClientFutureInner::<
            HyperPoll<S>,
            DeadlinePoll<S>,
        >::Error(text),
        answers(future, outcome),
    ensures
        refusal(request, default_agent) matches Some(reason) && outcome matches Err(err)
            && err is ClientFutureError && err.message() == reason,
{
}

/// A request is refused, or sent as it is; and it is sent with a deadline exactly
/// when a timeout was given, of that time.
pub proof fn law_requests_are_refused_or_sent<S>(
    unsent: UnsentFuture<S>,
    request: SignedRequest<S>,
    default_agent: Seq<char>,
    timeout: Option<Duration>,
)
    requires
        dispatched(unsent, request, default_agent, timeout),
    ensures
        unsent.0 is Error <==> refusal(request, default_agent) is Some,
        unsent.0 matches ClientFutureInner::Hyper(prepared) ==> timeout is None && carries(
            prepared,
            request,
            default_agent,
        ),
        unsent.0 matches ClientFutureInner::HyperWithTimeout((prepared, duration)) ==> timeout
            == Some(duration) && carries(prepared, request, default_agent),
{
}

/// Only a request with a deadline times out, or fails for its timer; and one
/// whose deadline has passed says that it timed out.
pub proof fn law_only_deadlines_time_out<S>(
    future: HttpClientFuture<HyperPoll<S>, DeadlinePoll<S>>,
    outcome: Result<Async<HttpResponse<S>>, HttpDispatchError>,
)
    requires
        answers(future, outcome),
    ensures
        outcome matches Err(err) && (err is Timeout || err is DeadlineError)
            ==> future.0 is HyperWithTimeout,
        future.0 matches ClientFutureInner::HyperWithTimeout(Err(err)) && deadline_elapsed(err)
            ==> (outcome matches Err(e) && e is Timeout && e.message() == "Request timed out"@),
{
}

/// A response that came is handed over, whatever its status, and whether it came
/// under a deadline or not: with that status, the headers read as text, and that
/// body.
pub proof fn law_every_response_is_handed_over<S>(
    response: ReceivedResponse<S>,
    future: HttpClientFuture<HyperPoll<S>, DeadlinePoll<S>>,
    outcome: Result<Async<HttpResponse<S>>, HttpDispatchError>,
)
    requires
        future.0 == ClientFutureInner::<HyperPoll<S>, DeadlinePoll<S>>::Hyper(
            Ok(Async::Ready(response)),
        ) || future.0 == ClientFutureInner::<HyperPoll<S>, DeadlinePoll<S>>::HyperWithTimeout(
            Ok(Async::Ready(response)),
        ),
        answers(future, outcome),
    ensures
        received(future) == Some(response),
        outcome matches Ok(Async::Ready(read)) && read.status == response.status && text_fields(
            read.headers,
        ) == as_text(value_fields(response.headers)) && read.body.inner == response.body
            && read.body.size_hint is None,
{
}

/// A response that has not come is waited for, under a deadline or not.
pub proof fn law_what_has_not_come_is_waited_for<S>(
    future: HttpClientFuture<HyperPoll<S>, DeadlinePoll<S>>,
    outcome: Result<Async<HttpResponse<S>>, HttpDispatchError>,
)
    requires
        future.0 == ClientFutureInner::<HyperPoll<S>, DeadlinePoll<S>>::Hyper(Ok(Async::NotReady))
            || future.0 == ClientFutureInner::<HyperPoll<S>, DeadlinePoll<S>>::HyperWithTimeout(
            Ok(Async::NotReady),
        ),
        answers(future, outcome),
    ensures
        received(future) is None,
        outcome matches Ok(Async::NotReady),
{
}

/// An error of hyper is told as one, with its text, whether it came by itself or
/// under a deadline that had not passed.
pub proof fn law_errors_of_hyper_are_told<S>(
    err: hyper::Error,
    timed: timeout::Error<hyper::Error>,
    future: HttpClientFuture<HyperPoll<S>, DeadlinePoll<S>>,
    outcome: Result<Async<HttpResponse<S>>, HttpDispatchError>,
)
    requires
        !deadline_elapsed(timed),
        deadline_inner(timed) == Some(err),
        future.0 == ClientFutureInner::<HyperPoll<S>, DeadlinePoll<S>>::Hyper(Err(err)) || future.0
            == ClientFutureInner::<HyperPoll<S>, DeadlinePoll<S>>::HyperWithTimeout(Err(timed)),
        answers(future, outcome),
    ensures
        outcome matches Err(HttpDispatchError::HyperError(s))
            && vstd::string::to_string_from_display_ensures(&err, s),
{
}

/// A deadline that passed is a timeout, and a timer that failed is a deadline
/// error with its text.
pub proof fn law_errors_of_deadlines_are_told<S>(
    err: timeout::Error<hyper::Error>,
    future: HttpClientFuture<HyperPoll<S>, DeadlinePoll<S>>,
    outcome: Result<Async<HttpResponse<S>>, HttpDispatchError>,
)
    requires
        future.0 == ClientFutureInner::<HyperPoll<S>, DeadlinePoll<S>>::HyperWithTimeout(Err(err)),
        answers(future, outcome),
    ensures
        deadline_elapsed(err) ==> (outcome matches Err(HttpDispatchError::Timeout)),
        !deadline_elapsed(err) && deadline_inner(err) is None ==> (outcome matches Err(
            HttpDispatchError::DeadlineError(s),
        ) && vstd::string::to_string_from_display_ensures(&err, s)),
{
}

/// The text of a refusal is told as it is, whatever it is.
pub proof fn law_refusals_are_told_as_they_are<S>(
    text: String,
    future: HttpClientFuture<HyperPoll<S>, DeadlinePoll<S>>,
    outcome: Result<Async<HttpResponse<S>>, HttpDispatchError>,
)
    requires
        future.0 == ClientFutureInner::<HyperPoll<S>, DeadlinePoll<S>>::Error(text),
        answers(future, outcome),
    ensures
        outcome matches Err(HttpDispatchError::ClientFutureError(told)) && told == text,
{
}

/// What dispatching comes to: a request that is refused waits for nothing but has
/// the text of the refusal; any other is sent, with its own verb, address, body
/// and headers, within the timeout where there is one and without a deadline
/// where there is none.
pub proof fn law_what_dispatching_comes_to<S>(
    unsent: UnsentFuture<S>,
    request: SignedRequest<S>,
    default_agent: Seq<char>,
    timeout: Option<Duration>,
    name: Seq<char>,
) -> (sent: Option<PreparedRequest<S>>)
    requires
        dispatched(unsent, request, default_agent, timeout),
    ensures
        refusal(request, default_agent) matches Some(text) ==> sent is None && (
        unsent.0 matches ClientFutureInner::Error(e) && e@ == text),
        !(
        request.method@ == "POST"@ || request.method@ == "PUT"@ || request.method@ == "DELETE"@
            || request.method@ == "GET"@ || request.method@ == "HEAD"@)
            ==> (unsent.0 matches ClientFutureInner::Error(e) && e@
            == "Unsupported HTTP verb "@ + request.method@),
        refusal(request, default_agent) is None ==> sent is Some,
        sent matches Some(p) ==> {
            &&& timeout is None ==> unsent.0 == ClientFutureInner::<
                PreparedRequest<S>,
                (PreparedRequest<S>, Duration),
            >::Hyper(p)
            &&& timeout matches Some(duration) ==> unsent.0 == ClientFutureInner::<
                PreparedRequest<S>,
                (PreparedRequest<S>, Duration),
            >::HyperWithTimeout((p, duration))
            &&& p.method is Post <==> request.method@ == "POST"@
            &&& p.method is Put <==> request.method@ == "PUT"@
            &&& p.method is Delete <==> request.method@ == "DELETE"@
            &&& p.method is Get <==> request.method@ == "GET"@
            &&& p.method is Head <==> request.method@ == "HEAD"@
            &&& parsed_uri(request.uri()) == Ok::<http::Uri, Seq<char>>(p.uri)
            &&& p.payload.inner == request.payload
            &&& name != "user-agent"@ || own_values(request.header_views(), name).len() > 0
                ==> values_of(value_fields(p.headers), name) == own_values(
                request.header_views(),
                name,
            )
            &&& own_values(request.header_views(), "user-agent"@).len() == 0 ==> values_of(
                value_fields(p.headers),
                "user-agent"@,
            ) == seq![vstd::utf8::encode_utf8(default_agent)]
        },
{
    law_the_method_alone_decides_on_the_verb(request, default_agent);
    if refusal(request, default_agent) is Some {
        None
    } else {
        let p = choose|p: PreparedRequest<S>|
            carries(p, request, default_agent) && #[trigger] awaits(unsent, Ok(p), timeout);
        law_the_whole_request_is_carried(p, request, default_agent, name);
        Some(p)
    }
}

} // verus!
