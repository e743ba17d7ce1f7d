use bytes::Bytes;
use futures::{stream, Stream};
use http::header::{HeaderName, HeaderValue};
use http::HeaderMap;
use hyper::client::ResponseFuture;
use rusoto_request::client::{
    dispatch, dispatch_prepared, dispatch_translated, try_dispatch, ClientFutureInner, DeadlinePoll,
    HttpClientFuture, HyperPoll,
};
use rusoto_request::dispatch::DispatchSignedRequest;
use rusoto_request::error::{body_error, HttpDispatchError};
use rusoto_request::response::{Async, HttpResponse, ReceivedResponse};
use rusoto_request::signed::{Header, Region, SignedRequest};
use rusoto_request::translation::{try_translate_request, HttpMethod};
use std::rc::Rc;
use std::sync::Arc;
use std::time::Duration;
use tokio_timer::{timeout, Timeout};

type Polled = HttpClientFuture<HyperPoll<&'static str>, DeadlinePoll<&'static str>>;

fn request(method: &str, path: &str) -> SignedRequest<()> {
    let region = Region::Custom {
        name: "eu-west-3".to_owned(),
        endpoint: "localhost".to_owned(),
    };
    SignedRequest::new(method, "sqs", &region, path)
}

fn hyper_error() -> hyper::Error {
    let failed = std::io::Error::new(std::io::ErrorKind::Other, "reset by peer");
    let chunks = stream::once::<Bytes, std::io::Error>(Err(failed));
    let mut body = hyper::Body::wrap_stream(chunks);
    match body.poll() {
        Err(error) => error,
        Ok(_) => panic!("the body did not fail"),
    }
}

fn answer() -> ReceivedResponse<&'static str> {
    let mut headers = HeaderMap::new();
    headers.append(
        HeaderName::from_static("etag"),
        HeaderValue::from_static("1"),
    );
    ReceivedResponse {
        status: 204,
        headers,
        body: "stream",
    }
}

fn check_answered(future: Polled) {
    match future.poll() {
        Ok(Async::Ready(response)) => {
            assert_eq!(response.status, 204);
            assert_eq!(response.headers.get("etag").unwrap(), "1");
            assert_eq!(response.body.inner, "stream");
        }
        _ => panic!("no response"),
    }
}

fn error_of(future: Polled) -> HttpDispatchError {
    match future.poll() {
        Err(error) => error,
        Ok(_) => panic!("no error"),
    }
}

#[test]
fn http_client_future_is_send() {
    fn is_send<T: Send>() {}

    is_send::<HttpClientFuture<ResponseFuture, Timeout<ResponseFuture>>>();
}

#[test]
fn a_request_without_timeout_has_no_deadline() {
    let future = dispatch(request("GET", "/a"), "agent/1", None);
    match future.0 {
        ClientFutureInner::Hyper(prepared) => {
            assert_eq!(prepared.method, HttpMethod::Get);
            assert_eq!(prepared.uri.to_string(), "https://localhost/a");
            assert_eq!(prepared.headers.get("user-agent").unwrap(), "agent/1");
            assert!(prepared.payload.inner.is_none());
        }
        _ => panic!("not sent"),
    }
}

#[test]
fn a_request_with_timeout_has_a_deadline() {
    let future = dispatch(request("PUT", "/a"), "agent/1", Some(Duration::from_secs(3)));
    match future.0 {
        ClientFutureInner::HyperWithTimeout((prepared, duration)) => {
            assert_eq!(prepared.method, HttpMethod::Put);
            assert_eq!(duration, Duration::from_secs(3));
        }
        _ => panic!("not sent with a deadline"),
    }
}

#[test]
fn refused_requests_wait_for_nothing() {
    let patch = dispatch(request("PATCH", "/"), "agent/1", Some(Duration::from_secs(1)));
    match patch.0 {
        ClientFutureInner::Error(text) => assert_eq!(text, "Unsupported HTTP verb PATCH"),
        _ => panic!("not refused"),
    }
    let odd = dispatch(request("GET", "/<>"), "agent/1", None);
    match odd.0 {
        ClientFutureInner::Error(text) => {
            assert_eq!(text, "error building request: invalid uri character")
        }
        _ => panic!("not refused"),
    }
    let mut unnamed = request("GET", "/<>");
    unnamed.headers.push(Header {
        name: "".to_owned(),
        values: vec![],
    });
    match dispatch(unnamed, "agent/1", None).0 {
        ClientFutureInner::Error(text) => assert_eq!(
            text,
            "error parsing header name: invalid HTTP header name"
        ),
        _ => panic!("not refused"),
    }
}

#[test]
fn dispatching_comes_to_nothing_beyond_the_limits() {
    assert!(try_dispatch(request("GET", "/"), "\u{7f}", None).is_none());
    assert!(try_dispatch(request("GET", "/"), "fine", None).is_some());
}

#[test]
fn dispatching_goes_on_from_a_translation() {
    let translated = try_translate_request(request("HEAD", "/b"), "agent/1").unwrap();
    match dispatch_translated(translated, None).0 {
        ClientFutureInner::Hyper(prepared) => {
            assert_eq!(prepared.uri.to_string(), "https://localhost/b")
        }
        _ => panic!("not sent"),
    }
    let refused = try_translate_request(request("TRACE", "/b"), "agent/1").unwrap();
    match dispatch_translated(refused, None).0 {
        ClientFutureInner::Error(text) => assert_eq!(text, "Unsupported HTTP verb TRACE"),
        _ => panic!("not refused"),
    }
    match dispatch_prepared::<()>(Err("why".to_owned()), Some(Duration::from_secs(1))).0 {
        ClientFutureInner::Error(text) => assert_eq!(text, "why"),
        _ => panic!("not refused"),
    }
}

#[test]
fn refused_requests_are_told_why() {
    let future: Polled = HttpClientFuture(ClientFutureInner::Error("why".to_owned()));
    assert_eq!(
        error_of(future),
        HttpDispatchError::ClientFutureError("why".to_owned())
    );
}

#[test]
fn answers_are_read() {
    check_answered(HttpClientFuture(ClientFutureInner::Hyper(Ok(Async::Ready(
        answer(),
    )))));
    check_answered(HttpClientFuture(ClientFutureInner::HyperWithTimeout(Ok(
        Async::Ready(answer()),
    ))));
}

#[test]
fn what_is_not_there_yet_is_waited_for() {
    let plain: Polled = HttpClientFuture(ClientFutureInner::Hyper(Ok(Async::NotReady)));
    assert!(matches!(plain.poll(), Ok(Async::NotReady)));
    let timed: Polled = HttpClientFuture(ClientFutureInner::HyperWithTimeout(Ok(Async::NotReady)));
    assert!(matches!(timed.poll(), Ok(Async::NotReady)));
}

#[test]
fn errors_of_hyper_keep_their_text() {
    let text = hyper_error().to_string();
    assert!(text.contains("reset by peer"));
    let expected = HttpDispatchError::HyperError(text);
    assert_eq!(HttpDispatchError::from(hyper_error()), expected);
    let plain: Polled = HttpClientFuture(ClientFutureInner::Hyper(Err(hyper_error())));
    assert_eq!(error_of(plain), expected);
    let inner = timeout::Error::inner(hyper_error());
    let timed: Polled = HttpClientFuture(ClientFutureInner::HyperWithTimeout(Err(inner)));
    assert_eq!(error_of(timed), expected);
}

#[test]
fn a_body_that_hyper_fails_to_read_keeps_the_text_of_the_error() {
    let text = hyper_error().to_string();
    assert_eq!(body_error(hyper_error()).to_string(), text);
    assert_eq!(body_error(hyper_error()).kind(), std::io::ErrorKind::Other);
    let mut future = HttpResponse::from_hyper(answer()).buffer();
    assert!(matches!(future.poll(Ok(Async::NotReady)), Ok(Async::NotReady)));
    match future.poll(Err(body_error(hyper_error()))) {
        Err(error) => assert_eq!(error, HttpDispatchError::IoError(text)),
        Ok(_) => panic!("no error"),
    }
}

#[test]
fn a_missed_deadline_is_a_timeout() {
    let late: Polled = HttpClientFuture(ClientFutureInner::HyperWithTimeout(Err(
        timeout::Error::elapsed(),
    )));
    let error = error_of(late);
    assert_eq!(error, HttpDispatchError::Timeout);
    assert_eq!(error.to_string(), "Request timed out");
}

#[test]
fn a_timer_that_fails_is_a_deadline_error() {
    let text = tokio_timer::Error::shutdown().to_string();
    let broken: Polled = HttpClientFuture(ClientFutureInner::HyperWithTimeout(Err(
        timeout::Error::timer(tokio_timer::Error::shutdown()),
    )));
    assert_eq!(error_of(broken), HttpDispatchError::DeadlineError(text));
}

struct Echo;

impl DispatchSignedRequest for Echo {
    type Stream = ();
    type Future = (String, Option<Duration>);

    fn dispatch(&self, request: SignedRequest<()>, timeout: Option<Duration>) -> Self::Future {
        (request.method, timeout)
    }
}

#[test]
fn shared_dispatchers_dispatch() {
    let second = Some(Duration::from_secs(1));
    assert_eq!(
        Rc::new(Echo).dispatch(request("GET", "/"), second),
        ("GET".to_owned(), second)
    );
    assert_eq!(
        Arc::new(Echo).dispatch(request("PUT", "/"), None),
        ("PUT".to_owned(), None)
    );
    assert_eq!(
        Rc::new(Arc::new(Echo)).dispatch(request("HEAD", "/"), None),
        ("HEAD".to_owned(), None)
    );
}
