//! What comes back from a service.

use crate::buffer::{as_slice, byte_literal, content, print_bytes};
use crate::error::{keeps_text, HttpDispatchError};
use crate::headers::{
    all_text, append_text, as_text, collected, default_text_map, is_text,
    law_values_are_read_byte_by_byte, lemma_all_text, lemma_as_text_well_formed,
    lemma_collect_pairs, lemma_collected_len, lemma_pairs_as_text, name_text, pairs, print_text_map,
    printed_fields, text_fields, text_of, value_bytes, value_fields, value_text, walk, MAX_NAMES,
};
use crate::payload::ByteStream;
use crate::text::{decimal, decimal_text, quote, quoted, utf8_text};
use bytes::Bytes;
use http::header::{HeaderName, HeaderValue};
use http::HeaderMap;
use vstd::prelude::*;
use vstd::utf8::*;

verus! {

/// Whether what was polled for is there.
pub enum Async<T> {
    /// It is there.
    Ready(T),
    /// It is not there yet.
    NotReady,
}

/// A response as the connection hands it over.
pub struct ReceivedResponse<S> {
    /// Status code of HTTP Request
    pub status: u16,
    /// Response headers
    pub headers: HeaderMap<HeaderValue>,
    /// Where the contents come from
    pub body: S,
}

/// Stores the response from a HTTP request.
pub struct HttpResponse<S> {
    /// Status code of HTTP Request
    pub status: u16,
    /// Contents of Response
    pub body: ByteStream<S>,
    /// Response headers
    pub headers: HeaderMap<String>,
}

/// Stores the buffered response from a HTTP request.
#[derive(PartialEq)]
pub struct BufferedHttpResponse {
    /// Status code of HTTP Request
    pub status: u16,
    /// Contents of Response
    pub body: Bytes,
    /// Response headers
    pub headers: HeaderMap<String>,
}

/// Whether each value of a header map can be read as text.
pub fn headers_are_text(headers: &HeaderMap<HeaderValue>) -> (readable: bool)
    ensures
        readable == all_text(value_fields(*headers)),
{
    let walked: Vec<(&HeaderName, &HeaderValue)> = walk(headers);
    let ghost fields = value_fields(*headers);
    proof {
        lemma_all_text(fields);
    }
    let ghost view = |p: (&HeaderName, &HeaderValue)| (name_text(*p.0), value_bytes(*p.1));
    let mut i: usize = 0;
    while i < walked.len()
        invariant
            i <= walked@.len(),
            fields == value_fields(*headers),
            walked@.map_values(view) == pairs(fields),
            view == (|p: (&HeaderName, &HeaderValue)| (name_text(*p.0), value_bytes(*p.1))),
            all_text(fields) <==> forall|k: int|
                0 <= k < pairs(fields).len() ==> is_text((#[trigger] pairs(fields)[k]).1),
            forall|k: int| 0 <= k < i ==> is_text((#[trigger] pairs(fields)[k]).1),
        decreases walked@.len() - i,
    {
        let (_, value) = walked[i];
        proof {
            assert(walked@.map_values(view)[i as int] == view(walked@[i as int]));
        }
        if value_text(value).is_none() {
            proof {
                assert(!is_text(pairs(fields)[i as int].1));
            }
            return false;
        }
        i = i + 1;
    }
    proof {
        assert(walked@.map_values(view).len() == walked@.len());
    }
    true
}

/// Reads the values of a header map as text.
fn read_headers(headers: &HeaderMap<HeaderValue>) -> (read: HeaderMap<String>)
    requires
        all_text(value_fields(*headers)),
    ensures
        text_fields(read) == as_text(value_fields(*headers)),
{
    let walked: Vec<(&HeaderName, &HeaderValue)> = walk(headers);
    let ghost fields = value_fields(*headers);
    let ghost view = |p: (&HeaderName, &HeaderValue)| (name_text(*p.0), value_bytes(*p.1));
    let ghost list = pairs(as_text(fields));
    proof {
        lemma_all_text(fields);
        lemma_pairs_as_text(fields);
        lemma_as_text_well_formed(fields);
        lemma_collect_pairs(as_text(fields));
        assert(list.take(0) =~= Seq::empty());
    }
    let mut read: HeaderMap<String> = default_text_map();
    let mut i: usize = 0;
    while i < walked.len()
        invariant
            i <= walked@.len(),
            walked@.len() == list.len(),
            walked@.map_values(view) == pairs(fields),
            view == (|p: (&HeaderName, &HeaderValue)| (name_text(*p.0), value_bytes(*p.1))),
            list == pairs(fields).map_values(|p: (Seq<char>, Seq<u8>)| (p.0, text_of(p.1))),
            collected(list) == as_text(fields),
            fields.len() <= MAX_NAMES,
            forall|k: int|
                0 <= k < pairs(fields).len() ==> is_text((#[trigger] pairs(fields)[k]).1),
            text_fields(read) == collected(list.take(i as int)),
        decreases walked@.len() - i,
    {
        let (name, value) = walked[i];
        proof {
            assert(walked@.map_values(view)[i as int] == view(walked@[i as int]));
            assert(is_text(pairs(fields)[i as int].1));
            assert(list[i as int] == (name_text(*name), text_of(value_bytes(*value))));
            assert(list.take(i + 1).drop_last() =~= list.take(i as int));
            lemma_collected_len(list, i + 1);
        }
        if let Some(text) = value_text(value) {
            append_text(&mut read, name, text.to_owned());
        }
        i = i + 1;
    }
    proof {
        assert(list.take(i as int) =~= list);
    }
    read
}

impl<S> HttpResponse<S> {
    /// Whether this is what was received, with its headers read as text and its
    /// body as a stream of unknown length.
    pub open spec fn is_read_from(self, received: ReceivedResponse<S>) -> bool {
        &&& self.status == received.status
        &&& text_fields(self.headers) == as_text(value_fields(received.headers))
        &&& self.body == (ByteStream { size_hint: None, inner: received.body })
    }

    /// The response with its headers read as text, and its body as a stream of
    /// unknown length.
    pub fn from_hyper(received: ReceivedResponse<S>) -> (response: HttpResponse<S>)
        requires
            all_text(value_fields(received.headers)),
        ensures
            response.is_read_from(received),
    {
        let headers: HeaderMap<String> = read_headers(&received.headers);
        HttpResponse {
            status: received.status,
            headers,
            body: ByteStream::new(received.body),
        }
    }

    /// Buffer the full response body in memory, resulting in a `BufferedHttpResponse`.
    pub fn buffer(self) -> (future: BufferedHttpResponseFuture<ByteStream<S>>)
        ensures
            future == (BufferedHttpResponseFuture {
                status: self.status,
                headers: self.headers,
                future: self.body,
            }),
    {
        BufferedHttpResponseFuture {
            status: self.status,
            headers: self.headers,
            future: self.body,
        }
    }
}

/// Future returned from `HttpResponse::buffer`: the response but for its body,
/// and what puts the body together.
pub struct BufferedHttpResponseFuture<F> {
    /// Status code of HTTP Request
    pub status: u16,
    /// Response headers
    pub headers: HeaderMap<String>,
    /// What the body comes from
    pub future: F,
}

/// Whether the response is what comes of a body that was polled for, and `after`
/// what is left.
pub open spec fn goes_on<F>(
    before: BufferedHttpResponseFuture<F>,
    polled: Result<Async<Bytes>, std::io::Error>,
    response: Result<Async<BufferedHttpResponse>, HttpDispatchError>,
    after: BufferedHttpResponseFuture<F>,
) -> bool {
    &&& after.status == before.status
    &&& after.future == before.future
    &&& match polled {
        Ok(Async::Ready(body)) => {
            &&& response == Ok::<Async<BufferedHttpResponse>, HttpDispatchError>(
                Async::Ready(
                    BufferedHttpResponse { status: before.status, body, headers: before.headers },
                ),
            )
            &&& text_fields(after.headers).len() == 0
        },
        Ok(Async::NotReady) => {
            &&& response == Ok::<Async<BufferedHttpResponse>, HttpDispatchError>(Async::NotReady)
            &&& after.headers == before.headers
        },
        Err(err) => {
            &&& response matches Err(HttpDispatchError::IoError(s))
            &&& vstd::string::to_string_from_display_ensures(&err, s)
            &&& after.headers == before.headers
        },
    }
}

impl<F> BufferedHttpResponseFuture<F> {
    /// Goes on from what polling the body gave. The response leaves with the
    /// headers.
    pub fn poll(&mut self, polled: Result<Async<Bytes>, std::io::Error>) -> (response: Result<
        Async<BufferedHttpResponse>,
        HttpDispatchError,
    >)
        ensures
            goes_on(*old(self), polled, response, *final(self)),
    {
        match polled {
            Ok(Async::Ready(body)) => {
                let mut headers: HeaderMap<String> = default_text_map();
                std::mem::swap(&mut headers, &mut self.headers);
                Ok(Async::Ready(BufferedHttpResponse { status: self.status, body, headers }))
            },
            Ok(Async::NotReady) => Ok(Async::NotReady),
            Err(err) => Err(HttpDispatchError::from(err)),
        }
    }
}

/// Buffering keeps the response: however often the body was not there yet, once
/// it is, the response has the status and the headers that were received, and
/// that body.
pub proof fn law_buffering_keeps_the_response<S>(
    received: ReceivedResponse<S>,
    response: HttpResponse<S>,
    waits: Seq<BufferedHttpResponseFuture<ByteStream<S>>>,
    body: Bytes,
    outcome: Result<Async<BufferedHttpResponse>, HttpDispatchError>,
    after: BufferedHttpResponseFuture<ByteStream<S>>,
)
    requires
        response.is_read_from(received),
        waits.len() > 0,
        waits[0] == (BufferedHttpResponseFuture {
            status: response.status,
            headers: response.headers,
            future: response.body,
        }),
        forall|i: int|
            0 <= i < waits.len() - 1 ==> goes_on(
                #[trigger] waits[i],
                Ok(Async::NotReady),
                Ok(Async::NotReady),
                waits[i + 1],
            ),
        goes_on(waits.last(), Ok(Async::Ready(body)), outcome, after),
    ensures
        outcome matches Ok(Async::Ready(buffered)) && buffered.status == received.status
            && text_fields(buffered.headers) == as_text(value_fields(received.headers))
            && buffered.body == body,
    decreases waits.len(),
{
    if waits.len() > 1 {
        let fewer = waits.drop_first();
        assert(goes_on(waits[0], Ok(Async::NotReady), Ok(Async::NotReady), waits[1]));
        assert(fewer[0] == waits[1]);
        assert(waits[1] == waits[0]);
        assert forall|i: int| 0 <= i < fewer.len() - 1 implies goes_on(
            #[trigger] fewer[i],
            Ok(Async::NotReady),
            Ok(Async::NotReady),
            fewer[i + 1],
        ) by {
            assert(fewer[i] == waits[i + 1]);
            assert(fewer[i + 1] == waits[i + 2]);
        }
        law_buffering_keeps_the_response(received, response, fewer, body, outcome, after);
    }
}

/// A body that hyper fails to read ends in an io error with the text of hyper's
/// own error, whatever came of the body before; no part of the body is handed
/// out, and the future is left as it was.
pub proof fn law_failed_bodies_keep_hypers_text<F>(
    err: hyper::Error,
    io_error: std::io::Error,
    before: BufferedHttpResponseFuture<F>,
    outcome: Result<Async<BufferedHttpResponse>, HttpDispatchError>,
    after: BufferedHttpResponseFuture<F>,
)
    requires
        keeps_text(io_error, err),
        goes_on(before, Err(io_error), outcome, after),
    ensures
        outcome matches Err(HttpDispatchError::IoError(s))
            && vstd::string::to_string_from_display_ensures(&err, s),
        after == before,
{
}

/// The headers leave with the first response: another would have none.
pub proof fn law_headers_leave_once<F>(
    before: BufferedHttpResponseFuture<F>,
    body: Bytes,
    first: Result<Async<BufferedHttpResponse>, HttpDispatchError>,
    between: BufferedHttpResponseFuture<F>,
    other_body: Bytes,
    second: Result<Async<BufferedHttpResponse>, HttpDispatchError>,
    after: BufferedHttpResponseFuture<F>,
)
    requires
        goes_on(before, Ok(Async::Ready(body)), first, between),
        goes_on(between, Ok(Async::Ready(other_body)), second, after),
    ensures
        first matches Ok(Async::Ready(buffered)) && buffered.headers == before.headers,
        second matches Ok(Async::Ready(buffered)) && text_fields(buffered.headers).len() == 0
            && buffered.status == before.status,
{
}

impl BufferedHttpResponse {
    /// Best effort to turn response body into more readable &str.
    pub fn body_as_str(&self) -> (text: &str)
        ensures
            valid_utf8(content(self.body)) ==> text@ == decode_utf8(content(self.body)),
            !valid_utf8(content(self.body)) ==> text@ == "unknown error"@,
    {
        match utf8_text(as_slice(&self.body)) {
            Some(text) => text,
            None => "unknown error",
        }
    }

    /// The response as it is printed for debugging.
    pub open spec fn printed(self) -> Seq<char> {
        let headers = printed_fields(text_fields(self.headers));
        if valid_utf8(content(self.body)) {
            debug_text(self.status, true, quoted(decode_utf8(content(self.body))), headers)
        } else {
            debug_text(self.status, false, byte_literal(content(self.body)), headers)
        }
    }

    /// Best effort based debug text to make generic error's body more readable:
    /// a body that is text is printed as text.
    pub fn fmt(&self) -> (text: String)
        ensures
            text@ == self.printed(),
    {
        let headers: String = print_text_map(&self.headers);
        match utf8_text(as_slice(&self.body)) {
            Some(body) => write_debug(self.status, true, quote(body).as_str(), headers.as_str()),
            None => write_debug(
                self.status,
                false,
                print_bytes(&self.body).as_str(),
                headers.as_str(),
            ),
        }
    }
}

/// A response as it is printed for debugging, from its status, whether its body
/// is text, and its body and headers as printed.
pub open spec fn debug_text(status: u16, is_text: bool, body: Seq<char>, headers: Seq<char>) -> Seq<
    char,
> {
    let opening = if is_text {
        "BufferedHttpResponse {status: "@
    } else {
        "BufferedHttpResponse { status: "@
    };
    opening + decimal(status as nat) + ", body: "@ + body + ", headers: "@ + headers + " }"@
}

/// Writes a response for debugging, its body and headers already printed.
pub fn write_debug(status: u16, is_text: bool, body: &str, headers: &str) -> (text: String)
    ensures
        text@ == debug_text(status, is_text, body@, headers@),
{
    let mut text: String = if is_text {
        "BufferedHttpResponse {status: ".to_owned()
    } else {
        "BufferedHttpResponse { status: ".to_owned()
    };
    text.append(decimal_text(status as u64).as_str());
    text.append(", body: ");
    text.append(body);
    text.append(", headers: ");
    text.append(headers);
    text.append(" }");
    text
}

/// Reading a response loses nothing, whatever its status: it has the status, the
/// names and the values of the headers in order, and the body that came, which
/// is of unknown length.
pub proof fn law_reading_loses_nothing<S>(received: ReceivedResponse<S>, response: HttpResponse<S>)
    requires
        response.is_read_from(received),
    ensures
        response.status == received.status,
        response.body.inner == received.body,
        response.body.size_hint is None,
        text_fields(response.headers).len() == value_fields(received.headers).len(),
        forall|i: int|
            0 <= i < value_fields(received.headers).len() ==> (#[trigger] text_fields(
                response.headers,
            )[i]).0 == value_fields(received.headers)[i].0 && text_fields(
                response.headers,
            )[i].1.len() == value_fields(received.headers)[i].1.len(),
        forall|i: int, j: int|
            0 <= i < value_fields(received.headers).len() && 0 <= j < value_fields(
                received.headers,
            )[i].1.len() ==> (#[trigger] text_fields(response.headers)[i].1[j]).len()
                == value_fields(received.headers)[i].1[j].len(),
        forall|i: int, j: int, k: int|
            0 <= i < value_fields(received.headers).len() && 0 <= j < value_fields(
                received.headers,
            )[i].1.len() && 0 <= k < value_fields(received.headers)[i].1[j].len() ==> (
            #[trigger] text_fields(response.headers)[i].1[j][k]) as u32 == value_fields(
                received.headers,
            )[i].1[j][k],
{
    law_values_are_read_byte_by_byte(value_fields(received.headers));
}

/// While the body is not there, nothing happens; when it is there, it leaves with
/// the status and the headers, whatever the status is; and when it fails, the
/// error is an io error with the text of what failed, and nothing has left.
pub proof fn law_buffering_step_by_step<F>(
    before: BufferedHttpResponseFuture<F>,
    polled: Result<Async<Bytes>, std::io::Error>,
    outcome: Result<Async<BufferedHttpResponse>, HttpDispatchError>,
    after: BufferedHttpResponseFuture<F>,
)
    requires
        goes_on(before, polled, outcome, after),
    ensures
        polled matches Ok(Async::NotReady) ==> (outcome matches Ok(Async::NotReady) && after
            == before),
        polled matches Ok(Async::Ready(body)) ==> (outcome matches Ok(Async::Ready(buffered))
            && buffered.status == before.status && buffered.headers == before.headers
            && buffered.body == body),
        polled matches Err(err) ==> (outcome matches Err(HttpDispatchError::IoError(s))
            && vstd::string::to_string_from_display_ensures(&err, s) && after == before),
        after.status == before.status,
        after.future == before.future,
{
}

/// The debug text of a response shows its status, its body and its headers: the
/// body as quoted text where it is text, as a byte string where it is not.
pub proof fn law_debug_text_shows_the_response(response: BufferedHttpResponse, text: Seq<char>)
    ensures
        content(response.body) == encode_utf8(text) ==> response.printed()
            == "BufferedHttpResponse {status: "@ + decimal(response.status as nat) + ", body: "@
            + quoted(text) + ", headers: "@ + printed_fields(text_fields(response.headers))
            + " }"@,
        !valid_utf8(content(response.body)) ==> response.printed()
            == "BufferedHttpResponse { status: "@ + decimal(response.status as nat) + ", body: "@
            + byte_literal(content(response.body)) + ", headers: "@ + printed_fields(
            text_fields(response.headers),
        ) + " }"@,
{
    encode_utf8_valid_utf8(text);
    encode_utf8_decode_utf8(text);
}

} // verus!
