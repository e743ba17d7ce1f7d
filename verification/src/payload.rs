//! The body of a request: bytes at hand, or a stream of them.

use crate::buffer::{as_slice, buffer_is_empty, buffer_len, content, split_off};
use crate::text::{decimal, decimal_text, utf8_text};
use bytes::Bytes;
use vstd::prelude::*;
use vstd::utf8::*;

verus! {

/// A stream of bytes, with its length where that is known beforehand.
pub struct ByteStream<S> {
    /// How many bytes will come.
    pub size_hint: Option<usize>,
    /// What the bytes come from.
    pub inner: S,
}

impl<S> ByteStream<S> {
    /// A stream of unknown length.
    pub fn new(stream: S) -> (byte_stream: ByteStream<S>)
        ensures
            byte_stream == (ByteStream { size_hint: None, inner: stream }),
    {
        ByteStream { size_hint: None, inner: stream }
    }

    /// How many bytes will come, where that is known.
    pub fn size_hint(&self) -> (hint: Option<usize>)
        ensures
            hint == self.size_hint,
    {
        self.size_hint
    }
}

/// The body of a signed request.
pub enum SignedRequestPayload<S> {
    /// Bytes at hand.
    Buffer(Bytes),
    /// Bytes that come one piece at a time.
    Stream(ByteStream<S>),
}

/// What there is of the body for the connection to take.
pub enum DataPoll {
    /// A piece of the body, or its end.
    Ready(Option<Bytes>),
    /// The next piece, or the end, is what the stream says when it is polled.
    PollStream,
}

/// The body as the connection takes it.
pub struct HttpClientPayload<S> {
    /// The request's payload, where it has one.
    pub inner: Option<SignedRequestPayload<S>>,
}

/// What is left of a body that is at hand.
pub open spec fn remaining<S>(payload: HttpClientPayload<S>) -> Seq<u8> {
    match payload.inner {
        Some(SignedRequestPayload::Buffer(buffer)) => content(buffer),
        _ => Seq::empty(),
    }
}

/// Whether the body comes out of a stream.
pub open spec fn is_stream<S>(payload: HttpClientPayload<S>) -> bool {
    payload.inner matches Some(SignedRequestPayload::Stream(_))
}

/// Whether the body is known to have ended. A stream has not ended until it says
/// so.
pub open spec fn has_ended<S>(payload: HttpClientPayload<S>) -> bool {
    !is_stream(payload) && remaining(payload).len() == 0
}

/// How long what is left of the body is, where that is known.
pub open spec fn known_length<S>(payload: HttpClientPayload<S>) -> Option<nat> {
    match payload.inner {
        Some(SignedRequestPayload::Stream(stream)) => match stream.size_hint {
            Some(size) => Some(size as nat),
            None => None,
        },
        _ => Some(remaining(payload).len()),
    }
}

/// The bytes that taking a piece of the body gave.
pub open spec fn piece_of(data: DataPoll) -> Seq<u8> {
    match data {
        DataPoll::Ready(Some(piece)) => content(piece),
        _ => Seq::empty(),
    }
}

/// Whether `data` is the next piece of the body `before`, and `after` the body
/// without it.
pub open spec fn takes<S>(
    before: HttpClientPayload<S>,
    data: DataPoll,
    after: HttpClientPayload<S>,
) -> bool {
    if is_stream(before) {
        data is PollStream && after == before
    } else if has_ended(before) {
        data == DataPoll::Ready(None) && after == before
    } else {
        &&& data matches DataPoll::Ready(Some(piece))
        &&& content(piece) == remaining(before)
        &&& after.inner matches Some(SignedRequestPayload::Buffer(left))
        &&& content(left).len() == 0
    }
}

impl<S> HttpClientPayload<S> {
    /// Takes the next piece of the body. Bytes at hand are taken all at once.
    pub fn poll_data(&mut self) -> (data: DataPoll)
        ensures
            takes(*old(self), data, *final(self)),
    {
        match &mut self.inner {
            None => DataPoll::Ready(None),
            Some(SignedRequestPayload::Buffer(buffer)) => {
                if buffer_is_empty(buffer) {
                    DataPoll::Ready(None)
                } else {
                    let piece: Bytes = split_off(buffer, 0);
                    proof {
                        assert(content(piece) =~= remaining(*old(self)));
                    }
                    DataPoll::Ready(Some(piece))
                }
            },
            Some(SignedRequestPayload::Stream(_)) => DataPoll::PollStream,
        }
    }

    /// Whether the body is known to have ended.
    pub fn is_end_stream(&self) -> (ended: bool)
        ensures
            ended == has_ended(*self),
    {
        match &self.inner {
            None => true,
            Some(SignedRequestPayload::Buffer(buffer)) => buffer_is_empty(buffer),
            Some(SignedRequestPayload::Stream(_)) => false,
        }
    }

    /// The length of the body, where it is known.
    pub fn content_length(&self) -> (length: Option<u64>)
        ensures
            match known_length(*self) {
                Some(n) => length matches Some(m) && m == n,
                None => length is None,
            },
    {
        match &self.inner {
            None => Some(0),
            Some(SignedRequestPayload::Buffer(buffer)) => Some(buffer_len(buffer) as u64),
            Some(SignedRequestPayload::Stream(stream)) => match stream.size_hint() {
                Some(size) => Some(size as u64),
                None => None,
            },
        }
    }
}

/// Bytes at hand are taken once and whole: the first piece is all of them, and
/// from then on the body has ended and nothing more comes.
pub proof fn law_bytes_at_hand_are_taken_once<S>(
    before: HttpClientPayload<S>,
    first: DataPoll,
    between: HttpClientPayload<S>,
    second: DataPoll,
    after: HttpClientPayload<S>,
)
    requires
        !is_stream(before),
        takes(before, first, between),
        takes(between, second, after),
    ensures
        piece_of(first) == remaining(before),
        has_ended(between),
        known_length(between) == Some(0nat),
        second == DataPoll::Ready(None),
        after == between,
{
}

/// What the three questions that a connection asks of a body say agrees: a body
/// at hand has as many bytes as its next piece, and has ended exactly when there
/// is no next piece.
pub proof fn law_length_and_end_agree_with_what_comes<S>(
    before: HttpClientPayload<S>,
    data: DataPoll,
    after: HttpClientPayload<S>,
)
    requires
        !is_stream(before),
        takes(before, data, after),
    ensures
        known_length(before) == Some(piece_of(data).len()),
        has_ended(before) <==> data == DataPoll::Ready(None),
        has_ended(before) <==> known_length(before) == Some(0nat),
{
}

/// A stream is never said to have ended, keeps the length it was given, and is
/// left as it was for the connection to poll.
pub proof fn law_streams_are_left_alone<S>(
    before: HttpClientPayload<S>,
    data: DataPoll,
    after: HttpClientPayload<S>,
)
    requires
        is_stream(before),
        takes(before, data, after),
    ensures
        data is PollStream,
        after == before,
        !has_ended(before),
        known_length(after) == known_length(before),
{
}

/// A payload as the request log shows it: the text of a buffer, or the length
/// of a stream.
pub open spec fn logged<S>(payload: Option<SignedRequestPayload<S>>) -> Seq<char> {
    match payload {
        Some(SignedRequestPayload::Buffer(buffer)) => if valid_utf8(content(buffer)) {
            decode_utf8(content(buffer))
        } else {
            "<non-UTF-8 data>"@
        },
        Some(SignedRequestPayload::Stream(stream)) => match stream.size_hint {
            Some(size) => "<stream size_hint=Some("@ + decimal(size as nat) + ")>"@,
            None => "<stream size_hint=None>"@,
        },
        None => Seq::empty(),
    }
}

/// Writes a payload for the request log.
pub fn log_text<S>(payload: &Option<SignedRequestPayload<S>>) -> (text: String)
    ensures
        text@ == logged(*payload),
{
    match payload {
        Some(SignedRequestPayload::Buffer(buffer)) => match utf8_text(as_slice(buffer)) {
            Some(text) => text.to_owned(),
            None => "<non-UTF-8 data>".to_owned(),
        },
        Some(SignedRequestPayload::Stream(stream)) => match stream.size_hint() {
            Some(size) => {
                let mut text: String = "<stream size_hint=Some(".to_owned();
                text.append(decimal_text(size as u64).as_str());
                text.append(")>");
                text
            },
            None => "<stream size_hint=None>".to_owned(),
        },
        None => String::new(),
    }
}

/// Bytes at hand are handed over whole, however many they are: their number is
/// the length of the body, the first piece is all of them, and behind it the
/// body is an empty one.
pub proof fn law_a_buffer_is_handed_over_whole<S>(
    buffer: Bytes,
    data: DataPoll,
    after: HttpClientPayload<S>,
)
    requires
        takes(
            HttpClientPayload::<S> { inner: Some(SignedRequestPayload::Buffer(buffer)) },
            data,
            after,
        ),
    ensures
        known_length(
            HttpClientPayload::<S> { inner: Some(SignedRequestPayload::Buffer(buffer)) },
        ) == Some(content(buffer).len()),
        has_ended(
            HttpClientPayload::<S> { inner: Some(SignedRequestPayload::Buffer(buffer)) },
        ) <==> content(buffer).len() == 0,
        content(buffer).len() > 0 ==> (data matches DataPoll::Ready(Some(piece)) && content(piece)
            == content(buffer)),
        content(buffer).len() == 0 ==> data == DataPoll::Ready(None),
        after.inner matches Some(SignedRequestPayload::Buffer(left)) && content(left).len() == 0,
{
}

/// No body is an empty one: its length is nothing, it has ended, and no piece
/// comes.
pub proof fn law_no_body_is_empty<S>(data: DataPoll, after: HttpClientPayload<S>)
    requires
        takes(HttpClientPayload::<S> { inner: None }, data, after),
    ensures
        known_length(HttpClientPayload::<S> { inner: None }) == Some(0nat),
        has_ended(HttpClientPayload::<S> { inner: None }),
        data == DataPoll::Ready(None),
        after.inner is None,
{
}

/// A stream is as long as it says, has not ended, even where it says that it is
/// empty, and is polled for its pieces.
pub proof fn law_a_stream_speaks_for_itself<S>(
    stream: ByteStream<S>,
    data: DataPoll,
    after: HttpClientPayload<S>,
)
    requires
        takes(
            HttpClientPayload { inner: Some(SignedRequestPayload::Stream(stream)) },
            data,
            after,
        ),
    ensures
        stream.size_hint is None ==> known_length(
            HttpClientPayload { inner: Some(SignedRequestPayload::Stream(stream)) },
        ) is None,
        stream.size_hint matches Some(size) ==> known_length(
            HttpClientPayload { inner: Some(SignedRequestPayload::Stream(stream)) },
        ) == Some(size as nat),
        !has_ended(HttpClientPayload { inner: Some(SignedRequestPayload::Stream(stream)) }),
        data == DataPoll::PollStream,
        after.inner == Some(SignedRequestPayload::Stream(stream)),
{
}

/// The log shows the text of a buffer that is text, says so of one that is not,
/// shows a stream by its length, and nothing where there is no body.
pub proof fn law_the_log_shows_each_body<S>(buffer: Bytes, text: Seq<char>, stream: ByteStream<S>)
    ensures
        content(buffer) == encode_utf8(text) ==> logged::<S>(
            Some(SignedRequestPayload::Buffer(buffer)),
        ) == text,
        !valid_utf8(content(buffer)) ==> logged::<S>(Some(SignedRequestPayload::Buffer(buffer)))
            == "<non-UTF-8 data>"@,
        stream.size_hint is None ==> logged(Some(SignedRequestPayload::Stream(stream)))
            == "<stream size_hint=None>"@,
        stream.size_hint matches Some(size) ==> logged(Some(SignedRequestPayload::Stream(stream)))
            == "<stream size_hint=Some("@ + decimal(size as nat) + ")>"@,
        logged::<S>(None) == Seq::<char>::empty(),
{
    encode_utf8_valid_utf8(text);
    encode_utf8_decode_utf8(text);
}

} // verus!
