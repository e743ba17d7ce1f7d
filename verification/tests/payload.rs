use bytes::Bytes;
use rusoto_request::payload::{
    log_text, ByteStream, DataPoll, HttpClientPayload, SignedRequestPayload,
};
use rusoto_request::text::decimal_text;

fn buffer(bytes: &[u8]) -> HttpClientPayload<()> {
    HttpClientPayload {
        inner: Some(SignedRequestPayload::Buffer(Bytes::from(bytes))),
    }
}

fn stream(size_hint: Option<usize>) -> Option<SignedRequestPayload<u8>> {
    Some(SignedRequestPayload::Stream(ByteStream {
        size_hint,
        inner: 7,
    }))
}

#[test]
fn bytes_at_hand_are_taken_once_and_whole() {
    let mut payload = buffer(b"hello");
    assert_eq!(payload.content_length(), Some(5));
    assert!(!payload.is_end_stream());
    match payload.poll_data() {
        DataPoll::Ready(Some(piece)) => assert_eq!(piece, "hello"),
        _ => panic!("no piece"),
    }
    assert_eq!(payload.content_length(), Some(0));
    assert!(payload.is_end_stream());
    assert!(matches!(payload.poll_data(), DataPoll::Ready(None)));
    assert!(matches!(payload.poll_data(), DataPoll::Ready(None)));
    match payload.inner {
        Some(SignedRequestPayload::Buffer(left)) => assert!(left.is_empty()),
        _ => panic!("the buffer is gone"),
    }
}

#[test]
fn no_body_and_an_empty_one_have_ended() {
    let mut none: HttpClientPayload<()> = HttpClientPayload { inner: None };
    assert_eq!(none.content_length(), Some(0));
    assert!(none.is_end_stream());
    assert!(matches!(none.poll_data(), DataPoll::Ready(None)));
    let mut empty = buffer(b"");
    assert_eq!(empty.content_length(), Some(0));
    assert!(empty.is_end_stream());
    assert!(matches!(empty.poll_data(), DataPoll::Ready(None)));
}

#[test]
fn streams_are_left_to_be_polled() {
    let mut payload = HttpClientPayload { inner: stream(Some(9)) };
    assert_eq!(payload.content_length(), Some(9));
    assert!(!payload.is_end_stream());
    assert!(matches!(payload.poll_data(), DataPoll::PollStream));
    assert_eq!(payload.content_length(), Some(9));
    assert!(!payload.is_end_stream());
    let unknown = HttpClientPayload { inner: stream(None) };
    assert_eq!(unknown.content_length(), None);
    let empty = HttpClientPayload { inner: stream(Some(0)) };
    assert!(!empty.is_end_stream());
}

#[test]
fn a_new_stream_has_no_known_length() {
    let byte_stream = ByteStream::new(3u8);
    assert_eq!(byte_stream.size_hint(), None);
    assert_eq!(byte_stream.inner, 3);
}

#[test]
fn the_log_shows_text_and_lengths() {
    assert_eq!(log_text(&buffer("tëxt".as_bytes()).inner), "tëxt");
    assert_eq!(log_text(&buffer(&[0xff, 0xfe]).inner), "<non-UTF-8 data>");
    assert_eq!(log_text(&stream(Some(10))), "<stream size_hint=Some(10)>");
    assert_eq!(log_text(&stream(None)), "<stream size_hint=None>");
    let none: Option<SignedRequestPayload<()>> = None;
    assert_eq!(log_text(&none), "");
}

#[test]
fn numbers_are_written_in_decimal() {
    for n in vec![0u64, 7, 10, 99, 100, 404, 1234567890, u64::max_value()] {
        assert_eq!(decimal_text(n), format!("{}", n));
    }
}
