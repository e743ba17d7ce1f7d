use bytes::Bytes;
use http::header::{HeaderName, HeaderValue};
use http::HeaderMap;
use rusoto_request::error::HttpDispatchError;
use rusoto_request::response::{
    headers_are_text, write_debug, Async, BufferedHttpResponse, HttpResponse, ReceivedResponse,
};

fn field(name: &'static str, value: &[u8]) -> (HeaderName, HeaderValue) {
    (
        HeaderName::from_static(name),
        HeaderValue::from_bytes(value).unwrap(),
    )
}

fn received(fields: Vec<(HeaderName, HeaderValue)>) -> ReceivedResponse<&'static str> {
    let mut headers = HeaderMap::new();
    for (name, value) in fields {
        headers.append(name, value);
    }
    ReceivedResponse {
        status: 200,
        headers,
        body: "stream",
    }
}

fn buffered(status: u16, body: &[u8]) -> BufferedHttpResponse {
    let mut headers = HeaderMap::default();
    headers.append(HeaderName::from_static("etag"), "\"x\"".to_owned());
    BufferedHttpResponse {
        status,
        body: Bytes::from(body),
        headers,
    }
}

#[test]
fn reading_a_response_keeps_its_status_headers_and_body() {
    let response = HttpResponse::from_hyper(received(vec![
        field("set-cookie", b"a"),
        field("x-amz-id", b"\tid 1"),
        field("set-cookie", b"b"),
    ]));
    assert_eq!(response.status, 200);
    assert_eq!(response.body.inner, "stream");
    assert_eq!(response.body.size_hint(), None);
    let read: Vec<(&str, &str)> = response
        .headers
        .iter()
        .map(|(n, v)| (n.as_str(), v.as_str()))
        .collect();
    assert_eq!(
        read,
        vec![("set-cookie", "a"), ("set-cookie", "b"), ("x-amz-id", "\tid 1")]
    );
}

#[test]
fn headers_that_are_not_text_are_found() {
    assert!(headers_are_text(&received(vec![]).headers));
    assert!(headers_are_text(&received(vec![field("a", b"~ \t")]).headers));
    let odd = received(vec![field("a", b"x"), field("a", b"\xe9"), field("b", b"y")]);
    assert!(!headers_are_text(&odd.headers));
}

#[test]
fn buffering_keeps_status_and_headers() {
    let response = HttpResponse::from_hyper(received(vec![field("etag", b"1")]));
    let mut future = response.buffer();
    assert_eq!(future.status, 200);
    assert_eq!(future.future.inner, "stream");
    assert!(matches!(future.poll(Ok(Async::NotReady)), Ok(Async::NotReady)));
    assert_eq!(future.headers.get("etag").unwrap(), "1");
    match future.poll(Ok(Async::Ready(Bytes::from("done")))) {
        Ok(Async::Ready(response)) => {
            assert_eq!(response.status, 200);
            assert_eq!(response.body, "done");
            assert_eq!(response.headers.get("etag").unwrap(), "1");
            assert_eq!(response.headers.len(), 1);
        }
        _ => panic!("no response"),
    }
    assert!(future.headers.is_empty());
    match future.poll(Ok(Async::Ready(Bytes::from("again")))) {
        Ok(Async::Ready(response)) => {
            assert_eq!(response.status, 200);
            assert!(response.headers.is_empty());
        }
        _ => panic!("no response"),
    }
}

#[test]
fn a_body_that_fails_is_an_io_error() {
    let response = HttpResponse::from_hyper(received(vec![field("etag", b"1")]));
    let mut future = response.buffer();
    let failed = std::io::Error::new(std::io::ErrorKind::Other, "connection reset");
    match future.poll(Err(failed)) {
        Err(error) => assert_eq!(
            error,
            HttpDispatchError::IoError("connection reset".to_owned())
        ),
        Ok(_) => panic!("no error"),
    }
    assert_eq!(future.headers.get("etag").unwrap(), "1");
}

#[test]
fn a_body_is_text_or_an_unknown_error() {
    assert_eq!(buffered(200, "bödy".as_bytes()).body_as_str(), "bödy");
    assert_eq!(buffered(200, b"").body_as_str(), "");
    assert_eq!(buffered(500, &[0xc3, 0x28]).body_as_str(), "unknown error");
}

#[test]
fn responses_are_printed_for_debugging() {
    assert_eq!(
        buffered(404, b"no \"such\" key\n").fmt(),
        "BufferedHttpResponse {status: 404, body: \"no \\\"such\\\" key\\n\", headers: \
         {\"etag\": \"\\\"x\\\"\"} }"
    );
    assert_eq!(
        buffered(500, &[0xff, b'a']).fmt(),
        "BufferedHttpResponse { status: 500, body: b\"\\xffa\", headers: \
         {\"etag\": \"\\\"x\\\"\"} }"
    );
}

#[test]
fn headers_are_printed_one_value_at_a_time() {
    let mut response = buffered(200, b"");
    response.headers.append(HeaderName::from_static("a"), "1".to_owned());
    response.headers.append(HeaderName::from_static("etag"), "y".to_owned());
    assert_eq!(
        response.fmt(),
        "BufferedHttpResponse {status: 200, body: \"\", headers: \
         {\"etag\": \"\\\"x\\\"\", \"etag\": \"y\", \"a\": \"1\"} }"
    );
    response.headers = HeaderMap::default();
    assert_eq!(
        response.fmt(),
        "BufferedHttpResponse {status: 200, body: \"\", headers: {} }"
    );
}

#[test]
fn each_byte_of_a_body_that_is_not_text_is_printed() {
    for byte in 0u8..=255 {
        let escape = match byte {
            0 => "\\0".to_owned(),
            9 => "\\t".to_owned(),
            10 => "\\n".to_owned(),
            13 => "\\r".to_owned(),
            34 => "\\\"".to_owned(),
            92 => "\\\\".to_owned(),
            32..=126 => vec![byte as char].into_iter().collect(),
            _ => format!("\\x{:02x}", byte),
        };
        let mut response = buffered(500, &[0xff, byte, b'z']);
        response.headers = HeaderMap::default();
        assert_eq!(
            response.fmt(),
            format!(
                "BufferedHttpResponse {{ status: 500, body: b\"\\xff{}z\", headers: {{}} }}",
                escape
            )
        );
    }
}

#[test]
fn debug_text_is_put_together_from_its_parts() {
    assert_eq!(
        write_debug(7, true, "B", "H"),
        "BufferedHttpResponse {status: 7, body: B, headers: H }"
    );
    assert_eq!(
        write_debug(301, false, "B", "H"),
        "BufferedHttpResponse { status: 301, body: B, headers: H }"
    );
}

#[test]
fn equal_responses_are_equal() {
    assert!(buffered(200, b"a") == buffered(200, b"a"));
    assert!(buffered(200, b"a") != buffered(201, b"a"));
    assert!(buffered(200, b"a") != buffered(200, b"b"));
}
