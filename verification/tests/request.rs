use rusoto_request::error::{HttpDispatchError, TlsError};
use rusoto_request::signed::{Region, SignedRequest};

fn request_to(endpoint: &str) -> SignedRequest<()> {
    let region = Region::Custom {
        endpoint: endpoint.to_owned(),
        name: "eu-west-3".to_owned(),
    };
    SignedRequest::new("GET", "s3", &region, "/bucket")
}

#[test]
fn custom_region_http() {
    let a_region = Region::Custom {
        endpoint: "http://localhost".to_owned(),
        name: "eu-west-3".to_owned(),
    };
    let request: SignedRequest<()> = SignedRequest::new("POST", "sqs", &a_region, "/");
    assert_eq!("http", request.scheme());
    assert_eq!("localhost", request.hostname());
}

#[test]
fn custom_region_https() {
    let a_region = Region::Custom {
        endpoint: "https://localhost".to_owned(),
        name: "eu-west-3".to_owned(),
    };
    let request: SignedRequest<()> = SignedRequest::new("POST", "sqs", &a_region, "/");
    assert_eq!("https", request.scheme());
    assert_eq!("localhost", request.hostname());
}

#[test]
fn custom_region_with_port() {
    let a_region = Region::Custom {
        endpoint: "https://localhost:8000".to_owned(),
        name: "eu-west-3".to_owned(),
    };
    let request: SignedRequest<()> = SignedRequest::new("POST", "sqs", &a_region, "/");
    assert_eq!("https", request.scheme());
    assert_eq!("localhost:8000", request.hostname());
}

#[test]
fn custom_region_no_scheme() {
    let a_region = Region::Custom {
        endpoint: "localhost".to_owned(),
        name: "eu-west-3".to_owned(),
    };
    let request: SignedRequest<()> = SignedRequest::new("POST", "sqs", &a_region, "/");
    assert_eq!("https", request.scheme());
    assert_eq!("localhost", request.hostname());
}

#[test]
fn from_io_error_preserves_error_message() {
    let io_error = ::std::io::Error::new(::std::io::ErrorKind::Other, "my error message");
    let error = HttpDispatchError::from(io_error);
    assert_eq!(error.to_string(), "my error message")
}

#[test]
fn the_host_ends_at_the_next_slash() {
    let request = request_to("http://localhost:9000/minio/x");
    assert_eq!("localhost:9000", request.hostname());
    assert_eq!("http", request.scheme());
}

#[test]
fn any_other_scheme_is_https() {
    let request = request_to("ftp://localhost/");
    assert_eq!("localhost", request.hostname());
    assert_eq!("https", request.scheme());
}

#[test]
fn hosts_hold_no_slash() {
    assert_eq!("", request_to("").hostname());
    assert_eq!("", request_to("/").hostname());
    assert_eq!("", request_to("http:///path").hostname());
    assert_eq!("b", request_to("a/x://b/c").hostname());
    assert_eq!("höst", request_to("https://höst/é").hostname());
}

#[test]
fn a_new_request_is_bare() {
    let request = request_to("localhost");
    assert_eq!("GET", request.method());
    assert_eq!("s3", request.service);
    assert_eq!("/bucket", request.canonical_path());
    assert_eq!("", request.canonical_query_string());
    assert!(request.headers.is_empty());
    assert!(request.payload.is_none());
    match &request.region {
        Region::Custom { name, endpoint } => {
            assert_eq!("eu-west-3", name);
            assert_eq!("localhost", endpoint);
        }
    }
}

#[test]
fn the_address_has_a_query_where_there_is_one() {
    let mut request = request_to("http://localhost:9000");
    assert_eq!("http://localhost:9000/bucket", request.final_uri());
    request.canonical_query_string = "a=1&b=2".to_owned();
    assert_eq!("http://localhost:9000/bucket?a=1&b=2", request.final_uri());
}

#[test]
fn each_dispatch_error_describes_itself() {
    let errors = vec![
        (HttpDispatchError::Timeout, "Request timed out"),
        (HttpDispatchError::ClientFutureError("a".to_owned()), "a"),
        (HttpDispatchError::DeadlineError("b".to_owned()), "b"),
        (HttpDispatchError::HyperError("c".to_owned()), "c"),
        (HttpDispatchError::IoError("d".to_owned()), "d"),
    ];
    for (error, text) in errors {
        assert_eq!(error.description(), text);
        assert_eq!(error.fmt(), text);
        assert_eq!(error.to_string(), text);
        assert_eq!(error.clone(), error);
    }
}

#[test]
fn io_errors_become_io_errors() {
    let io_error = ::std::io::Error::new(::std::io::ErrorKind::Other, "broken");
    assert_eq!(
        HttpDispatchError::from(io_error),
        HttpDispatchError::IoError("broken".to_owned())
    );
}

#[test]
fn deadline_errors_are_told_apart() {
    assert_eq!(
        HttpDispatchError::from_deadline_parts(true, None, "late".to_owned()),
        HttpDispatchError::Timeout
    );
    assert_eq!(
        HttpDispatchError::from_deadline_parts(false, Some("reset".to_owned()), "x".to_owned()),
        HttpDispatchError::HyperError("reset".to_owned())
    );
    assert_eq!(
        HttpDispatchError::from_deadline_parts(false, None, "timer".to_owned()),
        HttpDispatchError::DeadlineError("timer".to_owned())
    );
}

#[test]
fn tls_errors_say_what_went_wrong() {
    let error = TlsError::native_tls("no store");
    assert_eq!(error.description(), "Couldn't create NativeTlsClient: no store");
    assert_eq!(error.fmt(), "Couldn't create NativeTlsClient: no store");
    assert_eq!(error.to_string(), "Couldn't create NativeTlsClient: no store");
    assert_eq!(error, TlsError::native_tls("no store"));
}
