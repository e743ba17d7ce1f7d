use bytes::Bytes;
use rusoto_request::payload::{ByteStream, SignedRequestPayload};
use rusoto_request::signed::{Header, Region, SignedRequest};
use rusoto_request::translation::{
    default_user_agent, try_translate_request, HttpMethod, TranslatedRequest,
};

fn header(name: &str, values: &[&str]) -> Header {
    Header {
        name: name.to_owned(),
        values: values.iter().map(|v| v.as_bytes().to_vec()).collect(),
    }
}

fn request(method: &str, headers: Vec<Header>) -> SignedRequest<()> {
    let region = Region::Custom {
        name: "eu-west-3".to_owned(),
        endpoint: "http://localhost:8000".to_owned(),
    };
    let mut request = SignedRequest::new(method, "sqs", &region, "/queue");
    request.headers = headers;
    request
}

fn translate(method: &str, headers: Vec<Header>) -> Result<TranslatedRequest<()>, String> {
    match try_translate_request(request(method, headers), "agent/1") {
        Some(translated) => translated,
        None => panic!("beyond the limits"),
    }
}

fn sent(translated: &TranslatedRequest<()>, name: &str) -> Vec<String> {
    let values = translated.headers.get_all(name);
    values
        .iter()
        .map(|v| v.to_str().unwrap().to_owned())
        .collect()
}

fn refused(translated: Result<TranslatedRequest<()>, String>) -> String {
    match translated {
        Ok(_) => panic!("not refused"),
        Err(text) => text,
    }
}

#[test]
fn the_five_verbs_are_supported() {
    let verbs = vec![
        ("POST", HttpMethod::Post),
        ("PUT", HttpMethod::Put),
        ("DELETE", HttpMethod::Delete),
        ("GET", HttpMethod::Get),
        ("HEAD", HttpMethod::Head),
    ];
    for (name, method) in verbs {
        assert_eq!(HttpMethod::named(name), Some(method));
        assert_eq!(method.as_str(), name);
        assert_eq!(translate(name, vec![]).ok().unwrap().method, method);
    }
    assert_eq!(HttpMethod::named("get"), None);
}

#[test]
fn other_verbs_are_refused_before_anything_else() {
    let text = refused(translate("PATCH", vec![header("bad name", &["x"])]));
    assert_eq!(text, "Unsupported HTTP verb PATCH");
    assert_eq!(refused(translate("", vec![])), "Unsupported HTTP verb ");
}

#[test]
fn names_that_are_not_valid_are_refused() {
    for name in vec!["", "bad name", "colon:", "é", "(x)", "a,b", "new\nline"] {
        let text = refused(translate("GET", vec![header(name, &[])]));
        assert_eq!(text, "error parsing header name: invalid HTTP header name");
    }
    let long = "a".repeat(80) + " ";
    let text = refused(translate("GET", vec![header(&long, &["x"])]));
    assert_eq!(text, "error parsing header name: invalid HTTP header name");
}

#[test]
fn values_that_are_not_valid_are_refused() {
    for value in vec!["\n", "a\u{7f}", "\u{0}", "x\u{1f}"] {
        let text = refused(translate("GET", vec![header("x-amz-a", &["fine", value])]));
        assert_eq!(text, "error parsing header value: failed to parse header value");
    }
}

#[test]
fn the_first_header_that_cannot_be_sent_decides() {
    let text = refused(translate(
        "GET",
        vec![header("a", &["1"]), header("b", &["\n"]), header("c d", &["1"])],
    ));
    assert_eq!(text, "error parsing header value: failed to parse header value");
    let text = refused(translate(
        "GET",
        vec![header("a", &["1"]), header("c d", &["1"]), header("b", &["\n"])],
    ));
    assert_eq!(text, "error parsing header name: invalid HTTP header name");
}

#[test]
fn values_are_sent_under_their_names_in_lower_case_and_in_order() {
    let translated = translate(
        "GET",
        vec![
            header("X-Amz-Date", &["one", "two"]),
            header("Host", &["localhost"]),
            header("x-amz-date", &["three"]),
            header("X-Empty", &[]),
        ],
    )
    .ok()
    .unwrap();
    assert_eq!(sent(&translated, "x-amz-date"), vec!["one", "two", "three"]);
    assert_eq!(sent(&translated, "host"), vec!["localhost"]);
    assert_eq!(sent(&translated, "x-empty"), Vec::<String>::new());
    let names: Vec<&str> = translated.headers.keys().map(|n| n.as_str()).collect();
    assert_eq!(names, vec!["x-amz-date", "host", "user-agent"]);
}

#[test]
fn bytes_beyond_ascii_are_sent_as_they_are() {
    let mut odd = header("x-odd", &[]);
    odd.values.push(vec![9, 32, 128, 255, 126]);
    let translated = translate("PUT", vec![odd]).ok().unwrap();
    let value = translated.headers.get("x-odd").unwrap();
    assert_eq!(value.as_bytes(), &[9, 32, 128, 255, 126]);
}

#[test]
fn each_character_of_a_name_is_accepted_or_refused() {
    for code in 0u8..=127 {
        let c = code as char;
        let fine = c.is_ascii_alphanumeric() || "!\"#$%&'*+-.^_`|~".contains(c);
        let name: String = vec![c].into_iter().collect();
        assert_eq!(translate("GET", vec![header(&name, &["v"])]).is_ok(), fine);
        let long = "n".repeat(70) + &name;
        assert_eq!(translate("GET", vec![header(&long, &["v"])]).is_ok(), fine);
        if fine {
            let translated = translate("GET", vec![header(&name, &["v"])]).ok().unwrap();
            let low = name.to_ascii_lowercase();
            assert_eq!(sent(&translated, low.as_str()), vec!["v"]);
        }
    }
}

#[test]
fn each_byte_of_a_value_is_accepted_or_refused() {
    for byte in 0u8..=255 {
        let mut one = header("x-byte", &[]);
        one.values.push(vec![byte]);
        let fine = byte == 9 || byte >= 32 && byte != 127;
        assert_eq!(translate("GET", vec![one]).is_ok(), fine);
    }
}

#[test]
fn a_default_user_agent_is_added_where_there_is_none() {
    let translated = translate("GET", vec![]).ok().unwrap();
    assert_eq!(sent(&translated, "user-agent"), vec!["agent/1"]);
    let translated = translate("GET", vec![header("User-Agent", &[])]).ok().unwrap();
    assert_eq!(sent(&translated, "user-agent"), vec!["agent/1"]);
}

#[test]
fn the_user_agent_of_a_request_is_kept() {
    let headers = vec![header("User-Agent", &["mine", "too"])];
    let translated = translate("GET", headers).ok().unwrap();
    assert_eq!(sent(&translated, "user-agent"), vec!["mine", "too"]);
}

#[test]
fn what_a_header_map_cannot_hold_comes_to_nothing() {
    let long = "a".repeat(65536);
    let unparsed = request("GET", vec![header(&long, &["x"])]);
    assert!(try_translate_request(unparsed, "agent/1").is_none());
    let mut many = vec![];
    for i in 0..32768 {
        many.push(header(&format!("h{}", i), &["x"]));
    }
    assert!(try_translate_request(request("GET", many), "agent/1").is_none());
    assert!(try_translate_request(request("GET", vec![]), "agent\n").is_none());
    let own = request("GET", vec![header("user-agent", &["x"])]);
    assert!(try_translate_request(own, "agent\n").is_some());
    let verb = request("PATCH", vec![header(&long, &["x"])]);
    assert!(try_translate_request(verb, "agent/1").is_some());
}

#[test]
fn a_full_header_map_still_takes_values_under_its_names() {
    let mut many = vec![header("user-agent", &["x"])];
    for i in 1..32768 {
        many.push(header(&format!("h{}", i), &["x"]));
    }
    many.push(header("H1", &["y"]));
    let translated = translate("GET", many).ok().unwrap();
    assert_eq!(translated.headers.keys_len(), 32768);
    assert_eq!(sent(&translated, "h1"), vec!["x", "y"]);
    assert_eq!(sent(&translated, "h32767"), vec!["x"]);
}

#[test]
fn a_header_that_cannot_be_sent_is_refused_behind_a_full_map() {
    let mut many = vec![];
    for i in 0..32768 {
        many.push(header(&format!("h{}", i), &["x"]));
    }
    many.push(header("bad name", &["x"]));
    let text = refused(translate("GET", many));
    assert_eq!(text, "error parsing header name: invalid HTTP header name");
}

#[test]
fn a_name_may_be_almost_as_long_as_the_limit() {
    let long = "a".repeat(65535);
    let translated = translate("GET", vec![header(&long, &["x"])]).ok().unwrap();
    assert_eq!(sent(&translated, long.as_str()), vec!["x"]);
}

#[test]
fn the_address_and_the_body_are_carried_over() {
    let mut whole = request("PUT", vec![]);
    whole.canonical_query_string = "x=1".to_owned();
    whole.payload = Some(SignedRequestPayload::Buffer(Bytes::from("body")));
    let translated = try_translate_request(whole, "agent/1").unwrap().ok().unwrap();
    assert_eq!(translated.final_uri, "http://localhost:8000/queue?x=1");
    match translated.payload {
        Some(SignedRequestPayload::Buffer(ref bytes)) => assert_eq!(bytes, "body"),
        _ => panic!("the payload is another"),
    }
    assert_eq!(
        translated.log_text(),
        "Full request: \n method: PUT\n final_uri: http://localhost:8000/queue?x=1\n payload: \
         body\nHeaders:\n"
    );
    let prepared = translated.build().ok().unwrap();
    assert_eq!(prepared.method, HttpMethod::Put);
    assert_eq!(prepared.uri.to_string(), "http://localhost:8000/queue?x=1");
    assert_eq!(prepared.headers.get("user-agent").unwrap(), "agent/1");
    match prepared.payload.inner {
        Some(SignedRequestPayload::Buffer(bytes)) => assert_eq!(bytes, "body"),
        _ => panic!("the payload is another"),
    }
}

#[test]
fn the_log_shows_streams_by_their_length() {
    let mut streamed = request("POST", vec![]);
    streamed.payload = Some(SignedRequestPayload::Stream(ByteStream {
        size_hint: Some(1024),
        inner: (),
    }));
    let translated = try_translate_request(streamed, "agent/1").unwrap().ok().unwrap();
    assert_eq!(
        translated.log_text(),
        "Full request: \n method: POST\n final_uri: http://localhost:8000/queue\n payload: \
         <stream size_hint=Some(1024)>\nHeaders:\n"
    );
}

#[test]
fn an_address_that_cannot_be_parsed_is_refused() {
    let mut odd = request("GET", vec![]);
    odd.canonical_path = "/a b".to_owned();
    let translated = try_translate_request(odd, "agent/1").unwrap().ok().unwrap();
    match translated.build() {
        Ok(_) => panic!("not refused"),
        Err(text) => assert_eq!(text, "error building request: invalid uri character"),
    }
}

#[test]
fn the_result_of_parsing_the_address_decides() {
    let translated = translate("GET", vec![]).ok().unwrap();
    match translated.with_uri(Err("reason".to_owned())) {
        Ok(_) => panic!("not refused"),
        Err(text) => assert_eq!(text, "error building request: reason"),
    }
    let translated = translate("HEAD", vec![header("a", &["1"])]).ok().unwrap();
    let uri: http::Uri = "http://elsewhere/".parse().unwrap();
    let prepared = translated.with_uri(Ok(uri)).ok().unwrap();
    assert_eq!(prepared.method, HttpMethod::Head);
    assert_eq!(prepared.uri.host(), Some("elsewhere"));
    assert_eq!(prepared.headers.get("a").unwrap(), "1");
    assert!(prepared.payload.inner.is_none());
}

#[test]
fn the_default_user_agent_names_versions_and_system() {
    let agent = default_user_agent("0.42.0", "1.40.0", "linux");
    assert_eq!(agent, "rusoto/0.42.0 rust/1.40.0 linux");
    let translated = try_translate_request(request("GET", vec![]), &agent);
    assert_eq!(
        sent(&translated.unwrap().ok().unwrap(), "user-agent"),
        vec!["rusoto/0.42.0 rust/1.40.0 linux"]
    );
}

#[test]
fn a_default_user_agent_may_hold_any_text_without_control_characters() {
    for part in vec!["plain", "tab\t", "~ é \u{10ffff}", ""] {
        let agent = default_user_agent(part, "1.40.0", part);
        let translated = try_translate_request(request("GET", vec![]), &agent);
        let headers = translated.unwrap().ok().unwrap().headers;
        assert_eq!(headers.get("user-agent").unwrap().as_bytes(), agent.as_bytes());
    }
    for part in vec!["\n", "\u{7f}", "\u{1f}"] {
        let agent = default_user_agent("0.42.0", part, "linux");
        assert!(try_translate_request(request("GET", vec![]), &agent).is_none());
    }
}
