//! What a signed request becomes before it is sent: a verb, an address and
//! headers in the terms of the connection, or a reason why it is refused.

use crate::headers::{
    append_value, appended, contains_name, field_index, has_field, insert_value, is_name_char,
    is_value_byte, law_values_stand_in_their_field, lemma_appended, lower_case, lower_char,
    name_count, name_text, new_map, parse_name, valid_name, valid_value, value_fields,
    value_from_bytes, values_of, well_formed, Fields, MAX_NAMES, NAME_LIMIT,
};
use crate::payload::{log_text, logged, HttpClientPayload, SignedRequestPayload};
use crate::signed::{Header, SignedRequest};
use crate::text::same_text;
use http::header::{HeaderName, HeaderValue};
use http::HeaderMap;
use vstd::prelude::*;
use vstd::utf8::*;

verus! {

/// `http::Uri`, the address of a request once it has been parsed.
#[verifier::external_type_specification]
#[verifier::external_body]
pub struct ExUri(http::Uri);

/// The URI that a text spells, or the text of the error where it spells none.
pub uninterp spec fn parsed_uri(text: Seq<char>) -> Result<http::Uri, Seq<char>>;

/// `http::request::Builder::uri` and `body`: the URI of a request that is built
/// for it, or why none is built. Which texts spell a URI is not described here.
#[verifier::external_body]
fn build_uri(text: &str) -> (uri: Result<http::Uri, String>)
    ensures
        match uri {
            Ok(u) => parsed_uri(text@) == Ok::<http::Uri, Seq<char>>(u),
            Err(e) => parsed_uri(text@) == Err::<http::Uri, Seq<char>>(e@),
        },
{
    let request = http::Request::builder().uri(text).body(());
    request.map(|r| r.into_parts().0.uri).map_err(|e| e.to_string())
}

/// The HTTP verbs that requests are sent with.
#[derive(Clone, Copy, Debug, PartialEq, Eq, Structural)]
pub enum HttpMethod {
    /// `POST`
    Post,
    /// `PUT`
    Put,
    /// `DELETE`
    Delete,
    /// `GET`
    Get,
    /// `HEAD`
    Head,
}

impl HttpMethod {
    /// The verb's name.
    pub open spec fn name(self) -> Seq<char> {
        match self {
            HttpMethod::Post => "POST"@,
            HttpMethod::Put => "PUT"@,
            HttpMethod::Delete => "DELETE"@,
            HttpMethod::Get => "GET"@,
            HttpMethod::Head => "HEAD"@,
        }
    }

    /// The verb's name.
    pub fn as_str(self) -> (text: &'static str)
        ensures
            text@ == self.name(),
    {
        match self {
            HttpMethod::Post => "POST",
            HttpMethod::Put => "PUT",
            HttpMethod::Delete => "DELETE",
            HttpMethod::Get => "GET",
            HttpMethod::Head => "HEAD",
        }
    }

    /// The verb with this name, where there is one.
    pub fn named(name: &str) -> (method: Option<HttpMethod>)
        ensures
            match method {
                Some(m) => name@ == m.name(),
                None => forall|m: HttpMethod| name@ != #[trigger] m.name(),
            },
    {
        if same_text(name, "POST") {
            Some(HttpMethod::Post)
        } else if same_text(name, "PUT") {
            Some(HttpMethod::Put)
        } else if same_text(name, "DELETE") {
            Some(HttpMethod::Delete)
        } else if same_text(name, "GET") {
            Some(HttpMethod::Get)
        } else if same_text(name, "HEAD") {
            Some(HttpMethod::Head)
        } else {
            None
        }
    }
}

/// No two verbs have the same name.
pub proof fn law_method_names_differ(a: HttpMethod, b: HttpMethod)
    ensures
        a.name() == b.name() ==> a == b,
{
    reveal_strlit("POST");
    reveal_strlit("PUT");
    reveal_strlit("DELETE");
    reveal_strlit("GET");
    reveal_strlit("HEAD");
    if a.name() == b.name() {
        assert(a.name()[0] == b.name()[0]);
        assert(a.name()[1] == b.name()[1]);
    }
}

/// What becomes of the headers of a request.
pub enum Translation {
    /// The fields that are sent.
    Sent(Fields<Seq<u8>>),
    /// The request is refused, with this text.
    Refused(Seq<char>),
    /// A header map cannot hold them.
    Beyond,
}

/// One more value under a name.
pub open spec fn with_value(so_far: Translation, name: Seq<char>, value: Seq<u8>) -> Translation {
    match so_far {
        Translation::Sent(fields) => if !valid_value(value) {
            Translation::Refused(
                "error parsing header value: "@ + "failed to parse header value"@,
            )
        } else if fields.len() >= MAX_NAMES && !has_field(fields, name) {
            Translation::Beyond
        } else {
            Translation::Sent(appended(fields, name, value))
        },
        _ => so_far,
    }
}

/// More values under a name, in order.
pub open spec fn with_values(
    so_far: Translation,
    name: Seq<char>,
    values: Seq<Seq<u8>>,
) -> Translation
    decreases values.len(),
{
    if values.len() == 0 {
        so_far
    } else {
        with_value(with_values(so_far, name, values.drop_last()), name, values.last())
    }
}

/// One more header. Its name is put in lower case.
pub open spec fn with_header(
    so_far: Translation,
    header: (Seq<char>, Seq<Seq<u8>>),
) -> Translation {
    if !(so_far is Sent) {
        so_far
    } else if encode_utf8(header.0).len() >= NAME_LIMIT {
        Translation::Beyond
    } else if !valid_name(header.0) {
        Translation::Refused("error parsing header name: "@ + "invalid HTTP header name"@)
    } else {
        with_values(so_far, lower_case(header.0), header.1)
    }
}

/// The headers of a request, in order.
pub open spec fn translated(headers: Seq<(Seq<char>, Seq<Seq<u8>>)>) -> Translation
    decreases headers.len(),
{
    if headers.len() == 0 {
        Translation::Sent(Seq::empty())
    } else {
        with_header(translated(headers.drop_last()), headers.last())
    }
}

/// The headers with a `user-agent`: the request's own, or else the default.
pub open spec fn with_user_agent(headers: Translation, default: Seq<u8>) -> Translation {
    match headers {
        Translation::Sent(fields) => if has_field(fields, "user-agent"@) {
            headers
        } else if fields.len() >= MAX_NAMES || !valid_value(default) {
            Translation::Beyond
        } else {
            Translation::Sent(fields.push(("user-agent"@, seq![default])))
        },
        _ => headers,
    }
}

/// The headers that a request is sent with.
pub open spec fn sent_headers<S>(
    request: SignedRequest<S>,
    default_agent: Seq<char>,
) -> Translation {
    with_user_agent(translated(request.header_views()), encode_utf8(default_agent))
}

/// Whether the request has one of the verbs of [`HttpMethod`].
pub open spec fn verb_supported<S>(request: SignedRequest<S>) -> bool {
    exists|m: HttpMethod| #[trigger] m.name() == request.method@
}

/// Whether a header map can hold the headers of the request, and the default
/// `user-agent` where the request has none.
pub open spec fn within_limits<S>(request: SignedRequest<S>, default_agent: Seq<char>) -> bool {
    verb_supported(request) ==> !(sent_headers(request, default_agent) is Beyond)
}

/// Why a request is refused before its address is looked at: its verb, or the
/// first of its headers that cannot be sent.
pub open spec fn early_refusal<S>(request: SignedRequest<S>, default_agent: Seq<char>) -> Option<
    Seq<char>,
> {
    if !verb_supported(request) {
        Some("Unsupported HTTP verb "@ + request.method@)
    } else {
        match sent_headers(request, default_agent) {
            Translation::Refused(text) => Some(text),
            _ => None,
        }
    }
}

/// Why a request is refused: the first of its verb, its headers in order, and
/// its address that cannot be sent.
pub open spec fn refusal<S>(request: SignedRequest<S>, default_agent: Seq<char>) -> Option<
    Seq<char>,
> {
    match early_refusal(request, default_agent) {
        Some(text) => Some(text),
        None => match parsed_uri(request.uri()) {
            Ok(_) => None,
            Err(text) => Some("error building request: "@ + text),
        },
    }
}

/// A request in the terms of the connection, but for its address, which is
/// still a text.
pub struct TranslatedRequest<S> {
    /// The HTTP verb.
    pub method: HttpMethod,
    /// The address.
    pub final_uri: String,
    /// The headers.
    pub headers: HeaderMap<HeaderValue>,
    /// The body.
    pub payload: Option<SignedRequestPayload<S>>,
}

/// Whether `translated` says what `request` says.
pub open spec fn translates<S>(
    translated: TranslatedRequest<S>,
    request: SignedRequest<S>,
    default_agent: Seq<char>,
) -> bool {
    &&& translated.method.name() == request.method@
    &&& translated.final_uri@ == request.uri()
    &&& sent_headers(request, default_agent) == Translation::Sent(value_fields(translated.headers))
    &&& translated.payload == request.payload
}

/// A request that is ready to be sent.
pub struct PreparedRequest<S> {
    /// The HTTP verb.
    pub method: HttpMethod,
    /// The address.
    pub uri: http::Uri,
    /// The headers.
    pub headers: HeaderMap<HeaderValue>,
    /// The body.
    pub payload: HttpClientPayload<S>,
}

/// Whether `prepared` says what `request` says.
pub open spec fn carries<S>(
    prepared: PreparedRequest<S>,
    request: SignedRequest<S>,
    default_agent: Seq<char>,
) -> bool {
    &&& prepared.method.name() == request.method@
    &&& parsed_uri(request.uri()) == Ok::<http::Uri, Seq<char>>(prepared.uri)
    &&& sent_headers(request, default_agent) == Translation::Sent(value_fields(prepared.headers))
    &&& prepared.payload.inner == request.payload
}

/// A header map in the making.
enum HeaderBuild {
    Sent(HeaderMap<HeaderValue>),
    Refused(String),
    Beyond,
}

impl HeaderBuild {
    spec fn translation(self) -> Translation {
        match self {
            HeaderBuild::Sent(map) => Translation::Sent(value_fields(map)),
            HeaderBuild::Refused(text) => Translation::Refused(text@),
            HeaderBuild::Beyond => Translation::Beyond,
        }
    }
}

/// A text in two parts.
fn join(first: &str, second: &str) -> (text: String)
    ensures
        text@ == first@ + second@,
{
    let mut text: String = first.to_owned();
    text.append(second);
    text
}

/// Appends a value, where the map can hold it.
fn add_value(map: HeaderMap<HeaderValue>, name: &HeaderName, value: &[u8]) -> (build: HeaderBuild)
    ensures
        build.translation() == with_value(
            Translation::Sent(value_fields(map)),
            name_text(*name),
            value@,
        ),
{
    match value_from_bytes(value) {
        Err(err) => HeaderBuild::Refused(join("error parsing header value: ", err.as_str())),
        Ok(header_value) => {
            if name_count(&map) >= MAX_NAMES && !contains_name(&map, name) {
                HeaderBuild::Beyond
            } else {
                let mut map: HeaderMap<HeaderValue> = map;
                append_value(&mut map, name, header_value);
                HeaderBuild::Sent(map)
            }
        },
    }
}

/// Once a translation has failed, more values change nothing.
proof fn lemma_failed_values(so_far: Translation, name: Seq<char>, values: Seq<Seq<u8>>, k: int)
    requires
        0 <= k <= values.len(),
        !(with_values(so_far, name, values.take(k)) is Sent),
    ensures
        with_values(so_far, name, values) == with_values(so_far, name, values.take(k)),
    decreases values.len() - k,
{
    if k == values.len() {
        assert(values.take(k) =~= values);
    } else {
        assert(values.take(k + 1).drop_last() =~= values.take(k));
        lemma_failed_values(so_far, name, values, k + 1);
    }
}

/// Once a translation has failed, more headers change nothing.
proof fn lemma_failed_headers(headers: Seq<(Seq<char>, Seq<Seq<u8>>)>, k: int)
    requires
        0 <= k <= headers.len(),
        !(translated(headers.take(k)) is Sent),
    ensures
        translated(headers) == translated(headers.take(k)),
    decreases headers.len() - k,
{
    if k == headers.len() {
        assert(headers.take(k) =~= headers);
    } else {
        assert(headers.take(k + 1).drop_last() =~= headers.take(k));
        lemma_failed_headers(headers, k + 1);
    }
}

/// Appends a header, where the map can hold it.
fn add_header(map: HeaderMap<HeaderValue>, header: &Header) -> (build: HeaderBuild)
    ensures
        build.translation() == with_header(Translation::Sent(value_fields(map)), header@),
{
    let ghost start = Translation::Sent(value_fields(map));
    if header.name.as_str().as_bytes().len() >= NAME_LIMIT {
        return HeaderBuild::Beyond;
    }
    let name: HeaderName = match parse_name(header.name.as_str()) {
        Ok(name) => name,
        Err(err) => {
            return HeaderBuild::Refused(join("error parsing header name: ", err.as_str()));
        },
    };
    let ghost values = header@.1;
    let ghost low = lower_case(header@.0);
    let mut built: HeaderMap<HeaderValue> = map;
    let mut i: usize = 0;
    proof {
        assert(values.take(0) =~= Seq::empty());
    }
    while i < header.values.len()
        invariant
            i <= header.values@.len(),
            values == header.values@.map_values(|v: Vec<u8>| v@),
            low == name_text(name),
            start == Translation::Sent(value_fields(map)),
            Translation::Sent(value_fields(built)) == with_values(start, low, values.take(i as int)),
            with_header(start, header@) == with_values(start, low, values),
        decreases header.values@.len() - i,
    {
        proof {
            assert(values.take(i + 1).drop_last() =~= values.take(i as int));
            assert(values[i as int] == header.values@[i as int]@);
        }
        match add_value(built, &name, header.values[i].as_slice()) {
            HeaderBuild::Sent(more) => {
                built = more;
            },
            failed => {
                proof {
                    lemma_failed_values(start, low, values, i + 1);
                }
                return failed;
            },
        }
        i = i + 1;
    }
    proof {
        assert(values.take(i as int) =~= values);
    }
    HeaderBuild::Sent(built)
}

/// Translates the headers of a request to a header map.
fn translate(headers: &Vec<Header>) -> (build: HeaderBuild)
    ensures
        build.translation() == translated(headers@.map_values(|h: Header| h@)),
{
    let ghost views = headers@.map_values(|h: Header| h@);
    let mut map: HeaderMap<HeaderValue> = new_map();
    let mut i: usize = 0;
    proof {
        assert(views.take(0) =~= Seq::empty());
    }
    while i < headers.len()
        invariant
            i <= headers@.len(),
            views == headers@.map_values(|h: Header| h@),
            Translation::Sent(value_fields(map)) == translated(views.take(i as int)),
        decreases headers@.len() - i,
    {
        proof {
            assert(views.take(i + 1).drop_last() =~= views.take(i as int));
            assert(views[i as int] == headers@[i as int]@);
        }
        match add_header(map, &headers[i]) {
            HeaderBuild::Sent(more) => {
                map = more;
            },
            failed => {
                proof {
                    lemma_failed_headers(views, i + 1);
                }
                return failed;
            },
        }
        i = i + 1;
    }
    proof {
        assert(views.take(i as int) =~= views);
    }
    HeaderBuild::Sent(map)
}

/// `user-agent` is a header name in lower case.
proof fn lemma_user_agent()
    ensures
        valid_name("user-agent"@),
        lower_case("user-agent"@) == "user-agent"@,
        encode_utf8("user-agent"@).len() < NAME_LIMIT,
{
    reveal_strlit("user-agent");
    let name = "user-agent"@;
    assert(is_ascii_chars(name));
    is_ascii_chars_encode_utf8(name);
    assert(lower_case(name) =~= name);
}

/// Adds a default `user-agent` header if one is not already present.
fn add_user_agent(map: HeaderMap<HeaderValue>, user_agent: &str) -> (build: HeaderBuild)
    ensures
        build.translation() == with_user_agent(
            Translation::Sent(value_fields(map)),
            encode_utf8(user_agent@),
        ),
{
    proof {
        lemma_user_agent();
    }
    match parse_name("user-agent") {
        Err(_) => HeaderBuild::Beyond,
        Ok(name) => {
            if contains_name(&map, &name) {
                return HeaderBuild::Sent(map);
            }
            match value_from_bytes(user_agent.as_bytes()) {
                Err(_) => HeaderBuild::Beyond,
                Ok(value) => {
                    if name_count(&map) >= MAX_NAMES {
                        HeaderBuild::Beyond
                    } else {
                        let mut map: HeaderMap<HeaderValue> = map;
                        insert_value(&mut map, &name, value);
                        HeaderBuild::Sent(map)
                    }
                },
            }
        },
    }
}

/// Puts a signed request in the terms of the connection, or says why it cannot
/// be sent. Nothing comes back for a request whose headers are beyond what a
/// header map holds.
pub fn try_translate_request<S>(
    request: SignedRequest<S>,
    user_agent: &str,
) -> (translated: Option<Result<TranslatedRequest<S>, String>>)
    ensures
        translated is Some <==> within_limits(request, user_agent@),
        translated matches Some(result) ==> match early_refusal(request, user_agent@) {
            Some(text) => result matches Err(e) && e@ == text,
            None => result matches Ok(t) && translates(t, request, user_agent@),
        },
{
    let method: HttpMethod = match HttpMethod::named(request.method()) {
        Some(method) => method,
        None => {
            return Some(Err(join("Unsupported HTTP verb ", request.method())));
        },
    };
    proof {
        assert(method.name() == request.method@);
    }
    // translate the headers map to a format Hyper likes
    let build: HeaderBuild = match translate(&request.headers) {
        HeaderBuild::Sent(map) => add_user_agent(map, user_agent),
        failed => failed,
    };
    match build {
        HeaderBuild::Sent(headers) => {
            let final_uri: String = request.final_uri();
            Some(Ok(TranslatedRequest { method, final_uri, headers, payload: request.payload }))
        },
        HeaderBuild::Refused(text) => Some(Err(text)),
        HeaderBuild::Beyond => None,
    }
}

impl<S> TranslatedRequest<S> {
    /// The request log's account of the request, but for its headers.
    pub fn log_text(&self) -> (text: String)
        ensures
            text@ == "Full request: \n method: "@ + self.method.name() + "\n final_uri: "@
                + self.final_uri@ + "\n payload: "@ + logged(self.payload) + "\nHeaders:\n"@,
    {
        let mut text: String = "Full request: \n method: ".to_owned();
        text.append(self.method.as_str());
        text.append("\n final_uri: ");
        text.append(self.final_uri.as_str());
        text.append("\n payload: ");
        text.append(log_text(&self.payload).as_str());
        text.append("\nHeaders:\n");
        text
    }

    /// Goes on from what building a request for the address gave.
    pub fn with_uri(self, uri: Result<http::Uri, String>) -> (prepared: Result<
        PreparedRequest<S>,
        String,
    >)
        ensures
            match uri {
                Ok(u) => prepared == Ok::<PreparedRequest<S>, String>(
                    PreparedRequest {
                        method: self.method,
                        uri: u,
                        headers: self.headers,
                        payload: HttpClientPayload { inner: self.payload },
                    },
                ),
                Err(text) => prepared matches Err(e) && e@ == "error building request: "@ + text@,
            },
    {
        match uri {
            Ok(u) => Ok(
                PreparedRequest {
                    method: self.method,
                    uri: u,
                    headers: self.headers,
                    payload: HttpClientPayload { inner: self.payload },
                },
            ),
            Err(err) => Err(join("error building request: ", err.as_str())),
        }
    }

    /// Makes the request ready to be sent, or says why it cannot be.
    pub fn build(self) -> (prepared: Result<PreparedRequest<S>, String>)
        ensures
            match parsed_uri(self.final_uri@) {
                Ok(u) => prepared == Ok::<PreparedRequest<S>, String>(
                    PreparedRequest {
                        method: self.method,
                        uri: u,
                        headers: self.headers,
                        payload: HttpClientPayload { inner: self.payload },
                    },
                ),
                Err(text) => prepared matches Err(e) && e@ == "error building request: "@ + text,
            },
    {
        let uri: Result<http::Uri, String> = build_uri(self.final_uri.as_str());
        self.with_uri(uri)
    }
}

/// The `user-agent` that requests are sent with when they name none: the
/// version of this package, that of the compiler, and the operating system.
pub fn default_user_agent(package_version: &str, rust_version: &str, os: &str) -> (agent: String)
    ensures
        agent@ == "rusoto/"@ + package_version@ + " rust/"@ + rust_version@ + " "@ + os@,
{
    let mut agent: String = "rusoto/".to_owned();
    agent.append(package_version);
    agent.append(" rust/");
    agent.append(rust_version);
    agent.append(" ");
    agent.append(os);
    agent
}

/// Whether a header can be sent: its name is valid and no longer than a name can
/// be, and each of its values is valid.
pub open spec fn sendable(header: (Seq<char>, Seq<Seq<u8>>)) -> bool {
    &&& encode_utf8(header.0).len() < NAME_LIMIT
    &&& valid_name(header.0)
    &&& forall|j: int| 0 <= j < header.1.len() ==> valid_value(#[trigger] header.1[j])
}

/// The values that headers have under a name, in order. Names are told apart by
/// their lower case.
pub open spec fn own_values(
    headers: Seq<(Seq<char>, Seq<Seq<u8>>)>,
    name: Seq<char>,
) -> Seq<Seq<u8>>
    decreases headers.len(),
{
    if headers.len() == 0 {
        Seq::empty()
    } else if lower_case(headers.last().0) == name {
        own_values(headers.drop_last(), name) + headers.last().1
    } else {
        own_values(headers.drop_last(), name)
    }
}

/// Whether fields can stand in a request: each name once, valid and in lower
/// case, with one valid value or more.
pub open spec fn sound(fields: Fields<Seq<u8>>) -> bool {
    &&& well_formed(fields)
    &&& forall|i: int|
        0 <= i < fields.len() ==> valid_name((#[trigger] fields[i]).0) && lower_case(fields[i].0)
            == fields[i].0
    &&& forall|i: int, j: int|
        0 <= i < fields.len() && 0 <= j < fields[i].1.len() ==> valid_value(
            #[trigger] fields[i].1[j],
        )
}

/// Putting a name in lower case keeps it valid, and changes nothing the second
/// time.
proof fn lemma_lower_case(name: Seq<char>)
    requires
        valid_name(name),
    ensures
        valid_name(lower_case(name)),
        lower_case(lower_case(name)) == lower_case(name),
{
    let low = lower_case(name);
    assert forall|i: int| 0 <= i < low.len() implies is_name_char(#[trigger] low[i]) && lower_char(
        low[i],
    ) == low[i] by {
        assert(is_name_char(name[i]));
        assert(low[i] == lower_char(name[i]));
    }
    assert(lower_case(low) =~= low);
}

/// Appending a valid value under a valid name in lower case keeps fields sound.
proof fn lemma_appended_sound(fields: Fields<Seq<u8>>, name: Seq<char>, value: Seq<u8>)
    requires
        sound(fields),
        valid_name(name),
        lower_case(name) == name,
        valid_value(value),
    ensures
        sound(appended(fields, name, value)),
{
    lemma_appended(fields, name, value);
    let after = appended(fields, name, value);
    if has_field(fields, name) {
        let at = field_index(fields, name);
        assert forall|i: int, j: int|
            0 <= i < after.len() && 0 <= j < after[i].1.len() implies valid_value(
            #[trigger] after[i].1[j],
        ) by {
            if i != at {
                assert(after[i] == fields[i]);
                assert(valid_value(fields[i].1[j]));
            } else if j < fields[i].1.len() {
                assert(valid_value(fields[i].1[j]));
            }
        }
        assert forall|i: int| 0 <= i < after.len() implies valid_name((#[trigger] after[i]).0)
            && lower_case(after[i].0) == after[i].0 by {
            assert(after[i].0 == fields[i].0);
        }
    } else {
        assert forall|i: int, j: int|
            0 <= i < after.len() && 0 <= j < after[i].1.len() implies valid_value(
            #[trigger] after[i].1[j],
        ) by {
            if i < fields.len() {
                assert(valid_value(fields[i].1[j]));
            }
        }
        assert forall|i: int| 0 <= i < after.len() implies valid_name((#[trigger] after[i]).0)
            && lower_case(after[i].0) == after[i].0 by {
            if i < fields.len() {
                assert(after[i] == fields[i]);
            }
        }
    }
}

/// Whether `after` is `fields` with these values, all valid, behind those of a
/// name.
spec fn adds_values(
    fields: Fields<Seq<u8>>,
    name: Seq<char>,
    values: Seq<Seq<u8>>,
    after: Fields<Seq<u8>>,
) -> bool {
    &&& sound(after)
    &&& after.len() <= fields.len() + 1
    &&& values_of(after, name) == values_of(fields, name) + values
    &&& forall|other: Seq<char>|
        other != name ==> #[trigger] values_of(after, other) == values_of(fields, other)
    &&& values.len() > 0 ==> has_field(after, name)
    &&& has_field(fields, name) ==> after.len() == fields.len()
    &&& values.len() == 0 ==> after == fields
    &&& forall|j: int| 0 <= j < values.len() ==> valid_value(#[trigger] values[j])
}

/// One more valid value behind those that were added.
#[verifier::spinoff_prover]
proof fn lemma_one_more_value(
    fields: Fields<Seq<u8>>,
    name: Seq<char>,
    values: Seq<Seq<u8>>,
    before: Fields<Seq<u8>>,
    value: Seq<u8>,
)
    requires
        adds_values(fields, name, values, before),
        valid_name(name),
        lower_case(name) == name,
        valid_value(value),
    ensures
        adds_values(fields, name, values.push(value), appended(before, name, value)),
{
    let after = appended(before, name, value);
    let more = values.push(value);
    lemma_appended(before, name, value);
    lemma_appended_sound(before, name, value);
    assert(values_of(after, name) =~= values_of(fields, name) + more);
    assert forall|other: Seq<char>| other != name implies #[trigger] values_of(after, other)
        == values_of(fields, other) by {
        assert(values_of(before, other) == values_of(fields, other));
    }
    assert forall|j: int| 0 <= j < more.len() implies valid_value(#[trigger] more[j]) by {
        if j < values.len() {
            assert(more[j] == values[j]);
        }
    }
}

/// What becomes of more values under a name.
#[verifier::spinoff_prover]
proof fn lemma_with_values(fields: Fields<Seq<u8>>, name: Seq<char>, values: Seq<Seq<u8>>)
    requires
        sound(fields),
        valid_name(name),
        lower_case(name) == name,
    ensures
        match with_values(Translation::Sent(fields), name, values) {
            Translation::Sent(after) => adds_values(fields, name, values, after),
            Translation::Refused(text) => {
                &&& text == "error parsing header value: "@ + "failed to parse header value"@
                &&& exists|j: int| 0 <= j < values.len() && !valid_value(#[trigger] values[j])
            },
            Translation::Beyond => {
                &&& fields.len() >= MAX_NAMES
                &&& !has_field(fields, name)
                &&& values.len() > 0
            },
        },
    decreases values.len(),
{
    let start = Translation::Sent(fields);
    if values.len() == 0 {
        assert(values_of(fields, name) + values =~= values_of(fields, name));
    } else {
        let most = values.drop_last();
        let last = values.last();
        lemma_with_values(fields, name, most);
        match with_values(start, name, most) {
            Translation::Sent(before) => {
                if !valid_value(last) {
                    assert(!valid_value(values[values.len() - 1]));
                } else if before.len() < MAX_NAMES || has_field(before, name) {
                    lemma_one_more_value(fields, name, most, before, last);
                    assert(most.push(last) =~= values);
                }
            },
            Translation::Refused(text) => {
                let j = choose|j: int| 0 <= j < most.len() && !valid_value(#[trigger] most[j]);
                assert(!valid_value(values[j]));
            },
            Translation::Beyond => {},
        }
    }
}

/// The headers of a request are translated value by value: what is sent is sound,
/// and under each name it holds the values that the headers have under it, in
/// order.
pub proof fn law_values_are_sent_under_their_names(
    headers: Seq<(Seq<char>, Seq<Seq<u8>>)>,
    fields: Fields<Seq<u8>>,
)
    requires
        translated(headers) == Translation::Sent(fields),
    ensures
        sound(fields),
        forall|name: Seq<char>| #[trigger] values_of(fields, name) == own_values(headers, name),
        fields.len() <= headers.len(),
        forall|i: int| 0 <= i < headers.len() ==> sendable(#[trigger] headers[i]),
    decreases headers.len(),
{
    if headers.len() > 0 {
        let most = headers.drop_last();
        let last = headers.last();
        let before = translated(most)->Sent_0;
        law_values_are_sent_under_their_names(most, before);
        lemma_lower_case(last.0);
        let low = lower_case(last.0);
        lemma_with_values(before, low, last.1);
        assert forall|name: Seq<char>| #[trigger] values_of(fields, name) == own_values(
            headers,
            name,
        ) by {
            assert(values_of(before, name) == own_values(most, name));
        }
        assert forall|i: int| 0 <= i < headers.len() implies sendable(#[trigger] headers[i]) by {
            if i < most.len() {
                assert(headers[i] == most[i]);
            }
        }
    } else {
        assert forall|name: Seq<char>| #[trigger] values_of(fields, name) == own_values(
            headers,
            name,
        ) by {
            assert(!has_field(fields, name));
        }
    }
}

/// Headers are within a map's limits when there are no more of them than a map
/// has names, and none has a name that is too long.
proof fn lemma_within_a_map(headers: Seq<(Seq<char>, Seq<Seq<u8>>)>)
    requires
        headers.len() <= MAX_NAMES,
        forall|i: int|
            0 <= i < headers.len() ==> encode_utf8((#[trigger] headers[i]).0).len() < NAME_LIMIT,
    ensures
        !(translated(headers) is Beyond),
    decreases headers.len(),
{
    if headers.len() > 0 {
        let most = headers.drop_last();
        let last = headers.last();
        assert forall|i: int| 0 <= i < most.len() implies encode_utf8((#[trigger] most[i]).0).len()
            < NAME_LIMIT by {
            assert(most[i] == headers[i]);
        }
        lemma_within_a_map(most);
        assert(encode_utf8(headers[headers.len() - 1].0).len() < NAME_LIMIT);
        if translated(most) is Sent && valid_name(last.0) {
            let before = translated(most)->Sent_0;
            law_values_are_sent_under_their_names(most, before);
            lemma_lower_case(last.0);
            lemma_with_values(before, lower_case(last.0), last.1);
        }
    }
}

/// Headers that can be sent are sent, as long as there are no more of them than
/// names in a header map.
pub proof fn law_sendable_headers_are_sent(headers: Seq<(Seq<char>, Seq<Seq<u8>>)>)
    requires
        headers.len() <= MAX_NAMES,
        forall|i: int| 0 <= i < headers.len() ==> sendable(#[trigger] headers[i]),
    ensures
        translated(headers) is Sent,
{
    assert forall|i: int| 0 <= i < headers.len() implies encode_utf8(
        (#[trigger] headers[i]).0,
    ).len() < NAME_LIMIT by {
        assert(sendable(headers[i]));
    }
    lemma_within_a_map(headers);
    law_headers_are_sent_or_refused(headers);
}

/// Of headers within a map's limits, all are sent or the request is refused, and
/// it is refused exactly when one of them cannot be sent.
pub proof fn law_headers_are_sent_or_refused(headers: Seq<(Seq<char>, Seq<Seq<u8>>)>)
    requires
        !(translated(headers) is Beyond),
    ensures
        translated(headers) is Sent <==> forall|i: int|
            0 <= i < headers.len() ==> sendable(#[trigger] headers[i]),
    decreases headers.len(),
{
    if translated(headers) is Sent {
        law_values_are_sent_under_their_names(headers, translated(headers)->Sent_0);
    } else if headers.len() > 0 {
        let most = headers.drop_last();
        let last = headers.last();
        law_headers_are_sent_or_refused(most);
        if translated(most) is Sent {
            let before = translated(most)->Sent_0;
            law_values_are_sent_under_their_names(most, before);
            if valid_name(last.0) {
                lemma_lower_case(last.0);
                lemma_with_values(before, lower_case(last.0), last.1);
            }
            assert(!sendable(headers[headers.len() - 1]));
        } else {
            let i = choose|i: int| 0 <= i < most.len() && !sendable(#[trigger] most[i]);
            assert(!sendable(headers[i]));
        }
    }
}

/// The first header that cannot be sent decides what the refusal says: of its
/// name, if that is not valid, and of a value if not.
pub proof fn law_first_unsendable_header_decides(headers: Seq<(Seq<char>, Seq<Seq<u8>>)>, k: int)
    requires
        0 <= k < headers.len(),
        !(translated(headers) is Beyond),
        forall|i: int| 0 <= i < k ==> sendable(#[trigger] headers[i]),
        !sendable(headers[k]),
    ensures
        translated(headers) == Translation::Refused(
            if valid_name(headers[k].0) {
                "error parsing header value: "@ + "failed to parse header value"@
            } else {
                "error parsing header name: "@ + "invalid HTTP header name"@
            },
        ),
{
    let good = headers.take(k);
    let upto = headers.take(k + 1);
    assert(upto.drop_last() =~= good);
    if translated(good) is Beyond {
        lemma_failed_headers(headers, k);
    }
    assert forall|i: int| 0 <= i < good.len() implies sendable(#[trigger] good[i]) by {
        assert(good[i] == headers[i]);
    }
    law_headers_are_sent_or_refused(good);
    let before = translated(good)->Sent_0;
    law_values_are_sent_under_their_names(good, before);
    if encode_utf8(headers[k].0).len() < NAME_LIMIT && valid_name(headers[k].0) {
        lemma_lower_case(headers[k].0);
        lemma_with_values(before, lower_case(headers[k].0), headers[k].1);
    }
    lemma_failed_headers(headers, k + 1);
}

/// A request is sent with the values that it has under each name, in order; and
/// where it has none under `user-agent`, with the default there. So each request
/// is sent with a `user-agent`, and no request's own is replaced.
pub proof fn law_sent_headers<S>(
    request: SignedRequest<S>,
    default_agent: Seq<char>,
    fields: Fields<Seq<u8>>,
)
    requires
        sent_headers(request, default_agent) == Translation::Sent(fields),
    ensures
        sound(fields),
        has_field(fields, "user-agent"@),
        forall|name: Seq<char>| #[trigger]
            values_of(fields, name) == if name == "user-agent"@ && own_values(
                request.header_views(),
                name,
            ).len() == 0 {
                seq![encode_utf8(default_agent)]
            } else {
                own_values(request.header_views(), name)
            },
{
    let headers = request.header_views();
    let agent = encode_utf8(default_agent);
    let before = translated(headers)->Sent_0;
    law_values_are_sent_under_their_names(headers, before);
    lemma_user_agent();
    let name = "user-agent"@;
    if has_field(before, name) {
        assert(values_of(before, name).len() > 0);
    } else {
        assert(values_of(before, name).len() == 0);
        lemma_appended(before, name, agent);
        lemma_appended_sound(before, name, agent);
        assert(appended(before, name, agent) == fields);
        assert(values_of(before, name).push(agent) =~= seq![agent]);
        assert forall|other: Seq<char>| #[trigger] values_of(fields, other) == if other == name
            && own_values(headers, other).len() == 0 {
            seq![agent]
        } else {
            own_values(headers, other)
        } by {
            assert(values_of(before, other) == own_values(headers, other));
        }
    }
}

/// Requests with fewer headers than a map has names, none with a name too long,
/// are within limits, as long as the default `user-agent` is a valid value.
pub proof fn law_ordinary_requests_are_within_limits<S>(
    request: SignedRequest<S>,
    default_agent: Seq<char>,
)
    requires
        request.headers@.len() < MAX_NAMES,
        forall|i: int|
            0 <= i < request.headers@.len() ==> encode_utf8(
                (#[trigger] request.header_views()[i]).0,
            ).len() < NAME_LIMIT,
        valid_value(encode_utf8(default_agent)),
    ensures
        within_limits(request, default_agent),
{
    let headers = request.header_views();
    lemma_within_a_map(headers);
    if translated(headers) is Sent {
        law_values_are_sent_under_their_names(headers, translated(headers)->Sent_0);
    }
}

/// A request with a verb that is not supported is refused for that, whatever its
/// headers and its address; one that is not is refused for its headers before
/// its address is looked at.
pub proof fn law_refusals_come_in_order<S>(request: SignedRequest<S>, default_agent: Seq<char>)
    ensures
        !verb_supported(request) ==> refusal(request, default_agent) == Some(
            "Unsupported HTTP verb "@ + request.method@,
        ),
        verb_supported(request) ==> match sent_headers(request, default_agent) {
            Translation::Refused(text) => refusal(request, default_agent) == Some(text),
            _ => match parsed_uri(request.uri()) {
                Ok(_) => refusal(request, default_agent) is None,
                Err(text) => refusal(request, default_agent) == Some(
                    "error building request: "@ + text,
                ),
            },
        },
{
}

/// The characters that a header value may hold: no control character but the
/// tab, and not the delete character.
pub open spec fn is_value_char(c: char) -> bool {
    c >= ' ' && c != '\u{7f}' || c == '\t'
}

/// Whether a text may stand in a header value.
pub open spec fn plain_text(text: Seq<char>) -> bool {
    forall|i: int| 0 <= i < text.len() ==> is_value_char(#[trigger] text[i])
}

/// The bytes of a character are valid in a header value when the character is.
proof fn lemma_value_char(c: char)
    ensures
        valid_value(encode_scalar(c as u32)) <==> is_value_char(c),
{
    let v = c as u32;
    let bytes = encode_scalar(v);
    if v <= 0x7f {
        assert((v & 0x7f) as u8 == v) by (bit_vector)
            requires
                v <= 0x7f,
        ;
        assert(bytes[0] == v);
        if is_value_char(c) {
            assert(is_value_byte(bytes[0]));
        }
    } else {
        let a = ((v >> 6) & 0x1f) as u8;
        let b = ((v >> 12) & 0x0f) as u8;
        let d = ((v >> 18) & 0x7) as u8;
        let e = (v & 0x3f) as u8;
        let f = ((v >> 6) & 0x3f) as u8;
        let g = ((v >> 12) & 0x3f) as u8;
        assert(0xc0u8 | a >= 0x80) by (bit_vector);
        assert(0xe0u8 | b >= 0x80) by (bit_vector);
        assert(0xf0u8 | d >= 0x80) by (bit_vector);
        assert(0x80u8 | e >= 0x80) by (bit_vector);
        assert(0x80u8 | f >= 0x80) by (bit_vector);
        assert(0x80u8 | g >= 0x80) by (bit_vector);
        assert forall|i: int| 0 <= i < bytes.len() implies is_value_byte(#[trigger] bytes[i]) by {}
    }
}

/// A text is a valid header value exactly when each of its characters may stand
/// in one.
pub proof fn law_plain_texts_are_valid_values(text: Seq<char>)
    ensures
        valid_value(encode_utf8(text)) <==> plain_text(text),
    decreases text.len(),
{
    if text.len() > 0 {
        let rest = text.drop_first();
        let head = encode_scalar(text[0] as u32);
        let tail = encode_utf8(rest);
        let bytes = encode_utf8(text);
        law_plain_texts_are_valid_values(rest);
        lemma_value_char(text[0]);
        assert(bytes == head + tail);
        if valid_value(bytes) {
            assert forall|i: int| 0 <= i < head.len() implies is_value_byte(#[trigger] head[i]) by {
                assert(head[i] == bytes[i]);
            }
            assert forall|i: int| 0 <= i < tail.len() implies is_value_byte(#[trigger] tail[i]) by {
                assert(tail[i] == bytes[head.len() + i]);
            }
            assert forall|i: int| 0 <= i < text.len() implies is_value_char(#[trigger] text[i]) by {
                if i > 0 {
                    assert(text[i] == rest[i - 1]);
                }
            }
        }
        if plain_text(text) {
            assert forall|i: int| 0 <= i < rest.len() implies is_value_char(#[trigger] rest[i]) by {
                assert(rest[i] == text[i + 1]);
            }
        }
    }
}

/// The default `user-agent` is a valid header value exactly when the versions and
/// the system that it names may stand in one.
pub proof fn law_default_user_agents_are_valid_values(
    package_version: Seq<char>,
    rust_version: Seq<char>,
    os: Seq<char>,
)
    ensures
        valid_value(
            encode_utf8("rusoto/"@ + package_version + " rust/"@ + rust_version + " "@ + os),
        ) <==> plain_text(package_version) && plain_text(rust_version) && plain_text(os),
{
    reveal_strlit("rusoto/");
    reveal_strlit(" rust/");
    reveal_strlit(" ");
    let agent = "rusoto/"@ + package_version + " rust/"@ + rust_version + " "@ + os;
    law_plain_texts_are_valid_values(agent);
    if plain_text(agent) {
        let second = 7 + package_version.len() + 6;
        let third = second + rust_version.len() + 1;
        assert forall|i: int| 0 <= i < package_version.len() implies is_value_char(
            #[trigger] package_version[i],
        ) by {
            assert(package_version[i] == agent[7 + i]);
        }
        assert forall|i: int| 0 <= i < rust_version.len() implies is_value_char(
            #[trigger] rust_version[i],
        ) by {
            assert(rust_version[i] == agent[second + i]);
        }
        assert forall|i: int| 0 <= i < os.len() implies is_value_char(#[trigger] os[i]) by {
            assert(os[i] == agent[third + i]);
        }
    }
}

/// Each verb has its own name.
pub proof fn law_each_verb_has_its_name(method: HttpMethod)
    ensures
        method is Post <==> method.name() == "POST"@,
        method is Put <==> method.name() == "PUT"@,
        method is Delete <==> method.name() == "DELETE"@,
        method is Get <==> method.name() == "GET"@,
        method is Head <==> method.name() == "HEAD"@,
{
    law_method_names_differ(method, HttpMethod::Post);
    law_method_names_differ(method, HttpMethod::Put);
    law_method_names_differ(method, HttpMethod::Delete);
    law_method_names_differ(method, HttpMethod::Get);
    law_method_names_differ(method, HttpMethod::Head);
}

/// A request has one of the verbs when its method is one of their names.
proof fn lemma_verb_supported<S>(request: SignedRequest<S>)
    ensures
        verb_supported(request) <==> (
        request.method@ == "POST"@ || request.method@ == "PUT"@ || request.method@ == "DELETE"@
            || request.method@ == "GET"@ || request.method@ == "HEAD"@),
{
    if request.method@ == "POST"@ {
        assert(HttpMethod::Post.name() == request.method@);
    } else if request.method@ == "PUT"@ {
        assert(HttpMethod::Put.name() == request.method@);
    } else if request.method@ == "DELETE"@ {
        assert(HttpMethod::Delete.name() == request.method@);
    } else if request.method@ == "GET"@ {
        assert(HttpMethod::Get.name() == request.method@);
    } else if request.method@ == "HEAD"@ {
        assert(HttpMethod::Head.name() == request.method@);
    }
}

/// Headers are refused with one of two texts.
proof fn lemma_refused_with(headers: Seq<(Seq<char>, Seq<Seq<u8>>)>)
    ensures
        translated(headers) matches Translation::Refused(text) ==> text
            == "error parsing header value: "@ + "failed to parse header value"@ || text
            == "error parsing header name: "@ + "invalid HTTP header name"@,
    decreases headers.len(),
{
    if headers.len() > 0 {
        let most = headers.drop_last();
        let last = headers.last();
        lemma_refused_with(most);
        if translated(most) is Sent && valid_name(last.0) {
            let before = translated(most)->Sent_0;
            law_values_are_sent_under_their_names(most, before);
            lemma_lower_case(last.0);
            lemma_with_values(before, lower_case(last.0), last.1);
        }
    }
}

/// A request is refused for its verb exactly when its method is none of `POST`,
/// `PUT`, `DELETE`, `GET` and `HEAD`, whatever else it holds; and then for
/// nothing else.
pub proof fn law_the_method_alone_decides_on_the_verb<S>(
    request: SignedRequest<S>,
    default_agent: Seq<char>,
)
    ensures
        (
        request.method@ == "POST"@ || request.method@ == "PUT"@ || request.method@ == "DELETE"@
            || request.method@ == "GET"@ || request.method@ == "HEAD"@)
            <==> early_refusal(request, default_agent) != Some(
            "Unsupported HTTP verb "@ + request.method@,
        ),
        (
        request.method@ == "POST"@ || request.method@ == "PUT"@ || request.method@ == "DELETE"@
            || request.method@ == "GET"@ || request.method@ == "HEAD"@)
            <==> refusal(request, default_agent) != Some(
            "Unsupported HTTP verb "@ + request.method@,
        ),
        (
        request.method@ == "POST"@ || request.method@ == "PUT"@ || request.method@ == "DELETE"@
            || request.method@ == "GET"@ || request.method@ == "HEAD"@)
            ==> forall|verb: Seq<char>|
            refusal(request, default_agent) != Some(#[trigger] ("Unsupported HTTP verb "@ + verb)),
        !(
        request.method@ == "POST"@ || request.method@ == "PUT"@ || request.method@ == "DELETE"@
            || request.method@ == "GET"@ || request.method@ == "HEAD"@)
            ==> within_limits(request, default_agent),
{
    lemma_verb_supported(request);
    lemma_refused_with(request.header_views());
    reveal_strlit("Unsupported HTTP verb ");
    reveal_strlit("error parsing header value: ");
    reveal_strlit("error parsing header name: ");
    reveal_strlit("error building request: ");
    if verb_supported(request) {
        if let Some(text) = refusal(request, default_agent) {
            assert(text[0] == 'e');
            assert forall|verb: Seq<char>| text != #[trigger] ("Unsupported HTTP verb "@ + verb) by {
                assert(("Unsupported HTTP verb "@ + verb)[0] == 'U');
            }
            assert(text != "Unsupported HTTP verb "@ + request.method@);
        }
        if let Some(text) = early_refusal(request, default_agent) {
            assert(text[0] == 'e');
            assert(("Unsupported HTTP verb "@ + request.method@)[0] == 'U');
        }
    }
}

/// What a header must be to be sent, character by character and byte by byte.
pub proof fn law_what_can_be_sent(name: Seq<char>, values: Seq<Seq<u8>>)
    ensures
        sendable((name, values)) <==> {
            &&& 0 < name.len()
            &&& encode_utf8(name).len() < 65536
            &&& forall|i: int|
                0 <= i < name.len() ==> ('a' <= #[trigger] name[i] <= 'z' || 'A' <= name[i] <= 'Z'
                    || '0' <= name[i] <= '9' || "!\"#$%&'*+-.^_`|~"@.contains(name[i]))
            &&& forall|j: int, k: int|
                0 <= j < values.len() && 0 <= k < values[j].len() ==> (#[trigger] values[j][k] >= 32
                    && values[j][k] != 127 || values[j][k] == 9)
        },
{
    reveal_strlit("!\"#$%&'*+-.^_`|~");
    let marks = "!\"#$%&'*+-.^_`|~"@;
    assert forall|c: char| is_name_char(c) <==> ('a' <= c <= 'z' || 'A' <= c <= 'Z' || '0' <= c
        <= '9' || #[trigger] marks.contains(c)) by {
        assert(marks.len() == 16);
        assert(marks[0] == '!' && marks[1] == '"' && marks[2] == '#' && marks[3] == '$' && marks[4]
            == '%' && marks[5] == '&' && marks[6] == '\'' && marks[7] == '*' && marks[8] == '+'
            && marks[9] == '-' && marks[10] == '.' && marks[11] == '^' && marks[12] == '_'
            && marks[13] == '`' && marks[14] == '|' && marks[15] == '~');
    }
    if sendable((name, values)) {
        assert forall|i: int| 0 <= i < name.len() implies ('a' <= #[trigger] name[i] <= 'z' || 'A'
            <= name[i] <= 'Z' || '0' <= name[i] <= '9' || marks.contains(name[i])) by {
            assert(is_name_char(name[i]));
        }
        assert forall|j: int, k: int|
            0 <= j < values.len() && 0 <= k < values[j].len() implies (#[trigger] values[j][k] >= 32
            && values[j][k] != 127 || values[j][k] == 9) by {
            assert(valid_value((name, values).1[j]));
            assert(is_value_byte(values[j][k]));
        }
    }
    if forall|i: int|
        0 <= i < name.len() ==> ('a' <= #[trigger] name[i] <= 'z' || 'A' <= name[i] <= 'Z' || '0'
            <= name[i] <= '9' || marks.contains(name[i])) {
        assert forall|i: int| 0 <= i < name.len() implies is_name_char(#[trigger] name[i]) by {
            assert('a' <= name[i] <= 'z' || 'A' <= name[i] <= 'Z' || '0' <= name[i] <= '9'
                || marks.contains(name[i]));
        }
    }
    if forall|j: int, k: int|
        0 <= j < values.len() && 0 <= k < values[j].len() ==> (#[trigger] values[j][k] >= 32
            && values[j][k] != 127 || values[j][k] == 9) {
        assert forall|j: int| 0 <= j < values.len() implies valid_value(#[trigger] values[j]) by {
            let value = values[j];
            assert forall|k: int| 0 <= k < value.len() implies is_value_byte(#[trigger] value[k]) by {
                assert(values[j][k] >= 32 && values[j][k] != 127 || values[j][k] == 9);
            }
        }
    }
}

/// The values under a name are gathered header by header: those of some headers
/// and then those of the rest; of one header, all that it has, or none, as its
/// name in lower case is that name or another.
pub proof fn law_values_are_gathered_header_by_header(
    some: Seq<(Seq<char>, Seq<Seq<u8>>)>,
    rest: Seq<(Seq<char>, Seq<Seq<u8>>)>,
    header: (Seq<char>, Seq<Seq<u8>>),
    name: Seq<char>,
)
    ensures
        own_values(some + rest, name) == own_values(some, name) + own_values(rest, name),
        lower_case(header.0) == name ==> own_values(seq![header], name) == header.1,
        lower_case(header.0) != name ==> own_values(seq![header], name) == Seq::<Seq<u8>>::empty(),
    decreases rest.len(),
{
    if rest.len() == 0 {
        assert(some + rest =~= some);
        assert(own_values(some, name) + own_values(rest, name) =~= own_values(some, name));
    } else {
        law_values_are_gathered_header_by_header(some, rest.drop_last(), header, name);
        assert((some + rest).drop_last() =~= some + rest.drop_last());
        assert((some + rest).last() == rest.last());
        assert(own_values(some + rest, name) =~= own_values(some, name) + own_values(rest, name));
    }
    let one = seq![header];
    assert(one.drop_last() =~= Seq::empty());
    assert(one.last() == header);
    assert(own_values(one.drop_last(), name) == Seq::<Seq<u8>>::empty());
    assert(Seq::<Seq<u8>>::empty() + header.1 =~= header.1);
}

/// A request is refused for a header only where one cannot be sent; with fewer
/// headers than a map has names and a default `user-agent` that is a valid
/// value, headers that can be sent are sent; and where one cannot, the first
/// such header says why, whatever the default is.
pub proof fn law_a_request_is_refused_for_its_own_headers_alone<S>(
    request: SignedRequest<S>,
    default_agent: Seq<char>,
)
    ensures
        sent_headers(request, default_agent) is Refused ==> exists|i: int|
            0 <= i < request.headers@.len() && !sendable(#[trigger] request.header_views()[i]),
        (forall|i: int|
            0 <= i < request.headers@.len() ==> sendable(#[trigger] request.header_views()[i]))
            && request.headers@.len() < 32768 && valid_value(encode_utf8(default_agent))
            ==> sent_headers(request, default_agent) is Sent,
        (forall|i: int|
            0 <= i < request.headers@.len() ==> sendable(#[trigger] request.header_views()[i]))
            && request.headers@.len() <= 32768 && own_values(
            request.header_views(),
            "user-agent"@,
        ).len() > 0 ==> sent_headers(request, default_agent) is Sent,
        forall|k: int|
            0 <= k < request.headers@.len() && k < 32768 && !sendable(
                #[trigger] request.header_views()[k],
            ) && encode_utf8(request.header_views()[k].0).len() < 65536 && (forall|i: int|
                0 <= i < k ==> sendable(#[trigger] request.header_views()[i])) ==> sent_headers(
                request,
                default_agent,
            ) == Translation::Refused(
                if valid_name(request.header_views()[k].0) {
                    "error parsing header value: "@ + "failed to parse header value"@
                } else {
                    "error parsing header name: "@ + "invalid HTTP header name"@
                },
            ),
{
    let headers = request.header_views();
    if sent_headers(request, default_agent) is Refused {
        law_headers_are_sent_or_refused(headers);
    }
    if (forall|i: int| 0 <= i < headers.len() ==> sendable(#[trigger] headers[i])) && headers.len()
        <= 32768 {
        law_sendable_headers_are_sent(headers);
        law_values_are_sent_under_their_names(headers, translated(headers)->Sent_0);
        assert(values_of(translated(headers)->Sent_0, "user-agent"@) == own_values(
            headers,
            "user-agent"@,
        ));
    }
    assert forall|k: int|
        0 <= k < headers.len() && k < 32768 && !sendable(#[trigger] headers[k]) && encode_utf8(
            headers[k].0,
        ).len() < 65536 && (forall|i: int|
            0 <= i < k ==> sendable(#[trigger] headers[i])) implies sent_headers(
        request,
        default_agent,
    ) == Translation::Refused(
        if valid_name(headers[k].0) {
            "error parsing header value: "@ + "failed to parse header value"@
        } else {
            "error parsing header name: "@ + "invalid HTTP header name"@
        },
    ) by {
        let upto = headers.take(k + 1);
        assert forall|i: int| 0 <= i < upto.len() implies encode_utf8((#[trigger] upto[i]).0).len()
            < NAME_LIMIT by {
            if i < k {
                assert(sendable(headers[i]));
            }
            assert(upto[i] == headers[i]);
        }
        lemma_within_a_map(upto);
        assert forall|i: int| 0 <= i < k implies sendable(#[trigger] upto[i]) by {
            assert(upto[i] == headers[i]);
        }
        assert(upto[k] == headers[k]);
        law_first_unsendable_header_decides(upto, k);
        lemma_failed_headers(headers, k + 1);
    }
}

/// A request with a verb is refused for its headers, if they are refused, and
/// else for its address, if that is no URI; with the text of what is wrong. A
/// request whose headers are sent and whose address is a URI is not refused.
pub proof fn law_what_a_request_is_refused_for<S>(
    request: SignedRequest<S>,
    default_agent: Seq<char>,
)
    requires
        request.method@ == "POST"@ || request.method@ == "PUT"@ || request.method@ == "DELETE"@
            || request.method@ == "GET"@ || request.method@ == "HEAD"@,
    ensures
        sent_headers(request, default_agent) matches Translation::Refused(text) ==> refusal(
            request,
            default_agent,
        ) == Some(text) && early_refusal(request, default_agent) == Some(text),
        sent_headers(request, default_agent) is Sent ==> early_refusal(request, default_agent)
            is None && within_limits(request, default_agent),
        sent_headers(request, default_agent) is Sent && parsed_uri(request.uri()) is Ok ==> refusal(
            request,
            default_agent,
        ) is None,
        sent_headers(request, default_agent) is Sent ==> (parsed_uri(request.uri()) matches Err(
            text,
        ) ==> refusal(request, default_agent) == Some("error building request: "@ + text)),
        within_limits(request, default_agent) <==> !(sent_headers(request, default_agent)
            is Beyond),
{
    lemma_verb_supported(request);
}

/// The default `user-agent` matters only where a request has none of its own: two
/// defaults make no difference to one that has, not even where they are not
/// valid.
pub proof fn law_a_user_agent_of_its_own_needs_no_default<S>(
    request: SignedRequest<S>,
    one: Seq<char>,
    other: Seq<char>,
)
    requires
        own_values(request.header_views(), "user-agent"@).len() > 0,
    ensures
        sent_headers(request, one) == sent_headers(request, other),
        refusal(request, one) == refusal(request, other),
        within_limits(request, one) == within_limits(request, other),
{
    let headers = request.header_views();
    if translated(headers) is Sent {
        let fields = translated(headers)->Sent_0;
        law_values_are_sent_under_their_names(headers, fields);
        assert(values_of(fields, "user-agent"@) == own_values(headers, "user-agent"@));
    }
}

/// What becomes of a request depends on its method, its headers and its address
/// alone: its service, its body and how its address came about do not matter.
pub proof fn law_refusals_depend_on_what_is_sent<S, R>(
    request: SignedRequest<S>,
    other: SignedRequest<R>,
    default_agent: Seq<char>,
)
    requires
        request.method@ == other.method@,
        request.header_views() == other.header_views(),
    ensures
        sent_headers(request, default_agent) == sent_headers(other, default_agent),
        early_refusal(request, default_agent) == early_refusal(other, default_agent),
        within_limits(request, default_agent) == within_limits(other, default_agent),
        request.uri() == other.uri() ==> refusal(request, default_agent) == refusal(
            other,
            default_agent,
        ),
{
    lemma_verb_supported(request);
    assert(verb_supported(other) == verb_supported(request)) by {
        if verb_supported(other) {
            let m = choose|m: HttpMethod| #[trigger] m.name() == other.method@;
            assert(m.name() == request.method@);
        }
        if verb_supported(request) {
            let m = choose|m: HttpMethod| #[trigger] m.name() == request.method@;
            assert(m.name() == other.method@);
        }
    }
}

/// More values under a name keep the fields that are there where they are.
proof fn lemma_values_keep_places(
    fields: Fields<Seq<u8>>,
    name: Seq<char>,
    values: Seq<Seq<u8>>,
)
    ensures
        with_values(Translation::Sent(fields), name, values) matches Translation::Sent(after)
            ==> after.len() >= fields.len() && forall|i: int|
            0 <= i < fields.len() ==> (#[trigger] after[i]).0 == fields[i].0,
    decreases values.len(),
{
    if values.len() > 0 {
        lemma_values_keep_places(fields, name, values.drop_last());
    }
}

/// Names are sent in the order in which they first come: more headers put no
/// name before one that is there.
pub proof fn law_names_keep_their_places(
    headers: Seq<(Seq<char>, Seq<Seq<u8>>)>,
    k: int,
    fields: Fields<Seq<u8>>,
) -> (before: Fields<Seq<u8>>)
    requires
        0 <= k <= headers.len(),
        translated(headers) == Translation::Sent(fields),
    ensures
        translated(headers.take(k)) == Translation::Sent(before),
        before.len() <= fields.len(),
        forall|i: int| 0 <= i < before.len() ==> (#[trigger] fields[i]).0 == before[i].0,
    decreases headers.len() - k,
{
    if k == headers.len() {
        assert(headers.take(k) =~= headers);
        fields
    } else {
        let next = law_names_keep_their_places(headers, k + 1, fields);
        let upto = headers.take(k + 1);
        assert(upto.drop_last() =~= headers.take(k));
        let before = translated(headers.take(k))->Sent_0;
        lemma_values_keep_places(before, lower_case(upto.last().0), upto.last().1);
        assert forall|i: int| 0 <= i < before.len() implies (#[trigger] fields[i]).0
            == before[i].0 by {
            assert(next[i].0 == before[i].0);
        }
        before
    }
}

/// The fields of the headers come first and as they are; only a default
/// `user-agent` may come behind them.
pub proof fn law_only_a_user_agent_is_added<S>(
    request: SignedRequest<S>,
    default_agent: Seq<char>,
    fields: Fields<Seq<u8>>,
) -> (own: Fields<Seq<u8>>)
    requires
        sent_headers(request, default_agent) == Translation::Sent(fields),
    ensures
        translated(request.header_views()) == Translation::Sent(own),
        own_values(request.header_views(), "user-agent"@).len() > 0 ==> fields == own,
        own_values(request.header_views(), "user-agent"@).len() == 0 ==> fields == own.push(
            ("user-agent"@, seq![encode_utf8(default_agent)]),
        ),
{
    let headers = request.header_views();
    let own = translated(headers)->Sent_0;
    law_values_are_sent_under_their_names(headers, own);
    assert(values_of(own, "user-agent"@) == own_values(headers, "user-agent"@));
    own
}

/// Headers with values, and the names that they are kept under.
spec fn named_in(headers: Seq<(Seq<char>, Seq<Seq<u8>>)>, names: Set<Seq<char>>) -> bool {
    forall|i: int|
        0 <= i < headers.len() && (#[trigger] headers[i]).1.len() > 0 ==> names.contains(
            lower_case(headers[i].0),
        )
}

/// A name with values is the name of a header.
proof fn lemma_named(
    headers: Seq<(Seq<char>, Seq<Seq<u8>>)>,
    names: Set<Seq<char>>,
    name: Seq<char>,
)
    requires
        named_in(headers, names),
        own_values(headers, name).len() > 0,
    ensures
        names.contains(name),
    decreases headers.len(),
{
    let most = headers.drop_last();
    assert(named_in(most, names)) by {
        assert forall|i: int| 0 <= i < most.len() && (#[trigger] most[i]).1.len()
            > 0 implies names.contains(lower_case(most[i].0)) by {
            assert(headers[i].1.len() > 0);
        }
    }
    if own_values(most, name).len() > 0 {
        lemma_named(most, names, name);
    } else {
        assert(headers[headers.len() - 1].1.len() > 0);
    }
}

/// However many headers there are, they are sent when they can be and have no
/// more names between them than a header map holds. Names are counted in lower
/// case, each once, and only where they have a value.
pub proof fn law_only_different_names_take_room(
    headers: Seq<(Seq<char>, Seq<Seq<u8>>)>,
    names: Set<Seq<char>>,
)
    requires
        names.finite(),
        names.len() <= 32768,
        forall|i: int|
            0 <= i < headers.len() && (#[trigger] headers[i]).1.len() > 0 ==> names.contains(
                lower_case(headers[i].0),
            ),
        forall|i: int| 0 <= i < headers.len() ==> sendable(#[trigger] headers[i]),
    ensures
        translated(headers) is Sent,
    decreases headers.len(),
{
    if headers.len() > 0 {
        let most = headers.drop_last();
        let last = headers.last();
        assert forall|i: int| 0 <= i < most.len() && (#[trigger] most[i]).1.len()
            > 0 implies names.contains(lower_case(most[i].0)) by {
            assert(headers[i].1.len() > 0);
        }
        assert forall|i: int| 0 <= i < most.len() implies sendable(#[trigger] most[i]) by {
            assert(sendable(headers[i]));
        }
        law_only_different_names_take_room(most, names);
        let before = translated(most)->Sent_0;
        law_values_are_sent_under_their_names(most, before);
        assert(sendable(headers[headers.len() - 1]));
        lemma_lower_case(last.0);
        let low = lower_case(last.0);
        lemma_with_values(before, low, last.1);
        if with_values(Translation::Sent(before), low, last.1) is Beyond {
            let held = before.map_values(|f: (Seq<char>, Seq<Seq<u8>>)| f.0).push(low);
            assert(headers[headers.len() - 1].1.len() > 0);
            assert forall|i: int| 0 <= i < held.len() implies names.contains(#[trigger] held[i]) by {
                if i < before.len() {
                    law_values_stand_in_their_field(before, before[i].0);
                    assert(before[i].1.len() > 0);
                    lemma_named(most, names, before[i].0);
                }
            }
            assert(held.no_duplicates()) by {
                assert forall|i: int, j: int| 0 <= i < j < held.len() implies held[i]
                    != held[j] by {
                    assert(held[i] == before[i].0);
                    if j < before.len() {
                        assert(before[i].0 != before[j].0);
                    }
                }
            }
            held.unique_seq_to_set();
            assert(held.to_set().subset_of(names));
            vstd::set_lib::lemma_len_subset(held.to_set(), names);
        }
    }
}

/// What is translated is the request: its verb, its address, its body, and under
/// each name the values that its headers have there, or the default
/// `user-agent`.
pub proof fn law_the_whole_request_is_translated<S>(
    t: TranslatedRequest<S>,
    request: SignedRequest<S>,
    default_agent: Seq<char>,
    name: Seq<char>,
)
    requires
        translates(t, request, default_agent),
    ensures
        t.method is Post <==> request.method@ == "POST"@,
        t.method is Put <==> request.method@ == "PUT"@,
        t.method is Delete <==> request.method@ == "DELETE"@,
        t.method is Get <==> request.method@ == "GET"@,
        t.method is Head <==> request.method@ == "HEAD"@,
        t.final_uri@ == request.uri(),
        t.payload == request.payload,
        sound(value_fields(t.headers)),
        name != "user-agent"@ || own_values(request.header_views(), name).len() > 0 ==> values_of(
            value_fields(t.headers),
            name,
        ) == own_values(request.header_views(), name),
        own_values(request.header_views(), "user-agent"@).len() == 0 ==> values_of(
            value_fields(t.headers),
            "user-agent"@,
        ) == seq![encode_utf8(default_agent)],
        forall|i: int|
            0 <= i < request.headers@.len() ==> sendable(#[trigger] request.header_views()[i]),
{
    law_each_verb_has_its_name(t.method);
    law_sent_headers(request, default_agent, value_fields(t.headers));
    law_values_are_sent_under_their_names(
        request.header_views(),
        translated(request.header_views())->Sent_0,
    );
}

/// What is sent is the request: its verb, its address, its body, and under each
/// name the values that its headers have there, or the default `user-agent`.
pub proof fn law_the_whole_request_is_carried<S>(
    p: PreparedRequest<S>,
    request: SignedRequest<S>,
    default_agent: Seq<char>,
    name: Seq<char>,
)
    requires
        carries(p, request, default_agent),
    ensures
        p.method is Post <==> request.method@ == "POST"@,
        p.method is Put <==> request.method@ == "PUT"@,
        p.method is Delete <==> request.method@ == "DELETE"@,
        p.method is Get <==> request.method@ == "GET"@,
        p.method is Head <==> request.method@ == "HEAD"@,
        parsed_uri(request.uri()) == Ok::<http::Uri, Seq<char>>(p.uri),
        p.payload.inner == request.payload,
        sound(value_fields(p.headers)),
        name != "user-agent"@ || own_values(request.header_views(), name).len() > 0 ==> values_of(
            value_fields(p.headers),
            name,
        ) == own_values(request.header_views(), name),
        own_values(request.header_views(), "user-agent"@).len() == 0 ==> values_of(
            value_fields(p.headers),
            "user-agent"@,
        ) == seq![encode_utf8(default_agent)],
        forall|i: int|
            0 <= i < request.headers@.len() ==> sendable(#[trigger] request.header_views()[i]),
{
    law_each_verb_has_its_name(p.method);
    law_sent_headers(request, default_agent, value_fields(p.headers));
    law_values_are_sent_under_their_names(
        request.header_views(),
        translated(request.header_views())->Sent_0,
    );
}

} // verus!
