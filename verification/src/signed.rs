//! The signed request, as far as sending it goes.

use crate::payload::SignedRequestPayload;
use crate::text::same_text;
use vstd::prelude::*;

verus! {

/// Where a service is reached.
pub enum Region {
    /// A region that the caller names, with the endpoint of the service in it:
    /// a host, with a scheme before it or without.
    Custom {
        /// The name of the region.
        name: String,
        /// The endpoint.
        endpoint: String,
    },
}

/// Whether `text` begins with `prefix`.
pub open spec fn begins_with(text: Seq<char>, prefix: Seq<char>) -> bool {
    text.len() >= prefix.len() && text.take(prefix.len() as int) == prefix
}

/// Whether `mark` stands in `text` at `i`.
pub open spec fn stands_at(text: Seq<char>, mark: Seq<char>, i: int) -> bool {
    0 <= i <= text.len() && begins_with(text.skip(i), mark)
}

/// Where `mark` first stands in `text`, from `from` on; the end of `text` where
/// it does not.
pub open spec fn first_at(text: Seq<char>, mark: Seq<char>, from: int) -> int
    decreases text.len() - from,
{
    if from >= text.len() {
        text.len() as int
    } else if stands_at(text, mark, from) {
        from
    } else {
        first_at(text, mark, from + 1)
    }
}

/// Where the host begins in an endpoint: behind the first `://`, if there is one.
pub open spec fn host_start(endpoint: Seq<char>) -> int {
    let mark = first_at(endpoint, "://"@, 0);
    if mark < endpoint.len() {
        mark + 3
    } else {
        0
    }
}

/// The host of an endpoint, with its port: what is behind the scheme, up to the
/// next slash.
pub open spec fn host_of(endpoint: Seq<char>) -> Seq<char> {
    let start = host_start(endpoint);
    endpoint.subrange(start, first_at(endpoint, "/"@, start))
}

/// The scheme of an endpoint: HTTPS, unless it asks for HTTP.
pub open spec fn scheme_of(endpoint: Seq<char>) -> Seq<char> {
    if begins_with(endpoint, "http://"@) {
        "http"@
    } else {
        "https"@
    }
}

/// A place found by [`first_at`] holds the mark, or is the end.
proof fn lemma_first_at(text: Seq<char>, mark: Seq<char>, from: int)
    requires
        0 <= from <= text.len(),
    ensures
        from <= first_at(text, mark, from) <= text.len(),
        first_at(text, mark, from) < text.len() ==> stands_at(
            text,
            mark,
            first_at(text, mark, from),
        ),
        forall|i: int|
            from <= i < first_at(text, mark, from) ==> !#[trigger] stands_at(text, mark, i),
    decreases text.len() - from,
{
    if from < text.len() && !stands_at(text, mark, from) {
        lemma_first_at(text, mark, from + 1);
    }
}

/// Whether `mark` stands in `text` at `i`.
fn is_at(text: &str, mark: &str, i: usize) -> (found: bool)
    requires
        i <= text@.len(),
    ensures
        found == stands_at(text@, mark@, i as int),
{
    let len: usize = mark.unicode_len();
    if text.unicode_len() - i < len {
        return false;
    }
    let there: &str = text.substring_char(i, i + len);
    proof {
        assert(there@ =~= text@.skip(i as int).take(len as int));
    }
    same_text(there, mark)
}

/// Where `mark` first stands in `text`, from `from` on.
fn find_from(text: &str, mark: &str, from: usize) -> (place: usize)
    requires
        from <= text@.len(),
    ensures
        place == first_at(text@, mark@, from as int),
{
    let len: usize = text.unicode_len();
    let mut i: usize = from;
    while i < len
        invariant
            from <= i <= len,
            len == text@.len(),
            first_at(text@, mark@, from as int) == first_at(text@, mark@, i as int),
        decreases len - i,
    {
        if is_at(text, mark, i) {
            return i;
        }
        i = i + 1;
    }
    len
}

/// A header of a request: its name, and its values in order.
pub struct Header {
    /// The name.
    pub name: String,
    /// The values.
    pub values: Vec<Vec<u8>>,
}

impl View for Header {
    type V = (Seq<char>, Seq<Seq<u8>>);

    open spec fn view(&self) -> (Seq<char>, Seq<Seq<u8>>) {
        (self.name@, self.values@.map_values(|v: Vec<u8>| v@))
    }
}

/// A request that has been signed: what is sent, and where to.
pub struct SignedRequest<S> {
    /// The HTTP verb.
    pub method: String,
    /// The name of the service.
    pub service: String,
    /// Where the service is reached.
    pub region: Region,
    /// The path of the resource, in canonical form.
    pub canonical_path: String,
    /// The query, in canonical form; empty where there is none.
    pub canonical_query_string: String,
    /// The headers, in the order in which they are sent.
    pub headers: Vec<Header>,
    /// The body.
    pub payload: Option<SignedRequestPayload<S>>,
}

impl<S> SignedRequest<S> {
    /// A request without query, headers or body.
    pub fn new(method: &str, service: &str, region: &Region, path: &str) -> (request:
        SignedRequest<S>)
        ensures
            request.method@ == method@,
            request.service@ == service@,
            request.region == *region,
            request.canonical_path@ == path@,
            request.canonical_query_string@.len() == 0,
            request.headers@.len() == 0,
            request.payload is None,
    {
        SignedRequest {
            method: method.to_owned(),
            service: service.to_owned(),
            region: region.clone(),
            canonical_path: path.to_owned(),
            canonical_query_string: String::new(),
            headers: Vec::new(),
            payload: None,
        }
    }

    /// The endpoint that the request goes to.
    pub open spec fn endpoint(self) -> Seq<char> {
        match self.region {
            Region::Custom { name: _, endpoint } => endpoint@,
        }
    }

    /// The headers by their views.
    pub open spec fn header_views(self) -> Seq<(Seq<char>, Seq<Seq<u8>>)> {
        self.headers@.map_values(|h: Header| h@)
    }

    /// The HTTP verb.
    pub fn method(&self) -> (method: &str)
        ensures
            method@ == self.method@,
    {
        self.method.as_str()
    }

    /// The scheme that the endpoint is reached by.
    pub fn scheme(&self) -> (scheme: String)
        ensures
            scheme@ == scheme_of(self.endpoint()),
    {
        match &self.region {
            Region::Custom { name: _, endpoint } => {
                proof {
                    assert(endpoint@.skip(0) =~= endpoint@);
                }
                if is_at(endpoint.as_str(), "http://", 0) {
                    "http".to_owned()
                } else {
                    "https".to_owned()
                }
            },
        }
    }

    /// The host that the request goes to, with its port where the endpoint has
    /// one.
    pub fn hostname(&self) -> (hostname: String)
        ensures
            hostname@ == host_of(self.endpoint()),
    {
        match &self.region {
            Region::Custom { name: _, endpoint } => {
                let text: &str = endpoint.as_str();
                proof {
                    reveal_strlit("://");
                    lemma_first_at(text@, "://"@, 0);
                }
                let mark: usize = find_from(text, "://", 0);
                let start: usize = if mark < text.unicode_len() {
                    mark + 3
                } else {
                    0
                };
                proof {
                    lemma_first_at(text@, "/"@, start as int);
                }
                let end: usize = find_from(text, "/", start);
                text.substring_char(start, end).to_owned()
            },
        }
    }

    /// The path of the resource, in canonical form.
    pub fn canonical_path(&self) -> (path: &str)
        ensures
            path@ == self.canonical_path@,
    {
        self.canonical_path.as_str()
    }

    /// The query, in canonical form; empty where there is none.
    pub fn canonical_query_string(&self) -> (query: &str)
        ensures
            query@ == self.canonical_query_string@,
    {
        self.canonical_query_string.as_str()
    }

    /// The address of the resource: scheme, host and path, and the query where
    /// there is one.
    pub open spec fn uri(self) -> Seq<char> {
        let resource = scheme_of(self.endpoint()) + "://"@ + host_of(self.endpoint())
            + self.canonical_path@;
        if self.canonical_query_string@.len() == 0 {
            resource
        } else {
            resource + "?"@ + self.canonical_query_string@
        }
    }

    /// The address of the resource.
    pub fn final_uri(&self) -> (uri: String)
        ensures
            uri@ == self.uri(),
    {
        let mut uri: String = self.scheme();
        uri.append("://");
        uri.append(self.hostname().as_str());
        uri.append(self.canonical_path());
        if !self.canonical_query_string().is_empty() {
            uri.append("?");
            uri.append(self.canonical_query_string());
        }
        uri
    }
}

impl Clone for Region {
    fn clone(&self) -> (copy: Region)
        ensures
            copy == *self,
    {
        match self {
            Region::Custom { name, endpoint } => Region::Custom {
                name: name.clone(),
                endpoint: endpoint.clone(),
            },
        }
    }
}

/// A mark of one slash stands where the text has a slash.
proof fn lemma_slash_at(text: Seq<char>, i: int)
    requires
        0 <= i < text.len(),
    ensures
        stands_at(text, "/"@, i) <==> text[i] == '/',
{
    reveal_strlit("/");
    if stands_at(text, "/"@, i) {
        assert(text.skip(i).take(1)[0] == "/"@[0]);
    }
    if text[i] == '/' {
        assert(text.skip(i).take(1) =~= "/"@);
    }
}

/// A colon and two slashes stand where the text has them in a row.
proof fn lemma_scheme_mark_at(text: Seq<char>, i: int)
    requires
        0 <= i <= text.len(),
    ensures
        stands_at(text, "://"@, i) <==> i + 3 <= text.len() && text[i] == ':' && text[i + 1] == '/'
            && text[i + 2] == '/',
{
    reveal_strlit("://");
    if stands_at(text, "://"@, i) {
        assert(text.skip(i).take(3)[0] == "://"@[0]);
        assert(text.skip(i).take(3)[1] == "://"@[1]);
        assert(text.skip(i).take(3)[2] == "://"@[2]);
    }
    if i + 3 <= text.len() && text[i] == ':' && text[i + 1] == '/' && text[i + 2] == '/' {
        assert(text.skip(i).take(3) =~= "://"@);
    }
}

/// A host holds no slash, whatever the endpoint.
pub proof fn law_hosts_hold_no_slash(endpoint: Seq<char>)
    ensures
        forall|i: int| 0 <= i < host_of(endpoint).len() ==> #[trigger] host_of(endpoint)[i] != '/',
{
    reveal_strlit("://");
    lemma_first_at(endpoint, "://"@, 0);
    let start = host_start(endpoint);
    lemma_first_at(endpoint, "/"@, start);
    let end = first_at(endpoint, "/"@, start);
    assert forall|i: int| 0 <= i < host_of(endpoint).len() implies #[trigger] host_of(endpoint)[i]
        != '/' by {
        assert(!stands_at(endpoint, "/"@, start + i));
        lemma_slash_at(endpoint, start + i);
    }
}

/// Whether `rest` is nothing, or what comes behind a host in an endpoint.
pub open spec fn follows_host(rest: Seq<char>) -> bool {
    rest.len() == 0 || rest[0] == '/'
}

/// An endpoint with a scheme gives its host back, with the port where it has
/// one, and is reached by HTTP when that is its scheme, by HTTPS when not.
pub proof fn law_endpoint_with_scheme(scheme: Seq<char>, host: Seq<char>, rest: Seq<char>)
    requires
        !scheme.contains(':'),
        !host.contains('/'),
        follows_host(rest),
    ensures
        host_of(scheme + "://"@ + host + rest) == host,
        scheme_of(scheme + "://"@ + host + rest) == if scheme == "http"@ {
            "http"@
        } else {
            "https"@
        },
{
    reveal_strlit("://");
    reveal_strlit("http");
    reveal_strlit("http://");
    let endpoint = scheme + "://"@ + host + rest;
    let mark = scheme.len() as int;
    let start = mark + 3;
    let end = start + host.len();
    assert forall|i: int| 0 <= i < mark implies !#[trigger] stands_at(endpoint, "://"@, i) by {
        lemma_scheme_mark_at(endpoint, i);
        assert(endpoint[i] == scheme[i]);
        assert(scheme.contains(scheme[i]));
    }
    lemma_scheme_mark_at(endpoint, mark);
    lemma_first_at(endpoint, "://"@, 0);
    assert(first_at(endpoint, "://"@, 0) == mark);
    assert forall|i: int| start <= i < end implies !#[trigger] stands_at(endpoint, "/"@, i) by {
        lemma_slash_at(endpoint, i);
        assert(endpoint[i] == host[i - start]);
        assert(host.contains(host[i - start]));
    }
    if rest.len() > 0 {
        lemma_slash_at(endpoint, end);
    }
    lemma_first_at(endpoint, "/"@, start);
    assert(first_at(endpoint, "/"@, start) == end);
    assert(host_of(endpoint) =~= host);
    if scheme == "http"@ {
        assert(endpoint.take(7) =~= "http://"@);
    } else if begins_with(endpoint, "http://"@) {
        let head = endpoint.take(7);
        assert(head[4] == ':');
        assert(endpoint[mark] == ':');
        assert forall|i: int| 0 <= i < mark implies #[trigger] scheme[i] != ':' by {
            assert(scheme.contains(scheme[i]));
        }
        if mark > 4 {
            assert(scheme[4] == head[4]);
        }
        if mark < 4 {
            assert(head[mark] == ':');
        }
        assert(scheme =~= "http"@) by {
            assert forall|i: int| 0 <= i < 4 implies scheme[i] == "http"@[i] by {
                assert(scheme[i] == head[i]);
            }
        }
    }
}

/// An endpoint that is a host alone is that host, reached by HTTPS.
pub proof fn law_endpoint_without_scheme(host: Seq<char>)
    requires
        !host.contains('/'),
    ensures
        host_of(host) == host,
        scheme_of(host) == "https"@,
{
    reveal_strlit("://");
    reveal_strlit("http://");
    assert forall|i: int| 0 <= i < host.len() implies #[trigger] host[i] != '/' by {
        assert(host.contains(host[i]));
    }
    assert forall|i: int| 0 <= i < host.len() implies !#[trigger] stands_at(host, "://"@, i) by {
        lemma_scheme_mark_at(host, i);
    }
    lemma_first_at(host, "://"@, 0);
    assert forall|i: int| 0 <= i < host.len() implies !#[trigger] stands_at(host, "/"@, i) by {
        lemma_slash_at(host, i);
    }
    lemma_first_at(host, "/"@, 0);
    assert(host_of(host) =~= host);
    if begins_with(host, "http://"@) {
        assert(host.take(7)[5] == '/');
        assert(host[5] == '/');
    }
}

/// A request to an endpoint that is a scheme and a host goes to that endpoint:
/// its address is the endpoint, the path, and the query where there is one.
pub proof fn law_requests_go_to_their_endpoint<S>(request: SignedRequest<S>, host: Seq<char>)
    requires
        request.endpoint() == "http://"@ + host || request.endpoint() == "https://"@ + host,
        !host.contains('/'),
    ensures
        request.uri() == request.endpoint() + request.canonical_path@ + if request
            .canonical_query_string@.len() == 0 {
            Seq::empty()
        } else {
            "?"@ + request.canonical_query_string@
        },
{
    reveal_strlit("http://");
    reveal_strlit("https://");
    reveal_strlit("http");
    reveal_strlit("https");
    reveal_strlit("://");
    let endpoint = request.endpoint();
    let scheme = if endpoint == "http://"@ + host {
        "http"@
    } else {
        "https"@
    };
    assert("http://"@ =~= "http"@ + "://"@);
    assert("https://"@ =~= "https"@ + "://"@);
    assert(endpoint =~= scheme + "://"@ + host + Seq::empty());
    law_endpoint_with_scheme(scheme, host, Seq::empty());
    assert(scheme_of(endpoint) + "://"@ + host_of(endpoint) =~= endpoint);
    let rest = if request.canonical_query_string@.len() == 0 {
        Seq::empty()
    } else {
        "?"@ + request.canonical_query_string@
    };
    assert(request.uri() =~= endpoint + request.canonical_path@ + rest);
}

/// Where the host of an endpoint is, and how it is reached, for every endpoint:
/// the host begins behind the first `://`, or at the beginning where there is
/// none, and goes on to the next slash, or to the end; and the endpoint is
/// reached by HTTP exactly when it begins with `http://`.
pub proof fn law_every_endpoint_has_its_host_and_scheme(
    endpoint: Seq<char>,
    start: int,
    end: int,
)
    requires
        0 <= start <= end <= endpoint.len(),
        start == 0 ==> forall|i: int|
            0 <= i && i + 3 <= endpoint.len() ==> #[trigger] endpoint.subrange(i, i + 3) != "://"@,
        start > 0 ==> start >= 3 && endpoint.subrange(start - 3, start) == "://"@ && forall|i: int|
            0 <= i < start - 3 ==> #[trigger] endpoint.subrange(i, i + 3) != "://"@,
        forall|i: int| start <= i < end ==> #[trigger] endpoint[i] != '/',
        end < endpoint.len() ==> endpoint[end] == '/',
    ensures
        host_of(endpoint) == endpoint.subrange(start, end),
        scheme_of(endpoint) == if endpoint.len() >= 7 && endpoint.subrange(0, 7) == "http://"@ {
            "http"@
        } else {
            "https"@
        },
{
    reveal_strlit("://");
    reveal_strlit("http://");
    lemma_first_at(endpoint, "://"@, 0);
    let mark = first_at(endpoint, "://"@, 0);
    assert forall|i: int| 0 <= i && i + 3 <= endpoint.len() implies #[trigger] endpoint.subrange(
        i,
        i + 3,
    ) == endpoint.skip(i).take(3) by {
        assert(endpoint.subrange(i, i + 3) =~= endpoint.skip(i).take(3));
    }
    if mark < endpoint.len() {
        assert(endpoint.subrange(mark, mark + 3) == "://"@);
        if start == 0 {
            assert(false);
        }
        if mark < start - 3 {
            assert(false);
        }
    }
    if start > 0 {
        assert(endpoint.subrange(start - 3, start) =~= endpoint.skip(start - 3).take(3));
        assert(stands_at(endpoint, "://"@, start - 3));
        assert(mark == start - 3);
    }
    assert(host_start(endpoint) == start);
    lemma_first_at(endpoint, "/"@, start);
    assert forall|i: int| start <= i < end implies !#[trigger] stands_at(endpoint, "/"@, i) by {
        lemma_slash_at(endpoint, i);
    }
    if end < endpoint.len() {
        lemma_slash_at(endpoint, end);
    }
    let found = first_at(endpoint, "/"@, start);
    if found < end {
        assert(stands_at(endpoint, "/"@, found));
    }
    assert(found == end);
    if endpoint.len() >= 7 {
        assert(endpoint.subrange(0, 7) =~= endpoint.take(7));
    }
}

/// An address is scheme, host and path in a row, and behind them the query with
/// its question mark exactly when there is a query; whatever the endpoint is, and
/// whatever the verb, the headers and the body.
pub proof fn law_every_address_is_put_together_alike<S>(
    request: SignedRequest<S>,
    name: String,
    endpoint: String,
)
    requires
        request.region == (Region::Custom { name, endpoint }),
    ensures
        request.endpoint() == endpoint@,
        request.canonical_query_string@.len() == 0 ==> request.uri() == scheme_of(endpoint@)
            + "://"@ + host_of(endpoint@) + request.canonical_path@,
        request.canonical_query_string@.len() > 0 ==> request.uri() == scheme_of(endpoint@)
            + "://"@ + host_of(endpoint@) + request.canonical_path@ + "?"@
            + request.canonical_query_string@,
        !endpoint@.contains('/') ==> request.uri() == "https://"@ + endpoint@
            + request.canonical_path@ + if request.canonical_query_string@.len() > 0 {
            "?"@ + request.canonical_query_string@
        } else {
            Seq::empty()
        },
{
    reveal_strlit("https");
    reveal_strlit("https://");
    reveal_strlit("://");
    if !endpoint@.contains('/') {
        law_endpoint_without_scheme(endpoint@);
        let tail = if request.canonical_query_string@.len() > 0 {
            "?"@ + request.canonical_query_string@
        } else {
            Seq::empty()
        };
        assert(request.uri() =~= "https://"@ + endpoint@ + request.canonical_path@ + tail);
    }
}

/// A header's view is its name and its values, all of them and in order.
pub proof fn law_headers_are_seen_whole<S>(request: SignedRequest<S>)
    ensures
        request.header_views().len() == request.headers@.len(),
        forall|i: int|
            0 <= i < request.headers@.len() ==> (#[trigger] request.header_views()[i]).0
                == request.headers@[i].name@ && request.header_views()[i].1.len()
                == request.headers@[i].values@.len(),
        forall|i: int, j: int|
            0 <= i < request.headers@.len() && 0 <= j < request.headers@[i].values@.len()
                ==> #[trigger] request.header_views()[i].1[j] == request.headers@[i].values@[j]@,
{
}

} // verus!
