//! The blocking client: its builder and configuration, how a request is
//! turned into what is sent to the host, and how the host's answer becomes a
//! response.
use vstd::prelude::*;
use std::sync::Arc;
use http::header::HeaderMap;
use crate::error::{builder, Error, Kind};
use crate::header_fields::{
    apply_keys, fields_view, insert_pairs, keep_last, lemma_inserting_pairs_keeps_last,
    lemma_keys_after_insert, push_visible_fields, visible_fields,
};
use crate::http_types::{
    accept_name, header_map_insert, header_map_keys_len, header_value_from_bytes, header_map_insert_limit, header_map_pairs, header_map_view,
    header_map_with_capacity, header_value_from_static, header_value_from_str,
    header_map_keys, header_name_bytes, header_value_bytes, is_valid_header_value, keys_after_insert,
    keys_match, ordered_pairs, pairs_bytes, status_code_from_u16, user_agent_name,
};
use crate::method::Method;
use crate::request::Request;
use crate::timeout::Timeout;
use crate::url_parts::{
    parse_url, parsed_url, path_with_query, path_with_query_spec, scheme_matches, scheme_of,
    Scheme, UrlParts, opt_text,
};
use vstd::string::StringSliceAdditionalSpecFns;

verus! {

/// `Arc::clone`: a new pointer to the same value.
#[verifier::external_body]
fn arc_clone<T>(a: &Arc<T>) -> (r: Arc<T>)
    ensures
        r == *a,
{
    Arc::clone(a)
}

/// The bytes of the `Accept` header name.
pub open spec fn accept_bytes() -> Seq<u8> {
    seq![97u8, 99u8, 99u8, 101u8, 112u8, 116u8]
}

/// The bytes of the `User-Agent` header name.
pub open spec fn user_agent_name_bytes() -> Seq<u8> {
    seq![117u8, 115u8, 101u8, 114u8, 45u8, 97u8, 103u8, 101u8, 110u8, 116u8]
}

/// The bytes of `*/*`.
pub open spec fn any_media_bytes() -> Seq<u8> {
    seq![42u8, 47u8, 42u8]
}

/// The headers that a new builder starts with: `accept: */*`.
pub open spec fn default_header_view() -> Map<Seq<u8>, Seq<Seq<u8>>> {
    map![accept_bytes() => seq![any_media_bytes()]]
}

/// The text of the error that a refused `User-Agent` value leaves.
pub open spec fn invalid_value_message() -> Seq<char> {
    "failed to parse header value"@
}

/// The error that a refused header value leaves: a builder error with the
/// message of `invalid_value_message()`. Every refusal leaves this error.
pub open spec fn is_refused_value_error(e: Error) -> bool {
    e.kind() == Kind::Builder && e.message_view() == invalid_value_message()
}

/// What a builder call leaves of the recorded error: the same error, or the
/// error of a value the call refused. No call clears an error.
pub open spec fn error_after_call(before: Option<Error>, after: Option<Error>) -> bool {
    after == before || (after matches Some(e) && is_refused_value_error(e))
}

/// Once a builder call records an error, every later builder call keeps an
/// error recorded, so `build` fails: for builders each made from the one
/// before by a builder call, an error recorded at step `i` is still there at
/// the last step, unchanged or replaced by the error of a later refused value.
pub proof fn lemma_recorded_error_stays(builders: Seq<ClientBuilder>, i: int)
    requires
        0 <= i < builders.len(),
        builders[i].error_spec() is Some,
        forall|k: int|
            0 <= k < builders.len() - 1 ==> error_after_call(
                #[trigger] builders[k].error_spec(),
                builders[k + 1].error_spec(),
            ),
    ensures
        builders.last().error_spec() is Some,
        builders.last().error_spec() == builders[i].error_spec() || (builders.last().error_spec() matches Some(
            e,
        ) && is_refused_value_error(e)),
    decreases builders.len() - i,
{
    if i < builders.len() - 1 {
        assert(error_after_call(builders[i].error_spec(), builders[i + 1].error_spec()));
        lemma_recorded_error_stays(builders, i + 1);
    }
}

/// Starting from a builder without an error (as `ClientBuilder::new` gives),
/// every error a run of builder calls records is the error of a refused
/// value; so once a value was refused, `build` fails with exactly the error
/// that the last refusal left.
pub proof fn lemma_build_error_is_last_refusal(builders: Seq<ClientBuilder>, i: int)
    requires
        builders.len() > 0,
        builders[0].error_spec() is None,
        forall|k: int|
            0 <= k < builders.len() - 1 ==> error_after_call(
                #[trigger] builders[k].error_spec(),
                builders[k + 1].error_spec(),
            ),
        0 <= i < builders.len(),
    ensures
        builders[i].error_spec() matches Some(e) ==> is_refused_value_error(e),
    decreases i,
{
    if i > 0 {
        lemma_build_error_is_last_refusal(builders, i - 1);
        assert(error_after_call(builders[i - 1].error_spec(), builders[i].error_spec()));
    }
}

#[derive(Debug)]
struct Config {
    headers: HeaderMap,
    connect_timeout: Option<Timeout>,
    timeout: Option<Timeout>,
    error: Option<Error>,
}

/// A `ClientBuilder` can be used to create a `Client` with custom
/// configuration.
#[derive(Debug)]
#[must_use]
pub struct ClientBuilder {
    config: Config,
}

#[derive(Debug)]
struct ClientRef {
    headers: HeaderMap,
    connect_timeout: Option<Timeout>,
    first_byte_timeout: Option<Timeout>,
    between_bytes_timeout: Option<Timeout>,
}

/// A `Client` to make requests with. Cloning it shares its configuration.
#[derive(Clone, Debug)]
pub struct Client {
    inner: Arc<ClientRef>,
}

impl ClientBuilder {
    #[verifier::type_invariant]
    spec fn wf(self) -> bool {
        &&& header_map_view(self.config.headers).dom().finite()
        &&& keys_match(header_map_keys(self.config.headers), header_map_view(self.config.headers))
    }

    /// The header names in the order their fields are sent.
    pub closed spec fn header_keys(&self) -> Seq<Seq<u8>> {
        header_map_keys(self.config.headers)
    }

    /// The headers that every request of the client will carry.
    pub closed spec fn headers_view(&self) -> Map<Seq<u8>, Seq<Seq<u8>>> {
        header_map_view(self.config.headers)
    }

    pub closed spec fn connect_timeout_spec(&self) -> Option<Timeout> {
        self.config.connect_timeout
    }

    pub closed spec fn timeout_spec(&self) -> Option<Timeout> {
        self.config.timeout
    }

    /// The error that building the client will report, if any.
    pub closed spec fn error_spec(&self) -> Option<Error> {
        self.config.error
    }

    /// A builder with the defaults: the header `accept: */*`, no connect
    /// timeout and a timeout of 30 seconds.
    pub fn new() -> (b: Self)
        ensures
            b.headers_view() == default_header_view(),
            b.header_keys() == seq![accept_bytes()],
            b.connect_timeout_spec() is None,
            b.timeout_spec() matches Some(t) && t.secs_spec() == 30 && t.nanos_spec() == 0,
            b.error_spec() is None,
    {
        let mut headers = header_map_with_capacity(2);
        let any = "*/*";
        proof {
            reveal_strlit("*/*");
            vstd::string::is_ascii_spec_bytes(any);
            assert(any.spec_bytes() =~= any_media_bytes());
        }
        let accept = accept_name();
        let value = header_value_from_static(any);
        proof {
            lemma_keys_after_insert(
                header_map_keys(headers),
                header_map_view(headers),
                header_name_bytes(accept),
                seq![header_value_bytes(value)],
            );
            assert(header_map_keys(headers) =~= Seq::<Seq<u8>>::empty());
        }
        header_map_insert(&mut headers, accept, value);
        proof {
            assert(header_map_view(headers) =~= default_header_view());
            assert(header_map_keys(headers) =~= seq![accept_bytes()]);
        }
        ClientBuilder {
            config: Config {
                headers,
                connect_timeout: None,
                timeout: Some(Timeout::from_secs(30)),
                error: None,
            },
        }
    }

    /// The client that this configuration describes, or the error that an
    /// earlier step of the builder recorded.
    pub fn build(self) -> (r: Result<Client, Error>)
        ensures
            self.error_spec() matches Some(e) ==> r matches Err(got) && got == e,
            self.error_spec() is None ==> (r matches Ok(c) && c.headers_view() == self.headers_view()
                && c.header_keys() == self.header_keys()
                && c.connect_timeout_spec() == self.connect_timeout_spec()
                && c.first_byte_timeout_spec() == self.timeout_spec()
                && c.between_bytes_timeout_spec() == self.timeout_spec()),
    {
        let ClientBuilder { config } = self;
        let Config { headers, connect_timeout, timeout, error } = config;
        match error {
            Some(e) => Err(e),
            None => Ok(
                Client {
                    inner: Arc::new(
                        ClientRef {
                            headers,
                            connect_timeout,
                            first_byte_timeout: timeout,
                            between_bytes_timeout: timeout,
                        },
                    ),
                },
            ),
        }
    }

    /// Sets the `User-Agent` header that every request carries. A value that
    /// cannot stand in a header leaves the headers as they are and makes
    /// `build` fail.
    pub fn user_agent(self, value: &str) -> (b: ClientBuilder)
        requires
            self.headers_view().dom().len() <= header_map_insert_limit(),
        ensures
            is_valid_header_value(value.spec_bytes()) ==> b.header_keys() == keys_after_insert(
                self.header_keys(),
                self.headers_view(),
                user_agent_name_bytes(),
            ),
            !is_valid_header_value(value.spec_bytes()) ==> b.header_keys() == self.header_keys(),
            error_after_call(self.error_spec(), b.error_spec()),
            is_valid_header_value(value.spec_bytes()) ==> b.headers_view() == self.headers_view().insert(
                user_agent_name_bytes(),
                seq![value.spec_bytes()],
            ) && b.error_spec() == self.error_spec(),
            !is_valid_header_value(value.spec_bytes()) ==> b.headers_view() == self.headers_view(),
            !is_valid_header_value(value.spec_bytes()) ==> (b.error_spec() matches Some(e)
                && e.kind() == Kind::Builder && e.message_view() == invalid_value_message()),
            b.connect_timeout_spec() == self.connect_timeout_spec(),
            b.timeout_spec() == self.timeout_spec(),
    {
        proof {
            use_type_invariant(&self);
        }
        let ClientBuilder { config } = self;
        let Config { mut headers, connect_timeout, timeout, mut error } = config;
        match header_value_from_str(value) {
            Some(v) => {
                let ua = user_agent_name();
                proof {
                    lemma_keys_after_insert(
                        header_map_keys(headers),
                        header_map_view(headers),
                        header_name_bytes(ua),
                        seq![header_value_bytes(v)],
                    );
                }
                header_map_insert(&mut headers, ua, v);
            },
            None => {
                error = Some(builder("failed to parse header value"));
            },
        }
        ClientBuilder { config: Config { headers, connect_timeout, timeout, error } }
    }

    /// Sets the `User-Agent` header to the given bytes, which may be any
    /// bytes a header value may hold (bytes 128 to 255 included). A value that
    /// cannot stand in a header leaves the headers as they are and makes
    /// `build` fail.
    pub fn user_agent_bytes(self, value: &[u8]) -> (b: ClientBuilder)
        requires
            self.headers_view().dom().len() <= header_map_insert_limit(),
        ensures
            is_valid_header_value(value@) ==> b.header_keys() == keys_after_insert(
                self.header_keys(),
                self.headers_view(),
                user_agent_name_bytes(),
            ),
            !is_valid_header_value(value@) ==> b.header_keys() == self.header_keys(),
            error_after_call(self.error_spec(), b.error_spec()),
            is_valid_header_value(value@) ==> b.headers_view() == self.headers_view().insert(
                user_agent_name_bytes(),
                seq![value@],
            ) && b.error_spec() == self.error_spec(),
            !is_valid_header_value(value@) ==> b.headers_view() == self.headers_view(),
            !is_valid_header_value(value@) ==> (b.error_spec() matches Some(e) && e.kind()
                == Kind::Builder && e.message_view() == invalid_value_message()),
            b.connect_timeout_spec() == self.connect_timeout_spec(),
            b.timeout_spec() == self.timeout_spec(),
    {
        proof {
            use_type_invariant(&self);
        }
        let ClientBuilder { config } = self;
        let Config { mut headers, connect_timeout, timeout, mut error } = config;
        match header_value_from_bytes(value) {
            Some(v) => {
                let ua = user_agent_name();
                proof {
                    lemma_keys_after_insert(
                        header_map_keys(headers),
                        header_map_view(headers),
                        header_name_bytes(ua),
                        seq![header_value_bytes(v)],
                    );
                }
                header_map_insert(&mut headers, ua, v);
            },
            None => {
                error = Some(builder("failed to parse header value"));
            },
        }
        ClientBuilder { config: Config { headers, connect_timeout, timeout, error } }
    }

    /// The number of distinct header names set so far; `user_agent` and
    /// `default_headers` ask that it, with the names they add, stays within
    /// `header_map_insert_limit()`, which callers test with this and
    /// `http_types::header_map_keys_len`.
    pub fn header_count(&self) -> (n: usize)
        ensures
            n == self.headers_view().dom().len(),
            self.headers_view().dom().finite(),
    {
        header_map_keys_len(&self.config.headers)
    }

    /// Adds headers that every request carries. A name already set gets the
    /// new value; a name given several values in `headers` keeps the last.
    pub fn default_headers(self, headers: HeaderMap) -> (b: ClientBuilder)
        requires
            self.headers_view().dom().union(header_map_view(headers).dom()).len()
                <= header_map_insert_limit(),
        ensures
            error_after_call(self.error_spec(), b.error_spec()),
            b.headers_view() == keep_last(self.headers_view(), header_map_view(headers)),
            b.header_keys() == apply_keys(
                self.header_keys(),
                ordered_pairs(header_map_keys(headers), header_map_view(headers)),
            ),
            b.connect_timeout_spec() == self.connect_timeout_spec(),
            b.timeout_spec() == self.timeout_spec(),
            b.error_spec() == self.error_spec(),
    {
        proof {
            use_type_invariant(&self);
        }
        let ClientBuilder { config } = self;
        let Config { headers: mut current, connect_timeout, timeout, error } = config;
        let items = header_map_pairs(&headers);
        proof {
            lemma_inserting_pairs_keeps_last(
                header_map_view(current),
                pairs_bytes(items@),
                header_map_view(headers),
            );
        }
        insert_pairs(&mut current, items);
        proof {
            crate::header_fields::lemma_apply_inserts_dom(
                header_map_view(self.config.headers),
                pairs_bytes(items@),
            );
        }
        ClientBuilder { config: Config { headers: current, connect_timeout, timeout, error } }
    }

    /// Accepted for compatibility: certificate checks are not configurable
    /// over WASI HTTP, so the builder is returned unchanged.
    pub fn danger_accept_invalid_certs(self, accept_invalid_certs: bool) -> (b: ClientBuilder)
        ensures
            error_after_call(self.error_spec(), b.error_spec()),
            b == self,
    {
        self
    }

    /// Accepted for compatibility: proxies are not supported over WASI HTTP,
    /// so the builder is returned unchanged.
    pub fn no_proxy(self) -> (b: ClientBuilder)
        ensures
            error_after_call(self.error_spec(), b.error_spec()),
            b == self,
    {
        self
    }

    /// Accepted for compatibility: the builder is returned unchanged.
    pub fn referer(self, enable: bool) -> (b: ClientBuilder)
        ensures
            error_after_call(self.error_spec(), b.error_spec()),
            b == self,
    {
        self
    }

    /// Accepted for compatibility: the builder is returned unchanged.
    pub fn connection_verbose(self, verbose: bool) -> (b: ClientBuilder)
        ensures
            error_after_call(self.error_spec(), b.error_spec()),
            b == self,
    {
        self
    }

    /// Accepted for compatibility: the builder is returned unchanged.
    pub fn https_only(self, enabled: bool) -> (b: ClientBuilder)
        ensures
            error_after_call(self.error_spec(), b.error_spec()),
            b == self,
    {
        self
    }

    /// Sets the timeout for the first byte of a response and between bytes
    /// of a response; `None` disables it.
    pub fn timeout(self, timeout: Option<Timeout>) -> (b: ClientBuilder)
        ensures
            error_after_call(self.error_spec(), b.error_spec()),
            b.timeout_spec() == timeout,
            b.headers_view() == self.headers_view(),
            b.header_keys() == self.header_keys(),
            b.connect_timeout_spec() == self.connect_timeout_spec(),
            b.error_spec() == self.error_spec(),
    {
        proof {
            use_type_invariant(&self);
        }
        let ClientBuilder { config } = self;
        let Config { headers, connect_timeout, timeout: _, error } = config;
        ClientBuilder { config: Config { headers, connect_timeout, timeout, error } }
    }

    /// Sets the timeout for the connect phase only; `None` disables it.
    pub fn connect_timeout(self, timeout: Option<Timeout>) -> (b: ClientBuilder)
        ensures
            error_after_call(self.error_spec(), b.error_spec()),
            b.connect_timeout_spec() == timeout,
            b.headers_view() == self.headers_view(),
            b.header_keys() == self.header_keys(),
            b.timeout_spec() == self.timeout_spec(),
            b.error_spec() == self.error_spec(),
    {
        proof {
            use_type_invariant(&self);
        }
        let ClientBuilder { config } = self;
        let Config { headers, connect_timeout: _, timeout: t, error } = config;
        ClientBuilder { config: Config { headers, connect_timeout: timeout, timeout: t, error } }
    }
}

impl Client {
    /// The headers that every request of the client carries.
    pub closed spec fn headers_view(&self) -> Map<Seq<u8>, Seq<Seq<u8>>> {
        header_map_view(self.inner.headers)
    }

    /// The client's header names in the order their fields are sent.
    pub closed spec fn header_keys(&self) -> Seq<Seq<u8>> {
        header_map_keys(self.inner.headers)
    }

    pub closed spec fn connect_timeout_spec(&self) -> Option<Timeout> {
        self.inner.connect_timeout
    }

    pub closed spec fn first_byte_timeout_spec(&self) -> Option<Timeout> {
        self.inner.first_byte_timeout
    }

    pub closed spec fn between_bytes_timeout_spec(&self) -> Option<Timeout> {
        self.inner.between_bytes_timeout
    }

    /// A client with the default configuration.
    pub fn new() -> (c: Self)
        ensures
            c.headers_view() == default_header_view(),
            c.header_keys() == seq![accept_bytes()],
            c.connect_timeout_spec() is None,
            c.first_byte_timeout_spec() matches Some(t) && t.secs_spec() == 30 && t.nanos_spec() == 0,
            c.between_bytes_timeout_spec() == c.first_byte_timeout_spec(),
    {
        let b = ClientBuilder::new();
        let ClientBuilder { config } = b;
        let Config { headers, connect_timeout, timeout, error } = config;
        Client {
            inner: Arc::new(
                ClientRef {
                    headers,
                    connect_timeout,
                    first_byte_timeout: timeout,
                    between_bytes_timeout: timeout,
                },
            ),
        }
    }

    /// A builder to configure a client; the same as `ClientBuilder::new`.
    pub fn builder() -> (b: ClientBuilder)
        ensures
            b.headers_view() == default_header_view(),
            b.header_keys() == seq![accept_bytes()],
            b.connect_timeout_spec() is None,
            b.timeout_spec() matches Some(t) && t.secs_spec() == 30 && t.nanos_spec() == 0,
            b.error_spec() is None,
    {
        ClientBuilder::new()
    }

    /// A handle to the same client.
    pub fn share(&self) -> (c: Client)
        ensures
            c == *self,
    {
        Client { inner: arc_clone(&self.inner) }
    }
}

impl Default for Client {
    /// The same as `Client::new`.
    fn default() -> (c: Self)
        ensures
            c.headers_view() == default_header_view(),
            c.header_keys() == seq![accept_bytes()],
            c.connect_timeout_spec() is None,
            c.first_byte_timeout_spec() matches Some(t) && t.secs_spec() == 30 && t.nanos_spec() == 0,
            c.between_bytes_timeout_spec() == c.first_byte_timeout_spec(),
    {
        Self::new()
    }
}

/// A request in the making, tied to the client that will send it; it holds
/// the request, or the error met while making it.
#[derive(Debug)]
pub struct RequestBuilder {
    client: Client,
    request: Result<Request, Error>,
}

impl RequestBuilder {
    pub closed spec fn client_spec(&self) -> Client {
        self.client
    }

    pub closed spec fn request_spec(&self) -> Result<Request, Error> {
        self.request
    }

    /// A builder for `request`, to be sent by `client`.
    pub fn new(client: Client, request: Result<Request, Error>) -> (b: RequestBuilder)
        ensures
            b.client_spec() == client,
            b.request_spec() == request,
    {
        RequestBuilder { client, request }
    }

    /// The client that will send the request.
    pub fn client(&self) -> (c: &Client)
        ensures
            *c == self.client_spec(),
    {
        &self.client
    }

    /// The request, or the error met while making it.
    pub fn build(self) -> (r: Result<Request, Error>)
        ensures
            r == self.request_spec(),
    {
        self.request
    }
}

/// `b` is what `Client::request` gives for this client, method and URL: the
/// request has the method and the parsed URL and nothing else, or, where the
/// URL does not parse, the error is a builder error with the parser's message.
pub open spec fn request_for(b: RequestBuilder, client: Client, method: Method, url: Seq<char>) -> bool {
    &&& b.client_spec() == client
    &&& match parsed_url(url) {
        Ok(parts) => b.request_spec() matches Ok(r) && r.method == method && r.url.view_parts() == parts
            && header_map_view(r.headers) == crate::http_types::no_headers() && r.body is None
            && r.timeout is None,
        Err(msg) => b.request_spec() matches Err(e) && e.kind() == Kind::Builder && e.message_view()
            == msg,
    }
}

/// The timeout in nanoseconds, as the host's `duration` takes it; a span
/// beyond what 64 bits of nanoseconds hold (over 584 years) is sent as the
/// longest duration the host can take.
pub open spec fn timeout_nanos(t: Option<Timeout>) -> Option<u64> {
    match t {
        Some(d) => Some(
            if d.total_nanos() <= u64::MAX {
                d.total_nanos() as u64
            } else {
                u64::MAX
            },
        ),
        None => None,
    }
}

/// The first of two timeouts that is set.
pub open spec fn first_set(a: Option<Timeout>, b: Option<Timeout>) -> Option<Timeout> {
    if a is Some {
        a
    } else {
        b
    }
}

/// A request's own timeout wins over the client's: with one, the timeout
/// sent is the request's in nanoseconds, whatever the client's is; only
/// without one is the client's sent. A timeout that fits in 64 bits of
/// nanoseconds is sent as exactly that many nanoseconds.
pub proof fn lemma_request_timeout_wins(request: Option<Timeout>, client: Option<Timeout>)
    ensures
        request matches Some(t) ==> timeout_nanos(first_set(request, client)) == timeout_nanos(Some(t)),
        request is None ==> timeout_nanos(first_set(request, client)) == timeout_nanos(client),
        request matches Some(t) ==> (t.total_nanos() <= u64::MAX ==> timeout_nanos(first_set(request, client))
            == Some(t.total_nanos() as u64)),
        request is None && client is None ==> timeout_nanos(first_set(request, client)) is None,
{
}

fn nanos_of(t: Option<Timeout>) -> (n: Option<u64>)
    ensures
        n == timeout_nanos(t),
{
    match t {
        Some(d) => {
            let ns: u128 = d.as_nanos();
            if ns <= u64::MAX as u128 {
                Some(ns as u64)
            } else {
                Some(u64::MAX)
            }
        },
        None => None,
    }
}

/// Everything the host needs to send a request: the header fields, method,
/// scheme, path with query, authority, body and the three timeouts in
/// nanoseconds.
#[derive(Debug)]
pub struct OutgoingPlan {
    pub fields: Vec<(String, Vec<u8>)>,
    pub method: Method,
    pub scheme: Scheme,
    pub path_with_query: String,
    pub authority: String,
    pub body: Option<Vec<u8>>,
    pub connect_timeout_ns: Option<u64>,
    pub first_byte_timeout_ns: Option<u64>,
    pub between_bytes_timeout_ns: Option<u64>,
}

impl Client {
    /// Starts a request with the given method to the given URL.
    pub fn request(&self, method: Method, url: &str) -> (b: RequestBuilder)
        ensures
            request_for(b, *self, method, url@),
    {
        let req = match parse_url(url) {
            Ok(parts) => Ok(Request::new(method, parts)),
            Err(msg) => Err(builder(msg.as_str())),
        };
        RequestBuilder::new(self.share(), req)
    }

    /// Starts a `GET` request to the URL.
    pub fn get(&self, url: &str) -> (b: RequestBuilder)
        ensures
            request_for(b, *self, Method::Get, url@),
    {
        self.request(Method::Get, url)
    }

    /// Starts a `POST` request to the URL.
    pub fn post(&self, url: &str) -> (b: RequestBuilder)
        ensures
            request_for(b, *self, Method::Post, url@),
    {
        self.request(Method::Post, url)
    }

    /// Starts a `PUT` request to the URL.
    pub fn put(&self, url: &str) -> (b: RequestBuilder)
        ensures
            request_for(b, *self, Method::Put, url@),
    {
        self.request(Method::Put, url)
    }

    /// Starts a `PATCH` request to the URL.
    pub fn patch(&self, url: &str) -> (b: RequestBuilder)
        ensures
            request_for(b, *self, Method::Patch, url@),
    {
        self.request(Method::Patch, url)
    }

    /// Starts a `DELETE` request to the URL.
    pub fn delete(&self, url: &str) -> (b: RequestBuilder)
        ensures
            request_for(b, *self, Method::Delete, url@),
    {
        self.request(Method::Delete, url)
    }

    /// Starts a `HEAD` request to the URL.
    pub fn head(&self, url: &str) -> (b: RequestBuilder)
        ensures
            request_for(b, *self, Method::Head, url@),
    {
        self.request(Method::Head, url)
    }

    /// What the host is asked to send for `request`: the client's headers
    /// followed by the request's, each in its map's order, each only where its value is visible ASCII
    /// text; the scheme, path with query and authority of the URL; the body;
    /// the client's connect timeout, and the request's timeout, or else the
    /// client's, for the first byte and between bytes.
    pub fn plan_request(&self, request: Request) -> (p: OutgoingPlan)
        ensures
            fields_view(p.fields@) == visible_fields(ordered_pairs(self.header_keys(), self.headers_view()))
                + visible_fields(ordered_pairs(header_map_keys(request.headers), header_map_view(request.headers))),
            p.method == request.method,
            scheme_matches(p.scheme, request.url.scheme@),
            p.path_with_query@ == path_with_query_spec(request.url.path@, opt_text(request.url.query)),
            p.authority@ == request.url.authority@,
            p.body == request.body,
            p.connect_timeout_ns == timeout_nanos(self.connect_timeout_spec()),
            p.first_byte_timeout_ns == timeout_nanos(first_set(request.timeout, self.first_byte_timeout_spec())),
            p.between_bytes_timeout_ns == timeout_nanos(
                first_set(request.timeout, self.between_bytes_timeout_spec()),
            ),
    {
        let mut fields: Vec<(String, Vec<u8>)> = Vec::new();
        let client_items = header_map_pairs(&self.inner.headers);
        push_visible_fields(&mut fields, &client_items);
        let request_items = header_map_pairs(&request.headers);
        push_visible_fields(&mut fields, &request_items);
        proof {
            assert(fields_view(Seq::empty()) =~= Seq::<(Seq<char>, Seq<u8>)>::empty());
            assert(fields_view(fields@) =~= visible_fields(pairs_bytes(client_items@)) + visible_fields(
                pairs_bytes(request_items@),
            ));
        }
        let Request { method, url, headers: _, body, timeout } = request;
        let scheme = scheme_of(url.scheme.as_str());
        let path = match &url.query {
            Some(q) => path_with_query(url.path.as_str(), Some(q.as_str())),
            None => path_with_query(url.path.as_str(), None),
        };
        let first_byte = match timeout {
            Some(t) => Some(t),
            None => self.inner.first_byte_timeout,
        };
        let between_bytes = match timeout {
            Some(t) => Some(t),
            None => self.inner.between_bytes_timeout,
        };
        OutgoingPlan {
            fields,
            method,
            scheme,
            path_with_query: path,
            authority: url.authority,
            body,
            connect_timeout_ns: nanos_of(self.inner.connect_timeout),
            first_byte_timeout_ns: nanos_of(first_byte),
            between_bytes_timeout_ns: nanos_of(between_bytes),
        }
    }
}

/// The text of the error for a status code outside 100 through 999.
pub open spec fn invalid_status_message() -> Seq<char> {
    "invalid status code"@
}

/// A response received from the host: status code, headers, body and the
/// URL that was requested.
#[derive(Debug)]
pub struct Response {
    status: u16,
    headers: HeaderMap,
    body: Vec<u8>,
    url: UrlParts,
}

impl Response {
    pub closed spec fn status_spec(&self) -> u16 {
        self.status
    }

    pub closed spec fn headers_view(&self) -> Map<Seq<u8>, Seq<Seq<u8>>> {
        header_map_view(self.headers)
    }

    pub closed spec fn body_spec(&self) -> Seq<u8> {
        self.body@
    }

    pub closed spec fn url_spec(&self) -> UrlParts {
        self.url
    }

    /// The response for a status code, headers, body and URL; a status code
    /// outside 100 through 999 cannot be decoded and gives an error.
    pub fn from_parts(status: u16, headers: HeaderMap, body: Vec<u8>, url: UrlParts) -> (r: Result<Response, Error>)
        ensures
            100 <= status <= 999 ==> (r matches Ok(resp) && resp.status_spec() == status
                && resp.headers_view() == header_map_view(headers) && resp.body_spec() == body@
                && resp.url_spec() == url),
            !(100 <= status <= 999) ==> (r matches Err(e) && e.kind() == Kind::Decode
                && e.message_view() == invalid_status_message()),
    {
        match status_code_from_u16(status) {
            Some(code) => Ok(Response { status: code, headers, body, url }),
            None => {
                let msg = "invalid status code";
                Err(Error::new(Kind::Decode, msg))
            },
        }
    }

    /// The status code.
    pub fn status(&self) -> (s: u16)
        ensures
            s == self.status_spec(),
    {
        self.status
    }

    /// The headers.
    pub fn headers(&self) -> (h: &HeaderMap)
        ensures
            header_map_view(*h) == self.headers_view(),
    {
        &self.headers
    }

    /// The body bytes.
    pub fn body(&self) -> (b: &Vec<u8>)
        ensures
            b@ == self.body_spec(),
    {
        &self.body
    }

    /// The URL that was requested.
    pub fn url(&self) -> (u: &UrlParts)
        ensures
            *u == self.url_spec(),
    {
        &self.url
    }
}

} // verus!
