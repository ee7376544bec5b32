use http::header::{HeaderMap, HeaderName, HeaderValue};
use reqwest_wasi::blocking::{Client, ClientBuilder, Response};
use reqwest_wasi::error::Kind;
use reqwest_wasi::method::Method;
use reqwest_wasi::request::Request;
use reqwest_wasi::timeout::Timeout;
use reqwest_wasi::url_parts::{parse_url, Scheme};

fn fields_of(client: &Client, request: Request) -> Vec<(String, Vec<u8>)> {
    client.plan_request(request).fields
}

fn get_request(client: &Client, url: &str) -> Request {
    match client.get(url).build() {
        Ok(r) => r,
        Err(e) => panic!("unexpected error: {}", e.message()),
    }
}

#[test]
fn builder_defaults_accept_any_and_thirty_second_timeout() {
    let client = ClientBuilder::new().build().ok().unwrap();
    let plan = client.plan_request(get_request(&client, "http://example.com/"));
    assert_eq!(plan.fields, vec![("accept".to_owned(), b"*/*".to_vec())]);
    assert_eq!(plan.connect_timeout_ns, None);
    assert_eq!(plan.first_byte_timeout_ns, Some(30_000_000_000));
    assert_eq!(plan.between_bytes_timeout_ns, Some(30_000_000_000));
}

#[test]
fn new_and_default_match_builder() {
    let a = Client::new();
    let b = Client::default();
    let c = Client::builder().build().ok().unwrap();
    for client in [&a, &b, &c] {
        let plan = client.plan_request(get_request(client, "http://example.com/"));
        assert_eq!(plan.fields, vec![("accept".to_owned(), b"*/*".to_vec())]);
        assert_eq!(plan.first_byte_timeout_ns, Some(30_000_000_000));
    }
}

#[test]
fn user_agent_is_sent_after_default_headers() {
    let client = ClientBuilder::new().user_agent("my-app/1.0").build().ok().unwrap();
    let fields = fields_of(&client, get_request(&client, "http://example.com/"));
    assert_eq!(
        fields,
        vec![
            ("accept".to_owned(), b"*/*".to_vec()),
            ("user-agent".to_owned(), b"my-app/1.0".to_vec()),
        ]
    );
}

#[test]
fn invalid_user_agent_makes_build_fail() {
    let result = ClientBuilder::new().user_agent("bad\u{7f}agent").build();
    match result {
        Ok(_) => panic!("expected an error"),
        Err(e) => {
            assert_eq!(e.kind(), Kind::Builder);
            assert_eq!(e.message(), "failed to parse header value");
        }
    }
}

#[test]
fn default_headers_replace_and_keep_last_value() {
    let mut extra = HeaderMap::new();
    extra.insert(HeaderName::from_static("accept"), HeaderValue::from_static("text/html"));
    extra.insert(HeaderName::from_static("x-one"), HeaderValue::from_static("1"));
    extra.append(HeaderName::from_static("x-one"), HeaderValue::from_static("2"));
    let client = ClientBuilder::new().default_headers(extra).build().ok().unwrap();
    let fields = fields_of(&client, get_request(&client, "http://example.com/"));
    assert_eq!(
        fields,
        vec![
            ("accept".to_owned(), b"text/html".to_vec()),
            ("x-one".to_owned(), b"2".to_vec()),
        ]
    );
}

#[test]
fn deprecated_options_change_nothing() {
    #[allow(deprecated)]
    let client = ClientBuilder::new()
        .danger_accept_invalid_certs(true)
        .no_proxy()
        .referer(false)
        .connection_verbose(true)
        .https_only(true)
        .build()
        .ok()
        .unwrap();
    let plan = client.plan_request(get_request(&client, "http://example.com/"));
    assert_eq!(plan.fields, vec![("accept".to_owned(), b"*/*".to_vec())]);
    assert_eq!(plan.first_byte_timeout_ns, Some(30_000_000_000));
}

#[test]
fn timeouts_in_nanoseconds_and_request_timeout_wins() {
    let client = ClientBuilder::new()
        .timeout(Some(Timeout::from_millis(1500)))
        .connect_timeout(Some(Timeout::new(2, 7_000_000)))
        .build()
        .ok()
        .unwrap();
    let plan = client.plan_request(get_request(&client, "http://example.com/"));
    assert_eq!(plan.connect_timeout_ns, Some(2_007_000_000));
    assert_eq!(plan.first_byte_timeout_ns, Some(1_500_000_000));
    assert_eq!(plan.between_bytes_timeout_ns, Some(1_500_000_000));

    let mut request = get_request(&client, "http://example.com/");
    request.timeout = Some(Timeout::from_secs(4));
    let plan = client.plan_request(request);
    assert_eq!(plan.first_byte_timeout_ns, Some(4_000_000_000));
    assert_eq!(plan.between_bytes_timeout_ns, Some(4_000_000_000));
    assert_eq!(plan.connect_timeout_ns, Some(2_007_000_000));
}

#[test]
fn no_timeout_disables_it() {
    let client = ClientBuilder::new().timeout(None).build().ok().unwrap();
    let plan = client.plan_request(get_request(&client, "http://example.com/"));
    assert_eq!(plan.first_byte_timeout_ns, None);
    assert_eq!(plan.between_bytes_timeout_ns, None);
}

#[test]
fn method_helpers_set_the_method() {
    let client = Client::new();
    let cases: Vec<(reqwest_wasi::blocking::RequestBuilder, &str)> = vec![
        (client.get("http://a.test/"), "GET"),
        (client.post("http://a.test/"), "POST"),
        (client.put("http://a.test/"), "PUT"),
        (client.patch("http://a.test/"), "PATCH"),
        (client.delete("http://a.test/"), "DELETE"),
        (client.head("http://a.test/"), "HEAD"),
    ];
    for (builder, name) in cases {
        let request = builder.build().ok().unwrap();
        let got = match request.method {
            Method::Get => "GET",
            Method::Post => "POST",
            Method::Put => "PUT",
            Method::Patch => "PATCH",
            Method::Delete => "DELETE",
            Method::Head => "HEAD",
            _ => "OTHER",
        };
        assert_eq!(got, name);
        assert_eq!(request.url.host.as_deref(), Some("a.test"));
        assert!(request.body.is_none());
        assert!(request.timeout.is_none());
    }
}

#[test]
fn request_with_bad_url_is_a_builder_error() {
    let client = Client::new();
    match client.request(Method::Other("FETCH".to_owned()), "not a url").build() {
        Ok(_) => panic!("expected an error"),
        Err(e) => {
            assert_eq!(e.kind(), Kind::Builder);
            assert_eq!(e.message(), "relative URL without a base");
        }
    }
}

#[test]
fn plan_sends_url_parts_and_visible_headers() {
    let client = Client::new();
    let mut request = get_request(&client, "https://user@example.com:8443/a/b?x=1&y=2#frag");
    request
        .headers
        .insert(HeaderName::from_static("x-text"), HeaderValue::from_static("plain"));
    request
        .headers
        .insert(HeaderName::from_static("x-bytes"), HeaderValue::from_bytes(b"caf\xc3\xa9").unwrap());
    request.body = Some(b"payload".to_vec());
    let plan = client.plan_request(request);
    assert!(matches!(plan.scheme, Scheme::Https));
    assert_eq!(plan.path_with_query, "/a/b?x=1&y=2");
    assert_eq!(plan.authority, "user@example.com:8443");
    assert_eq!(plan.body, Some(b"payload".to_vec()));
    assert_eq!(
        plan.fields,
        vec![
            ("accept".to_owned(), b"*/*".to_vec()),
            ("x-text".to_owned(), b"plain".to_vec()),
        ]
    );
}

#[test]
fn plan_for_other_scheme_without_query() {
    let client = Client::new();
    let plan = client.plan_request(get_request(&client, "ftp://files.test/dir/"));
    match plan.scheme {
        Scheme::Other(name) => assert_eq!(name, "ftp"),
        _ => panic!("expected another scheme"),
    }
    assert_eq!(plan.path_with_query, "/dir/");
    assert_eq!(plan.authority, "files.test");
}

#[test]
fn response_keeps_valid_status() {
    let url = parse_url("http://example.com/").ok().unwrap();
    let mut headers = HeaderMap::new();
    headers.insert(HeaderName::from_static("server"), HeaderValue::from_static("x"));
    let response: Response = Response::from_parts(204, headers, b"ok".to_vec(), url).ok().unwrap();
    assert_eq!(response.status(), 204);
    assert_eq!(response.body(), &b"ok".to_vec());
    assert_eq!(response.headers().get("server").unwrap(), "x");
    assert_eq!(response.url().serialization, "http://example.com/");
}

#[test]
fn response_rejects_status_out_of_range() {
    for status in [0u16, 99, 1000, 65535] {
        let url = parse_url("http://example.com/").ok().unwrap();
        match Response::from_parts(status, HeaderMap::new(), Vec::new(), url) {
            Ok(_) => panic!("expected an error for {}", status),
            Err(e) => {
                assert_eq!(e.kind(), Kind::Decode);
                assert_eq!(e.message(), "invalid status code");
            }
        }
    }
    let url = parse_url("http://example.com/").ok().unwrap();
    assert!(Response::from_parts(100, HeaderMap::new(), Vec::new(), url).is_ok());
    let url = parse_url("http://example.com/").ok().unwrap();
    assert!(Response::from_parts(999, HeaderMap::new(), Vec::new(), url).is_ok());
}

#[test]
fn request_builder_keeps_client_and_request() {
    let client = Client::new();
    let builder = client.get("http://example.com/x");
    let plan = builder.client().plan_request(get_request(&client, "http://example.com/"));
    assert_eq!(plan.first_byte_timeout_ns, Some(30_000_000_000));
    let request = builder.build().ok().unwrap();
    assert_eq!(request.url.path, "/x");
}

#[test]
fn very_long_timeout_is_sent_as_longest_duration() {
    let client = ClientBuilder::new()
        .timeout(Some(Timeout::from_secs(u64::MAX)))
        .build()
        .ok()
        .unwrap();
    let plan = client.plan_request(get_request(&client, "http://example.com/"));
    assert_eq!(plan.first_byte_timeout_ns, Some(u64::MAX));
}

#[test]
fn user_agent_bytes_accept_high_bytes() {
    let client = ClientBuilder::new().user_agent_bytes(b"agent\xe9").build().ok().unwrap();
    let fields = fields_of(&client, get_request(&client, "http://example.com/"));
    // the value is not visible ASCII text, so it is set but not sent as a field
    assert_eq!(fields, vec![("accept".to_owned(), b"*/*".to_vec())]);
    let result = ClientBuilder::new().user_agent_bytes(b"bad\x00").build();
    match result {
        Ok(_) => panic!("expected an error"),
        Err(e) => assert_eq!(e.message(), "failed to parse header value"),
    }
}

#[test]
fn refused_value_error_survives_later_calls() {
    let result = ClientBuilder::new()
        .user_agent("bad\nvalue")
        .timeout(None)
        .user_agent("good")
        .connect_timeout(None)
        .build();
    match result {
        Ok(_) => panic!("expected an error"),
        Err(e) => {
            assert_eq!(e.kind(), Kind::Builder);
            assert_eq!(e.message(), "failed to parse header value");
        }
    }
}

#[test]
fn header_count_counts_distinct_names() {
    let builder = ClientBuilder::new();
    assert_eq!(builder.header_count(), 1);
    let builder = builder.user_agent("a");
    assert_eq!(builder.header_count(), 2);
    let builder = builder.user_agent("b");
    assert_eq!(builder.header_count(), 2);
}
