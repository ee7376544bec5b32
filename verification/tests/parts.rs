use http::header::{HeaderMap, HeaderName, HeaderValue};
use reqwest_wasi::async_impl::{outgoing_request_parts, Client as AsyncClient};
use reqwest_wasi::error::{builder, failure_point, Error, Kind, MyError};
use reqwest_wasi::header_fields::{
    fields_to_header_map, insert_pairs, push_visible_fields, try_fields_to_header_map, FieldProblem,
};
use reqwest_wasi::http_types::{
    header_map_keys_len, header_map_pairs, header_name_from_string, header_value_from_str, header_value_to_str,
    status_code_from_u16,
};
use reqwest_wasi::method::Method;
use reqwest_wasi::request::Request;
use reqwest_wasi::timeout::Timeout;
use reqwest_wasi::url_parts::{parse_url, path_with_query, scheme_of, Scheme};

#[test]
fn timeout_arithmetic() {
    let t = Timeout::new(1, 2_500_000_000);
    assert_eq!(t.as_secs(), 3);
    assert_eq!(t.subsec_nanos(), 500_000_000);
    assert_eq!(t.as_millis(), 3500);
    let m = Timeout::from_millis(12_345);
    assert_eq!(m.as_secs(), 12);
    assert_eq!(m.subsec_nanos(), 345_000_000);
    assert_eq!(m.as_millis(), 12_345);
    assert_eq!(Timeout::from_secs(7).as_millis(), 7000);
    assert_eq!(Timeout::new(0, 999_999).as_millis(), 0);
    assert_eq!(Timeout::new(2, 5).as_nanos(), 2_000_000_005);
    assert_eq!(Timeout::from_secs(u64::MAX).as_nanos(), u64::MAX as u128 * 1_000_000_000);
}

#[test]
fn errors_carry_kind_and_message() {
    let e: Error = failure_point("outgoing_handler handle");
    assert_eq!(e.kind(), Kind::Request);
    assert_eq!(e.message(), "outgoing_handler handle");
    let b = builder("bad");
    assert_eq!(b.kind(), Kind::Builder);
    assert_eq!(b.message(), "bad");
    let d = Error::new(Kind::Decode, "x");
    assert_eq!(d.kind(), Kind::Decode);
}

#[test]
fn my_error_displays_its_message() {
    let e = MyError::new("something broke");
    assert_eq!(e.message(), "something broke");
}

#[test]
fn scheme_mapping() {
    assert!(matches!(scheme_of("http"), Scheme::Http));
    assert!(matches!(scheme_of("https"), Scheme::Https));
    match scheme_of("HTTP") {
        Scheme::Other(s) => assert_eq!(s, "HTTP"),
        _ => panic!("expected another scheme"),
    }
    match scheme_of("httpss") {
        Scheme::Other(s) => assert_eq!(s, "httpss"),
        _ => panic!("expected another scheme"),
    }
}

#[test]
fn path_and_query() {
    assert_eq!(path_with_query("/a", Some("b=1")), "/a?b=1");
    assert_eq!(path_with_query("/a", Some("")), "/a?");
    assert_eq!(path_with_query("/a", None), "/a");
}

#[test]
fn parse_url_reads_parts() {
    let u = parse_url("HTTP://Example.COM:80/p?q#f").ok().unwrap();
    assert_eq!(u.scheme, "http");
    assert_eq!(u.host.as_deref(), Some("example.com"));
    assert_eq!(u.authority, "example.com");
    assert_eq!(u.path, "/p");
    assert_eq!(u.query.as_deref(), Some("q"));
    assert_eq!(u.from_path, "/p?q#f");
    assert_eq!(u.serialization, "http://example.com/p?q#f");
    assert_eq!(parse_url("::").err().unwrap(), "relative URL without a base");
}

#[test]
fn async_parts_use_host_and_whole_path() {
    let url = parse_url("https://u:p@host.test:9/a?b#c").ok().unwrap();
    let parts = outgoing_request_parts(Request::new(Method::Post, url));
    assert!(matches!(parts.method, Method::Post));
    assert!(matches!(parts.scheme, Scheme::Https));
    assert_eq!(parts.path_with_query, "/a?b#c");
    assert_eq!(parts.authority.as_deref(), Some("host.test"));
    let _client = AsyncClient::new();
}

#[test]
fn fields_to_header_map_lowercases_and_keeps_last() {
    let fields = vec![
        ("Content-Type".to_owned(), b"text/plain".to_vec()),
        ("X-Id".to_owned(), b"1".to_vec()),
        ("x-id".to_owned(), b"2".to_vec()),
    ];
    let map = fields_to_header_map(&fields);
    assert_eq!(map.len(), 2);
    assert_eq!(map.get("content-type").unwrap(), "text/plain");
    assert_eq!(map.get_all("x-id").iter().collect::<Vec<_>>(), vec!["2"]);
}

#[test]
fn visible_fields_skip_binary_values() {
    let mut map = HeaderMap::new();
    map.insert(HeaderName::from_static("a"), HeaderValue::from_static("one"));
    map.append(HeaderName::from_static("a"), HeaderValue::from_bytes(b"\xff").unwrap());
    map.append(HeaderName::from_static("a"), HeaderValue::from_static("three\tx"));
    let items = header_map_pairs(&map);
    let mut fields = vec![("first".to_owned(), b"0".to_vec())];
    push_visible_fields(&mut fields, &items);
    assert_eq!(
        fields,
        vec![
            ("first".to_owned(), b"0".to_vec()),
            ("a".to_owned(), b"one".to_vec()),
            ("a".to_owned(), b"three\tx".to_vec()),
        ]
    );
}

#[test]
fn insert_pairs_in_order() {
    let mut target = HeaderMap::new();
    target.insert(HeaderName::from_static("keep"), HeaderValue::from_static("k"));
    let items = vec![
        (HeaderName::from_static("x"), HeaderValue::from_static("1")),
        (HeaderName::from_static("x"), HeaderValue::from_static("2")),
        (HeaderName::from_static("y"), HeaderValue::from_static("3")),
    ];
    insert_pairs(&mut target, items);
    assert_eq!(target.len(), 3);
    assert_eq!(target.get("x").unwrap(), "2");
    assert_eq!(target.get("y").unwrap(), "3");
    assert_eq!(target.get("keep").unwrap(), "k");
}

#[test]
fn header_helpers() {
    let n = header_name_from_string(&"X-Mixed-Case".to_owned()).unwrap();
    assert_eq!(n.as_str(), "x-mixed-case");
    assert!(header_name_from_string(&"bad name".to_owned()).is_none());
    assert!(header_name_from_string(&String::new()).is_none());
    assert!(header_value_from_str("ok value").is_some());
    assert!(header_value_from_str("line\nbreak").is_none());
    let v = HeaderValue::from_bytes(b"caf\xc3\xa9").unwrap();
    assert!(header_value_to_str(&v).is_none());
    let v = HeaderValue::from_static("text");
    assert_eq!(header_value_to_str(&v), Some("text"));
    assert_eq!(status_code_from_u16(404), Some(404));
    assert_eq!(status_code_from_u16(42), None);
}

#[test]
fn try_fields_reports_first_problem() {
    let good = vec![("A".to_owned(), b"1".to_vec()), ("a".to_owned(), b"2".to_vec())];
    let map = try_fields_to_header_map(&good).unwrap();
    assert_eq!(header_map_keys_len(&map), 1);
    assert_eq!(map.get("a").unwrap(), "2");

    let bad_name = vec![("ok".to_owned(), b"\x00".to_vec()), ("bad name".to_owned(), b"1".to_vec())];
    assert_eq!(try_fields_to_header_map(&bad_name).err(), Some(FieldProblem::InvalidValue));
    let bad_name = vec![("bad name".to_owned(), b"\x00".to_vec())];
    assert_eq!(try_fields_to_header_map(&bad_name).err(), Some(FieldProblem::InvalidName));
}

#[test]
fn try_fields_builds_large_maps() {
    let mut many = Vec::new();
    for _ in 0..7000 {
        many.push(("set-cookie".to_owned(), b"a=b".to_vec()));
    }
    let map = try_fields_to_header_map(&many).unwrap();
    assert_eq!(header_map_keys_len(&map), 1);

    let mut names = Vec::new();
    for i in 0..6600 {
        names.push((format!("x-{}", i), b"v".to_vec()));
    }
    let map = try_fields_to_header_map(&names).unwrap();
    assert_eq!(header_map_keys_len(&map), 6600);
}
