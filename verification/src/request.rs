use vstd::prelude::*;
use http::header::HeaderMap;
use crate::http_types::{header_map_keys, header_map_new, header_map_view, no_headers};
use crate::method::Method;
use crate::timeout::Timeout;
use crate::url_parts::UrlParts;

verus! {

/// A request to send: method, URL, headers, optional body and optional
/// timeout.
#[derive(Debug)]
pub struct Request {
    pub method: Method,
    pub url: UrlParts,
    pub headers: HeaderMap,
    pub body: Option<Vec<u8>>,
    pub timeout: Option<Timeout>,
}

impl Request {
    /// A request with the given method and URL, no headers, no body and no
    /// timeout of its own.
    pub fn new(method: Method, url: UrlParts) -> (r: Request)
        ensures
            r.method == method,
            r.url == url,
            header_map_view(r.headers) == no_headers(),
            header_map_keys(r.headers).len() == 0,
            r.body is None,
            r.timeout is None,
    {
        Request { method, url, headers: header_map_new(), body: None, timeout: None }
    }
}

} // verus!
