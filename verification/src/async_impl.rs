//! The asynchronous client over the host's HTTP interface: what it sends for
//! a request. Driving the futures and streams is left to the caller.
use vstd::prelude::*;
use core::marker::PhantomData;
use crate::method::Method;
use crate::request::Request;
use crate::url_parts::{opt_text, scheme_matches, scheme_of, Scheme};

verus! {

/// A client that sends requests asynchronously through the host.
pub struct Client {}

impl Client {
    /// A new client.
    pub fn new() -> (c: Self) {
        Self {}
    }
}

/// A placeholder that ties a body type to the asynchronous client.
pub struct HyperShim<B> {
    data: PhantomData<B>,
}

/// What the host is asked to set on an outgoing request: method, path with
/// query and fragment, scheme and authority (the host name alone).
pub struct OutgoingParts {
    pub method: Method,
    pub path_with_query: String,
    pub scheme: Scheme,
    pub authority: Option<String>,
}

/// The parts of the outgoing request for `request`: its method, its URL
/// from the path on, the scheme of its URL and the host of its URL.
pub fn outgoing_request_parts(request: Request) -> (p: OutgoingParts)
    ensures
        p.method == request.method,
        p.path_with_query@ == request.url.from_path@,
        scheme_matches(p.scheme, request.url.scheme@),
        opt_text(p.authority) == opt_text(request.url.host),
{
    let Request { method, url, headers: _, body: _, timeout: _ } = request;
    let scheme = scheme_of(url.scheme.as_str());
    OutgoingParts { method, path_with_query: url.from_path, scheme, authority: url.host }
}

} // verus!
