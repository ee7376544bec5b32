use vstd::prelude::*;

verus! {

/// The method of an HTTP request.
#[derive(Debug, Clone)]
pub enum Method {
    Get,
    Post,
    Put,
    Delete,
    Head,
    Options,
    Connect,
    Patch,
    Trace,
    /// Any other method, by its name.
    Other(String),
}

} // verus!
