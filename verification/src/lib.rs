//! A WASI HTTP client: client configuration, request planning, header
//! handling and the decisions of the body streaming loops, with their
//! contracts proved by Verus.
pub mod error;
pub mod timeout;
pub mod http_types;
pub mod header_fields;
pub mod method;
pub mod url_parts;
pub mod request;
pub mod blocking;
pub mod body;
pub mod async_impl;
