# reqwest_wasi

A WASI HTTP client library whose logic is verified with Verus.

- `src/` is the verified library: the client builder and its configuration
  (`blocking`), header handling (`header_fields`, with the laws of inserting
  headers), URL parts and schemes (`url_parts`), the decisions of the body
  loops (`body`), the outgoing request of the asynchronous client
  (`async_impl`), errors and timeouts. `http_types` holds the trusted
  contracts of the `http` crate functions the library calls.
- `app/` sends requests through a Spin host's WASI HTTP interface, blocking
  (`app/blocking.rs`) and asynchronously (`app/async_client.rs`), using the
  library for every decision.
- `tests/` runs the library on concrete values.
