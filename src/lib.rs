//! A small HTTP/1.1 server: parsing of requests, dispatch to a fixed set of
//! routes, staged construction and wire form of responses, and the scheduling
//! state of the worker pool that serves connections.
pub mod compressor;
pub mod http_header;
pub mod http_request;
pub mod http_response;
pub mod laws;
pub mod router;
pub mod text;
pub mod worker_pool;
