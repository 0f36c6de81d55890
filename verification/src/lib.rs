//! Verified computations behind a set of small enclave demonstrations: a
//! Fibonacci sequence bounded by `u32` overflow, the JSON text of a point, the
//! HTTP request a TLS client sends, and the tally of results that pool workers
//! report.

pub mod fibonacci;
pub mod json_text;
pub mod point;
pub mod tally;
pub mod http_request;
