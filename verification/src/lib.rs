//! A minimal, verified request-processing core for a cookie-authenticated
//! web service: identity extraction from cookies, auth middleware that
//! short-circuits unauthenticated requests, a wrapping visit counter shared
//! by all handlers, and the plain-text response bodies the handlers produce.
//!
//! Everything here is plain data in, plain data out; the surrounding server
//! (sockets, routing, the async runtime) lives outside this crate and hands
//! requests in as cookie lists.

pub mod cookies;
pub mod counter;
pub mod parse;
pub mod pipeline;
pub mod primes;
pub mod text;
pub mod workload;
