//! Core of a narrow CORS reverse proxy in front of a repositories API.
//!
//! The crate decides everything the proxy does with a request: whether the
//! origin is admitted, which cache key and upstream URL a request maps to,
//! what the response cache holds, and which status, headers and body every
//! response carries. Network I/O lives outside; it feeds this crate plain
//! values (path, query, origin, fetched bytes, a millisecond clock) and
//! performs the actions this crate hands back.

pub mod cache;
pub mod handler;
pub mod headers;
pub mod origin;
pub mod text;
pub mod upstream;
