//! The parsed inbound request the engine works on.
//!
//! Deserialization and validation of the wire payload happen outside the
//! library; the engine receives the request's fields as plain values. The
//! target URI is carried in its original textual form, which is also the
//! resource key under which an oversized body is cached.

use vstd::prelude::*;

verus! {

/// A fetch request: an HTTP verb, the target URI as originally requested,
/// a header mapping, and an optional continuation offset into a previously
/// computed encoded body.
pub struct Request {
    /// The HTTP method, e.g. `GET`.
    pub method: String,
    /// The target URI; also the cache key for continuations.
    pub uri: String,
    /// Header names and values to send with every hop of the fetch.
    pub headers: Vec<(String, String)>,
    /// Position in the encoded body at which the reply should start,
    /// when the caller is paging through an oversized body.
    pub offset: Option<usize>,
}

/// The offset a request asks for: the continuation offset when one is
/// supplied, otherwise the start of the body.
pub open spec fn effective_offset(offset: Option<usize>) -> int {
    match offset {
        Some(o) => o as int,
        None => 0,
    }
}

} // verus!
