//! An on-demand HTTP content fetcher that pages oversized response bodies
//! through size-bounded replies.
//!
//! The library holds the verified core: the redirect-following decision
//! logic, the base64 transcoding of a retrieved body, the single-use chunk
//! cache, and the pagination engine that slices an encoded body into
//! bounded pages across stateless calls. Transport, TLS configuration and
//! request deserialization live outside the library.

pub mod cache;
pub mod encode;
pub mod fetch;
pub mod page;
pub mod request;
