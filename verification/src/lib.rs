//! Verified core of an API gateway that fronts a conversational-AI backend.
//!
//! The crate holds the pieces of the gateway whose behaviour is worth
//! stating and proving: the response classifier that maps upstream HTTP
//! outcomes to a closed error taxonomy, the token-bucket admission layer,
//! the credential store driven by the OAuth lifecycle, the streaming
//! translator that decodes prefix-tagged event streams, and the router
//! policy that picks an upstream and a header set for each request.
//! Listener bootstrap, TLS and the actual network calls live outside the
//! library and hand it plain values.

pub mod bucket;
pub mod bytestr;
pub mod classify;
pub mod credential;
pub mod limiter;
pub mod request;
pub mod route;
pub mod stream;
