//! Classification of upstream HTTP outcomes into a closed error taxonomy.
//!
//! The classifier is shared by the typed client and the generic proxy: a
//! 401 means the bearer credential was refused, a 429 means the upstream
//! throttled us, any other 4xx is a bad request whose body is preserved
//! verbatim (4xx bodies usually carry a machine-readable reason), and a
//! 5xx is an opaque server failure whose body is deliberately discarded.
//! Everything else (connect, timeout, decode failures) is a failed request
//! carrying whatever message the transport produced.

use vstd::prelude::*;

verus! {

/// The closed taxonomy of upstream failures.
#[derive(Clone, Copy, Debug, PartialEq, Eq, Structural)]
pub enum UpstreamKind {
    BadAuthentication,
    TooManyRequests,
    BadRequest,
    ServerError,
    FailedRequest,
}

/// An upstream failure: a taxonomy tag, a human-readable message, and the
/// originating HTTP status where one exists (transport failures have none).
#[derive(Clone, Debug, PartialEq, Eq)]
pub struct UpstreamError {
    pub kind: UpstreamKind,
    pub message: String,
    pub status: Option<u16>,
}

/// The taxonomy tag owed to each HTTP status.
pub open spec fn kind_of_status(status: u16) -> UpstreamKind {
    if status == 401 {
        UpstreamKind::BadAuthentication
    } else if status == 429 {
        UpstreamKind::TooManyRequests
    } else if 400 <= status < 500 {
        UpstreamKind::BadRequest
    } else if 500 <= status < 600 {
        UpstreamKind::ServerError
    } else {
        UpstreamKind::FailedRequest
    }
}

/// The message owed to each classified response: the body verbatim, except
/// that 5xx bodies are not trusted to carry actionable detail and are
/// discarded.
pub open spec fn message_of_status(status: u16, body: Seq<char>) -> Seq<char> {
    if kind_of_status(status) == UpstreamKind::ServerError {
        Seq::<char>::empty()
    } else {
        body
    }
}

/// Classify an upstream HTTP response by its status line and body text.
pub fn classify(status: u16, body: &str) -> (r: UpstreamError)
    ensures
        r.kind == kind_of_status(status),
        r.message@ == message_of_status(status, body@),
        r.status == Some(status),
{
    let kind = if status == 401 {
        UpstreamKind::BadAuthentication
    } else if status == 429 {
        UpstreamKind::TooManyRequests
    } else if 400 <= status && status < 500 {
        UpstreamKind::BadRequest
    } else if 500 <= status && status < 600 {
        UpstreamKind::ServerError
    } else {
        UpstreamKind::FailedRequest
    };
    let message = if 500 <= status && status < 600 {
        String::new()
    } else {
        body.to_owned()
    };
    UpstreamError { kind, message, status: Some(status) }
}

/// Classify a failure that produced no HTTP response at all: a connect,
/// timeout or decode error on the way to or from the upstream.
pub fn classify_transport(message: String) -> (r: UpstreamError)
    ensures
        r.kind == UpstreamKind::FailedRequest,
        r.message == message,
        r.status is None,
{
    UpstreamError { kind: UpstreamKind::FailedRequest, message, status: None }
}

/// Law: the classifier is a pure function of status and body — identical
/// inputs are owed the identical taxonomy tag and message.
pub proof fn lemma_classifier_deterministic(s1: u16, b1: Seq<char>, s2: u16, b2: Seq<char>)
    requires
        s1 == s2,
        b1 == b2,
    ensures
        kind_of_status(s1) == kind_of_status(s2),
        message_of_status(s1, b1) == message_of_status(s2, b2),
{
}

} // verus!
