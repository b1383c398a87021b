//! The proxy's error type. Every error is scoped to one request; none
//! crashes the process.

use vstd::prelude::*;
use vstd::string::StringExecFns;

verus! {

/// What can go wrong while handling one request.
#[derive(Debug)]
pub enum ProxyError {
    /// No tenant is configured for the (normalized) hostname.
    DomainNotFound(String),
    /// The upstream call failed at the transport level.
    UpstreamRequestFailed(String),
    /// The upstream body could not be decoded as text where text was expected.
    ContentDecodeFailed(String),
    /// The configuration could not be used.
    Config(String),
    /// Rewriting the fetched content failed.
    HtmlRewrite(String),
    /// Any other internal failure.
    Internal(String),
}

/// The descriptive message carried by `e`.
pub open spec fn error_message_model(e: &ProxyError) -> Seq<char> {
    match e {
        ProxyError::DomainNotFound(d) => "Domain not found: "@ + d@,
        ProxyError::UpstreamRequestFailed(d) => "HTTP request error: "@ + d@,
        ProxyError::ContentDecodeFailed(d) => "Content decode error: "@ + d@,
        ProxyError::Config(d) => "Configuration error: "@ + d@,
        ProxyError::HtmlRewrite(d) => "HTML rewriting error: "@ + d@,
        ProxyError::Internal(d) => "Internal server error: "@ + d@,
    }
}

impl ProxyError {
    /// The error's descriptive message.
    pub fn message(&self) -> (r: String)
        ensures
            r@ == error_message_model(self),
    {
        let mut out = String::new();
        match self {
            ProxyError::DomainNotFound(d) => {
                out.append("Domain not found: ");
                out.append(d.as_str());
            },
            ProxyError::UpstreamRequestFailed(d) => {
                out.append("HTTP request error: ");
                out.append(d.as_str());
            },
            ProxyError::ContentDecodeFailed(d) => {
                out.append("Content decode error: ");
                out.append(d.as_str());
            },
            ProxyError::Config(d) => {
                out.append("Configuration error: ");
                out.append(d.as_str());
            },
            ProxyError::HtmlRewrite(d) => {
                out.append("HTML rewriting error: ");
                out.append(d.as_str());
            },
            ProxyError::Internal(d) => {
                out.append("Internal server error: ");
                out.append(d.as_str());
            },
        }
        out
    }
}

} // verus!
