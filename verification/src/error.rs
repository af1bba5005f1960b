//! Errors produced by payload building, HTTP, or response parsing.
use vstd::prelude::*;
use crate::text::{cat, dec_seq, dec_string, own};

verus! {

/// Errors produced by payload building, HTTP, or response parsing.
#[derive(Debug)]
pub enum TvscreenerError {
    /// `TradingView` (or proxy) returned a non-success HTTP status.
    HttpStatus {
        /// Response status code.
        status: u16,
        /// Response body (truncated when longer than 4 KiB).
        body: String,
    },
    /// Request timed out.
    Timeout,
    /// Underlying network / transport failure.
    Network(String),
    /// Response body was not valid JSON or did not match the expected shape.
    Json(String),
    /// Caller built an invalid filter, range, or column set.
    InvalidRequest(String),
    /// Filter `left` is not in the allowed field set for this screener.
    InvalidFieldName(String),
}

/// Crate-wide result alias.
pub type Result<T> = core::result::Result<T, TvscreenerError>;

/// The human-readable message of an error.
pub open spec fn message_spec(e: TvscreenerError) -> Seq<char> {
    match e {
        TvscreenerError::HttpStatus { status, body } => "HTTP "@ + dec_seq(status as nat) + ": "@
            + body@,
        TvscreenerError::Timeout => "request timed out"@,
        TvscreenerError::Network(m) => "network error: "@ + m@,
        TvscreenerError::Json(m) => "JSON error: "@ + m@,
        TvscreenerError::InvalidRequest(m) => "invalid request: "@ + m@,
        TvscreenerError::InvalidFieldName(m) => "invalid field name: "@ + m@,
    }
}

impl TvscreenerError {
    /// The human-readable message of this error (what `Display` prints).
    pub fn message(&self) -> (r: String)
        ensures
            r@ == message_spec(*self),
    {
        match self {
            TvscreenerError::HttpStatus { status, body } => {
                let mut r = own("HTTP ");
                let d = dec_string(*status as u64);
                r.append(d.as_str());
                r.append(": ");
                r.append(body.as_str());
                r
            },
            TvscreenerError::Timeout => own("request timed out"),
            TvscreenerError::Network(m) => cat("network error: ", m.as_str()),
            TvscreenerError::Json(m) => cat("JSON error: ", m.as_str()),
            TvscreenerError::InvalidRequest(m) => cat("invalid request: ", m.as_str()),
            TvscreenerError::InvalidFieldName(m) => cat("invalid field name: ", m.as_str()),
        }
    }
}

} // verus!
