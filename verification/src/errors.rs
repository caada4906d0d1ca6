//! The error taxonomy of the tracing store.

use vstd::prelude::*;
use vstd::string::StringExecFns;

verus! {

/// Result type for tracing operations.
pub type TracingResult<T> = Result<T, TracingError>;

/// Failures a tracing operation can report.  Every failure is returned to the
/// caller as a value; no operation of this crate panics on misuse.
#[derive(Debug)]
pub enum TracingError {
    /// A malformed or out-of-range configuration value.
    Configuration { message: String },
    /// Reserved for adapters that wrap span work of their own.
    SpanOperation { message: String },
    /// An operation named a span id that is not currently active: the span
    /// was never started, has already ended, or the id is unknown.
    InvalidSpanId { span_id: String },
    /// Reserved for adapters that serialise spans.
    Serialization { message: String },
}

impl TracingError {
    /// A human-readable account of the failure: a fixed prefix naming the
    /// error class, followed by the carried detail.
    pub fn message(&self) -> (r: String)
        ensures
            self matches TracingError::Configuration { message } ==> r@ == "Configuration error: "@
                + message@,
            self matches TracingError::SpanOperation { message } ==> r@
                == "Span operation failed: "@ + message@,
            self matches TracingError::InvalidSpanId { span_id } ==> r@ == "Invalid span ID: "@
                + span_id@,
            self matches TracingError::Serialization { message } ==> r@
                == "Serialization error: "@ + message@,
    {
        match self {
            TracingError::Configuration { message } => "Configuration error: ".to_owned().concat(
                message.as_str(),
            ),
            TracingError::SpanOperation { message } => "Span operation failed: ".to_owned().concat(
                message.as_str(),
            ),
            TracingError::InvalidSpanId { span_id } => "Invalid span ID: ".to_owned().concat(
                span_id.as_str(),
            ),
            TracingError::Serialization { message } => "Serialization error: ".to_owned().concat(
                message.as_str(),
            ),
        }
    }
}

} // verus!
