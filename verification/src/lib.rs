//! An in-process recorder for distributed-tracing spans.
//!
//! A [`SimpleTracer`] starts spans, attaches attributes to them while they are
//! active, and moves them into a bounded history of completed spans when they
//! end.  Alongside the spans it keeps a baggage map of auxiliary string
//! context.  Every operation carries a contract describing exactly how it
//! changes the store's state.

pub mod assoc;
pub mod config;
pub mod errors;
pub mod span;
pub mod tracer;

pub use config::Environment;
pub use config::TraceConfig;
pub use errors::TracingError;
pub use errors::TracingResult;
pub use span::generate_span_id;
pub use span::generate_trace_id;
pub use span::Span;
pub use span::SpanStatus;
pub use tracer::SimpleTracer;
pub use tracer::TracingManager;
