//! Capture of span and point events and their streaming serialisation in the
//! Chrome Trace Event Format: one JSON array of event objects that trace
//! viewers such as `chrome://tracing` and Perfetto load.
//!
//! The crate holds the rules of the format and of the span lifecycle as
//! verified functions on plain values. Clocks, threads and the byte sink stay
//! with the caller, which feeds elapsed nanoseconds in and writes the returned
//! text out.
//!
//! - [`phase`]: the phase tag, its name and its wire code.
//! - [`event`]: the event record, its arguments and its builder.
//! - [`number`]: reading the numeric fields of a call site.
//! - [`fields`]: the field collector.
//! - [`json`]: the JSON object of one event.
//! - [`grammar`]: the grammar of JSON texts, and that every stream is of it.
//! - [`span`]: the record of a span and the events it gives.
//! - [`layer`]: the span table behind the lifecycle callbacks.
//! - [`emit`]: the deferred single-slot buffer that frames the array.
//! - [`writer`]: batches of finished spans on their way through the buffer.

pub mod emit;
pub mod event;
pub mod fields;
pub mod grammar;
pub mod json;
pub mod layer;
pub mod number;
pub mod phase;
pub mod span;
pub mod writer;

pub use emit::Emitter;
pub use event::Args;
pub use event::ChromeEvent;
pub use event::ChromeEventBuilder;
pub use event::ChromeEventBuilderError;
pub use fields::FieldCollector;
pub use fields::InvalidFieldValue;
pub use layer::ChromeLayer;
pub use layer::ChromeLayerConfig;
pub use phase::EventType;
pub use phase::ParseError;
pub use span::SpanInfo;
pub use writer::write_spans;
