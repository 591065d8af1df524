//! Causal-correlation metadata for log records.
//!
//! Concurrent work interleaves its log records. To tell afterwards which
//! record belongs to which operation, every record is given the id of the
//! task it comes from, the id of that task's parent where it has one, the
//! id of the thread, and, where asked for, the call site. Spans bracket a
//! piece of work with a start marker and an end marker.
//!
//! Everything here works on plain values: a record is a [`Record`], the
//! active logger is a [`span::Sink`] or a [`logger::Registry`] that the
//! caller holds. Handing records to a real backend is left to the caller.

pub mod augment;
pub mod caller;
pub mod identity;
pub mod instrument;
pub mod logger;
pub mod record;
pub mod span;
pub mod text;

pub use crate::instrument::instrument;
pub use crate::logger::Logger;
pub use crate::record::Record;
pub use crate::span::Span;
