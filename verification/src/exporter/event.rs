//! The events that the exporter carries.

use vstd::prelude::*;

verus! {

/// A single event produced by the aggregator pipeline.
/// `subject` is used as the Loki stream label, while `line` is the payload.
#[derive(Debug)]
pub struct LogEvent {
    pub subject: String,
    pub line: String,
}

} // verus!
