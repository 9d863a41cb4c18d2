//! The logic of an events aggregator: it takes cluster events from NATS, writes each as one line of
//! compact JSON, and exports the lines in batches to Loki or to a pair of size-limited files.
//!
//! The library holds the decisions and the data formats. Connections, files, clocks and channels
//! belong to its caller, which performs the actions that the library asks for and reports what
//! happened.

pub mod constant;
pub mod exporter;
pub mod json;
pub mod message;
pub mod reply;
pub mod text;
