//! The exporter: batching, delivery with retries, and the destinations.

pub mod batch;
pub mod disk;
pub mod event;
pub mod flush;
pub mod loki;
pub mod mode;
pub mod rotation;
pub mod size_limit;

pub use crate::constant::{BATCH_MAX_SIZE, BATCH_TIMEOUT_MS};
pub use event::LogEvent;
pub use mode::ExporterMode;
pub use size_limit::parse_dir_size_limit;
