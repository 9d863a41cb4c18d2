//! The aggregator's fixed settings.

use vstd::prelude::*;

verus! {

/// Capacity of the channels between the subscriber, the processor and the exporter.
pub const CHANNEL_CAPACITY: usize = 512;

/// Number of buffered events at which the exporter flushes.
pub const BATCH_MAX_SIZE: usize = 100;

/// Time in milliseconds after which a non-empty batch is flushed.
pub const BATCH_TIMEOUT_MS: u64 = 10000;

/// Number of delivery attempts that a batch gets before it is dropped.
pub const MAX_RETRIES: usize = 3;

/// Pause in milliseconds after the first failed delivery attempt; each further one is twice as long.
pub const INITIAL_BACKOFF_MS: u64 = 500;

/// Share, in percent, of the directory size limit that each of the two event files may take.
pub const PER_FILE_PERCENT: u64 = 40;

/// Longest delay in seconds before a message that could not be exported is redelivered.
pub const MAX_REDELIVERY_DELAY_SECS: u64 = 5;

/// Name of the service, and the `app` label of its Loki streams.
pub const SERVICE_NAME: &'static str = "events-aggregator";

/// Path of Loki's push API below the server's URL.
pub const LOKI_PUSH_PATH: &'static str = "/loki/api/v1/push";

/// Name of the header that carries the Loki tenant.
pub const LOKI_TENANT_HEADER: &'static str = "X-Scope-OrgID";

/// The Loki tenant that the events belong to.
pub const LOKI_TENANT: &'static str = "openebs";

/// Name of the JetStream consumer of the event subscription.
pub const JETSTREAM_CONSUMER_NAME: &'static str = "events-aggregator-consumer";

/// Name of the JetStream stream that holds the events.
pub const JETSTREAM_STREAM_NAME: &'static str = "events-stream";

/// Number of attempts of a retryable operation.
pub const MAX_ATTEMPTS: u32 = 10;

/// Number of attempts up to which the pause of a retryable operation grows.
pub const MAX_BACKOFF_ATTEMPTS: u32 = 6;

/// Name of the file that events are appended to.
pub const EVENTS_JSON_FILE: &'static str = "events.json";

/// Name of the file that a full event file is rotated into.
pub const EVENTS_JSON_ROTATED_FILE: &'static str = "events.1.json";

} // verus!
