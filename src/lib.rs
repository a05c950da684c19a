//! Incremental replication of append-only log rows into a bulk-indexed
//! search store: batch planning, bulk framing, watermark bookkeeping and the
//! per-source sync cycle, together with the log record models.

pub mod auth;
pub mod batch;
pub mod broker;
pub mod bulk;
pub mod error;
pub mod fetch;
pub mod kafka;
pub mod record;
pub mod sync;
pub mod watermark;
