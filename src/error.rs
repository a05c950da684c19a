use vstd::prelude::*;

verus! {

/// Why one sync cycle of a source ended without advancing its watermark, or
/// why a commit of an advanced watermark did not reach durable storage.
#[derive(Clone, Debug, PartialEq, Eq)]
pub enum SyncError {
    /// The source store could not be queried; nothing changed.
    SourceUnavailable,
    /// The source returned rows that are not strictly newer than the
    /// watermark or not in ascending order; they are not delivered.
    SourceOutOfOrder,
    /// The sink answered a bulk request with a non-success status.
    SinkRejected { status: u16, body: String },
    /// A bulk request could not be encoded.
    EncodingFailed,
    /// The advanced watermark could not be persisted.
    PersistenceError,
}

} // verus!
