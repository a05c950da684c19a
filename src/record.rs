use vstd::prelude::*;
use vstd::string::StringExecFns;

verus! {

/// An ordering value: nanoseconds since the Unix epoch, UTC, the precision
/// and range of the source store's `DateTime64(9)` columns.
#[derive(Clone, Copy, Debug, PartialEq, Eq, PartialOrd, Ord, Hash, Structural)]
pub struct Timestamp {
    pub nanos: i64,
}

/// A general structured log row.
#[derive(Clone, Debug)]
pub struct LogEntry {
    pub timestamp: Timestamp,
    pub level: String,
    pub message: String,
}

/// A log row that records an action.
#[derive(Clone, Debug)]
pub struct InfoLog {
    pub timestamp: Timestamp,
    pub information: String,
    pub action: String,
}

/// A log row that records a slow or suspicious request.
#[derive(Clone, Debug)]
pub struct WarnLog {
    pub timestamp: Timestamp,
    pub ip: String,
    pub path: String,
    pub latency_ms: u64,
}

impl LogEntry {
    pub fn new(timestamp: Timestamp, level: String, message: String) -> (r: Self)
        ensures
            r.timestamp == timestamp,
            r.level == level,
            r.message == message,
    {
        LogEntry { timestamp, level, message }
    }
}

impl InfoLog {
    pub fn new(timestamp: Timestamp, information: String, action: String) -> (r: Self)
        ensures
            r.timestamp == timestamp,
            r.information == information,
            r.action == action,
    {
        InfoLog { timestamp, information, action }
    }
}

impl WarnLog {
    pub fn new(timestamp: Timestamp, ip: String, path: String, latency_ms: u64) -> (r: Self)
        ensures
            r.timestamp == timestamp,
            r.ip == ip,
            r.path == path,
            r.latency_ms == latency_ms,
    {
        WarnLog { timestamp, ip, path, latency_ms }
    }
}

/// A record kind with a designated ordering field.
pub trait GetTimestamp {
    /// The record's ordering value.
    spec fn ordering(&self) -> Timestamp;

    fn get_timestamp(&self) -> (r: Timestamp)
        ensures
            r == self.ordering(),
    ;
}

impl GetTimestamp for LogEntry {
    open spec fn ordering(&self) -> Timestamp {
        self.timestamp
    }

    fn get_timestamp(&self) -> (r: Timestamp) {
        self.timestamp
    }
}

impl GetTimestamp for InfoLog {
    open spec fn ordering(&self) -> Timestamp {
        self.timestamp
    }

    fn get_timestamp(&self) -> (r: Timestamp) {
        self.timestamp
    }
}

impl GetTimestamp for WarnLog {
    open spec fn ordering(&self) -> Timestamp {
        self.timestamp
    }

    fn get_timestamp(&self) -> (r: Timestamp) {
        self.timestamp
    }
}

/// A log row of any of the three kinds, as it arrives at the broker.
#[derive(Clone, Debug)]
pub enum Log {
    Info(InfoLog),
    Warn(WarnLog),
    Entry(LogEntry),
}

/// The kind of a log row, which decides the table it is stored in.
#[derive(Clone, Copy, Debug, PartialEq, Eq, Structural)]
pub enum LogKind {
    Info,
    Warn,
    Entry,
}

/// The source table that stores rows of `kind`.
pub open spec fn table_of_kind(kind: LogKind) -> Seq<char> {
    match kind {
        LogKind::Info => "info_logs"@,
        LogKind::Warn => "warn_logs"@,
        LogKind::Entry => "logs"@,
    }
}

/// The kind of `log`.
pub open spec fn kind_of(log: Log) -> LogKind {
    match log {
        Log::Info(_) => LogKind::Info,
        Log::Warn(_) => LogKind::Warn,
        Log::Entry(_) => LogKind::Entry,
    }
}

/// The source table that stores rows of the kind of `log`.
pub open spec fn table_of(log: Log) -> Seq<char> {
    table_of_kind(kind_of(log))
}

/// The table that stores rows of `kind`.
pub fn kind_table(kind: LogKind) -> (r: String)
    ensures
        r@ == table_of_kind(kind),
{
    match kind {
        LogKind::Info => String::from_str("info_logs"),
        LogKind::Warn => String::from_str("warn_logs"),
        LogKind::Entry => String::from_str("logs"),
    }
}

impl Log {
    /// The kind of this row.
    pub fn kind(&self) -> (r: LogKind)
        ensures
            r == kind_of(*self),
    {
        match self {
            Log::Info(_) => LogKind::Info,
            Log::Warn(_) => LogKind::Warn,
            Log::Entry(_) => LogKind::Entry,
        }
    }

    /// The table this row is inserted into.
    pub fn target_table(&self) -> (r: String)
        ensures
            r@ == table_of(*self),
    {
        kind_table(self.kind())
    }

    /// The ordering value of this row.
    pub fn ordering_value(&self) -> (r: Timestamp)
        ensures
            r == match *self {
                Log::Info(l) => l.timestamp,
                Log::Warn(l) => l.timestamp,
                Log::Entry(l) => l.timestamp,
            },
    {
        match self {
            Log::Info(l) => l.get_timestamp(),
            Log::Warn(l) => l.get_timestamp(),
            Log::Entry(l) => l.get_timestamp(),
        }
    }
}

} // verus!
