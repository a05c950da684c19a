use crate::record::Timestamp;
use vstd::prelude::*;
use vstd::string::StringExecFns;

verus! {

/// The ordering value of the last record confirmed delivered for a source.
#[derive(Clone, Copy, Debug, PartialEq, Eq, Structural)]
pub struct Watermark {
    pub last_processed_timestamp: Timestamp,
}

/// How far back a source with no persisted watermark starts: one day.
pub const DEFAULT_LOOKBACK_NANOS: i64 = 86_400_000_000_000;

/// The watermark a source starts from when none is persisted: one day before
/// `now`, or the earliest representable instant if that lies before it.
pub open spec fn default_watermark_nanos(now: int) -> int {
    if now - DEFAULT_LOOKBACK_NANOS >= i64::MIN {
        now - DEFAULT_LOOKBACK_NANOS
    } else {
        i64::MIN as int
    }
}

/// The watermark a cycle starts from: the persisted one when there is one,
/// and otherwise the default lookback before `now`.
pub fn initial_watermark(persisted: Option<Watermark>, now: Timestamp) -> (r: Watermark)
    ensures
        persisted matches Some(w) ==> r == w,
        persisted is None ==> r.last_processed_timestamp.nanos == default_watermark_nanos(now.nanos as int),
{
    match persisted {
        Some(w) => w,
        None => {
            let nanos = if now.nanos >= i64::MIN + DEFAULT_LOOKBACK_NANOS {
                now.nanos - DEFAULT_LOOKBACK_NANOS
            } else {
                i64::MIN
            };
            Watermark { last_processed_timestamp: Timestamp { nanos } }
        },
    }
}

/// The name of the file that holds the watermark of `table_name`.
pub fn watermark_path(table_name: &str) -> (r: String)
    ensures
        r@ == "watermark_"@ + table_name@ + ".json"@,
{
    let mut path = String::from_str("watermark_");
    path.append(table_name);
    path.append(".json");
    path
}

} // verus!
