use crate::watermark::Watermark;
use vstd::prelude::*;
use vstd::string::StringExecFns;

verus! {

/// One bounded pull from the source store: a query over the rows strictly
/// newer than a lower bound, ascending, and the text bound to its `?`.
pub struct FetchRequest {
    pub query: String,
    pub since: String,
}

/// The text of `nanos` (nanoseconds since the Unix epoch, UTC) as
/// `YYYY-MM-DD hh:mm:ss.nnnnnnnnn`.
pub uninterp spec fn query_time_text(nanos: int) -> Seq<char>;

/// Relies on chrono's `DateTime::from_timestamp_nanos` and its
/// `%Y-%m-%d %H:%M:%S%.9f` formatting: the text depends on the instant alone.
#[verifier::external_body]
fn format_query_time(nanos: i64) -> (r: String)
    ensures
        r@ == query_time_text(nanos as int),
{
    chrono::DateTime::from_timestamp_nanos(nanos).format("%Y-%m-%d %H:%M:%S%.9f").to_string()
}

/// The query that reads the rows of `table` newer than the bound, in order.
pub open spec fn fetch_query_text(table: Seq<char>) -> Seq<char> {
    "SELECT * FROM "@ + table + " WHERE timestamp > toDateTime64(?, 9, 'UTC') ORDER BY timestamp"@
}

/// Builds the fetch of the rows of `table_name` strictly newer than the
/// watermark, in ascending order of their timestamp.
pub fn fetch_request(table_name: &str, watermark: &Watermark) -> (r: FetchRequest)
    ensures
        r.query@ == fetch_query_text(table_name@),
        r.since@ == query_time_text(watermark.last_processed_timestamp.nanos as int),
{
    let mut query = String::from_str("SELECT * FROM ");
    query.append(table_name);
    query.append(" WHERE timestamp > toDateTime64(?, 9, 'UTC') ORDER BY timestamp");
    let since = format_query_time(watermark.last_processed_timestamp.nanos);
    FetchRequest { query, since }
}

} // verus!
