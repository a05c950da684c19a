use vstd::prelude::*;
use vstd::string::{StringExecFns, StringSliceAdditionalSpecFns};

verus! {

/// Whether a message counter is routed to the first test topic: exactly the
/// positive odd counters (a negative counter has a non-positive remainder).
pub open spec fn routes_to_first(count: int) -> bool {
    count > 0 && count % 2 == 1
}

/// Picks the topic for the `count`-th message, alternating between two topics.
pub fn route_topic(count: i32) -> (r: String)
    ensures
        r@ == (if routes_to_first(count as int) {
            "kafka-test-1"@
        } else {
            "kafka-test-2"@
        }),
{
    if count % 2 == 1 {
        String::from_str("kafka-test-1")
    } else {
        String::from_str("kafka-test-2")
    }
}

/// A message that knows the topic it is published to.
pub trait Loggable {
    spec fn topic_name(&self) -> Seq<char>;

    fn topic(&self) -> (r: &'static str)
        ensures
            r@ == self.topic_name(),
    ;
}

#[derive(Clone, Debug)]
pub struct InfoLog {
    pub level: String,
    pub message: String,
    pub hostname: String,
    pub timestamp: String,
}

#[derive(Clone, Debug)]
pub struct ErrorLog {
    pub level: String,
    pub message: String,
    pub hostname: String,
    pub timestamp: String,
    pub error_code: u64,
}

#[derive(Clone, Debug)]
pub struct WarnLog {
    pub level: String,
    pub message: String,
    pub hostname: String,
    pub timestamp: String,
    pub reason: String,
}

impl InfoLog {
    pub fn new(level: String, message: String, hostname: String, timestamp: String) -> (r: Self)
        ensures
            r.level == level,
            r.message == message,
            r.hostname == hostname,
            r.timestamp == timestamp,
    {
        InfoLog { level, message, hostname, timestamp }
    }
}

impl ErrorLog {
    pub fn new(level: String, message: String, hostname: String, timestamp: String, error_code: u64) -> (r: Self)
        ensures
            r.level == level,
            r.message == message,
            r.hostname == hostname,
            r.timestamp == timestamp,
            r.error_code == error_code,
    {
        ErrorLog { level, message, hostname, timestamp, error_code }
    }
}

impl WarnLog {
    pub fn new(level: String, message: String, hostname: String, timestamp: String, reason: String) -> (r: Self)
        ensures
            r.level == level,
            r.message == message,
            r.hostname == hostname,
            r.timestamp == timestamp,
            r.reason == reason,
    {
        WarnLog { level, message, hostname, timestamp, reason }
    }
}

impl Loggable for InfoLog {
    open spec fn topic_name(&self) -> Seq<char> {
        "info_logs"@
    }

    fn topic(&self) -> (r: &'static str) {
        "info_logs"
    }
}

impl Loggable for ErrorLog {
    open spec fn topic_name(&self) -> Seq<char> {
        "error_logs"@
    }

    fn topic(&self) -> (r: &'static str) {
        "error_logs"
    }
}

impl Loggable for WarnLog {
    open spec fn topic_name(&self) -> Seq<char> {
        "warn_logs"@
    }

    fn topic(&self) -> (r: &'static str) {
        "warn_logs"
    }
}

/// `b` is an ASCII decimal digit.
pub open spec fn is_digit(b: u8) -> bool {
    48 <= b <= 57
}

/// The value of a string of decimal digits, most significant first.
pub open spec fn digits_value(d: Seq<u8>) -> int
    decreases d.len(),
{
    if d.len() == 0 {
        0
    } else {
        digits_value(d.drop_last()) * 10 + (d.last() - 48)
    }
}

/// The digits of an unsigned number's text: the text after one optional `+`.
pub open spec fn unsigned_digits(b: Seq<u8>) -> Seq<u8> {
    if b.len() > 0 && b[0] == 43 {
        b.drop_first()
    } else {
        b
    }
}

/// The `u64` that the text `b` denotes, as `u64::from_str` reads it: an
/// optional `+`, then one or more decimal digits, of a value that fits.
pub open spec fn u64_of_text(b: Seq<u8>) -> Option<u64> {
    let d = unsigned_digits(b);
    if d.len() > 0 && (forall|i: int| 0 <= i < d.len() ==> is_digit(#[trigger] d[i])) && digits_value(d) <= u64::MAX {
        Some(digits_value(d) as u64)
    } else {
        None
    }
}

proof fn lemma_digits_value_nonneg(d: Seq<u8>)
    requires
        forall|k: int| 0 <= k < d.len() ==> is_digit(#[trigger] d[k]),
    ensures
        digits_value(d) >= 0,
    decreases d.len(),
{
    if d.len() > 0 {
        lemma_digits_value_nonneg(d.drop_last());
    }
}

proof fn lemma_digits_value_grows(d: Seq<u8>, i: int, j: int)
    requires
        0 <= i <= j <= d.len(),
        forall|k: int| 0 <= k < d.len() ==> is_digit(#[trigger] d[k]),
    ensures
        digits_value(d.subrange(0, i)) <= digits_value(d.subrange(0, j)),
    decreases j,
{
    if i < j {
        lemma_digits_value_grows(d, i, j - 1);
        let p = d.subrange(0, j);
        assert(p.drop_last() =~= d.subrange(0, j - 1));
        lemma_digits_value_nonneg(d.subrange(0, j - 1));
        assert(is_digit(d[j - 1]));
    }
}

/// Reads an unsigned decimal number.
pub fn parse_u64(text: &str) -> (r: Option<u64>)
    ensures
        r == u64_of_text(text.spec_bytes()),
{
    let b = text.as_bytes();
    let ghost all = b@;
    let mut i: usize = 0;
    if b.len() > 0 && b[0] == 43u8 {
        i = 1;
    }
    let ghost d = unsigned_digits(all);
    assert(d =~= all.subrange(i as int, all.len() as int));
    if i == b.len() {
        return None;
    }
    let start = i;
    let mut value: u64 = 0;
    while i < b.len()
        invariant
            b@ == all,
            all == text.spec_bytes(),
            d == unsigned_digits(all),
            d == all.subrange(start as int, all.len() as int),
            start <= i <= all.len(),
            forall|k: int| 0 <= k < i - start ==> is_digit(#[trigger] d[k]),
            value == digits_value(d.subrange(0, i - start)),
        decreases all.len() - i,
    {
        let c = b[i];
        if c < 48u8 || c > 57u8 {
            assert(d[i - start] == c);
            assert(!is_digit(d[i - start]));
            assert(!(forall|k: int| 0 <= k < d.len() ==> is_digit(#[trigger] d[k])));
            return None;
        }
        let digit = (c - 48u8) as u64;
        assert(d.subrange(0, i - start + 1).drop_last() =~= d.subrange(0, i - start));
        if value > 1844674407370955161u64 || (value == 1844674407370955161u64 && digit > 5) {
            proof {
                assert(d[i - start] == c);
                if forall|k: int| 0 <= k < d.len() ==> is_digit(#[trigger] d[k]) {
                    assert(digits_value(d.subrange(0, i - start + 1)) == value * 10 + digit);
                    lemma_digits_value_grows(d, i - start + 1, d.len() as int);
                    assert(d.subrange(0, d.len() as int) =~= d);
                }
            }
            return None;
        }
        value = value * 10 + digit;
        i = i + 1;
    }
    assert(d.subrange(0, i - start) =~= d);
    Some(value)
}

/// Settings of the message producer.
#[derive(Clone, Debug)]
pub struct Config {
    /// Address of the message broker.
    pub broker: String,
    /// How long one publish may take, in seconds.
    pub send_timeout_secs: u64,
}

/// The timeout in seconds when none, or none readable, is configured.
pub const DEFAULT_SEND_TIMEOUT_SECS: u64 = 5;

impl Config {
    /// The settings from the configured values, each with its default where
    /// it is absent: broker `localhost:9092`, and a timeout of five seconds
    /// where the configured text is not an unsigned number.
    pub fn from_settings(broker: Option<String>, send_timeout: Option<&str>) -> (r: Config)
        ensures
            broker matches Some(b) ==> r.broker == b,
            broker is None ==> r.broker@ == "localhost:9092"@,
            r.send_timeout_secs == match send_timeout {
                Some(t) => match u64_of_text(t.spec_bytes()) {
                    Some(v) => v,
                    None => DEFAULT_SEND_TIMEOUT_SECS,
                },
                None => DEFAULT_SEND_TIMEOUT_SECS,
            },
    {
        let broker = match broker {
            Some(b) => b,
            None => String::from_str("localhost:9092"),
        };
        let send_timeout_secs = match send_timeout {
            Some(t) => match parse_u64(t) {
                Some(v) => v,
                None => DEFAULT_SEND_TIMEOUT_SECS,
            },
            None => DEFAULT_SEND_TIMEOUT_SECS,
        };
        Config { broker, send_timeout_secs }
    }
}

} // verus!
