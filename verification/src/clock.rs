use std::fmt::Write;
use vstd::prelude::*;

verus! {

/// A UTC instant: whole seconds since the Unix epoch and the nanoseconds past
/// that second (past 999,999,999 only inside a leap second).
#[derive(Clone, Copy, Debug, PartialEq, Eq, Structural)]
pub struct Timestamp {
    pub secs: i64,
    pub nanos: u32,
}

/// The position of an instant on the time line: seconds first, then
/// nanoseconds, which is the order of the instants themselves.
pub open spec fn time_key(t: Timestamp) -> int {
    t.secs * 0x1_0000_0000 + t.nanos
}

/// The sort key of an instant, as a machine integer.
pub fn time_key_of(t: Timestamp) -> (k: i128)
    ensures
        k == time_key(t),
{
    (t.secs as i128) * 0x1_0000_0000i128 + (t.nanos as i128)
}

/// What `chrono` writes for the UTC instant `(secs, nanos)` under the
/// `strftime` pattern, or `None` where `DateTime::from_timestamp` refuses the
/// instant or the pattern holds an item that cannot be written.
pub uninterp spec fn chrono_utc_format(secs: i64, nanos: u32, pattern: Seq<char>) -> Option<Seq<char>>;

/// Formats an instant with `chrono::DateTime::<Utc>::from_timestamp` and
/// `DateTime::format`, written into a `String`. The result is the name above
/// applied to the instant and the pattern: UTC takes no time zone or locale
/// from the machine.
#[verifier::external_body]
pub(crate) fn format_utc(t: Timestamp, pattern: &str) -> (r: Option<String>)
    ensures
        match r {
            Some(s) => chrono_utc_format(t.secs, t.nanos, pattern@) == Some(s@),
            None => chrono_utc_format(t.secs, t.nanos, pattern@) is None,
        },
{
    match chrono::DateTime::from_timestamp(t.secs, t.nanos) {
        Some(dt) => {
            let mut s = String::new();
            match write!(s, "{}", dt.format(pattern)) {
                Ok(()) => Some(s),
                Err(_) => None,
            }
        },
        None => None,
    }
}

} // verus!
