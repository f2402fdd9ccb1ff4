//! Instants of time, and their text.
use vstd::prelude::*;

verus! {

/// The first second of the calendar: 1 January of the year -262143, UTC.
pub const FIRST_SECOND: i64 = -8_334_601_228_800;

/// The last second of the calendar: 31 December of the year 262142, UTC.
pub const LAST_SECOND: i64 = 8_210_266_876_799;

/// An instant in UTC: seconds since the Unix epoch and nanoseconds within the
/// second. A leap second is the 60th second of a minute, written with a
/// nanosecond part of a thousand million or more.
#[derive(Debug, Clone, Copy, PartialEq, Eq, PartialOrd, Ord, Structural)]
pub struct Timestamp {
    pub secs: i64,
    pub nanos: u32,
}

impl Timestamp {
    /// Whether the instant lies in the calendar.
    pub open spec fn valid(self) -> bool {
        &&& FIRST_SECOND <= self.secs <= LAST_SECOND
        &&& self.nanos < 2_000_000_000
        &&& self.nanos >= 1_000_000_000 ==> self.secs % 60 == 59
    }

    /// Whether `self` is earlier than `other`.
    pub open spec fn earlier(self, other: Timestamp) -> bool {
        self.secs < other.secs || (self.secs == other.secs && self.nanos < other.nanos)
    }

    /// Whether `self` is earlier than `other`.
    pub fn is_before(&self, other: &Timestamp) -> (r: bool)
        ensures
            r == self.earlier(*other),
    {
        self.secs < other.secs || (self.secs == other.secs && self.nanos < other.nanos)
    }
}

/// The RFC 3339 text of an instant: in UTC with a `Z`, and with the fraction of
/// the second to the nearest thousandth, millionth or thousand-millionth that
/// loses nothing.
pub uninterp spec fn instant_text(secs: i64, nanos: u32) -> Seq<char>;

/// The instant that a date and time text stands for, as seconds and
/// nanoseconds; `None` where the text is none.
pub uninterp spec fn instant_at(text: Seq<char>) -> Option<(i64, u32)>;

/// `chrono::Utc::now`: the current instant. Which one depends on the machine's
/// clock; that it lies in the calendar is all that is claimed.
#[verifier::external_body]
pub(crate) fn now() -> (t: Timestamp)
    ensures
        t.valid(),
{
    let t = chrono::Utc::now();
    Timestamp { secs: t.timestamp(), nanos: t.timestamp_subsec_nanos() }
}

/// `chrono::DateTime::to_rfc3339_opts`, on the instant that
/// `DateTime::from_timestamp` makes. There is a text exactly for the instants
/// of the calendar, and reading that text gives the instant back.
#[verifier::external_body]
pub(crate) fn rfc3339(t: &Timestamp) -> (r: Option<String>)
    ensures
        r is Some <==> t.valid(),
        r matches Some(s) ==> s@ == instant_text(t.secs, t.nanos) && instant_at(s@) == Some(
            (t.secs, t.nanos),
        ),
{
    chrono::DateTime::from_timestamp(t.secs, t.nanos).map(
        |d| d.to_rfc3339_opts(chrono::SecondsFormat::AutoSi, true),
    )
}

/// The date and the time of day of an instant in UTC, to the second, for people
/// to read.
pub uninterp spec fn instant_shown(secs: i64, nanos: u32) -> Seq<char>;

/// `chrono::DateTime::format` with `%Y-%m-%d %H:%M:%S`, on the instant that
/// `DateTime::from_timestamp` makes. There is a text exactly for the instants
/// of the calendar.
#[verifier::external_body]
pub(crate) fn date_and_time(t: &Timestamp) -> (r: Option<String>)
    ensures
        r is Some <==> t.valid(),
        r matches Some(s) ==> s@ == instant_shown(t.secs, t.nanos),
{
    chrono::DateTime::from_timestamp(t.secs, t.nanos).map(
        |d| d.format("%Y-%m-%d %H:%M:%S").to_string(),
    )
}

/// `str::parse` into a `chrono::DateTime<Utc>`. The instant that comes out
/// lies in the calendar.
#[verifier::external_body]
pub(crate) fn parse_rfc3339(s: &str) -> (r: Option<Timestamp>)
    ensures
        r matches Some(t) ==> t.valid() && instant_at(s@) == Some((t.secs, t.nanos)),
        r is None ==> instant_at(s@) is None,
{
    let parsed = s.parse::<chrono::DateTime<chrono::Utc>>().ok();
    parsed.map(|d| Timestamp { secs: d.timestamp(), nanos: d.timestamp_subsec_nanos() })
}

} // verus!
