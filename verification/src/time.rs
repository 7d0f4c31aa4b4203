//! Points in time as plain values, their text form in the ban files, and
//! the trusted wrappers over `chrono` that read the clock, shift a time by a
//! number of minutes, and format and parse times.

use vstd::prelude::*;
use vstd::string::*;

verus! {

/// A point in time in UTC: whole seconds since the Unix epoch and the
/// nanoseconds past that second, as `chrono::DateTime<Utc>` reports them
/// through `timestamp` and `timestamp_subsec_nanos` (the nanoseconds reach
/// past one second only inside a leap second).
#[derive(Clone, Copy, Debug, PartialEq, Eq, Structural)]
pub struct UtcTime {
    pub secs: i64,
    pub nanos: u32,
}

/// `a` lies strictly after `b`: the order of `chrono::DateTime<Utc>`, which
/// compares the second and then the nanoseconds.
pub open spec fn spec_is_after(a: UtcTime, b: UtcTime) -> bool {
    a.secs > b.secs || (a.secs == b.secs && a.nanos > b.nanos)
}

impl UtcTime {
    /// Whether `self` lies strictly after `other`.
    pub fn is_after(&self, other: &UtcTime) -> (r: bool)
        ensures
            r == spec_is_after(*self, *other),
    {
        self.secs > other.secs || (self.secs == other.secs && self.nanos > other.nanos)
    }
}

/// Seconds since the Unix epoch that lie well inside the range of
/// `chrono::DateTime<Utc>` (whose years run from -262143 to 262142): at most
/// eight trillion seconds, about 253 000 years, either way.
pub open spec fn in_time_range(secs: int) -> bool {
    -8_000_000_000_000 <= secs <= 8_000_000_000_000
}

/// Reads the clock with `chrono::Utc::now`, which takes the time since the
/// Unix epoch from `SystemTime` (whole seconds, and nanoseconds below one
/// second) and panics on a clock set before the epoch. Nothing more is
/// promised of the time read.
#[verifier::external_body]
pub(crate) fn utc_now() -> (now: UtcTime)
    ensures
        now.nanos < 1_000_000_000,
        now.secs >= 0,
{
    let now = chrono::Utc::now();
    UtcTime { secs: now.timestamp(), nanos: now.timestamp_subsec_nanos() }
}

/// Adds `minutes` minutes to `t` with `chrono::DateTime::checked_add_signed`
/// (the minutes made a `chrono::TimeDelta` by `TimeDelta::try_minutes`).
/// `None` when `t` is no `DateTime<Utc>` or the sum leaves chrono's range.
/// For a `t` outside a leap second, a sum that exists keeps the nanoseconds
/// of `t` and lies `60 * minutes` seconds later, and the sum exists where
/// `t` and the sum both lie in [`in_time_range`] (the exact edges of
/// chrono's range are left unsaid).
#[verifier::external_body]
pub(crate) fn utc_add_minutes(t: UtcTime, minutes: i64) -> (r: Option<UtcTime>)
    ensures
        t.nanos < 1_000_000_000 ==> (r matches Some(s) ==> s.secs == t.secs + 60 * minutes
            && s.nanos == t.nanos),
        t.nanos < 1_000_000_000 && in_time_range(t.secs as int) && in_time_range(
            t.secs + 60 * minutes,
        ) ==> r is Some,
{
    let dt = chrono::DateTime::from_timestamp(t.secs, t.nanos)?;
    let sum = dt.checked_add_signed(chrono::TimeDelta::try_minutes(minutes)?)?;
    Some(UtcTime { secs: sum.timestamp(), nanos: sum.timestamp_subsec_nanos() })
}

/// The format of times in the ban files, as `chrono` writes and reads it.
pub const DATETIME_FORMAT: &'static str = "%Y-%m-%d %H:%M:%S %z";

/// The expiry text of a ban that never expires.
pub const FOREVER: &'static str = "forever";

/// The text that `chrono` formats a time to with [`DATETIME_FORMAT`];
/// `None` for a value that is no `DateTime<Utc>`.
pub uninterp spec fn formatted_datetime(t: UtcTime) -> Option<Seq<char>>;

/// The time that `chrono` parses a text to with [`DATETIME_FORMAT`],
/// converted to UTC; `None` where parsing fails.
pub uninterp spec fn parsed_datetime(text: Seq<char>) -> Option<UtcTime>;

/// Formats `t` with `chrono::DateTime::format` and [`DATETIME_FORMAT`], after
/// building the `DateTime<Utc>` with `DateTime::from_timestamp`.
#[verifier::external_body]
pub(crate) fn format_datetime(t: UtcTime) -> (s: Option<String>)
    ensures
        match s {
            Some(x) => formatted_datetime(t) == Some(x@),
            None => formatted_datetime(t) is None,
        },
{
    match chrono::DateTime::from_timestamp(t.secs, t.nanos) {
        Some(dt) => Some(dt.format(DATETIME_FORMAT).to_string()),
        None => None,
    }
}

/// Parses `text` with `chrono::DateTime::parse_from_str` and
/// [`DATETIME_FORMAT`], and converts the time to UTC.
#[verifier::external_body]
pub(crate) fn parse_datetime(text: &str) -> (t: Option<UtcTime>)
    ensures
        t == parsed_datetime(text@),
{
    match chrono::DateTime::parse_from_str(text, DATETIME_FORMAT) {
        Ok(dt) => {
            let utc = dt.with_timezone(&chrono::Utc);
            Some(UtcTime { secs: utc.timestamp(), nanos: utc.timestamp_subsec_nanos() })
        },
        Err(_) => None,
    }
}

/// Whether two texts are equal.
pub fn text_equals(a: &str, b: &str) -> (r: bool)
    ensures
        r == (a@ == b@),
{
    let n = a.unicode_len();
    if n != b.unicode_len() {
        return false;
    }
    let mut i: usize = 0;
    while i < n
        invariant
            n == a@.len(),
            n == b@.len(),
            i <= n,
            forall|j: int| 0 <= j < i ==> a@[j] == b@[j],
        decreases n - i,
    {
        if a.get_char(i) != b.get_char(i) {
            return false;
        }
        i = i + 1;
    }
    proof {
        assert(a@ =~= b@);
    }
    true
}

/// The text of an expiry in the ban files: [`FOREVER`] for none, else the
/// formatted time (`None` where the time cannot be formatted).
pub open spec fn spec_expiry_text(e: Option<UtcTime>) -> Option<Seq<char>> {
    match e {
        None => Some(FOREVER@),
        Some(t) => formatted_datetime(t),
    }
}

/// Formats an expiry for the ban files.
pub fn format_expiry(e: Option<UtcTime>) -> (s: Option<String>)
    ensures
        match s {
            Some(x) => spec_expiry_text(e) == Some(x@),
            None => spec_expiry_text(e) is None,
        },
{
    match e {
        None => Some(String::from_str(FOREVER)),
        Some(t) => format_datetime(t),
    }
}

/// Why an expiry text could not be read.
#[derive(Clone, Copy, Debug, PartialEq, Eq, Structural)]
pub enum DateParseError {
    /// The text is neither [`FOREVER`] nor a time in [`DATETIME_FORMAT`].
    InvalidDate,
}

/// The expiry an expiry text stands for: none for [`FOREVER`], else the
/// parsed time.
pub open spec fn spec_parse_expiry(text: Seq<char>) -> Result<Option<UtcTime>, DateParseError> {
    if text == FOREVER@ {
        Ok(None)
    } else {
        match parsed_datetime(text) {
            Some(t) => Ok(Some(t)),
            None => Err(DateParseError::InvalidDate),
        }
    }
}

/// Reads an expiry from the ban files.
pub fn parse_expiry(text: &str) -> (r: Result<Option<UtcTime>, DateParseError>)
    ensures
        r == spec_parse_expiry(text@),
{
    if text_equals(text, FOREVER) {
        return Ok(None);
    }
    match parse_datetime(text) {
        Some(t) => Ok(Some(t)),
        None => Err(DateParseError::InvalidDate),
    }
}

/// A ban that never expires is written as [`FOREVER`] and read back as
/// never expiring.
pub proof fn law_forever_roundtrip()
    ensures
        spec_expiry_text(None) == Some(FOREVER@),
        spec_parse_expiry(FOREVER@) == Ok::<Option<UtcTime>, DateParseError>(None),
{
}

/// Whether `t` is a time that the expiry line of a ban message renders:
/// outside a leap second and well inside chrono's range (see
/// [`in_time_range`]), so that `DateTime::from_timestamp` accepts it and
/// shifting it by a time-zone offset stays in range.
pub open spec fn renderable_time(t: UtcTime) -> bool {
    t.nanos < 1_000_000_000 && in_time_range(t.secs as int)
}

/// Whether [`renderable_time`] holds of `t`.
pub fn time_renderable(t: UtcTime) -> (r: bool)
    ensures
        r == renderable_time(t),
{
    t.nanos < 1_000_000_000 && -8_000_000_000_000 <= t.secs && t.secs <= 8_000_000_000_000
}

/// The offset from UTC, in seconds east, of the server's local time zone at
/// `t`, as `chrono::Local` finds it when a `DateTime<Utc>` is converted to
/// `DateTime<Local>`. It depends on the machine's time zone, so nothing is
/// stated of it but the range that `chrono::FixedOffset` keeps (chrono
/// panics only where the machine's time-zone data cannot be read).
#[verifier::external_body]
pub(crate) fn local_offset_secs(t: UtcTime) -> (off: i32)
    requires
        renderable_time(t),
    ensures
        -86_400 < off < 86_400,
{
    match chrono::DateTime::from_timestamp(t.secs, t.nanos) {
        Some(dt) => {
            let local: chrono::DateTime<chrono::Local> = dt.into();
            local.offset().local_minus_utc()
        },
        None => 0,
    }
}

/// The text that `chrono` renders `t` to at the fixed offset of `offset_secs`
/// seconds east of UTC with the format `"%Y-%m-%d %H:%M UTC%Z"`.
pub uninterp spec fn offset_text(t: UtcTime, offset_secs: i32) -> Seq<char>;

/// Renders `t` at the fixed offset `offset_secs` with
/// `"%Y-%m-%d %H:%M UTC%Z"`, after building the `DateTime<Utc>` with
/// `DateTime::from_timestamp` and the offset with `FixedOffset::east_opt`,
/// both of which accept what `requires` admits.
#[verifier::external_body]
pub(crate) fn format_at_offset(t: UtcTime, offset_secs: i32) -> (s: String)
    requires
        renderable_time(t),
        -86_400 < offset_secs < 86_400,
    ensures
        s@ == offset_text(t, offset_secs),
{
    match (chrono::DateTime::from_timestamp(t.secs, t.nanos), chrono::FixedOffset::east_opt(offset_secs)) {
        (Some(dt), Some(offset)) => dt.with_timezone(&offset).format("%Y-%m-%d %H:%M UTC%Z").to_string(),
        _ => String::new(),
    }
}

} // verus!
