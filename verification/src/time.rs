//! Durations, readings of the monotonic clock, UTC times and zoned times.

use crate::text::opt_text;
use vstd::prelude::*;

verus! {

/// Nanoseconds in a second.
pub const NANOS_PER_SEC: u128 = 1_000_000_000;

/// The longest duration, in nanoseconds: the greatest number of whole seconds
/// that fits in 64 bits, and one nanosecond less than one more.
pub const MAX_NANOS: u128 = 18_446_744_073_709_551_615_999_999_999;

/// A span of time, with nanosecond resolution.
#[derive(Debug, Clone, Copy, PartialEq, Eq, Structural)]
pub struct Duration {
    nanos: u128,
}

impl View for Duration {
    type V = nat;

    /// The span in nanoseconds.
    closed spec fn view(&self) -> nat {
        self.nanos as nat
    }
}

impl Duration {
    #[verifier::type_invariant]
    spec fn in_range(self) -> bool {
        self.nanos <= MAX_NANOS
    }

    /// A span of whole seconds.
    pub fn from_secs(secs: u64) -> (d: Self)
        ensures
            d@ == secs * 1_000_000_000,
    {
        Duration { nanos: secs as u128 * NANOS_PER_SEC }
    }

    /// A span of milliseconds.
    pub fn from_millis(millis: u64) -> (d: Self)
        ensures
            d@ == millis * 1_000_000,
    {
        Duration { nanos: millis as u128 * 1_000_000 }
    }

    /// A span of microseconds.
    pub fn from_micros(micros: u64) -> (d: Self)
        ensures
            d@ == micros * 1_000,
    {
        Duration { nanos: micros as u128 * 1_000 }
    }

    /// A span of nanoseconds, or the longest span when there are more of them.
    pub fn from_nanos(nanos: u128) -> (d: Self)
        ensures
            d@ == if nanos <= MAX_NANOS {
                nanos as nat
            } else {
                MAX_NANOS as nat
            },
    {
        if nanos <= MAX_NANOS {
            Duration { nanos }
        } else {
            Duration { nanos: MAX_NANOS }
        }
    }

    /// The whole seconds of the span.
    pub fn as_secs(&self) -> (secs: u64)
        ensures
            secs == self@ / 1_000_000_000,
    {
        proof {
            use_type_invariant(self);
        }
        (self.nanos / NANOS_PER_SEC) as u64
    }

    /// The whole milliseconds of the span.
    pub fn as_millis(&self) -> (millis: u128)
        ensures
            millis == self@ / 1_000_000,
    {
        self.nanos / 1_000_000
    }

    /// The whole microseconds of the span.
    pub fn as_micros(&self) -> (micros: u128)
        ensures
            micros == self@ / 1_000,
    {
        self.nanos / 1_000
    }

    /// The nanoseconds of the span.
    pub fn as_nanos(&self) -> (nanos: u128)
        ensures
            nanos == self@,
    {
        self.nanos
    }

    /// Whether the span is at least as long as another.
    pub fn at_least(&self, other: &Duration) -> (b: bool)
        ensures
            b == (self@ >= other@),
    {
        self.nanos >= other.nanos
    }
}

/// `std::time::Instant`: a reading of the machine's monotonic clock, of which
/// nothing is known but that it was taken.
#[verifier::external_type_specification]
#[verifier::external_body]
pub struct ExInstant(std::time::Instant);

/// `std::time::Instant::now` reads the machine's monotonic clock. What it
/// reads rests on the machine, so nothing is said of it.
#[verifier::external_body]
pub(crate) fn machine_now() -> (t: std::time::Instant) {
    std::time::Instant::now()
}

/// `std::time::Instant::saturating_duration_since`, in nanoseconds. The two
/// readings rest on the machine, so nothing is said of their distance.
#[verifier::external_body]
pub(crate) fn nanos_between(from: &std::time::Instant, to: &std::time::Instant) -> (nanos: u128) {
    to.saturating_duration_since(*from).as_nanos()
}

/// A reading of a [`Clock`], in nanoseconds since the clock was made.
#[derive(Debug, Clone, Copy, PartialEq, Eq, Structural)]
pub struct Instant {
    pub nanos: u128,
}

/// The span from one reading to a later one, in nanoseconds; zero when the
/// second is not the later one.
pub open spec fn elapsed_nanos(from: Instant, to: Instant) -> nat {
    if to.nanos <= from.nanos {
        0
    } else if to.nanos - from.nanos <= MAX_NANOS {
        (to.nanos - from.nanos) as nat
    } else {
        MAX_NANOS as nat
    }
}

impl Instant {
    /// The span since an earlier reading.
    pub fn duration_since(&self, earlier: &Instant) -> (d: Duration)
        ensures
            d@ == elapsed_nanos(*earlier, *self),
    {
        if self.nanos <= earlier.nanos {
            Duration::from_nanos(0)
        } else {
            Duration::from_nanos(self.nanos - earlier.nanos)
        }
    }
}

/// A span is the time from the start of a clock to one of its readings.
pub open spec fn is_reading(now: Instant, d: Duration) -> bool {
    d@ == if now.nanos <= MAX_NANOS {
        now.nanos as nat
    } else {
        MAX_NANOS as nat
    }
}

/// A monotonic clock that counts from the moment it was made.
#[derive(Debug, Clone, Copy)]
pub struct Clock {
    origin: std::time::Instant,
}

impl Clock {
    /// A clock that starts now.
    pub fn new() -> Self {
        Clock { origin: machine_now() }
    }

    /// The present reading.
    pub fn now(&self) -> (t: Instant) {
        let now = machine_now();
        Instant { nanos: nanos_between(&self.origin, &now) }
    }

    /// Time since the clock was made.
    pub fn running(&self) -> (d: Duration)
        ensures
            exists|now: Instant| #[trigger] is_reading(now, d),
    {
        let now = self.now();
        let d = Duration::from_nanos(now.nanos);
        assert(is_reading(now, d));
        d
    }
}

/// A day of the week.
#[derive(Debug, Clone, Copy, PartialEq, Eq, Structural, Hash)]
pub enum Weekday {
    Mon,
    Tue,
    Wed,
    Thu,
    Fri,
    Sat,
    Sun,
}

/// The day that comes `n` days after Monday.
pub open spec fn weekday_from_monday(n: int) -> Weekday {
    if n % 7 == 0 {
        Weekday::Mon
    } else if n % 7 == 1 {
        Weekday::Tue
    } else if n % 7 == 2 {
        Weekday::Wed
    } else if n % 7 == 3 {
        Weekday::Thu
    } else if n % 7 == 4 {
        Weekday::Fri
    } else if n % 7 == 5 {
        Weekday::Sat
    } else {
        Weekday::Sun
    }
}

impl Weekday {
    /// The day that comes `n` days after Monday.
    pub fn from_monday(n: u8) -> (d: Weekday)
        ensures
            d == weekday_from_monday(n as int),
    {
        let r: u8 = n % 7;
        if r == 0 {
            Weekday::Mon
        } else if r == 1 {
            Weekday::Tue
        } else if r == 2 {
            Weekday::Wed
        } else if r == 3 {
            Weekday::Thu
        } else if r == 4 {
            Weekday::Fri
        } else if r == 5 {
            Weekday::Sat
        } else {
            Weekday::Sun
        }
    }
}

/// A time of the day: seconds after midnight, and nanoseconds, which pass one
/// second during a leap second.
#[derive(Debug, Clone, Copy, PartialEq, Eq, Structural)]
pub struct TimeOfDay {
    pub secs: u32,
    pub nanos: u32,
}

/// A time of the day is not after another.
pub open spec fn not_after(a: TimeOfDay, b: TimeOfDay) -> bool {
    a.secs < b.secs || (a.secs == b.secs && a.nanos <= b.nanos)
}

impl TimeOfDay {
    /// Whether this time is not after another.
    pub fn not_after(&self, other: &TimeOfDay) -> (b: bool)
        ensures
            b == not_after(*self, *other),
    {
        self.secs < other.secs || (self.secs == other.secs && self.nanos <= other.nanos)
    }
}

/// A moment in UTC: seconds since the start of 1970, not counting leap
/// seconds, and nanoseconds.
#[derive(Debug, Clone, Copy, PartialEq, Eq, Structural)]
pub struct UtcTime {
    pub secs: i64,
    pub nanos: u32,
}

/// Seconds in a day.
pub const SECS_PER_DAY: i64 = 86_400;

/// The hour of the day of a UTC second count.
pub open spec fn utc_hour(secs: int) -> int {
    (secs % 86_400) / 3_600
}

/// The minute of the hour of a UTC second count.
pub open spec fn utc_minute(secs: int) -> int {
    (secs % 3_600) / 60
}

/// The day of the week of a UTC second count, counted from Sunday. The first
/// day of 1970 was a Thursday.
pub open spec fn utc_day_from_sunday(secs: int) -> int {
    (secs / 86_400 + 4) % 7
}

impl UtcTime {
    /// The hour of the day.
    pub fn hour(&self) -> (h: u32)
        ensures
            h == utc_hour(self.secs as int),
            h < 24,
    {
        let s = second_of_day(self.secs);
        s / 3_600
    }

    /// The minute of the hour.
    pub fn minute(&self) -> (m: u32)
        ensures
            m == utc_minute(self.secs as int),
            m < 60,
    {
        let s = second_of_day(self.secs);
        assert((self.secs as int) % 3_600 == ((self.secs as int) % 86_400) % 3_600);
        (s % 3_600) / 60
    }

    /// The day of the week, counted from Sunday.
    pub fn day_from_sunday(&self) -> (d: u8)
        ensures
            d == utc_day_from_sunday(self.secs as int),
            d < 7,
    {
        let s = second_of_day(self.secs);
        let whole: i128 = self.secs as i128 - s as i128;
        let days: i128 = if whole >= 0 {
            whole / 86_400
        } else {
            -((-whole) / 86_400)
        };
        assert(days == (self.secs as int) / 86_400);
        let shifted: i128 = days + 4;
        let week: i128 = 7 * 20_000_000_000_000;
        assert(shifted + week >= 0);
        let r: i128 = (shifted + week) % 7;
        assert(r == (shifted as int) % 7);
        r as u8
    }
}

fn second_of_day(secs: i64) -> (s: u32)
    ensures
        s == (secs as int) % 86_400,
{
    if secs >= 0 {
        (secs % SECS_PER_DAY) as u32
    } else {
        let up: i128 = -(secs as i128);
        let r: i128 = up % 86_400;
        assert(up == 86_400 * (up / 86_400) + r);
        if r == 0 {
            0
        } else {
            (86_400 - r) as u32
        }
    }
}

/// What `chrono::NaiveTime::parse_from_str` makes of a text under a format:
/// the seconds after midnight and the nanoseconds, or nothing.
pub uninterp spec fn parsed_time(text: Seq<char>, format: Seq<char>) -> Option<(u32, u32)>;

/// Whether `chrono_tz::Tz` knows a time zone by this name.
pub uninterp spec fn zone_known(zone: Seq<char>) -> bool;

/// The local reading of a UTC moment in a zone, as
/// `chrono::DateTime::with_timezone` gives it: the days after Monday, the
/// seconds after midnight and the nanoseconds. Nothing where the zone is not
/// known, or the moment lies outside what chrono can represent.
pub uninterp spec fn zoned_reading(zone: Seq<char>, secs: i64, nanos: u32) -> Option<
    (u8, u32, u32),
>;

/// `chrono::NaiveTime::parse_from_str` reads a time of the day under a
/// format. The contract names the result.
#[verifier::external_body]
pub(crate) fn parse_time(text: &str, format: &str) -> (t: Option<(u32, u32)>)
    ensures
        t == parsed_time(text@, format@),
{
    let t = chrono::NaiveTime::parse_from_str(text, format).ok()?;
    Some((
        chrono::Timelike::num_seconds_from_midnight(&t),
        chrono::Timelike::nanosecond(&t),
    ))
}

/// The `FromStr` impl of `chrono_tz::Tz` looks a time zone up by its name.
/// The contract names the answer.
#[verifier::external_body]
pub(crate) fn is_zone(zone: &str) -> (known: bool)
    ensures
        known == zone_known(zone@),
{
    zone.parse::<chrono_tz::Tz>().is_ok()
}

/// `chrono::DateTime::with_timezone` moves a UTC moment to a zone; the day of
/// the week and the time of the day are read there. The contract names the
/// reading.
#[verifier::external_body]
pub(crate) fn read_in_zone(zone: &str, secs: i64, nanos: u32) -> (r: Option<(u8, u32, u32)>)
    ensures
        r == zoned_reading(zone@, secs, nanos),
{
    let tz: chrono_tz::Tz = zone.parse().ok()?;
    let t = chrono::DateTime::<chrono::Utc>::from_timestamp(secs, nanos)?.with_timezone(&tz);
    Some((
        chrono::Datelike::weekday(&t).num_days_from_monday() as u8,
        chrono::Timelike::num_seconds_from_midnight(&t.time()),
        chrono::Timelike::nanosecond(&t.time()),
    ))
}

/// `chrono::Utc::now` reads the machine's calendar clock. What it reads rests
/// on the machine, so nothing is said of it.
#[verifier::external_body]
pub(crate) fn utc_now() -> (t: UtcTime) {
    let t = chrono::Utc::now();
    UtcTime { secs: t.timestamp(), nanos: t.timestamp_subsec_nanos() }
}

/// The RFC 3339 text of a UTC time; none for a time that the calendar does not
/// reach.
pub uninterp spec fn rfc3339(secs: i64, nanos: u32) -> Option<Seq<char>>;

/// Calls `chrono::DateTime::to_rfc3339` on a UTC time, given by the seconds
/// and nanoseconds since the epoch. What is claimed is that the text depends
/// on these two numbers alone.
#[verifier::external_body]
pub(crate) fn format_rfc3339(secs: i64, nanos: u32) -> (text: Option<String>)
    ensures
        opt_text(text) == rfc3339(secs, nanos),
{
    chrono::DateTime::<chrono::Utc>::from_timestamp(secs, nanos).map(|t| t.to_rfc3339())
}

/// The text by which a time is noted.
pub open spec fn stamp(t: UtcTime) -> Seq<char> {
    match rfc3339(t.secs, t.nanos) {
        Some(text) => text,
        None => seq![],
    }
}

impl UtcTime {
    /// The time now, by the machine's clock.
    pub fn now() -> UtcTime {
        utc_now()
    }

    /// The text by which the time is noted.
    pub fn stamp(&self) -> (text: String)
        ensures
            text@ == stamp(*self),
    {
        match format_rfc3339(self.secs, self.nanos) {
            Some(text) => text,
            None => String::new(),
        }
    }
}

/// The UTC time that an RFC 3339 text stands for, in seconds and nanoseconds
/// since the epoch.
pub uninterp spec fn parsed_rfc3339(text: Seq<char>) -> Option<(i64, u32)>;

/// Calls `chrono::DateTime::parse_from_rfc3339`. What is claimed is that the
/// time depends on the text alone.
#[verifier::external_body]
pub(crate) fn parse_rfc3339(text: &str) -> (t: Option<(i64, u32)>)
    ensures
        t == parsed_rfc3339(text@),
{
    chrono::DateTime::parse_from_rfc3339(text).ok().map(
        |t| (t.timestamp(), t.timestamp_subsec_nanos()),
    )
}

/// The date of a UTC time under a format of chrono, given by the seconds since
/// the epoch; none for a time that the calendar does not reach.
pub uninterp spec fn formatted_date(secs: i64, format: Seq<char>) -> Option<Seq<char>>;

/// The date of a UTC time as the digits of the year, the month and the day.
pub open spec fn date_digits(secs: i64) -> Option<Seq<char>> {
    formatted_date(secs, "%Y%m%d"@)
}

/// Calls `chrono::NaiveDate::format` on the date of a UTC time, given by the
/// seconds since the epoch. What is claimed is that the text depends on this
/// number and the format alone. Writing the text fails for a format that
/// chrono does not know, so only one that it knows is let in.
#[verifier::external_body]
pub(crate) fn format_date(secs: i64, format: &str) -> (text: Option<String>)
    requires
        format@ == "%Y%m%d"@,
    ensures
        opt_text(text) == formatted_date(secs, format@),
{
    chrono::DateTime::<chrono::Utc>::from_timestamp(secs, 0).map(
        |t| t.date_naive().format(format).to_string(),
    )
}

/// Number of the day of a UTC time, counted from the epoch.
pub open spec fn day_number(secs: int) -> int {
    secs / 86400
}

/// One time is not later than another.
pub open spec fn utc_not_after(a: UtcTime, b: UtcTime) -> bool {
    a.secs < b.secs || a.secs == b.secs && a.nanos <= b.nanos
}

impl UtcTime {
    /// The time that an RFC 3339 text stands for.
    pub fn parse(text: &str) -> (t: Option<UtcTime>)
        ensures
            t == match parsed_rfc3339(text@) {
                Some((secs, nanos)) => Some(UtcTime { secs, nanos }),
                None => None,
            },
    {
        match parse_rfc3339(text) {
            Some((secs, nanos)) => Some(UtcTime { secs, nanos }),
            None => None,
        }
    }

    /// Whether the time is not later than another.
    pub fn not_after(&self, other: &UtcTime) -> (b: bool)
        ensures
            b == utc_not_after(*self, *other),
    {
        self.secs < other.secs || self.secs == other.secs && self.nanos <= other.nanos
    }

    /// Number of the day, counted from the epoch.
    pub fn day(&self) -> (d: i64)
        ensures
            d == day_number(self.secs as int),
    {
        let quotient: i64 = self.secs / 86400;
        if self.secs % 86400 < 0 {
            quotient - 1
        } else {
            quotient
        }
    }

    /// The date as eight digits.
    pub fn date_digits(&self) -> (text: Option<String>)
        ensures
            opt_text(text) == date_digits(self.secs),
    {
        format_date(self.secs, "%Y%m%d")
    }
}

} // verus!
