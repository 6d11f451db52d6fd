//! Moments on the local clock: parsing them from calendar text, comparing
//! them, the whole seconds between two of them, and `HH:MM` formatting.

use chrono::{Datelike, TimeZone, Timelike};
use vstd::prelude::*;

use crate::text::{pad2, push_char, push_pad2};

verus! {

/// A moment as the local clock shows it: the instant, as whole seconds
/// `secs` since the Unix epoch plus `nanos` nanoseconds, the local time
/// zone's offset from UTC in seconds (east positive), and the calendar
/// fields that the local clock shows.
#[derive(Clone, Copy, Debug)]
pub struct LocalDateTime {
    pub secs: i64,
    pub nanos: u32,
    pub offset: i32,
    pub year: i32,
    pub month: u32,
    pub day: u32,
    pub hour: u32,
    pub minute: u32,
    pub second: u32,
}

impl LocalDateTime {
    /// The calendar fields: year, month, day, hour, minute, second.
    pub open spec fn fields(self) -> (i32, u32, u32, u32, u32, u32) {
        (self.year, self.month, self.day, self.hour, self.minute, self.second)
    }

    /// The instant in nanoseconds since the epoch.
    pub open spec fn instant(self) -> int {
        self.secs * 1_000_000_000 + self.nanos
    }

    /// Whether this moment comes strictly before `other` (the order of
    /// `(secs, nanos)`).
    pub open spec fn precedes(self, other: LocalDateTime) -> bool {
        self.secs < other.secs || (self.secs == other.secs && self.nanos < other.nanos)
    }

    /// Whether this moment comes strictly before `other`.
    pub fn is_before(&self, other: &LocalDateTime) -> (b: bool)
        ensures
            b == self.precedes(*other),
    {
        self.secs < other.secs || (self.secs == other.secs && self.nanos < other.nanos)
    }

    /// `HH:MM:SS` on the local clock: the time the clock shows.
    pub fn format_hms(&self) -> (s: String)
        ensures
            s@ == clock_text(*self),
    {
        let mut s = self.format_hm();
        push_char(&mut s, ':');
        push_pad2(&mut s, self.second);
        s
    }

    /// `HH:MM` on the local clock.
    pub fn format_hm(&self) -> (s: String)
        ensures
            s@ == hour_minute(*self),
    {
        let mut s = String::new();
        push_pad2(&mut s, self.hour);
        push_char(&mut s, ':');
        push_pad2(&mut s, self.minute);
        s
    }
}

/// `HH:MM:SS`, each zero-padded to two digits (chrono's `%H:%M:%S`).
pub open spec fn clock_text(t: LocalDateTime) -> Seq<char> {
    hour_minute(t) + seq![':'] + pad2(t.second as nat)
}

/// `HH:MM`, both zero-padded to two digits (chrono's `%H:%M`).
pub open spec fn hour_minute(t: LocalDateTime) -> Seq<char> {
    pad2(t.hour as nat) + seq![':'] + pad2(t.minute as nat)
}

/// Whole seconds in a span of `nanos` nanoseconds, rounded toward zero (what
/// chrono's `TimeDelta::num_seconds` returns).
pub open spec fn whole_seconds(nanos: int) -> int {
    if nanos >= 0 {
        nanos / 1_000_000_000
    } else {
        -((-nanos) / 1_000_000_000)
    }
}

/// Whole seconds from `earlier` to `later`, rounded toward zero (negative
/// when `later` comes first).
pub open spec fn seconds_between(later: LocalDateTime, earlier: LocalDateTime) -> int {
    whole_seconds(later.instant() - earlier.instant())
}

/// Whole seconds from `earlier` to `later`, rounded toward zero.
pub fn seconds_until(later: &LocalDateTime, earlier: &LocalDateTime) -> (s: i128)
    ensures
        s == seconds_between(*later, *earlier),
{
    let a: i128 = later.secs as i128 * 1_000_000_000 + later.nanos as i128;
    let b: i128 = earlier.secs as i128 * 1_000_000_000 + earlier.nanos as i128;
    let d: i128 = a - b;
    if d >= 0 {
        let q: u128 = (d as u128) / 1_000_000_000;
        q as i128
    } else {
        let q: u128 = ((0 - d) as u128) / 1_000_000_000;
        0 - (q as i128)
    }
}

/// The instant that chrono's RFC 3339 parser reads from `s`, as seconds and
/// nanoseconds since the epoch, or `None` when it rejects `s`.
pub uninterp spec fn rfc3339_instant(s: Seq<char>) -> Option<(i64, u32)>;

/// The calendar fields (year, month, day, hour, minute, second) that
/// chrono's `NaiveDateTime::parse_from_str` reads from `s` with `format`, or
/// `None` when it rejects `s`.
pub uninterp spec fn naive_reading(s: Seq<char>, format: Seq<char>) -> Option<
    (i32, u32, u32, u32, u32, u32),
>;

/// Days from 1970-01-01 to the date `y`-`m`-`d` of the proleptic
/// Gregorian calendar (negative before 1970).
pub open spec fn days_from_civil(y: int, m: int, d: int) -> int {
    let y2 = if m <= 2 {
        y - 1
    } else {
        y
    };
    let era = y2 / 400;
    let yoe = y2 - era * 400;
    let mp = if m > 2 {
        m - 3
    } else {
        m + 9
    };
    let doy = (153 * mp + 2) / 5 + d - 1;
    let doe = yoe * 365 + yoe / 4 - yoe / 100 + doy;
    era * 146097 + doe - 719468
}

/// The date (year, month, day) of the proleptic Gregorian calendar that
/// lies `days` days after 1970-01-01.
pub open spec fn civil_from_days(days: int) -> (int, int, int) {
    let z = days + 719468;
    let era = z / 146097;
    let doe = z - era * 146097;
    let yoe = (doe - doe / 1460 + doe / 36524 - doe / 146096) / 365;
    let doy = doe - (365 * yoe + yoe / 4 - yoe / 100);
    let mp = (5 * doy + 2) / 153;
    let d = doy - (153 * mp + 2) / 5 + 1;
    let m = if mp < 10 {
        mp + 3
    } else {
        mp - 9
    };
    let y = yoe + era * 400 + if m <= 2 {
        1int
    } else {
        0
    };
    (y, m, d)
}

/// The calendar fields (year, month, day, hour, minute, second) of the
/// moment `local` seconds after 1970-01-01 00:00:00 on a clock.
pub open spec fn civil_fields(local: int) -> (int, int, int, int, int, int) {
    let (y, m, d) = civil_from_days(local / 86400);
    let sod = local % 86400;
    (y, m, d, sod / 3600, sod % 3600 / 60, sod % 60)
}

/// Seconds from 1970-01-01 00:00:00 to the moment that calendar fields
/// name, on the same clock.
pub open spec fn local_seconds(f: (i32, u32, u32, u32, u32, u32)) -> int {
    days_from_civil(f.0 as int, f.1 as int, f.2 as int) * 86400 + f.3 * 3600 + f.4 * 60 + f.5
}

impl LocalDateTime {
    /// Whether the calendar fields are those that the instant shows on a
    /// clock `offset` seconds (less than a day) east of UTC.
    pub open spec fn shows_instant(self) -> bool {
        &&& -86400 < self.offset < 86400
        &&& civil_fields(self.secs + self.offset) == (
            self.year as int,
            self.month as int,
            self.day as int,
            self.hour as int,
            self.minute as int,
            self.second as int,
        )
    }

    /// Whether the instant is the one that the calendar fields name on a
    /// clock `offset` seconds (less than a day) east of UTC.
    pub open spec fn names_instant(self) -> bool {
        &&& -86400 < self.offset < 86400
        &&& local_seconds(self.fields()) == self.secs + self.offset
    }
}

/// `DateTime::parse_from_rfc3339`, then `with_timezone(&Local)`: the result
/// is present exactly when chrono parses `value`, and then denotes the
/// instant parsed, with the calendar fields that instant shows at the
/// offset the machine's time zone gives it (which offset is not stated).
#[verifier::external_body]
fn local_from_rfc3339(value: &str) -> (r: Option<LocalDateTime>)
    ensures
        r is Some <==> rfc3339_instant(value@) is Some,
        r matches Some(t) ==> rfc3339_instant(value@) == Some((t.secs, t.nanos)) && t.shows_instant(),
{
    match chrono::DateTime::parse_from_rfc3339(value) {
        Ok(parsed) => {
            let t = parsed.with_timezone(&chrono::Local);
            Some(LocalDateTime { secs: t.timestamp(), nanos: t.timestamp_subsec_nanos(), offset: t.offset().local_minus_utc(), year: t.year(), month: t.month(), day: t.day(), hour: t.hour(), minute: t.minute(), second: t.second() })
        },
        Err(_) => None,
    }
}

/// Whether RFC 3339 text written for the instant `secs`, `nanos` with a
/// local offset of `offset` seconds reads back as exactly that instant:
/// the year stays within four digits, there is no leap second, and the
/// offset is a whole number of minutes, as RFC 3339 writes it.
pub open spec fn rfc3339_exact(secs: int, nanos: u32, offset: i32) -> bool {
    &&& -62_000_000_000 <= secs <= 253_000_000_000
    &&& nanos < 1_000_000_000
    &&& offset % 60 == 0
}

/// `Local.timestamp_opt(secs, nanos).single()`, then `to_rfc3339` and the
/// offset from UTC in seconds (`offset().local_minus_utc()`): present for
/// every instant whose year chrono can hold; the offset is under a day; and
/// the text reads back as the same instant whenever `rfc3339_exact` holds
/// (chrono writes the offset rounded to the minute). Which offset the
/// machine's time zone gives is not stated.
#[verifier::external_body]
pub(crate) fn local_rfc3339(secs: i64, nanos: u32) -> (r: Option<(String, i32)>)
    ensures
        -62_000_000_000 <= secs <= 253_000_000_000 && nanos < 1_000_000_000 ==> r is Some,
        r matches Some((text, offset)) ==> -86400 < offset < 86400 && (rfc3339_exact(
            secs as int,
            nanos,
            offset,
        ) ==> rfc3339_instant(text@) == Some((secs, nanos))),
{
    match chrono::Local.timestamp_opt(secs, nanos).single() {
        Some(t) => Some((t.to_rfc3339(), t.offset().local_minus_utc())),
        None => None,
    }
}

/// `NaiveDateTime::parse_from_str(value, format)`, then
/// `Local.from_local_datetime(..).single()`: when present, the result shows
/// exactly the calendar fields parsed (whole seconds, or a leap second
/// written as second 60), and its instant is the one those fields name at
/// the offset the machine's time zone gives; absent when chrono rejects
/// `value`, and also when that local time is skipped or repeated in the
/// machine's time zone (which times those are is not stated).
#[verifier::external_body]
fn local_from_format(value: &str, format: &str) -> (r: Option<LocalDateTime>)
    ensures
        r matches Some(t) ==> naive_reading(value@, format@) == Some(t.fields())
            && t.names_instant() && (t.nanos == 0 || t.nanos == 1_000_000_000),
        naive_reading(value@, format@) is None ==> r is None,
{
    match chrono::NaiveDateTime::parse_from_str(value, format) {
        Ok(naive) => match chrono::Local.from_local_datetime(&naive).single() {
            Some(t) => Some(LocalDateTime { secs: t.timestamp(), nanos: t.timestamp_subsec_nanos(), offset: t.offset().local_minus_utc(), year: t.year(), month: t.month(), day: t.day(), hour: t.hour(), minute: t.minute(), second: t.second() }),
            None => None,
        },
        Err(_) => None,
    }
}

/// The layouts tried, in order, for local date-times that are not RFC 3339.
pub open spec fn local_format(i: int) -> Seq<char> {
    if i == 0 {
        "%Y-%m-%d %H:%M:%S"@
    } else if i == 1 {
        "%Y-%m-%d %H:%M"@
    } else if i == 2 {
        "%Y/%m/%d %H:%M:%S"@
    } else if i == 3 {
        "%Y/%m/%d %H:%M"@
    } else if i == 4 {
        "%m/%d/%Y %H:%M:%S"@
    } else {
        "%m/%d/%Y %H:%M"@
    }
}

/// Number of layouts in `local_format`.
pub const LOCAL_FORMAT_COUNT: usize = 6;

fn local_format_at(i: usize) -> (f: &'static str)
    requires
        i < LOCAL_FORMAT_COUNT,
    ensures
        f@ == local_format(i as int),
{
    if i == 0 {
        "%Y-%m-%d %H:%M:%S"
    } else if i == 1 {
        "%Y-%m-%d %H:%M"
    } else if i == 2 {
        "%Y/%m/%d %H:%M:%S"
    } else if i == 3 {
        "%Y/%m/%d %H:%M"
    } else if i == 4 {
        "%m/%d/%Y %H:%M:%S"
    } else {
        "%m/%d/%Y %H:%M"
    }
}

/// The first reading present among `outcomes`, if any.
pub open spec fn first_some(outcomes: Seq<Option<LocalDateTime>>) -> Option<LocalDateTime>
    decreases outcomes.len(),
{
    if outcomes.len() == 0 {
        None
    } else if outcomes[0] is Some {
        outcomes[0]
    } else {
        first_some(outcomes.drop_first())
    }
}

/// The first of the readings that came out present, in order; none when
/// none did.
pub fn first_reading(outcomes: &Vec<Option<LocalDateTime>>) -> (r: Option<LocalDateTime>)
    ensures
        r == first_some(outcomes@),
        r is None <==> forall|i: int| 0 <= i < outcomes@.len() ==> (#[trigger] outcomes@[i]) is None,
{
    let n = outcomes.len();
    let mut i: usize = 0;
    assert(outcomes@.skip(0) =~= outcomes@);
    while i < n
        invariant
            n == outcomes@.len(),
            i <= n,
            first_some(outcomes@) == first_some(outcomes@.skip(i as int)),
            forall|k: int| 0 <= k < i ==> (#[trigger] outcomes@[k]) is None,
        decreases n - i,
    {
        assert(outcomes@.skip(i as int)[0] == outcomes@[i as int]);
        if let Some(t) = outcomes[i] {
            return Some(t);
        }
        assert(outcomes@.skip(i as int).drop_first() =~= outcomes@.skip(i + 1));
        i = i + 1;
    }
    assert(outcomes@.skip(n as int).len() == 0);
    None
}

/// What the layout `local_format(i)` may give for `text`: nothing when
/// chrono does not read the text with it; else, when present, the moment
/// whose calendar fields it reads, at the local offset.
pub open spec fn layout_outcome(text: Seq<char>, i: int, o: Option<LocalDateTime>) -> bool {
    &&& naive_reading(text, local_format(i)) is None ==> o is None
    &&& o matches Some(t) ==> naive_reading(text, local_format(i)) == Some(t.fields())
        && t.names_instant() && (t.nanos == 0 || t.nanos == 1_000_000_000)
}

/// What reading `text` as a calendar date-time gives: the RFC 3339 instant,
/// with the fields it shows locally, when chrono reads one; else the first
/// present reading among the `local_format` layouts, tried in order (a
/// layout that reads the text gives no reading when that local time is
/// skipped or repeated in the machine's time zone).
pub open spec fn reads_as(text: Seq<char>, r: Option<LocalDateTime>) -> bool {
    if rfc3339_instant(text) is Some {
        r matches Some(t) && rfc3339_instant(text) == Some((t.secs, t.nanos)) && t.shows_instant()
    } else {
        exists|outcomes: Seq<Option<LocalDateTime>>|
            {
                &&& outcomes.len() == LOCAL_FORMAT_COUNT
                &&& forall|i: int|
                    0 <= i < LOCAL_FORMAT_COUNT ==> layout_outcome(text, i, #[trigger] outcomes[i])
                &&& r == first_some(outcomes)
            }
    }
}

/// Reads a calendar date-time: RFC 3339 first (taken to the local clock),
/// else the first of the `local_format` layouts that reads it as a local
/// time that exists once on the local clock.
pub fn parse_local_datetime(value: &str) -> (r: Option<LocalDateTime>)
    ensures
        reads_as(value@, r),
{
    if let Some(t) = local_from_rfc3339(value) {
        return Some(t);
    }
    let mut outcomes: Vec<Option<LocalDateTime>> = Vec::new();
    for i in 0..LOCAL_FORMAT_COUNT
        invariant
            outcomes@.len() == i,
            forall|k: int| 0 <= k < i ==> layout_outcome(value@, k, #[trigger] outcomes@[k]),
    {
        let format = local_format_at(i);
        let o = local_from_format(value, format);
        outcomes.push(o);
        assert(outcomes@[i as int] == o);
    }
    let r = first_reading(&outcomes);
    assert(forall|i: int|
        0 <= i < LOCAL_FORMAT_COUNT ==> layout_outcome(value@, i, #[trigger] outcomes@[i]));
    r
}

} // verus!
