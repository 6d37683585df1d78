//! Local time as the protocols and the user interface write it.
use chrono::{Datelike, Timelike};
use vstd::prelude::*;

use crate::text;

verus! {

/// A local date and time of day.
#[derive(Debug, Clone, Copy, PartialEq, Eq, Structural)]
pub struct LocalTime {
    pub year: i32,
    pub month: u32,
    pub day: u32,
    pub hour: u32,
    pub minute: u32,
    pub second: u32,
    /// The nanoseconds of the second; a leap second goes beyond 999,999,999.
    pub nanos: u32,
}

impl LocalTime {
    /// The ranges of a calendar date and of a time of day.
    pub open spec fn wf(self) -> bool {
        &&& -300_000 < self.year < 300_000
        &&& 1 <= self.month <= 12
        &&& 1 <= self.day <= 31
        &&& self.hour < 24
        &&& self.minute < 60
        &&& self.second < 60
        &&& self.nanos < 2_000_000_000
    }

    /// The second as it is written: 60 in a leap second.
    pub open spec fn shown_second(self) -> int {
        self.second + self.nanos / 1_000_000_000
    }

    /// The millisecond of the second.
    pub open spec fn millis(self) -> int {
        (self.nanos % 1_000_000_000) as int / 1_000_000
    }

    /// `YYYYMMDD` as a number, for a year that is not negative.
    pub open spec fn date_number(self) -> int {
        self.year * 10_000 + self.month * 100 + self.day
    }

    /// `HHMMSSsss` as a number.
    pub open spec fn time_number(self) -> int {
        self.hour * 10_000_000 + self.minute * 100_000 + self.shown_second() * 1000 + self.millis()
    }
}

/// `chrono::Local::now`, taken apart by the getters of `Datelike` and `Timelike`. Of the
/// current time only the ranges are claimed that chrono documents for those getters.
#[verifier::external_body]
pub(crate) fn local_now() -> (r: LocalTime)
    ensures
        r.wf(),
{
    let n = chrono::Local::now();
    LocalTime {
        year: n.year(),
        month: n.month(),
        day: n.day(),
        hour: n.hour(),
        minute: n.minute(),
        second: n.second(),
        nanos: n.nanosecond(),
    }
}

/// The second and the millisecond as they are written.
fn seconds_of(t: &LocalTime) -> (r: (u32, u32))
    requires
        t.wf(),
    ensures
        r.0 == t.shown_second(),
        r.1 == t.millis(),
        r.0 <= 60,
        r.1 < 1000,
{
    (t.second + t.nanos / 1_000_000_000, (t.nanos % 1_000_000_000) / 1_000_000)
}

/// `YYYYMMDDHHMMSSsss` as a number; a negative year makes the number negative.
pub open spec fn timestamp_of(t: LocalTime) -> int {
    if t.year >= 0 {
        t.date_number() * 1_000_000_000 + t.time_number()
    } else {
        -((-t.year * 10_000 + t.month * 100 + t.day) * 1_000_000_000 + t.time_number())
    }
}

pub fn timestamp(t: &LocalTime) -> (r: i64)
    requires
        t.wf(),
    ensures
        r == timestamp_of(*t),
{
    let (s, ms) = seconds_of(t);
    let time: i64 = t.hour as i64 * 10_000_000 + t.minute as i64 * 100_000 + s as i64 * 1000
        + ms as i64;
    let year: i64 = t.year as i64;
    if year >= 0 {
        (year * 10_000 + t.month as i64 * 100 + t.day as i64) * 1_000_000_000 + time
    } else {
        -((-year * 10_000 + t.month as i64 * 100 + t.day as i64) * 1_000_000_000 + time)
    }
}

/// `YYYYMMDD` as a number, 0 for a negative year.
pub open spec fn date_of(t: LocalTime) -> int {
    if t.year >= 0 {
        t.date_number()
    } else {
        0
    }
}

/// `HHMMSSsss` and four zeros as a number.
pub open spec fn ntime_of(t: LocalTime) -> int {
    t.time_number() * 10_000
}

/// `YYYYMMDD` as a number, 0 for a negative year.
pub fn date(t: &LocalTime) -> (r: u32)
    requires
        t.wf(),
    ensures
        r == date_of(*t),
{
    if t.year >= 0 {
        t.year as u32 * 10_000 + t.month * 100 + t.day
    } else {
        0
    }
}

/// `HHMMSSsss` and four zeros as a number.
pub fn ntime(t: &LocalTime) -> (r: u64)
    requires
        t.wf(),
    ensures
        r == ntime_of(*t),
{
    let (s, ms) = seconds_of(t);
    (t.hour as u64 * 10_000_000 + t.minute as u64 * 100_000 + s as u64 * 1000 + ms as u64) * 10_000
}

/// A number of two digits.
pub open spec fn two(n: int) -> Seq<char> {
    text::zero_pad(text::dec(n as nat), 2)
}

/// `HH:MM:SS`.
pub open spec fn hms_text(t: LocalTime) -> Seq<char> {
    two(t.hour as int) + seq![':'] + two(t.minute as int) + seq![':'] + two(t.shown_second())
}

/// `HH:MM:SS`.
pub fn hms(t: &LocalTime) -> (r: String)
    requires
        t.wf(),
    ensures
        r@ == hms_text(*t),
{
    let (s, _) = seconds_of(t);
    let mut out = text::padded(t.hour as u64, 2);
    out.push(':');
    text::push_padded(&mut out, t.minute as u64, 2);
    out.push(':');
    text::push_padded(&mut out, s as u64, 2);
    assert(out@ =~= hms_text(*t));
    out
}

/// `HH:MM:SS.mmm`.
pub open spec fn hms_millis_text(t: LocalTime) -> Seq<char> {
    hms_text(t) + seq!['.'] + text::zero_pad(text::dec(t.millis() as nat), 3)
}

/// `HH:MM:SS.mmm`.
pub fn hms_millis(t: &LocalTime) -> (r: String)
    requires
        t.wf(),
    ensures
        r@ == hms_millis_text(*t),
{
    let (_, ms) = seconds_of(t);
    let mut out = hms(t);
    out.push('.');
    text::push_padded(&mut out, ms as u64, 3);
    assert(out@ =~= hms_millis_text(*t));
    out
}

/// `HHMMSS`.
pub open spec fn compact_time_text(t: LocalTime) -> Seq<char> {
    two(t.hour as int) + two(t.minute as int) + two(t.shown_second())
}

/// `HHMMSS`.
pub fn compact_time(t: &LocalTime) -> (r: String)
    requires
        t.wf(),
    ensures
        r@ == compact_time_text(*t),
{
    let (s, _) = seconds_of(t);
    let mut out = text::padded(t.hour as u64, 2);
    text::push_padded(&mut out, t.minute as u64, 2);
    text::push_padded(&mut out, s as u64, 2);
    out
}

/// The year as chrono writes it: four digits, with a sign outside 0 to 9999.
pub open spec fn year_text(y: int) -> Seq<char> {
    if y < 0 {
        seq!['-'] + text::zero_pad(text::dec((-y) as nat), 4)
    } else if y > 9999 {
        seq!['+'] + text::zero_pad(text::dec(y as nat), 4)
    } else {
        text::zero_pad(text::dec(y as nat), 4)
    }
}

/// `YYYYMMDD`.
pub open spec fn compact_date_text(t: LocalTime) -> Seq<char> {
    year_text(t.year as int) + two(t.month as int) + two(t.day as int)
}

fn year_string(year: i32) -> (r: String)
    ensures
        r@ == year_text(year as int),
{
    let mut out = String::new();
    if year < 0 {
        out.push('-');
    } else if year > 9999 {
        out.push('+');
    }
    text::push_padded(&mut out, text::magnitude(year as i64), 4);
    assert(out@ =~= year_text(year as int));
    out
}

/// `YYYY-MM-DD`.
pub fn dashed_date(t: &LocalTime) -> (r: String)
    requires
        t.wf(),
    ensures
        r@ == year_text(t.year as int) + seq!['-'] + two(t.month as int) + seq!['-'] + two(
            t.day as int,
        ),
{
    let mut out = year_string(t.year);
    let ghost year = out@;
    out.push('-');
    text::push_padded(&mut out, t.month as u64, 2);
    out.push('-');
    text::push_padded(&mut out, t.day as u64, 2);
    assert(out@ =~= year + seq!['-'] + two(t.month as int) + seq!['-'] + two(t.day as int));
    out
}

/// `YYYYMMDD`.
pub fn compact_date(t: &LocalTime) -> (r: String)
    requires
        t.wf(),
    ensures
        r@ == compact_date_text(*t),
{
    let mut out = year_string(t.year);
    text::push_padded(&mut out, t.month as u64, 2);
    text::push_padded(&mut out, t.day as u64, 2);
    out
}

/// A time stamp has room in 64 bits, and dates and times of day do; a later time has a greater
/// stamp, and the stamp is the date followed by the nine digits of the time of day.
pub proof fn law_stamps(a: LocalTime, b: LocalTime)
    requires
        a.wf(),
        b.wf(),
    ensures
        i64::MIN <= timestamp_of(a) <= i64::MAX,
        0 <= date_of(a) <= u32::MAX,
        0 <= ntime_of(a) <= u64::MAX,
        ntime_of(a) % 10_000 == 0,
        a.year >= 0 ==> timestamp_of(a) == date_of(a) * 1_000_000_000 + ntime_of(a) / 10_000,
        a.year >= 0 ==> date_of(a) == a.year * 10_000 + a.month * 100 + a.day,
        a.nanos < 1_000_000_000 ==> ntime_of(a) / 10_000 == ((a.hour * 100 + a.minute) * 100
            + a.second) * 1000 + a.nanos as int / 1_000_000,
        a.year == b.year && a.year >= 0 && (a.month < b.month || a.month == b.month && a.day
            < b.day) ==> timestamp_of(a) < timestamp_of(b),
{
}

/// Times of day are written with two digits for hours, minutes and seconds, colons between
/// them, and three digits for the milliseconds behind a point; dates that have four digits for
/// the year, with two for the month and two for the day.
pub proof fn law_written_times(t: LocalTime)
    requires
        t.wf(),
    ensures
        ({
            let s = hms_millis_text(t);
            &&& s.len() == 12
            &&& s[2] == ':' && s[5] == ':' && s[8] == '.'
            &&& hms_text(t) == s.take(8)
            &&& text::number(s.subrange(0, 2)) == t.hour
            &&& text::number(s.subrange(3, 5)) == t.minute
            &&& t.nanos < 1_000_000_000 ==> text::number(s.subrange(6, 8)) == t.second
            &&& t.nanos < 1_000_000_000 ==> text::number(s.subrange(9, 12)) == t.nanos as int
                / 1_000_000
            &&& compact_time_text(t) == s.subrange(0, 2) + s.subrange(3, 5) + s.subrange(6, 8)
        }),
        0 <= t.year <= 9999 ==> {
            let d = compact_date_text(t);
            &&& d.len() == 8
            &&& text::number(d.subrange(0, 4)) == t.year
            &&& text::number(d.subrange(4, 6)) == t.month
            &&& text::number(d.subrange(6, 8)) == t.day
        },
{
    lemma_two(t.hour as int);
    lemma_two(t.minute as int);
    lemma_two(t.shown_second());
    lemma_two(t.month as int);
    lemma_two(t.day as int);
    let ms = text::zero_pad(text::dec(t.millis() as nat), 3);
    text::lemma_padded_value(t.millis() as nat, 3);
    assert(text::pow10(3) == 1000 && text::pow10(4) == 10_000) by {
        reveal_with_fuel(text::pow10, 5);
    }
    text::lemma_dec_len(t.millis() as nat, 3);
    let s = hms_millis_text(t);
    assert(s.subrange(0, 2) =~= two(t.hour as int));
    assert(s.subrange(3, 5) =~= two(t.minute as int));
    assert(s.subrange(6, 8) =~= two(t.shown_second()));
    assert(s.subrange(9, 12) =~= ms);
    assert(hms_text(t) =~= s.take(8));
    assert(compact_time_text(t) =~= s.subrange(0, 2) + s.subrange(3, 5) + s.subrange(6, 8));
    if 0 <= t.year <= 9999 {
        let d = compact_date_text(t);
        text::lemma_padded_value(t.year as nat, 4);
        text::lemma_dec_len(t.year as nat, 4);
        assert(d.subrange(0, 4) =~= year_text(t.year as int));
        assert(d.subrange(4, 6) =~= two(t.month as int));
        assert(d.subrange(6, 8) =~= two(t.day as int));
    }
}

/// Two digits spell the number.
pub proof fn lemma_two(n: int)
    requires
        0 <= n < 100,
    ensures
        two(n).len() == 2,
        text::number(two(n)) == n,
{
    assert(text::pow10(2) == 100) by {
        reveal_with_fuel(text::pow10, 3);
    }
    text::lemma_padded_value(n as nat, 2);
    text::lemma_dec_len(n as nat, 2);
}

} // verus!
