//! The log of what users do: a file for each day, a line for each operation.
use vstd::prelude::*;

use crate::clock;
use crate::text;

verus! {

/// Which day's file is open.
pub struct OpLog {
    date: String,
}

/// `YYYY-MM-DD HH:MM:SS.mmm`.
pub open spec fn stamp_text(t: clock::LocalTime) -> Seq<char> {
    clock::year_text(t.year as int) + seq!['-'] + clock::two(t.month as int) + seq!['-']
        + clock::two(t.day as int) + seq![' '] + clock::hms_millis_text(t)
}

/// A line: time, address and operation, two spaces apart.
pub open spec fn line_text(t: clock::LocalTime, ip: Seq<char>, msg: Seq<char>) -> Seq<char> {
    stamp_text(t) + seq![' ', ' '] + ip + seq![' ', ' '] + msg + seq!['\n']
}

impl OpLog {
    /// The day of the open file; empty before the first line.
    pub closed spec fn day(&self) -> Seq<char> {
        self.date@
    }

    pub fn new() -> (r: Self)
        ensures
            r.day().len() == 0,
    {
        OpLog { date: String::new() }
    }

    /// The day whose file must be opened before a line is written; none where it is open.
    pub fn turn(&mut self, now: &clock::LocalTime) -> (r: Option<String>)
        requires
            now.wf(),
        ensures
            final(self).day() == clock::compact_date_text(*now),
            match r {
                Some(d) => d@ == clock::compact_date_text(*now) && old(self).day() != d@,
                None => old(self).day() == clock::compact_date_text(*now),
            },
    {
        let today = clock::compact_date(now);
        if self.date == today {
            return None;
        }
        self.date = today.clone();
        Some(today)
    }

    /// The line of an operation.
    pub fn line(now: &clock::LocalTime, ip: &str, msg: &str) -> (r: String)
        requires
            now.wf(),
        ensures
            r@ == line_text(*now, ip@, msg@),
    {
        let mut s = clock::dashed_date(now);
        s.push(' ');
        s.push_str(clock::hms_millis(now).as_str());
        assert(s@ =~= stamp_text(*now));
        s.push(' ');
        s.push(' ');
        s.push_str(ip);
        s.push(' ');
        s.push(' ');
        s.push_str(msg);
        s.push('\n');
        assert(s@ =~= line_text(*now, ip@, msg@));
        s
    }
}

/// A line can be read back: behind the date and the time stand the address and the operation,
/// two spaces apart, and nothing else.
pub proof fn law_line_is_read(t: clock::LocalTime, ip: Seq<char>, msg: Seq<char>)
    requires
        t.wf(),
        0 <= t.year <= 9999,
    ensures
        ({
            let s = line_text(t, ip, msg);
            let n = ip.len() as int;
            &&& s.len() == 28 + n + msg.len()
            &&& text::number(s.subrange(0, 4)) == t.year
            &&& text::number(s.subrange(5, 7)) == t.month
            &&& text::number(s.subrange(8, 10)) == t.day
            &&& s[4] == '-' && s[7] == '-' && s[10] == ' '
            &&& s.subrange(11, 23) == clock::hms_millis_text(t)
            &&& s[23] == ' ' && s[24] == ' '
            &&& s.subrange(25, 25 + n) == ip
            &&& s[25 + n] == ' ' && s[26 + n] == ' '
            &&& s.subrange(27 + n, s.len() - 1) == msg
            &&& s.last() == '\n'
        }),
{
    clock::law_written_times(t);
    clock::lemma_two(t.month as int);
    clock::lemma_two(t.day as int);
    let s = line_text(t, ip, msg);
    let n = ip.len() as int;
    let y = clock::year_text(t.year as int);
    let d = clock::compact_date_text(t);
    assert(d.subrange(0, 4) =~= y);
    assert(s.subrange(0, 4) =~= y);
    assert(s.subrange(5, 7) =~= clock::two(t.month as int));
    assert(s.subrange(8, 10) =~= clock::two(t.day as int));
    assert(s.subrange(11, 23) =~= clock::hms_millis_text(t));
    assert(s.subrange(25, 25 + n) =~= ip);
    assert(s.subrange(27 + n, s.len() - 1) =~= msg);
}

} // verus!
