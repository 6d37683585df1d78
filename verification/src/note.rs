//! Lines of the running log.
use vstd::prelude::*;

use crate::text;

verus! {

/// How much a line of the log matters.
#[derive(Debug, Clone, Copy, PartialEq, Eq, Structural)]
pub enum Level {
    Info,
    Warn,
    Error,
}

impl Level {
    /// The level as events carry it.
    pub open spec fn name(self) -> Seq<char> {
        match self {
            Level::Info => "info"@,
            Level::Warn => "warn"@,
            Level::Error => "error"@,
        }
    }

    /// The level as events carry it.
    pub fn word(self) -> (r: &'static str)
        ensures
            r@ == self.name(),
    {
        match self {
            Level::Info => "info",
            Level::Warn => "warn",
            Level::Error => "error",
        }
    }
}

/// A line of the log.
#[derive(Debug)]
pub struct Note {
    pub level: Level,
    pub text: String,
}

/// The values of [`Note`].
pub struct NoteView {
    pub level: Level,
    pub text: Seq<char>,
}

impl View for Note {
    type V = NoteView;

    open spec fn view(&self) -> NoteView {
        NoteView { level: self.level, text: self.text@ }
    }
}

/// The values of lines.
pub open spec fn note_views(s: Seq<Note>) -> Seq<NoteView> {
    s.map_values(|n: Note| n@)
}

/// An ordinary line.
pub open spec fn info(text: Seq<char>) -> NoteView {
    NoteView { level: Level::Info, text }
}

/// A warning.
pub open spec fn warn(text: Seq<char>) -> NoteView {
    NoteView { level: Level::Warn, text }
}

/// An error.
pub open spec fn error(text: Seq<char>) -> NoteView {
    NoteView { level: Level::Error, text }
}

/// An ordinary line.
pub fn info_note(text: String) -> (r: Note)
    ensures
        r@ == info(text@),
{
    Note { level: Level::Info, text }
}

/// A warning.
pub fn warn_note(text: String) -> (r: Note)
    ensures
        r@ == warn(text@),
{
    Note { level: Level::Warn, text }
}

/// An error.
pub fn error_note(text: String) -> (r: Note)
    ensures
        r@ == error(text@),
{
    Note { level: Level::Error, text }
}

/// A line alone.
pub fn only(n: Note) -> (r: Vec<Note>)
    ensures
        note_views(r@) == seq![n@],
{
    let mut out: Vec<Note> = Vec::new();
    out.push(n);
    assert(note_views(out@) =~= seq![n@]);
    out
}

/// No line.
pub fn no_notes() -> (r: Vec<Note>)
    ensures
        note_views(r@) == Seq::<NoteView>::empty(),
{
    let out: Vec<Note> = Vec::new();
    assert(note_views(out@) =~= Seq::<NoteView>::empty());
    out
}

/// Adds a line.
pub fn add_note(out: &mut Vec<Note>, n: Note)
    ensures
        note_views(final(out)@) == note_views(old(out)@).push(n@),
{
    out.push(n);
    assert(note_views(out@) =~= note_views(old(out)@).push(n@));
}

/// Why a message could not be read.
pub open spec fn too_short() -> Seq<char> {
    "消息体长度不足"@
}

/// `what`, which could not be read, and why.
pub open spec fn unread_text(what: Seq<char>) -> Seq<char> {
    what + ": "@ + too_short()
}

/// `what`, which could not be read, and why.
pub fn unread(what: &str) -> (r: String)
    ensures
        r@ == unread_text(what@),
{
    let mut out = what.to_owned();
    out.push_str(": ");
    out.push_str("消息体长度不足");
    out
}

/// The whole units in `v`, rounded towards zero.
pub open spec fn whole(v: int, unit: int) -> int {
    if v < 0 {
        -((-v) / unit)
    } else {
        v / unit
    }
}

/// Appends the whole units in `v`.
pub fn push_whole(out: &mut String, v: i64, unit: i64)
    requires
        unit > 1,
    ensures
        final(out)@ == old(out)@ + text::dec_int(whole(v as int, unit as int)),
{
    let a: u64 = text::magnitude(v);
    let q: u64 = a / (unit as u64);
    proof {
        vstd::arithmetic::div_mod::lemma_div_pos_is_pos(a as int, unit as int);
        vstd::arithmetic::div_mod::lemma_div_decreases(0x8000_0000_0000_0000, unit as int);
        vstd::arithmetic::div_mod::lemma_div_is_ordered(
            a as int,
            0x8000_0000_0000_0000,
            unit as int,
        );
    }
    if v < 0 {
        text::push_int(out, -(q as i64));
    } else {
        text::push_int(out, q as i64);
    }
}

/// Numbers as a list in brackets.
pub open spec fn list_text(s: Seq<i32>) -> Seq<char> {
    "["@ + items_text(s) + "]"@
}

/// Numbers, set apart by commas.
pub open spec fn items_text(s: Seq<i32>) -> Seq<char>
    decreases s.len(),
{
    if s.len() == 0 {
        Seq::empty()
    } else if s.len() == 1 {
        text::dec_int(s[0] as int)
    } else {
        items_text(s.drop_last()) + ", "@ + text::dec_int(s.last() as int)
    }
}

/// Appends numbers as a list in brackets.
pub fn push_list(out: &mut String, s: &Vec<i32>)
    ensures
        final(out)@ == old(out)@ + list_text(s@),
{
    let mut items = String::new();
    let mut i: usize = 0;
    assert(s@.take(0) =~= Seq::<i32>::empty());
    assert(items@ =~= Seq::<char>::empty());
    while i < s.len()
        invariant
            i <= s@.len(),
            items@ == items_text(s@.take(i as int)),
        decreases s@.len() - i,
    {
        let ghost t = s@.take(i + 1);
        let ghost before = items@;
        assert(t.drop_last() =~= s@.take(i as int));
        assert(t.last() == s@[i as int]);
        if i > 0 {
            items.push_str(", ");
        }
        text::push_int(&mut items, s[i] as i64);
        proof {
            if i == 0 {
                assert(before =~= Seq::<char>::empty());
                assert(items@ =~= text::dec_int(s@[0] as int));
            }
        }
        i += 1;
    }
    assert(s@.take(i as int) =~= s@);
    let ghost was = out@;
    out.push_str("[");
    out.push_str(items.as_str());
    out.push_str("]");
    assert(out@ =~= was + list_text(s@));
}

} // verus!
