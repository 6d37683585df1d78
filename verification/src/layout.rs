//! Message layouts as data: what the fields of a message are called, how wide they
//! are and how their values read, and a describer that applies a layout to a body.
use vstd::prelude::*;

use crate::capture::ParsedField;
use crate::shjj::protocol as sh;
use crate::sz::protocol as sz;
use crate::text;
use crate::wire::{int_at, nat_at, text_at, BodyReader, ShortBody};

verus! {

/// How the bytes of a field are read and shown.
#[derive(Debug, Clone, Copy, PartialEq, Eq, Structural)]
pub enum Kind {
    /// Text of so many bytes.
    Text(usize),
    /// An unsigned number of 1, 2, 4 or 8 bytes.
    Nat(usize),
    /// A signed number of 4 or 8 bytes.
    Int(usize),
    /// A number of seconds in two unsigned bytes.
    Seconds16,
    /// A number of seconds in four signed bytes.
    Seconds32,
    /// A quantity in eight bytes, scaled by the unit.
    Shares(i64),
    /// A price or an amount in eight bytes, scaled by the unit.
    Yuan(i64),
    /// A side code.
    Side,
    /// An order status code.
    OrdStatus,
    /// An order type code of the Shenzhen exchange.
    SzOrdType,
    /// An execution type code of the Shenzhen exchange.
    SzExecType,
    /// A time stamp of the Shenzhen exchange.
    SzTime,
    /// A business code of the Shenzhen exchange.
    ApplId,
    /// An order type code of the Shanghai exchange.
    ShOrdType,
    /// An execution type code of the Shanghai exchange.
    ShExecType,
    /// A time of day of the Shanghai exchange.
    ShTime,
    /// A date of the Shanghai exchange.
    ShDate,
    /// A business number of the Shanghai exchange.
    BizId,
}

/// The name of a field and how it is read.
pub type FieldDef = (&'static str, Kind);

/// How many bytes a field has.
pub open spec fn width(k: Kind) -> int {
    match k {
        Kind::Text(n) => n as int,
        Kind::Nat(n) => n as int,
        Kind::Int(n) => n as int,
        Kind::Seconds16 => 2,
        Kind::Seconds32 => 4,
        Kind::Shares(_) => 8,
        Kind::Yuan(_) => 8,
        Kind::Side | Kind::OrdStatus | Kind::SzOrdType | Kind::SzExecType | Kind::ShOrdType
        | Kind::ShExecType => 1,
        Kind::SzTime => 8,
        Kind::ApplId => 3,
        Kind::ShTime => 8,
        Kind::ShDate => 4,
        Kind::BizId => 4,
    }
}

/// A layout that the describer can read.
pub open spec fn readable(k: Kind) -> bool {
    match k {
        Kind::Nat(n) => n == 1 || n == 2 || n == 4 || n == 8,
        Kind::Int(n) => n == 4 || n == 8,
        Kind::Shares(unit) => unit > 0,
        Kind::Yuan(unit) => unit > 0,
        _ => true,
    }
}

/// How the field of kind `k` at `at` reads.
pub open spec fn shown(k: Kind, body: Seq<u8>, at: int) -> Seq<char> {
    match k {
        Kind::Text(n) => text_at(body, at, n as int),
        Kind::Nat(n) => text::dec(nat_at(body, at, n as int) as nat),
        Kind::Int(n) => text::dec_int(int_at(body, at, n as int)),
        Kind::Seconds16 => text::dec(nat_at(body, at, 2) as nat) + " 秒"@,
        Kind::Seconds32 => text::dec_int(int_at(body, at, 4)) + " 秒"@,
        Kind::Shares(unit) => text::scaled(int_at(body, at, 8), unit as nat) + " 股"@,
        Kind::Yuan(unit) => text::scaled(int_at(body, at, 8), unit as nat) + " 元"@,
        Kind::Side => side_text(nat_at(body, at, 1) as u8),
        Kind::OrdStatus => ord_status_text(nat_at(body, at, 1) as u8),
        Kind::SzOrdType => sz::ord_type_text(nat_at(body, at, 1) as u8),
        Kind::SzExecType => sz::exec_type_text(nat_at(body, at, 1) as u8),
        Kind::SzTime => sz::time_text(int_at(body, at, 8)),
        Kind::ApplId => sz::appl_id_text(text_at(body, at, 3)),
        Kind::ShOrdType => sh::ord_type_text(nat_at(body, at, 1) as u8),
        Kind::ShExecType => sh::exec_type_text(nat_at(body, at, 1) as u8),
        Kind::ShTime => sh::time_text(nat_at(body, at, 8)),
        Kind::ShDate => sh::date_text(nat_at(body, at, 4)),
        Kind::BizId => sh::biz_id_text(nat_at(body, at, 4) as u32),
    }
}

/// A code that has no name reads as its character.
pub open spec fn code_text(b: u8) -> Seq<char> {
    seq![b as char]
}

pub open spec fn side_text(b: u8) -> Seq<char> {
    if b == 0x31 {
        "1 (买)"@
    } else if b == 0x32 {
        "2 (卖)"@
    } else {
        code_text(b)
    }
}

pub open spec fn ord_status_text(b: u8) -> Seq<char> {
    if b == 0x30 {
        "0 (已报)"@
    } else if b == 0x31 {
        "1 (部分成交)"@
    } else if b == 0x32 {
        "2 (全部成交)"@
    } else if b == 0x34 {
        "4 (已撤单)"@
    } else if b == 0x38 {
        "8 (已拒绝)"@
    } else {
        code_text(b)
    }
}

/// A side code and its meaning.
pub fn side_label(b: u8) -> (r: String)
    ensures
        r@ == side_text(b),
{
    if b == 0x31 {
        "1 (买)".to_owned()
    } else if b == 0x32 {
        "2 (卖)".to_owned()
    } else {
        text::char_string(b)
    }
}

/// An order status code and its meaning.
pub fn ord_status_label(b: u8) -> (r: String)
    ensures
        r@ == ord_status_text(b),
{
    if b == 0x30 {
        "0 (已报)".to_owned()
    } else if b == 0x31 {
        "1 (部分成交)".to_owned()
    } else if b == 0x32 {
        "2 (全部成交)".to_owned()
    } else if b == 0x34 {
        "4 (已撤单)".to_owned()
    } else if b == 0x38 {
        "8 (已拒绝)".to_owned()
    } else {
        text::char_string(b)
    }
}

/// What was described so far: the fields, and the position in the body. `None` once the
/// body turned out to be too short.
pub type Progress = Option<(Seq<(Seq<char>, Seq<char>)>, int)>;

/// One more field described.
pub open spec fn then_field(p: Progress, body: Seq<u8>, name: Seq<char>, k: Kind) -> Progress {
    match p {
        None => None,
        Some((out, at)) => if at + width(k) <= body.len() {
            Some((out.push((name, shown(k, body, at))), at + width(k)))
        } else {
            None
        },
    }
}

/// The fields of a layout described one after the other.
pub open spec fn then_layout(p: Progress, body: Seq<u8>, prefix: Seq<char>, defs: Seq<FieldDef>) -> Progress
    decreases defs.len(),
{
    if defs.len() == 0 {
        p
    } else {
        then_field(
            then_layout(p, body, prefix, defs.drop_last()),
            body,
            prefix + defs.last().0@,
            defs.last().1,
        )
    }
}

/// `head[n]tail`: the name of the `n`-th item of a repeating group.
pub open spec fn numbered(head: Seq<char>, n: int, tail: Seq<char>) -> Seq<char> {
    head + "["@ + text::dec(n as nat) + "]"@ + tail
}

/// A layout described `n` times, with the items numbered from 1.
pub open spec fn then_groups(
    p: Progress,
    body: Seq<u8>,
    head: Seq<char>,
    tail: Seq<char>,
    defs: Seq<FieldDef>,
    n: nat,
) -> Progress
    decreases n,
{
    if n == 0 {
        p
    } else {
        then_layout(
            then_groups(p, body, head, tail, defs, (n - 1) as nat),
            body,
            numbered(head, n as int, tail),
            defs,
        )
    }
}

/// The sum of the widths of a layout.
pub open spec fn total_width(defs: Seq<FieldDef>) -> int
    decreases defs.len(),
{
    if defs.len() == 0 {
        0
    } else {
        total_width(defs.drop_last()) + width(defs.last().1)
    }
}

pub open spec fn all_readable(defs: Seq<FieldDef>) -> bool {
    forall|i: int| 0 <= i < defs.len() ==> readable(#[trigger] defs[i].1)
}

proof fn lemma_total_width(defs: Seq<FieldDef>)
    ensures
        total_width(defs) >= 0,
    decreases defs.len(),
{
    if defs.len() > 0 {
        lemma_total_width(defs.drop_last());
    }
}

/// The first fields of a layout are no wider than the whole.
pub proof fn lemma_width_prefix(defs: Seq<FieldDef>, k: int)
    requires
        0 <= k <= defs.len(),
    ensures
        total_width(defs.take(k)) <= total_width(defs),
    decreases defs.len(),
{
    if k == defs.len() {
        assert(defs.take(k) =~= defs);
    } else {
        lemma_width_prefix(defs.drop_last(), k);
        assert(defs.drop_last().take(k) =~= defs.take(k));
    }
}

/// One more field adds its width.
pub proof fn lemma_width_step(defs: Seq<FieldDef>, k: int)
    requires
        0 <= k < defs.len(),
    ensures
        total_width(defs.take(k + 1)) == total_width(defs.take(k)) + width(defs[k].1),
{
    assert(defs.take(k + 1).drop_last() =~= defs.take(k));
}

/// A layout is described in full exactly where the body holds all its bytes; the
/// position then lies behind it.
pub proof fn lemma_layout_fits(
    out: Seq<(Seq<char>, Seq<char>)>,
    at: int,
    body: Seq<u8>,
    prefix: Seq<char>,
    defs: Seq<FieldDef>,
)
    requires
        0 <= at <= body.len(),
    ensures
        then_layout(Some((out, at)), body, prefix, defs) is Some <==> at + total_width(defs)
            <= body.len(),
        then_layout(Some((out, at)), body, prefix, defs) matches Some((o, a)) ==> a == at
            + total_width(defs) && o.len() == out.len() + defs.len(),
    decreases defs.len(),
{
    if defs.len() > 0 {
        lemma_layout_fits(out, at, body, prefix, defs.drop_last());
        lemma_total_width(defs.drop_last());
    }
}

/// The `i`-th field of a layout carries its name, and its value is read behind the
/// fields before it.
pub proof fn lemma_layout_item(
    out: Seq<(Seq<char>, Seq<char>)>,
    at: int,
    body: Seq<u8>,
    prefix: Seq<char>,
    defs: Seq<FieldDef>,
    i: int,
)
    requires
        0 <= at <= body.len(),
        at + total_width(defs) <= body.len(),
        0 <= i < defs.len(),
    ensures
        then_layout(Some((out, at)), body, prefix, defs) matches Some((o, _)) && o[out.len() + i]
            == (prefix + defs[i].0@, shown(defs[i].1, body, at + total_width(defs.take(i)))),
    decreases defs.len(),
{
    lemma_layout_fits(out, at, body, prefix, defs);
    lemma_layout_fits(out, at, body, prefix, defs.drop_last());
    lemma_total_width(defs.drop_last());
    if i < defs.len() - 1 {
        lemma_layout_item(out, at, body, prefix, defs.drop_last(), i);
        assert(defs.drop_last().take(i) =~= defs.take(i));
    } else {
        assert(defs.take(i) =~= defs.drop_last());
    }
}

/// A prefix of the layout that does not fit leaves the whole undescribed.
proof fn lemma_layout_fails(p: Progress, body: Seq<u8>, prefix: Seq<char>, defs: Seq<FieldDef>, n: int)
    requires
        0 <= n <= defs.len(),
        then_layout(p, body, prefix, defs.take(n)) is None,
    ensures
        then_layout(p, body, prefix, defs) is None,
    decreases defs.len(),
{
    if n == defs.len() {
        assert(defs.take(n) =~= defs);
    } else {
        assert(defs.drop_last().take(n) =~= defs.take(n));
        lemma_layout_fails(p, body, prefix, defs.drop_last(), n);
    }
}

proof fn lemma_groups_fail(
    p: Progress,
    body: Seq<u8>,
    head: Seq<char>,
    tail: Seq<char>,
    defs: Seq<FieldDef>,
    m: nat,
    n: nat,
)
    requires
        m <= n,
        then_groups(p, body, head, tail, defs, m) is None,
    ensures
        then_groups(p, body, head, tail, defs, n) is None,
    decreases n,
{
    if m < n {
        lemma_groups_fail(p, body, head, tail, defs, m, (n - 1) as nat);
        let q = then_groups(p, body, head, tail, defs, (n - 1) as nat);
        assert(defs.take(0) =~= Seq::<FieldDef>::empty());
        lemma_layout_fails(q, body, numbered(head, n as int, tail), defs, 0);
    }
}

/// A body that was too short stays undescribed.
pub proof fn lemma_groups_of_none(body: Seq<u8>, head: Seq<char>, tail: Seq<char>, defs: Seq<FieldDef>, n: nat)
    ensures
        then_groups(None, body, head, tail, defs, n) is None,
    decreases n,
{
    if n > 0 {
        lemma_groups_of_none(body, head, tail, defs, (n - 1) as nat);
        lemma_layout_of_none(body, numbered(head, n as int, tail), defs);
    }
}

/// A body that was too short stays undescribed.
pub proof fn lemma_layout_of_none(body: Seq<u8>, prefix: Seq<char>, defs: Seq<FieldDef>)
    ensures
        then_layout(None, body, prefix, defs) is None,
    decreases defs.len(),
{
    if defs.len() > 0 {
        lemma_layout_of_none(body, prefix, defs.drop_last());
    }
}

/// Describes a body field by field.
pub struct Describer<'a> {
    reader: BodyReader<'a>,
    out: Vec<ParsedField>,
}

impl<'a> Describer<'a> {
    pub closed spec fn body(&self) -> Seq<u8> {
        self.reader.body()
    }

    pub closed spec fn wf(&self) -> bool {
        self.reader.wf()
    }

    /// The fields that were described so far.
    pub closed spec fn described(&self) -> Seq<(Seq<char>, Seq<char>)> {
        self.out@.map_values(|f: ParsedField| f@)
    }

    /// The position in the body.
    pub closed spec fn at(&self) -> int {
        self.reader.at()
    }

    /// What was described so far.
    pub open spec fn progress(&self) -> Progress {
        Some((self.described(), self.at()))
    }

    pub fn new(body: &'a [u8]) -> (r: Self)
        ensures
            r.wf(),
            r.body() == body@,
            r.progress() == Some((Seq::<(Seq<char>, Seq<char>)>::empty(), 0int)),
    {
        let r = Describer { reader: BodyReader::new(body), out: Vec::new() };
        assert(r.out@.map_values(|f: ParsedField| f@) =~= Seq::<(Seq<char>, Seq<char>)>::empty());
        r
    }

    /// Adds a field that is not read from the body.
    pub fn note(&mut self, name: &str, value: String)
        requires
            old(self).wf(),
        ensures
            final(self).wf(),
            final(self).body() == old(self).body(),
            old(self).progress() matches Some((out, at)) ==> final(self).progress() == Some(
                (out.push((name@, value@)), at),
            ),
    {
        let ghost before = self.out@.map_values(|f: ParsedField| f@);
        self.out.push(ParsedField { name: name.to_owned(), value });
        assert(self.out@.map_values(|f: ParsedField| f@) =~= before.push((name@, value@)));
    }

    /// How many bytes are left.
    pub fn remaining(&self) -> (r: usize)
        requires
            self.wf(),
        ensures
            self.progress() matches Some((_, at)) ==> r == self.body().len() - at,
    {
        self.reader.remaining()
    }

    /// The unsigned number in the two bytes that come next, which stay unread.
    pub fn peek_u16(&self) -> (r: Result<u16, ShortBody>)
        requires
            self.wf(),
        ensures
            self.progress() matches Some((_, at)) ==> {
                &&& r is Ok <==> at + 2 <= self.body().len()
                &&& r matches Ok(v) ==> v == nat_at(self.body(), at, 2)
            },
    {
        let mut probe = self.reader.fork();
        probe.u16()
    }

    /// The described fields.
    pub fn into_fields(self) -> (r: Vec<ParsedField>)
        ensures
            self.progress() matches Some((out, _)) && r@.map_values(|f: ParsedField| f@) == out,
    {
        self.out
    }

    fn value(reader: &mut BodyReader<'a>, k: Kind) -> (r: Result<String, ShortBody>)
        requires
            old(reader).wf(),
            readable(k),
        ensures
            BodyReader::moved(*old(reader), *final(reader), width(k), r is Ok),
            r matches Ok(s) ==> s@ == shown(k, old(reader).body(), old(reader).at()),
    {
        match k {
            Kind::Text(n) => reader.str(n),
            Kind::Nat(n) => {
                let v: u64 = if n == 1 {
                    reader.u8()? as u64
                } else if n == 2 {
                    reader.u16()? as u64
                } else if n == 4 {
                    reader.u32()? as u64
                } else {
                    reader.u64()?
                };
                Ok(text::dec_string(v))
            },
            Kind::Int(n) => {
                let v: i64 = if n == 4 {
                    reader.i32()? as i64
                } else {
                    reader.i64()?
                };
                Ok(text::int_string(v))
            },
            Kind::Seconds16 => {
                let v: u16 = reader.u16()?;
                Ok(text::cat(text::dec_string(v as u64).as_str(), " 秒"))
            },
            Kind::Seconds32 => {
                let v: i32 = reader.i32()?;
                Ok(text::cat(text::int_string(v as i64).as_str(), " 秒"))
            },
            Kind::Shares(unit) => {
                let v: i64 = reader.i64()?;
                Ok(text::cat(text::fmt_scaled(v, unit).as_str(), " 股"))
            },
            Kind::Yuan(unit) => {
                let v: i64 = reader.i64()?;
                Ok(text::cat(text::fmt_scaled(v, unit).as_str(), " 元"))
            },
            Kind::Side => Ok(side_label(reader.ch()?)),
            Kind::OrdStatus => Ok(ord_status_label(reader.ch()?)),
            Kind::SzOrdType => Ok(sz::ord_type_label(reader.ch()?)),
            Kind::SzExecType => Ok(sz::exec_type_label(reader.ch()?)),
            Kind::SzTime => Ok(sz::fmt_time(reader.i64()?)),
            Kind::ApplId => Ok(sz::appl_id_label(reader.str(3)?.as_str())),
            Kind::ShOrdType => Ok(sh::ord_type_label(reader.ch()?)),
            Kind::ShExecType => Ok(sh::exec_type_label(reader.ch()?)),
            Kind::ShTime => Ok(sh::fmt_sh_time(reader.u64()?)),
            Kind::ShDate => Ok(sh::fmt_sh_date(reader.u32()?)),
            Kind::BizId => Ok(sh::biz_id_label(reader.u32()?)),
        }
    }

    /// Describes one field.
    pub fn field(&mut self, name: String, k: Kind) -> (r: Result<(), ShortBody>)
        requires
            old(self).wf(),
            readable(k),
        ensures
            final(self).wf(),
            final(self).body() == old(self).body(),
            r is Ok ==> final(self).progress() == then_field(
                old(self).progress(),
                old(self).body(),
                name@,
                k,
            ),
            r is Err ==> then_field(old(self).progress(), old(self).body(), name@, k) is None,
    {
        let ghost before = self.out@.map_values(|f: ParsedField| f@);
        let value = Self::value(&mut self.reader, k)?;
        self.out.push(ParsedField { name, value });
        assert(self.out@.map_values(|f: ParsedField| f@) =~= before.push((name@, value@)));
        Ok(())
    }

    /// Describes the fields of a layout, with `prefix` in front of their names.
    pub fn layout(&mut self, prefix: &str, defs: &Vec<FieldDef>) -> (r: Result<(), ShortBody>)
        requires
            old(self).wf(),
            all_readable(defs@),
        ensures
            final(self).wf(),
            final(self).body() == old(self).body(),
            r is Ok ==> final(self).progress() == then_layout(
                old(self).progress(),
                old(self).body(),
                prefix@,
                defs@,
            ),
            r is Err ==> then_layout(old(self).progress(), old(self).body(), prefix@, defs@) is None,
    {
        let ghost start = self.progress();
        let ghost body = self.body();
        let mut i: usize = 0;
        while i < defs.len()
            invariant
                i <= defs@.len(),
                self.wf(),
                self.body() == body,
                all_readable(defs@),
                start == old(self).progress(),
                body == old(self).body(),
                self.progress() == then_layout(start, body, prefix@, defs@.take(i as int)),
            decreases defs@.len() - i,
        {
            let (name, kind) = defs[i];
            let full = text::cat(prefix, name);
            assert(readable(defs@[i as int].1));
            let step = self.field(full, kind);
            proof {
                let t = defs@.take(i + 1);
                assert(t.drop_last() =~= defs@.take(i as int));
                assert(t.last() == defs@[i as int]);
            }
            if step.is_err() {
                proof {
                    lemma_layout_fails(start, body, prefix@, defs@, i + 1);
                }
                return Err(ShortBody);
            }
            i += 1;
        }
        assert(defs@.take(i as int) =~= defs@);
        Ok(())
    }

    /// Describes the fields of a layout under their own names.
    pub fn fields(&mut self, defs: &Vec<FieldDef>) -> (r: Result<(), ShortBody>)
        requires
            old(self).wf(),
            all_readable(defs@),
        ensures
            final(self).wf(),
            final(self).body() == old(self).body(),
            r is Ok ==> final(self).progress() == then_layout(
                old(self).progress(),
                old(self).body(),
                Seq::empty(),
                defs@,
            ),
            r is Err ==> then_layout(old(self).progress(), old(self).body(), Seq::empty(), defs@) is None,
    {
        proof {
            reveal_strlit("");
            assert(""@ =~= Seq::<char>::empty());
        }
        self.layout("", defs)
    }

    /// Describes a layout `n` times, with the items numbered from 1.
    pub fn groups(&mut self, head: &str, tail: &str, defs: &Vec<FieldDef>, n: u32) -> (r: Result<
        (),
        ShortBody,
    >)
        requires
            old(self).wf(),
            all_readable(defs@),
        ensures
            final(self).wf(),
            final(self).body() == old(self).body(),
            r is Ok ==> final(self).progress() == then_groups(
                old(self).progress(),
                old(self).body(),
                head@,
                tail@,
                defs@,
                n as nat,
            ),
            r is Err ==> then_groups(
                old(self).progress(),
                old(self).body(),
                head@,
                tail@,
                defs@,
                n as nat,
            ) is None,
    {
        let ghost start = self.progress();
        let ghost body = self.body();
        let mut i: u32 = 0;
        while i < n
            invariant
                i <= n,
                self.wf(),
                self.body() == body,
                all_readable(defs@),
                start == old(self).progress(),
                body == old(self).body(),
                self.progress() == then_groups(start, body, head@, tail@, defs@, i as nat),
            decreases n - i,
        {
            i += 1;
            let prefix = numbered_name(head, i, tail);
            let step = self.layout(prefix.as_str(), defs);
            if step.is_err() {
                proof {
                    lemma_groups_fail(start, body, head@, tail@, defs@, i as nat, n as nat);
                }
                return Err(ShortBody);
            }
        }
        Ok(())
    }
}

/// `head[n]tail`.
pub fn numbered_name(head: &str, n: u32, tail: &str) -> (r: String)
    ensures
        r@ == numbered(head@, n as int, tail@),
{
    let mut s = head.to_owned();
    s.push_str("[");
    text::push_dec(&mut s, n as u64);
    s.push_str("]");
    s.push_str(tail);
    s
}

/// What was described before stays when more is described.
pub proof fn lemma_layout_keeps(
    out: Seq<(Seq<char>, Seq<char>)>,
    at: int,
    body: Seq<u8>,
    prefix: Seq<char>,
    defs: Seq<FieldDef>,
)
    ensures
        then_layout(Some((out, at)), body, prefix, defs) matches Some((o, _)) ==> {
            &&& o.len() >= out.len()
            &&& forall|i: int| 0 <= i < out.len() ==> #[trigger] o[i] == out[i]
        },
    decreases defs.len(),
{
    if defs.len() > 0 {
        lemma_layout_keeps(out, at, body, prefix, defs.drop_last());
    }
}

/// The `i`-th of the fields that are shown carries this name and this value.
pub open spec fn is_shown(
    fields: Seq<(Seq<char>, Seq<char>)>,
    i: int,
    name: Seq<char>,
    value: Seq<char>,
) -> bool {
    &&& i < fields.len()
    &&& fields[i].0 == name
    &&& fields[i].1 == value
}

/// A field of a layout that a message starts with is shown behind the type of the message.
pub proof fn lemma_field_is_shown(
    first: (Seq<char>, Seq<char>),
    body: Seq<u8>,
    defs: Seq<FieldDef>,
    i: int,
)
    requires
        0 <= i < defs.len(),
        total_width(defs) <= body.len(),
    ensures
        then_layout(Some((seq![first], 0)), body, Seq::empty(), defs) matches Some((o, at))
            && is_shown(
            o,
            i + 1,
            defs[i].0@,
            shown(defs[i].1, body, total_width(defs.take(i))),
        ) && at == total_width(defs),
{
    lemma_layout_item(seq![first], 0, body, Seq::empty(), defs, i);
    lemma_layout_fits(seq![first], 0, body, Seq::empty(), defs);
    assert(Seq::<char>::empty() + defs[i].0@ =~= defs[i].0@);
}

/// A field of a layout that follows another one is shown behind what was shown before.
pub proof fn lemma_more_is_shown(
    out: Seq<(Seq<char>, Seq<char>)>,
    at: int,
    body: Seq<u8>,
    defs: Seq<FieldDef>,
    i: int,
)
    requires
        0 <= at <= body.len(),
        at + total_width(defs) <= body.len(),
        0 <= i < defs.len(),
    ensures
        then_layout(Some((out, at)), body, Seq::empty(), defs) matches Some((o, _)) && is_shown(
            o,
            out.len() + i,
            defs[i].0@,
            shown(defs[i].1, body, at + total_width(defs.take(i))),
        ),
{
    lemma_layout_item(out, at, body, Seq::empty(), defs, i);
    lemma_layout_fits(out, at, body, Seq::empty(), defs);
    assert(Seq::<char>::empty() + defs[i].0@ =~= defs[i].0@);
}

} // verus!
