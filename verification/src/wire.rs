//! Fixed-layout binary message bodies: big-endian integers and text fields of a
//! fixed width, written by [`BodyWriter`] and read back by [`BodyReader`].
use vstd::prelude::*;
use vstd::utf8::*;

use crate::text;

verus! {

/// 256 to the power `n`.
pub open spec fn pow256(n: nat) -> int
    decreases n,
{
    if n == 0 {
        1
    } else {
        256 * pow256((n - 1) as nat)
    }
}

/// The low `n` bytes of `v`, most significant first (two's complement if `v` is negative).
pub open spec fn be(v: int, n: nat) -> Seq<u8>
    decreases n,
{
    if n == 0 {
        Seq::empty()
    } else {
        be(v / 256, (n - 1) as nat).push((v % 256) as u8)
    }
}

/// The unsigned number that the bytes `s` stand for, most significant first.
pub open spec fn be_nat(s: Seq<u8>) -> int
    decreases s.len(),
{
    if s.len() == 0 {
        0
    } else {
        256 * be_nat(s.drop_last()) + s.last()
    }
}

/// The two's complement number that the bytes `s` stand for, most significant first.
pub open spec fn be_int(s: Seq<u8>) -> int {
    if s.len() > 0 && s[0] >= 128 {
        be_nat(s) - pow256(s.len())
    } else {
        be_nat(s)
    }
}

/// `n` space characters.
pub open spec fn spaces(n: nat) -> Seq<u8> {
    Seq::new(n, |i: int| 32u8)
}

/// The largest character boundary of `bytes` that is at most `n`.
pub open spec fn cut(bytes: Seq<u8>, n: nat) -> nat
    decreases n,
{
    if n == 0 || is_char_boundary(bytes, n as int) {
        n
    } else {
        cut(bytes, (n - 1) as nat)
    }
}

/// A text field of `n` bytes: the UTF-8 of `s`, cut at a character boundary where it
/// is too long and filled up with spaces where it is too short.
pub open spec fn text_field(s: Seq<char>, n: nat) -> Seq<u8> {
    let e = encode_utf8(s);
    if e.len() <= n {
        e + spaces((n - e.len()) as nat)
    } else {
        e.subrange(0, cut(e, n) as int) + spaces((n - cut(e, n)) as nat)
    }
}

/// The text that a field holds: its bytes decoded, without trailing white space.
pub open spec fn field_text(bytes: Seq<u8>) -> Seq<char> {
    text::trimmed(text::decoded(bytes))
}

/// The text of the `n` bytes of `body` that start at `at`.
pub open spec fn text_at(body: Seq<u8>, at: int, n: int) -> Seq<char> {
    field_text(body.subrange(at, at + n))
}

/// The unsigned number in the `n` bytes of `body` that start at `at`.
pub open spec fn nat_at(body: Seq<u8>, at: int, n: int) -> int {
    be_nat(body.subrange(at, at + n))
}

/// The signed number in the `n` bytes of `body` that start at `at`.
pub open spec fn int_at(body: Seq<u8>, at: int, n: int) -> int {
    be_int(body.subrange(at, at + n))
}

/// The sum of the bytes.
pub open spec fn byte_sum(s: Seq<u8>) -> int
    decreases s.len(),
{
    if s.len() == 0 {
        0
    } else {
        byte_sum(s.drop_last()) + s.last()
    }
}

/// The check value of a message: the sum of its bytes modulo 256.
pub open spec fn check_sum(s: Seq<u8>) -> int {
    byte_sum(s) % 256
}

/// `f` with `bytes` written over it from `at` on.
pub open spec fn overlaid(f: Seq<u8>, at: int, bytes: Seq<u8>) -> Seq<u8> {
    f.subrange(0, at) + bytes + f.subrange(at + bytes.len(), f.len() as int)
}

/// `f` with its last four bytes replaced by the check value of the others.
pub open spec fn resealed(f: Seq<u8>) -> Seq<u8> {
    f.subrange(0, f.len() - 4) + be(check_sum(f.subrange(0, f.len() - 4)), 4)
}

/// A text that a field of `n` bytes gives back as it is.
pub open spec fn fits(s: Seq<char>, n: nat) -> bool {
    encode_utf8(s).len() <= n && (s.len() == 0 || !text::is_white(s.last()))
}

/// The empty body, to which fields are appended.
pub open spec fn nil() -> Seq<u8> {
    Seq::empty()
}

pub proof fn lemma_pow256(n: nat)
    ensures
        pow256(n) >= 1,
    decreases n,
{
    if n > 0 {
        lemma_pow256((n - 1) as nat);
    }
}

pub proof fn lemma_be_len(v: int, n: nat)
    ensures
        be(v, n).len() == n,
    decreases n,
{
    if n > 0 {
        lemma_be_len(v / 256, (n - 1) as nat);
    }
}

pub proof fn lemma_be_nat_bound(s: Seq<u8>)
    ensures
        0 <= be_nat(s) < pow256(s.len()),
    decreases s.len(),
{
    if s.len() > 0 {
        lemma_be_nat_bound(s.drop_last());
    }
}

/// Bytes beyond the low `n` do not matter.
proof fn lemma_be_shift(v: int, n: nat)
    ensures
        be(v + pow256(n), n) == be(v, n),
    decreases n,
{
    if n > 0 {
        let p = pow256((n - 1) as nat);
        assert((v + 256 * p) / 256 == v / 256 + p && (v + 256 * p) % 256 == v % 256);
        lemma_be_shift(v / 256, (n - 1) as nat);
    }
}

/// Reading the bytes of a number gives the number back.
pub proof fn lemma_be_nat_inverse(v: int, n: nat)
    requires
        0 <= v < pow256(n),
    ensures
        be_nat(be(v, n)) == v,
    decreases n,
{
    if n > 0 {
        lemma_be_nat_inverse(v / 256, (n - 1) as nat);
        let s = be(v, n);
        lemma_be_len(v / 256, (n - 1) as nat);
        assert(s.drop_last() =~= be(v / 256, (n - 1) as nat));
        assert(s.last() == (v % 256) as u8);
    }
}

/// The first byte of an `n` byte number is its quotient by the power below.
proof fn lemma_be_first(v: int, n: nat)
    requires
        n >= 1,
        0 <= v < pow256(n),
    ensures
        be(v, n)[0] >= 128 <==> 2 * v >= pow256(n),
    decreases n,
{
    lemma_be_len(v / 256, (n - 1) as nat);
    if n == 1 {
        assert(pow256(1) == 256) by {
            reveal_with_fuel(pow256, 2);
        }
        assert(be(v, 1) =~= seq![(v % 256) as u8]) by {
            reveal_with_fuel(be, 2);
        }
    } else {
        lemma_be_first(v / 256, (n - 1) as nat);
        assert(be(v, n)[0] == be(v / 256, (n - 1) as nat)[0]);
        let p = pow256((n - 1) as nat);
        assert(p % 256 == 0) by {
            assert(p == 256 * pow256((n - 2) as nat));
        }
        assert(2 * (v / 256) >= p <==> 2 * v >= 256 * p);
    }
}

/// Reading the bytes of a signed number as a signed number gives it back.
pub proof fn lemma_be_int_inverse(v: int, n: nat)
    requires
        n >= 1,
        -pow256(n) <= 2 * v < pow256(n),
    ensures
        be_int(be(v, n)) == v,
{
    lemma_be_len(v, n);
    lemma_pow256(n);
    if v >= 0 {
        lemma_be_nat_inverse(v, n);
        lemma_be_first(v, n);
    } else {
        lemma_be_shift(v, n);
        lemma_be_nat_inverse(v + pow256(n), n);
        lemma_be_first(v + pow256(n), n);
    }
}

pub proof fn lemma_pow256_values()
    ensures
        pow256(1) == 0x100,
        pow256(2) == 0x1_0000,
        pow256(4) == 0x1_0000_0000,
        pow256(8) == 0x1_0000_0000_0000_0000,
{
    reveal_with_fuel(pow256, 9);
}

proof fn lemma_cut(bytes: Seq<u8>, n: nat)
    requires
        valid_utf8(bytes),
        n <= bytes.len(),
    ensures
        cut(bytes, n) <= n,
        is_char_boundary(bytes, cut(bytes, n) as int),
    decreases n,
{
    is_char_boundary_start_end_of_seq(bytes);
    if n == 0 || is_char_boundary(bytes, n as int) {
    } else {
        lemma_cut(bytes, (n - 1) as nat);
    }
}

/// A text field has exactly its width.
pub proof fn lemma_text_field_len(s: Seq<char>, n: nat)
    ensures
        text_field(s, n).len() == n,
{
    let e = encode_utf8(s);
    if e.len() > n {
        encode_utf8_valid_utf8(s);
        lemma_cut(e, n);
    }
}

proof fn lemma_decode_concat(a: Seq<char>, b: Seq<char>)
    ensures
        valid_utf8(encode_utf8(a) + encode_utf8(b)),
        decode_utf8(encode_utf8(a) + encode_utf8(b)) == a + b,
    decreases a.len(),
{
    lemma_encode_concat(a, b);
    encode_utf8_valid_utf8(a + b);
    encode_utf8_decode_utf8(a + b);
}

proof fn lemma_encode_concat(a: Seq<char>, b: Seq<char>)
    ensures
        encode_utf8(a + b) == encode_utf8(a) + encode_utf8(b),
    decreases a.len(),
{
    if a.len() == 0 {
        assert(a + b =~= b);
        assert(encode_utf8(a) =~= Seq::<u8>::empty());
        assert(encode_utf8(a) + encode_utf8(b) =~= encode_utf8(b));
    } else {
        assert((a + b).drop_first() =~= a.drop_first() + b);
        assert((a + b)[0] == a[0]);
        lemma_encode_concat(a.drop_first(), b);
        assert(encode_utf8(a + b) =~= encode_utf8(a) + encode_utf8(b));
    }
}

/// A field gives back the text that was written into it, where the text fits and does
/// not end in white space.
pub proof fn lemma_text_round_trip(s: Seq<char>, n: nat)
    requires
        fits(s, n),
    ensures
        field_text(text_field(s, n)) == s,
{
    let k = (n - encode_utf8(s).len()) as nat;
    let pad = Seq::new(k, |i: int| ' ');
    is_ascii_chars_encode_utf8(pad);
    assert(encode_utf8(pad) =~= spaces(k));
    lemma_decode_concat(s, pad);
    assert(text::is_blank(pad));
    text::lemma_trim_padding(s, pad);
}

/// The field of `n` bytes at `at` holds the text: padded, cut where it is too long, and read
/// back as it is where it fits.
pub open spec fn text_held(body: Seq<u8>, at: int, n: int, s: Seq<char>) -> bool {
    &&& body.subrange(at, at + n) == text_field(s, n as nat)
    &&& fits(s, n as nat) ==> text_at(body, at, n) == s
}

/// A body with one more field: the field stands behind the others, and they stay as they are.
pub proof fn appended(body: Seq<u8>, field: Seq<u8>) -> (r: Seq<u8>)
    ensures
        r == body + field,
        r.len() == body.len() + field.len(),
        r.subrange(body.len() as int, r.len() as int) == field,
        forall|a: int, b: int|
            0 <= a <= b <= body.len() ==> #[trigger] r.subrange(a, b) == body.subrange(a, b),
{
    let r = body + field;
    assert(r.subrange(body.len() as int, r.len() as int) =~= field);
    assert forall|a: int, b: int| 0 <= a <= b <= body.len() implies #[trigger] r.subrange(a, b)
        == body.subrange(a, b) by {
        assert(r.subrange(a, b) =~= body.subrange(a, b));
    }
    r
}

/// A body with one more text behind it.
pub proof fn with_text(body: Seq<u8>, s: Seq<char>, n: nat) -> (r: Seq<u8>)
    ensures
        r == body + text_field(s, n),
        r.len() == body.len() + n,
        text_held(r, body.len() as int, n as int, s),
        forall|a: int, b: int|
            0 <= a <= b <= body.len() ==> #[trigger] r.subrange(a, b) == body.subrange(a, b),
{
    lemma_text_field_len(s, n);
    if fits(s, n) {
        lemma_text_round_trip(s, n);
    }
    appended(body, text_field(s, n))
}

/// A body with one more unsigned number behind it.
pub proof fn with_nat(body: Seq<u8>, v: int, n: nat) -> (r: Seq<u8>)
    requires
        0 <= v < pow256(n),
    ensures
        r == body + be(v, n),
        r.len() == body.len() + n,
        nat_at(r, body.len() as int, n as int) == v,
        forall|a: int, b: int|
            0 <= a <= b <= body.len() ==> #[trigger] r.subrange(a, b) == body.subrange(a, b),
{
    lemma_be_len(v, n);
    lemma_be_nat_inverse(v, n);
    appended(body, be(v, n))
}

/// A body with one more signed number behind it.
pub proof fn with_int(body: Seq<u8>, v: int, n: nat) -> (r: Seq<u8>)
    requires
        n >= 1,
        -pow256(n) <= 2 * v < pow256(n),
    ensures
        r == body + be(v, n),
        r.len() == body.len() + n,
        int_at(r, body.len() as int, n as int) == v,
        forall|a: int, b: int|
            0 <= a <= b <= body.len() ==> #[trigger] r.subrange(a, b) == body.subrange(a, b),
{
    lemma_be_len(v, n);
    lemma_be_int_inverse(v, n);
    appended(body, be(v, n))
}

fn put_be(out: &mut Vec<u8>, v: u64, n: usize)
    ensures
        final(out)@ == old(out)@ + be(v as int, n as nat),
    decreases n,
{
    if n > 0 {
        put_be(out, v / 256, n - 1);
        out.push((v % 256) as u8);
    }
    assert(out@ =~= old(out)@ + be(v as int, n as nat));
}

/// Appends fields to a message body, in the order of the message's layout.
pub struct BodyWriter {
    buf: Vec<u8>,
}

impl View for BodyWriter {
    type V = Seq<u8>;

    closed spec fn view(&self) -> Seq<u8> {
        self.buf@
    }
}

impl BodyWriter {
    pub fn new() -> (r: Self)
        ensures
            r@ == nil(),
    {
        BodyWriter { buf: Vec::new() }
    }

    pub fn into_inner(self) -> (r: Vec<u8>)
        ensures
            r@ == self@,
    {
        self.buf
    }

    /// A text field of `len` bytes.
    pub fn str(&mut self, s: &str, len: usize)
        ensures
            final(self)@ == old(self)@ + text_field(s@, len as nat),
    {
        let bytes = s.as_bytes();
        let mut end: usize = bytes.len();
        proof {
            encode_utf8_valid_utf8(s@);
        }
        if end > len {
            end = len;
            while end > 0 && !s.is_char_boundary(end)
                invariant
                    bytes@ == encode_utf8(s@),
                    end <= len < bytes@.len(),
                    cut(bytes@, end as nat) == cut(bytes@, len as nat),
                decreases end,
            {
                end -= 1;
            }
        }
        let ghost e = bytes@;
        let ghost start = self.buf@;
        let mut i: usize = 0;
        while i < end
            invariant
                e == bytes@,
                i <= end <= e.len(),
                self.buf@ =~= start + e.subrange(0, i as int),
            decreases end - i,
        {
            self.buf.push(bytes[i]);
            i += 1;
        }
        let mut j: usize = end;
        while j < len
            invariant
                end <= j <= len,
                self.buf@ =~= start + e.subrange(0, end as int) + spaces((j - end) as nat),
            decreases len - j,
        {
            self.buf.push(32u8);
            j += 1;
        }
        assert(self.buf@ =~= start + text_field(s@, len as nat));
    }

    /// A single character.
    pub fn ch(&mut self, c: u8)
        ensures
            final(self)@ == old(self)@ + be(c as int, 1),
    {
        self.u8(c);
    }

    pub fn u8(&mut self, v: u8)
        ensures
            final(self)@ == old(self)@ + be(v as int, 1),
    {
        put_be(&mut self.buf, v as u64, 1);
    }

    pub fn u16(&mut self, v: u16)
        ensures
            final(self)@ == old(self)@ + be(v as int, 2),
    {
        put_be(&mut self.buf, v as u64, 2);
    }

    pub fn u32(&mut self, v: u32)
        ensures
            final(self)@ == old(self)@ + be(v as int, 4),
    {
        put_be(&mut self.buf, v as u64, 4);
    }

    pub fn u64(&mut self, v: u64)
        ensures
            final(self)@ == old(self)@ + be(v as int, 8),
    {
        put_be(&mut self.buf, v, 8);
    }

    pub fn i32(&mut self, v: i32)
        ensures
            final(self)@ == old(self)@ + be(v as int, 4),
    {
        let bits: u32 = v as u32;
        proof {
            assert(v >= 0 ==> v as u32 == v) by (bit_vector);
            assert(v < 0 ==> v as u32 == v + 0x1_0000_0000) by (bit_vector);
            lemma_pow256_values();
            lemma_be_shift(v as int, 4);
        }
        put_be(&mut self.buf, bits as u64, 4);
    }

    pub fn i64(&mut self, v: i64)
        ensures
            final(self)@ == old(self)@ + be(v as int, 8),
    {
        let bits: u64 = v as u64;
        proof {
            assert(v >= 0 ==> v as u64 == v) by (bit_vector);
            assert(v < 0 ==> v as u64 == v + 0x1_0000_0000_0000_0000) by (bit_vector);
            lemma_pow256_values();
            lemma_be_shift(v as int, 8);
        }
        put_be(&mut self.buf, bits, 8);
    }

    /// Bytes that are already laid out.
    pub fn raw(&mut self, bytes: &[u8])
        ensures
            final(self)@ == old(self)@ + bytes@,
    {
        append_bytes(&mut self.buf, bytes);
    }
}

impl Default for BodyWriter {
    fn default() -> (r: Self)
        ensures
            r@ == nil(),
    {
        BodyWriter::new()
    }
}

/// Appends all of `bytes`.
pub fn append_bytes(out: &mut Vec<u8>, bytes: &[u8])
    ensures
        final(out)@ == old(out)@ + bytes@,
{
    let mut i: usize = 0;
    while i < bytes.len()
        invariant
            i <= bytes@.len(),
            out@ =~= old(out)@ + bytes@.subrange(0, i as int),
        decreases bytes@.len() - i,
    {
        out.push(bytes[i]);
        i += 1;
    }
    assert(bytes@.subrange(0, bytes@.len() as int) =~= bytes@);
}

/// The sum of the first `n` bytes modulo 256.
pub fn sum_bytes(data: &[u8], n: usize) -> (r: u32)
    requires
        n <= data@.len(),
    ensures
        r == check_sum(data@.subrange(0, n as int)),
{
    let mut acc: u32 = 0;
    let mut i: usize = 0;
    while i < n
        invariant
            i <= n <= data@.len(),
            acc == check_sum(data@.subrange(0, i as int)),
            acc < 256,
        decreases n - i,
    {
        proof {
            let s = data@.subrange(0, i + 1);
            assert(s.drop_last() =~= data@.subrange(0, i as int));
            assert(s.last() == data@[i as int]);
        }
        acc = (acc + data[i] as u32) % 256;
        i += 1;
    }
    acc
}

/// Appends the low `n` bytes of `v`, most significant first.
pub fn append_be(out: &mut Vec<u8>, v: u64, n: usize)
    ensures
        final(out)@ == old(out)@ + be(v as int, n as nat),
{
    put_be(out, v, n);
}

/// Writes `bytes` over `f` from `at` on.
pub fn overlay(f: &mut Vec<u8>, at: usize, bytes: &Vec<u8>)
    requires
        at + bytes@.len() <= old(f)@.len(),
    ensures
        final(f)@ == overlaid(old(f)@, at as int, bytes@),
{
    let n: usize = bytes.len();
    let total: usize = f.len();
    let mut i: usize = 0;
    while i < n
        invariant
            n == bytes@.len(),
            total == f@.len(),
            i <= n,
            at + n <= f@.len(),
            f@ =~= overlaid(old(f)@, at as int, bytes@.subrange(0, i as int)),
            old(f)@.len() == f@.len(),
        decreases n - i,
    {
        f.set(at + i, bytes[i]);
        i += 1;
    }
    assert(bytes@.subrange(0, n as int) =~= bytes@);
}

/// Renews the check value in the last four bytes.
pub fn reseal(f: &mut Vec<u8>)
    requires
        old(f)@.len() >= 4,
    ensures
        final(f)@ == resealed(old(f)@),
{
    let n: usize = f.len() - 4;
    let sum: u32 = sum_bytes(f.as_slice(), n);
    let mut bytes: Vec<u8> = Vec::new();
    put_be(&mut bytes, sum as u64, 4);
    assert(bytes@ =~= be(sum as int, 4));
    proof {
        lemma_be_len(sum as int, 4);
    }
    overlay(f, n, &bytes);
    assert(f@ =~= resealed(old(f)@));
}

/// A renewed check value is right, and nothing else has changed.
pub proof fn lemma_resealed(f: Seq<u8>)
    requires
        f.len() >= 4,
    ensures
        resealed(f).len() == f.len(),
        resealed(f).subrange(0, f.len() - 4) == f.subrange(0, f.len() - 4),
        nat_at(resealed(f), f.len() - 4, 4) == check_sum(f.subrange(0, f.len() - 4)),
{
    let head = f.subrange(0, f.len() - 4);
    let sum = check_sum(head);
    lemma_be_len(sum, 4);
    lemma_pow256_values();
    assert(resealed(f).subrange(0, f.len() - 4) =~= head);
    assert(resealed(f).subrange(f.len() - 4, f.len() as int) =~= be(sum, 4));
    lemma_be_nat_inverse(sum, 4);
}

/// A body ended before the field that was to be read from it.
#[derive(Debug, Clone, Copy, PartialEq, Eq, Structural)]
pub struct ShortBody;

impl ShortBody {
    pub fn message(&self) -> (r: &'static str)
        ensures
            r@ == "消息体长度不足"@,
    {
        "消息体长度不足"
    }
}

/// The number in the `n` bytes that start at `at`.
pub fn read_be(bytes: &[u8], at: usize, n: usize) -> (r: u64)
    requires
        n <= 8,
        at + n <= bytes@.len(),
    ensures
        r == nat_at(bytes@, at as int, n as int),
        r < pow256(n as nat),
{
    let total: usize = bytes.len();
    let mut v: u64 = 0;
    let mut i: usize = 0;
    while i < n
        invariant
            i <= n <= 8,
            total == bytes@.len(),
            at + n <= total,
            v == nat_at(bytes@, at as int, i as int),
            v < pow256(i as nat),
        decreases n - i,
    {
        proof {
            reveal_with_fuel(pow256, 9);
            let s = bytes@.subrange(at as int, at + i + 1);
            assert(s.drop_last() =~= bytes@.subrange(at as int, at + i));
            assert(s.last() == bytes@[at + i]);
            assert(pow256((i + 1) as nat) == 256 * pow256(i as nat));
            assert(pow256(i as nat) <= 0x100_0000_0000_0000) by {
                assert(i == 0 || i == 1 || i == 2 || i == 3 || i == 4 || i == 5 || i == 6 || i == 7);
            }
        }
        v = v * 256 + bytes[at + i] as u64;
        i += 1;
    }
    v
}

/// Reads the fields of a message body one after the other.
pub struct BodyReader<'a> {
    buf: &'a [u8],
    pos: usize,
}

impl<'a> BodyReader<'a> {
    /// The bytes that are read from.
    pub closed spec fn body(&self) -> Seq<u8> {
        self.buf@
    }

    /// How many bytes were read.
    pub closed spec fn at(&self) -> int {
        self.pos as int
    }

    pub open spec fn wf(&self) -> bool {
        0 <= self.at() <= self.body().len() && self.body().len() <= usize::MAX
    }

    pub fn new(buf: &'a [u8]) -> (r: Self)
        ensures
            r.wf(),
            r.body() == buf@,
            r.at() == 0,
    {
        assert(buf@.len() == buf.len());
        BodyReader { buf, pos: 0 }
    }

    pub fn remaining(&self) -> (r: usize)
        requires
            self.wf(),
        ensures
            r == self.body().len() - self.at(),
    {
        self.buf.len() - self.pos
    }

    /// A second reader at the same place.
    pub fn fork(&self) -> (r: Self)
        requires
            self.wf(),
        ensures
            r.wf(),
            r.body() == self.body(),
            r.at() == self.at(),
    {
        BodyReader { buf: self.buf, pos: self.pos }
    }

    /// A read of `n` bytes succeeds exactly where they are there, and then moves the
    /// reader past them.
    pub open spec fn moved(old: Self, new: Self, n: int, ok: bool) -> bool {
        &&& new.wf()
        &&& new.body() == old.body()
        &&& ok == (old.at() + n <= old.body().len())
        &&& new.at() == (if ok { old.at() + n } else { old.at() })
    }

    fn take(&mut self, n: usize) -> (r: Result<usize, ShortBody>)
        requires
            old(self).wf(),
        ensures
            Self::moved(*old(self), *final(self), n as int, r is Ok),
            r matches Ok(from) ==> from == old(self).at(),
    {
        if self.remaining() < n {
            return Err(ShortBody);
        }
        let from: usize = self.pos;
        self.pos = self.pos + n;
        Ok(from)
    }

    /// Moves past `n` bytes.
    pub fn skip(&mut self, n: usize)
        requires
            old(self).wf(),
            old(self).at() + n <= old(self).body().len(),
        ensures
            Self::moved(*old(self), *final(self), n as int, true),
    {
        self.pos = self.pos + n;
    }

    /// A text field of `len` bytes.
    pub fn str(&mut self, len: usize) -> (r: Result<String, ShortBody>)
        requires
            old(self).wf(),
        ensures
            Self::moved(*old(self), *final(self), len as int, r is Ok),
            r matches Ok(s) ==> s@ == text_at(old(self).body(), old(self).at(), len as int),
    {
        let from: usize = self.take(len)?;
        let raw = slice_of(self.buf, from, len);
        let decoded = text::decode_lossy(raw);
        Ok(text::trim_end(decoded.as_str()).to_owned())
    }

    /// A single character.
    pub fn ch(&mut self) -> (r: Result<u8, ShortBody>)
        requires
            old(self).wf(),
        ensures
            Self::moved(*old(self), *final(self), 1, r is Ok),
            r matches Ok(v) ==> v == nat_at(old(self).body(), old(self).at(), 1),
    {
        self.u8()
    }

    pub fn u8(&mut self) -> (r: Result<u8, ShortBody>)
        requires
            old(self).wf(),
        ensures
            Self::moved(*old(self), *final(self), 1, r is Ok),
            r matches Ok(v) ==> v == nat_at(old(self).body(), old(self).at(), 1),
    {
        let from: usize = self.take(1)?;
        proof {
            lemma_pow256_values();
        }
        Ok(read_be(self.buf, from, 1) as u8)
    }

    pub fn u16(&mut self) -> (r: Result<u16, ShortBody>)
        requires
            old(self).wf(),
        ensures
            Self::moved(*old(self), *final(self), 2, r is Ok),
            r matches Ok(v) ==> v == nat_at(old(self).body(), old(self).at(), 2),
    {
        let from: usize = self.take(2)?;
        proof {
            lemma_pow256_values();
        }
        Ok(read_be(self.buf, from, 2) as u16)
    }

    pub fn u32(&mut self) -> (r: Result<u32, ShortBody>)
        requires
            old(self).wf(),
        ensures
            Self::moved(*old(self), *final(self), 4, r is Ok),
            r matches Ok(v) ==> v == nat_at(old(self).body(), old(self).at(), 4),
    {
        let from: usize = self.take(4)?;
        proof {
            lemma_pow256_values();
        }
        Ok(read_be(self.buf, from, 4) as u32)
    }

    pub fn u64(&mut self) -> (r: Result<u64, ShortBody>)
        requires
            old(self).wf(),
        ensures
            Self::moved(*old(self), *final(self), 8, r is Ok),
            r matches Ok(v) ==> v == nat_at(old(self).body(), old(self).at(), 8),
    {
        let from: usize = self.take(8)?;
        Ok(read_be(self.buf, from, 8))
    }

    pub fn i32(&mut self) -> (r: Result<i32, ShortBody>)
        requires
            old(self).wf(),
        ensures
            Self::moved(*old(self), *final(self), 4, r is Ok),
            r matches Ok(v) ==> v == int_at(old(self).body(), old(self).at(), 4),
    {
        let from: usize = self.take(4)?;
        let v: u32 = read_be(self.buf, from, 4) as u32;
        proof {
            lemma_pow256_values();
            let s = self.buf@.subrange(from as int, from + 4);
            lemma_be_nat_first(s);
            assert(v < 0x8000_0000 ==> v as i32 == v) by (bit_vector);
            assert(v >= 0x8000_0000 ==> v as i32 == v - 0x1_0000_0000) by (bit_vector);
        }
        Ok(v as i32)
    }

    pub fn i64(&mut self) -> (r: Result<i64, ShortBody>)
        requires
            old(self).wf(),
        ensures
            Self::moved(*old(self), *final(self), 8, r is Ok),
            r matches Ok(v) ==> v == int_at(old(self).body(), old(self).at(), 8),
    {
        let from: usize = self.take(8)?;
        let v: u64 = read_be(self.buf, from, 8);
        proof {
            lemma_pow256_values();
            let s = self.buf@.subrange(from as int, from + 8);
            lemma_be_nat_first(s);
            assert(v < 0x8000_0000_0000_0000 ==> v as i64 == v) by (bit_vector);
            assert(v >= 0x8000_0000_0000_0000 ==> v as i64 == v - 0x1_0000_0000_0000_0000) by (bit_vector);
        }
        Ok(v as i64)
    }
}

/// The `len` bytes of `bytes` that start at `from`.
pub fn slice_of(bytes: &[u8], from: usize, len: usize) -> (r: &[u8])
    requires
        from + len <= bytes@.len(),
    ensures
        r@ == bytes@.subrange(from as int, from + len),
{
    let total: usize = bytes.len();
    assert(from + len <= total);
    vstd::slice::slice_subrange(bytes, from, from + len)
}

/// A number's first byte tells whether it reaches half of its range.
proof fn lemma_be_nat_first(s: Seq<u8>)
    requires
        s.len() >= 1,
    ensures
        s[0] >= 128 <==> 2 * be_nat(s) >= pow256(s.len()),
    decreases s.len(),
{
    lemma_be_nat_bound(s);
    if s.len() == 1 {
        reveal_with_fuel(pow256, 2);
        reveal_with_fuel(be_nat, 2);
        assert(s.drop_last() =~= Seq::<u8>::empty());
    } else {
        lemma_be_nat_first(s.drop_last());
        let p = pow256((s.len() - 1) as nat);
        assert(p % 256 == 0) by {
            assert(p == 256 * pow256((s.len() - 2) as nat));
        }
        let q = be_nat(s.drop_last());
        assert(2 * q >= p <==> 2 * (256 * q + s.last()) >= 256 * p);
    }
}

/// Numbers stand with their highest byte first; a signed number is less by the next power
/// where its first bit is set.
pub proof fn law_highest_first(b: Seq<u8>, at: int)
    requires
        0 <= at,
        at + 4 <= b.len(),
    ensures
        nat_at(b, at, 1) == b[at],
        nat_at(b, at, 2) == b[at] * 256 + b[at + 1],
        nat_at(b, at, 4) == ((b[at] * 256 + b[at + 1]) * 256 + b[at + 2]) * 256 + b[at + 3],
        int_at(b, at, 4) == nat_at(b, at, 4) - if b[at] >= 128 {
            0x1_0000_0000int
        } else {
            0
        },
{
    let s1 = b.subrange(at, at + 1);
    let s2 = b.subrange(at, at + 2);
    let s3 = b.subrange(at, at + 3);
    let s4 = b.subrange(at, at + 4);
    assert(s1.drop_last() =~= nil());
    assert(be_nat(nil()) == 0);
    assert(s2.drop_last() =~= s1);
    assert(s3.drop_last() =~= s2);
    assert(s4.drop_last() =~= s3);
    assert(be_nat(s1) == b[at]);
    assert(be_nat(s2) == 256 * be_nat(s1) + b[at + 1]);
    assert(be_nat(s3) == 256 * be_nat(s2) + b[at + 2]);
    lemma_pow256_values();
}

/// The sum of bytes takes every byte once, whatever their order.
pub proof fn law_byte_sum(a: Seq<u8>, b: Seq<u8>, x: u8)
    ensures
        byte_sum(nil()) == 0,
        byte_sum(seq![x]) == x,
        byte_sum(a + b) == byte_sum(a) + byte_sum(b),
    decreases b.len(),
{
    assert(seq![x].drop_last() =~= nil());
    if b.len() == 0 {
        assert(a + b =~= a);
    } else {
        assert((a + b).drop_last() =~= a + b.drop_last());
        law_byte_sum(a, b.drop_last(), x);
    }
}

/// A text of letters and digits stands at the front of its field, a byte for each, and spaces
/// fill the rest.
pub proof fn law_text_is_padded(s: Seq<char>, n: nat, i: int)
    requires
        is_ascii_chars(s),
        s.len() <= n,
        0 <= i < n,
    ensures
        text_field(s, n).len() == n,
        i < s.len() ==> text_field(s, n)[i] == s[i] as u8,
        i >= s.len() ==> text_field(s, n)[i] == 0x20,
{
    is_ascii_chars_encode_utf8(s);
    lemma_text_field_len(s, n);
    encode_utf8_valid_utf8(s);
}

/// Texts one behind the other are encoded one behind the other.
pub proof fn law_encoded_apart(a: Seq<char>, b: Seq<char>)
    ensures
        encode_utf8(a + b) == encode_utf8(a) + encode_utf8(b),
{
    lemma_encode_concat(a, b);
}

/// What the bytes of a signed number stand for lies between half the power on either side.
pub proof fn lemma_be_int_range(s: Seq<u8>)
    requires
        s.len() >= 1,
    ensures
        -pow256(s.len()) <= 2 * be_int(s) < pow256(s.len()),
    decreases s.len(),
{
    lemma_first_byte(s);
    lemma_be_nat_bound(s);
}

proof fn lemma_first_byte(s: Seq<u8>)
    requires
        s.len() >= 1,
    ensures
        s[0] >= 128 <==> 2 * be_nat(s) >= pow256(s.len()),
    decreases s.len(),
{
    if s.len() == 1 {
        assert(s.drop_last() =~= nil());
        assert(be_nat(nil()) == 0);
        assert(pow256(0) == 1);
    } else {
        let t = s.drop_last();
        lemma_first_byte(t);
        assert(t[0] == s[0]);
        lemma_be_nat_bound(t);
        lemma_half(t.len());
        assert(pow256(s.len()) == 256 * pow256(t.len()));
    }
}

proof fn lemma_half(n: nat)
    requires
        n >= 1,
    ensures
        pow256(n) % 2 == 0,
{
    assert(pow256(n) == 256 * pow256((n - 1) as nat));
}

} // verus!
