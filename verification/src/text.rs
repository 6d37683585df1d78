//! Text as the protocols and the user interface need it: decimal numbers, zero
//! padding, numbers scaled by a power of ten, trimming and comparison.
use vstd::prelude::*;
use vstd::utf8::*;

verus! {

/// The decimal digit `d` as a character.
pub open spec fn digit(d: int) -> char {
    (48 + d) as u8 as char
}

/// `n` in decimal, without leading zeros.
pub open spec fn dec(n: nat) -> Seq<char>
    decreases n,
{
    if n < 10 {
        seq![digit(n as int)]
    } else {
        dec(n / 10).push(digit((n % 10) as int))
    }
}

/// `v` in decimal, with a minus sign in front of a negative number.
pub open spec fn dec_int(v: int) -> Seq<char> {
    if v < 0 {
        seq!['-'] + dec((-v) as nat)
    } else {
        dec(v as nat)
    }
}

/// `n` zeros.
pub open spec fn zeros(n: nat) -> Seq<char> {
    Seq::new(n, |i: int| '0')
}

/// `s` padded on the left with zeros up to `width` characters.
pub open spec fn zero_pad(s: Seq<char>, width: nat) -> Seq<char> {
    if s.len() >= width {
        s
    } else {
        zeros((width - s.len()) as nat) + s
    }
}

/// `s` without the zeros at its end.
pub open spec fn drop_zeros(s: Seq<char>) -> Seq<char>
    decreases s.len(),
{
    if s.len() > 0 && s.last() == '0' {
        drop_zeros(s.drop_last())
    } else {
        s
    }
}

/// The fraction digits of `a / unit`, without trailing zeros.
pub open spec fn fraction(a: nat, unit: nat) -> Seq<char> {
    drop_zeros(zero_pad(dec(a % unit), (dec(unit).len() - 1) as nat))
}

/// `a / unit` in decimal, for a `unit` that is a power of ten.
pub open spec fn scaled_nat(a: nat, unit: nat) -> Seq<char> {
    let frac = fraction(a, unit);
    if frac.len() == 0 {
        dec(a / unit)
    } else {
        dec(a / unit) + seq!['.'] + frac
    }
}

/// `v / unit` in decimal: sign, whole part, and a fraction without trailing zeros.
pub open spec fn scaled(v: int, unit: nat) -> Seq<char> {
    if v < 0 {
        seq!['-'] + scaled_nat((-v) as nat, unit)
    } else {
        scaled_nat(v as nat, unit)
    }
}

/// The characters that Unicode calls white space.
pub open spec fn is_white(c: char) -> bool {
    let n = c as u32;
    ||| 0x09 <= n <= 0x0d
    ||| n == 0x20
    ||| n == 0x85
    ||| n == 0xa0
    ||| n == 0x1680
    ||| 0x2000 <= n <= 0x200a
    ||| n == 0x2028
    ||| n == 0x2029
    ||| n == 0x202f
    ||| n == 0x205f
    ||| n == 0x3000
}

/// `s` without the white space at its end.
pub open spec fn trimmed(s: Seq<char>) -> Seq<char>
    decreases s.len(),
{
    if s.len() > 0 && is_white(s.last()) {
        trimmed(s.drop_last())
    } else {
        s
    }
}

/// `s` consists of white space alone.
pub open spec fn is_blank(s: Seq<char>) -> bool {
    forall|i: int| 0 <= i < s.len() ==> is_white(#[trigger] s[i])
}

/// `String::push` appends the character to the end of the string.
pub assume_specification[ String::push ](s: &mut String, c: char)
    ensures
        final(s)@ == old(s)@.push(c),
;

/// `String::push_str` appends the string slice to the end of the string.
pub assume_specification[ String::push_str ](s: &mut String, t: &str)
    ensures
        final(s)@ == old(s)@ + t@,
;

/// `str::trim_end` returns the slice without its trailing Unicode white space.
#[verifier::external_body]
pub(crate) fn trim_end(s: &str) -> (r: &str)
    ensures
        r@ == trimmed(s@),
{
    s.trim_end()
}

/// `char::is_whitespace` tests the Unicode property White_Space.
pub assume_specification[ char::is_whitespace ](c: char) -> (r: bool)
    ensures
        r == is_white(c),
;

/// What `String::from_utf8_lossy` makes of bytes that are not UTF-8.
pub uninterp spec fn utf8_lossy(bytes: Seq<u8>) -> Seq<char>;

/// The text of a sequence of bytes: decoded where they are UTF-8, repaired where not.
pub open spec fn decoded(bytes: Seq<u8>) -> Seq<char> {
    if valid_utf8(bytes) {
        decode_utf8(bytes)
    } else {
        utf8_lossy(bytes)
    }
}

/// `String::from_utf8_lossy`: decodes UTF-8 and puts replacement characters where
/// the bytes are not UTF-8. Which characters those are is not stated; valid bytes
/// decode to the text they stand for.
#[verifier::external_body]
pub(crate) fn decode_lossy(bytes: &[u8]) -> (r: String)
    ensures
        !valid_utf8(bytes@) ==> r@ == utf8_lossy(bytes@),
        valid_utf8(bytes@) ==> r@ == decode_utf8(bytes@),
{
    String::from_utf8_lossy(bytes).into_owned()
}

fn digit_char(d: u8) -> (c: char)
    requires
        d < 10,
    ensures
        c == digit(d as int),
{
    (48 + d) as char
}

/// Appends `v` in decimal.
pub fn push_dec(out: &mut String, v: u64)
    ensures
        final(out)@ == old(out)@ + dec(v as nat),
    decreases v,
{
    if v < 10 {
        out.push(digit_char(v as u8));
    } else {
        push_dec(out, v / 10);
        out.push(digit_char((v % 10) as u8));
    }
    assert(out@ =~= old(out)@ + dec(v as nat));
}

/// The magnitude of `v`.
pub fn magnitude(v: i64) -> (r: u64)
    ensures
        r == (if v < 0 { -v } else { v as int }),
{
    if v < 0 {
        (-(v as i128)) as u64
    } else {
        v as u64
    }
}

/// Appends `v` in decimal, with its sign.
pub fn push_int(out: &mut String, v: i64)
    ensures
        final(out)@ == old(out)@ + dec_int(v as int),
{
    if v < 0 {
        out.push('-');
    }
    push_dec(out, magnitude(v));
    assert(out@ =~= old(out)@ + dec_int(v as int));
}

/// `v` in decimal.
pub fn dec_string(v: u64) -> (r: String)
    ensures
        r@ == dec(v as nat),
{
    let mut out = String::new();
    push_dec(&mut out, v);
    assert(out@ =~= dec(v as nat));
    out
}

/// `v` in decimal, with its sign.
pub fn int_string(v: i64) -> (r: String)
    ensures
        r@ == dec_int(v as int),
{
    let mut out = String::new();
    push_int(&mut out, v);
    assert(out@ =~= dec_int(v as int));
    out
}

fn push_digits(out: &mut Vec<char>, v: u64)
    ensures
        final(out)@ == old(out)@ + dec(v as nat),
    decreases v,
{
    if v < 10 {
        out.push(digit_char(v as u8));
    } else {
        push_digits(out, v / 10);
        out.push(digit_char((v % 10) as u8));
    }
    assert(out@ =~= old(out)@ + dec(v as nat));
}

/// The digits of `v`, padded with zeros on the left up to `width` characters.
pub fn pad_digits(v: u64, width: usize) -> (r: Vec<char>)
    ensures
        r@ == zero_pad(dec(v as nat), width as nat),
{
    let mut digits: Vec<char> = Vec::new();
    push_digits(&mut digits, v);
    assert(digits@ =~= dec(v as nat));
    let mut out: Vec<char> = Vec::new();
    let n = digits.len();
    if n < width {
        let mut i: usize = 0;
        while i < width - n
            invariant
                n < width,
                i <= width - n,
                out@ =~= zeros(i as nat),
            decreases width - n - i,
        {
            out.push('0');
            i += 1;
        }
    }
    out.append(&mut digits);
    assert(out@ =~= zero_pad(dec(v as nat), width as nat));
    out
}

/// Appends the characters `from..to` of `digits`.
pub fn push_slice(out: &mut String, digits: &Vec<char>, from: usize, to: usize)
    requires
        from <= to <= digits.len(),
    ensures
        final(out)@ == old(out)@ + digits@.subrange(from as int, to as int),
{
    let mut i: usize = from;
    while i < to
        invariant
            from <= i <= to <= digits.len(),
            out@ =~= old(out)@ + digits@.subrange(from as int, i as int),
        decreases to - i,
    {
        out.push(digits[i]);
        i += 1;
    }
}

/// Appends `v` in decimal, padded with zeros on the left up to `width` characters.
pub fn push_padded(out: &mut String, v: u64, width: usize)
    ensures
        final(out)@ == old(out)@ + zero_pad(dec(v as nat), width as nat),
{
    let digits = pad_digits(v, width);
    push_slice(out, &digits, 0, digits.len());
    assert(digits@.subrange(0, digits@.len() as int) =~= digits@);
}

/// `v` in decimal, padded with zeros on the left up to `width` characters.
pub fn padded(v: u64, width: usize) -> (r: String)
    ensures
        r@ == zero_pad(dec(v as nat), width as nat),
{
    let mut out = String::new();
    push_padded(&mut out, v, width);
    assert(out@ =~= zero_pad(dec(v as nat), width as nat));
    out
}

/// `v / unit` in decimal, without trailing zeros in the fraction.
pub fn fmt_scaled(v: i64, unit: i64) -> (r: String)
    requires
        unit > 0,
    ensures
        r@ == scaled(v as int, unit as nat),
{
    let a: u64 = magnitude(v);
    let u: u64 = unit as u64;
    let mut unit_digits: Vec<char> = Vec::new();
    push_digits(&mut unit_digits, u);
    assert(unit_digits@ =~= dec(u as nat));
    let mut frac = pad_digits(a % u, unit_digits.len() - 1);
    let ghost whole = frac@;
    while frac.len() > 0 && frac[frac.len() - 1] == '0'
        invariant
            drop_zeros(frac@) == drop_zeros(whole),
        decreases frac.len(),
    {
        frac.pop();
    }
    assert(frac@ == fraction(a as nat, u as nat));
    let mut out = String::new();
    if v < 0 {
        out.push('-');
    }
    push_dec(&mut out, a / u);
    if frac.len() > 0 {
        out.push('.');
        push_slice(&mut out, &frac, 0, frac.len());
        assert(frac@.subrange(0, frac@.len() as int) =~= frac@);
    }
    assert(out@ =~= scaled(v as int, unit as nat));
    out
}

/// `v / unit` with all digits of the fraction, for a `unit` that is a power of ten.
pub open spec fn fixed(v: int, unit: nat) -> Seq<char> {
    let a = if v < 0 {
        (-v) as nat
    } else {
        v as nat
    };
    let digits = dec(a / unit) + seq!['.'] + zero_pad(dec(a % unit), (dec(unit).len() - 1) as nat);
    if v < 0 {
        seq!['-'] + digits
    } else {
        digits
    }
}

/// `v / unit` with all digits of the fraction.
pub fn fmt_fixed(v: i64, unit: i64) -> (r: String)
    requires
        unit > 0,
    ensures
        r@ == fixed(v as int, unit as nat),
{
    let a: u64 = magnitude(v);
    let u: u64 = unit as u64;
    let mut unit_digits: Vec<char> = Vec::new();
    push_digits(&mut unit_digits, u);
    assert(unit_digits@ =~= dec(u as nat));
    let mut out = String::new();
    if v < 0 {
        out.push('-');
    }
    push_dec(&mut out, a / u);
    out.push('.');
    push_padded(&mut out, a % u, unit_digits.len() - 1);
    assert(out@ =~= fixed(v as int, unit as nat));
    out
}

/// `s` without the zeros at its front.
pub open spec fn strip_zeros(s: Seq<char>) -> Seq<char>
    decreases s.len(),
{
    if s.len() > 0 && s[0] == '0' {
        strip_zeros(s.drop_first())
    } else {
        s
    }
}

/// `s` without the zeros at its front.
pub fn without_zeros(s: &str) -> (r: String)
    ensures
        r@ == strip_zeros(s@),
{
    let chars = chars_of(s);
    let mut i: usize = 0;
    assert(s@.skip(0) =~= s@);
    while i < chars.len() && chars[i] == '0'
        invariant
            i <= chars@.len(),
            chars@ == s@,
            strip_zeros(s@.skip(i as int)) == strip_zeros(s@),
        decreases chars@.len() - i,
    {
        assert(s@.skip(i as int).drop_first() =~= s@.skip(i + 1));
        i += 1;
    }
    assert(s@.skip(i as int) =~= s@.subrange(i as int, s@.len() as int));
    string_of(&chars, i, chars.len())
}

/// `a` followed by `b`.
pub fn cat(a: &str, b: &str) -> (r: String)
    ensures
        r@ == a@ + b@,
{
    let mut out = a.to_owned();
    out.push_str(b);
    out
}

/// The one-character string of the byte `b`, read as a character number.
pub fn char_string(b: u8) -> (r: String)
    ensures
        r@ == seq![b as char],
{
    let mut out = String::new();
    out.push(b as char);
    assert(out@ =~= seq![b as char]);
    out
}

/// The characters of `s`.
pub fn chars_of(s: &str) -> (r: Vec<char>)
    ensures
        r@ == s@,
{
    let mut out: Vec<char> = Vec::new();
    for c in it: s.chars()
        invariant
            out@ =~= it.seq().take(it.index() as int),
            it.seq() == s@,
    {
        out.push(c);
    }
    out
}

/// The characters `from..to` of `chars` as a string.
pub fn string_of(chars: &Vec<char>, from: usize, to: usize) -> (r: String)
    requires
        from <= to <= chars.len(),
    ensures
        r@ == chars@.subrange(from as int, to as int),
{
    let mut out = String::new();
    push_slice(&mut out, chars, from, to);
    assert(out@ =~= chars@.subrange(from as int, to as int));
    out
}

/// Whether `c` is a decimal digit.
pub open spec fn is_digit(c: char) -> bool {
    48 <= c as u32 <= 57
}

/// The number that decimal digits stand for.
pub open spec fn number(s: Seq<char>) -> int
    decreases s.len(),
{
    if s.len() == 0 {
        0
    } else {
        number(s.drop_last()) * 10 + (s.last() as u32 - 48)
    }
}

/// One or more decimal digits and nothing else.
pub open spec fn all_digits(s: Seq<char>) -> bool {
    s.len() > 0 && forall|i: int| 0 <= i < s.len() ==> is_digit(#[trigger] s[i])
}

/// `s` without a plus sign at its front.
pub open spec fn unsigned_part(s: Seq<char>) -> Seq<char> {
    if s.len() > 0 && s[0] == '+' {
        s.drop_first()
    } else {
        s
    }
}

/// The unsigned number that `s` spells, if it spells one that is at most `max`.
pub open spec fn parsed_nat(s: Seq<char>, max: int) -> Option<int> {
    let d = unsigned_part(s);
    if all_digits(d) && number(d) <= max {
        Some(number(d))
    } else {
        None
    }
}

/// The signed number of 32 bits that `s` spells, if it spells one.
pub open spec fn parsed_i32(s: Seq<char>) -> Option<int> {
    if s.len() > 0 && s[0] == '-' {
        let d = s.drop_first();
        if all_digits(d) && number(d) <= 0x8000_0000 {
            Some(-number(d))
        } else {
            None
        }
    } else {
        parsed_nat(s, 0x7fff_ffff)
    }
}

proof fn lemma_number_grows(s: Seq<char>, k: int)
    requires
        all_digits(s),
        0 <= k <= s.len(),
    ensures
        0 <= number(s.take(k)) <= number(s),
    decreases s.len(),
{
    assert(is_digit(s[s.len() - 1]));
    assert(number(Seq::<char>::empty()) == 0);
    if s.len() == 1 {
        assert(s.drop_last() =~= Seq::<char>::empty());
        if k == 0 {
            assert(s.take(0) =~= Seq::<char>::empty());
        } else {
            assert(s.take(1) =~= s);
        }
    } else {
        assert(all_digits(s.drop_last())) by {
            assert forall|i: int| 0 <= i < s.len() - 1 implies is_digit(#[trigger] s.drop_last()[i]) by {
                assert(is_digit(s[i]));
            }
        }
        if k == s.len() {
            lemma_number_grows(s.drop_last(), s.len() - 1);
            assert(s.drop_last().take(s.len() - 1) =~= s.drop_last());
            assert(s.take(k) =~= s);
        } else {
            lemma_number_grows(s.drop_last(), k);
            assert(s.drop_last().take(k) =~= s.take(k));
        }
    }
}

/// The number that the digits `from..to` of `chars` spell, if they are digits and the
/// number is at most `max`.
fn read_digits(chars: &Vec<char>, from: usize, to: usize, max: u64) -> (r: Option<u64>)
    requires
        from <= to <= chars@.len(),
    ensures
        ({
            let d = chars@.subrange(from as int, to as int);
            match r {
                Some(v) => all_digits(d) && number(d) == v && v <= max,
                None => !(all_digits(d) && number(d) <= max),
            }
        }),
{
    let ghost d = chars@.subrange(from as int, to as int);
    if from == to {
        return None;
    }
    let mut v: u128 = 0;
    let mut i: usize = from;
    while i < to
        invariant
            from <= i <= to <= chars@.len(),
                d == chars@.subrange(from as int, to as int),
            v == number(d.take(i - from)),
            v <= max,
            forall|k: int| 0 <= k < i - from ==> is_digit(#[trigger] d[k]),
        decreases to - i,
    {
        let c: u32 = chars[i] as u32;
        assert(d[i - from] == chars@[i as int]);
        if c < 48 || c > 57 {
            assert(!is_digit(d[i - from]));
            return None;
        }
        proof {
            let t = d.take(i - from + 1);
            assert(t.drop_last() =~= d.take(i - from));
            assert(t.last() == d[i - from]);
        }
        v = v * 10 + (c - 48) as u128;
        if v > max as u128 {
            proof {
                if all_digits(d) {
                    lemma_number_grows(d, i - from + 1);
                }
            }
            return None;
        }
        i += 1;
    }
    assert(d.take(to - from) =~= d);
    Some(v as u64)
}

/// The unsigned number of at most 32 bits that the characters `from..to` spell.
pub fn parse_nat(chars: &Vec<char>, from: usize, to: usize) -> (r: Option<u32>)
    requires
        from <= to <= chars@.len(),
    ensures
        match r {
            Some(v) => parsed_nat(chars@.subrange(from as int, to as int), 0xffff_ffff) == Some(v as int),
            None => parsed_nat(chars@.subrange(from as int, to as int), 0xffff_ffff) is None,
        },
{
    let ghost s = chars@.subrange(from as int, to as int);
    let mut at: usize = from;
    if from < to && chars[from] == '+' {
        at = from + 1;
        assert(s.drop_first() =~= chars@.subrange(from + 1, to as int));
    }
    match read_digits(chars, at, to, 0xffff_ffff) {
        Some(v) => Some(v as u32),
        None => None,
    }
}

/// The unsigned number of at most 64 bits that the characters `from..to` spell.
pub fn parse_u64(chars: &Vec<char>, from: usize, to: usize) -> (r: Option<u64>)
    requires
        from <= to <= chars@.len(),
    ensures
        match r {
            Some(v) => parsed_nat(
                chars@.subrange(from as int, to as int),
                0xffff_ffff_ffff_ffff,
            ) == Some(v as int),
            None => parsed_nat(
                chars@.subrange(from as int, to as int),
                0xffff_ffff_ffff_ffff,
            ) is None,
        },
{
    let ghost s = chars@.subrange(from as int, to as int);
    let mut at: usize = from;
    if from < to && chars[from] == '+' {
        at = from + 1;
        assert(s.drop_first() =~= chars@.subrange(from + 1, to as int));
    }
    read_digits(chars, at, to, 0xffff_ffff_ffff_ffff)
}

/// The signed number of 32 bits that the characters `from..to` spell.
pub fn parse_i32(chars: &Vec<char>, from: usize, to: usize) -> (r: Option<i32>)
    requires
        from <= to <= chars@.len(),
    ensures
        match r {
            Some(v) => parsed_i32(chars@.subrange(from as int, to as int)) == Some(v as int),
            None => parsed_i32(chars@.subrange(from as int, to as int)) is None,
        },
{
    let ghost s = chars@.subrange(from as int, to as int);
    if from < to && chars[from] == '-' {
        assert(s.drop_first() =~= chars@.subrange(from + 1, to as int));
        return match read_digits(chars, from + 1, to, 0x8000_0000) {
            Some(v) => Some((-(v as i64)) as i32),
            None => None,
        };
    }
    let mut at: usize = from;
    if from < to && chars[from] == '+' {
        at = from + 1;
        assert(s.drop_first() =~= chars@.subrange(from + 1, to as int));
    }
    match read_digits(chars, at, to, 0x7fff_ffff) {
        Some(v) => Some(v as i32),
        None => None,
    }
}

/// The pieces of `s` between the separators.
pub open spec fn pieces(s: Seq<char>, sep: char) -> Seq<Seq<char>>
    decreases s.len(),
{
    if s.len() == 0 {
        seq![Seq::empty()]
    } else {
        let before = pieces(s.drop_last(), sep);
        if s.last() == sep {
            before.push(Seq::empty())
        } else {
            before.drop_last().push(before.last().push(s.last()))
        }
    }
}

pub proof fn lemma_pieces_nonempty(s: Seq<char>, sep: char)
    ensures
        pieces(s, sep).len() >= 1,
    decreases s.len(),
{
    if s.len() > 0 {
        lemma_pieces_nonempty(s.drop_last(), sep);
    }
}

/// The characters of each piece.
pub open spec fn piece_views(v: Seq<Vec<char>>) -> Seq<Seq<char>> {
    v.map_values(|p: Vec<char>| p@)
}

/// Cuts `s` at the separators.
pub fn split_on(s: &str, sep: char) -> (r: Vec<Vec<char>>)
    ensures
        piece_views(r@) == pieces(s@, sep),
        r@.len() >= 1,
{
    let chars = chars_of(s);
    let mut done: Vec<Vec<char>> = Vec::new();
    let mut cur: Vec<char> = Vec::new();
    let mut i: usize = 0;
    assert(piece_views(done@).push(cur@) =~= pieces(s@.take(0), sep));
    while i < chars.len()
        invariant
            i <= chars@.len(),
            chars@ == s@,
            piece_views(done@).push(cur@) =~= pieces(s@.take(i as int), sep),
        decreases chars@.len() - i,
    {
        let ghost t = s@.take(i + 1);
        assert(t.drop_last() =~= s@.take(i as int));
        assert(t.last() == s@[i as int]);
        let ghost before = piece_views(done@);
        let c = chars[i];
        if c == sep {
            let ghost old_cur = cur@;
            done.push(cur);
            cur = Vec::new();
            assert(piece_views(done@) =~= before.push(old_cur));
        } else {
            let ghost old_cur = cur@;
            cur.push(c);
            assert(before.push(old_cur).drop_last() =~= before);
        }
        i += 1;
    }
    let ghost before = piece_views(done@);
    let ghost last = cur@;
    done.push(cur);
    assert(piece_views(done@) =~= before.push(last));
    assert(s@.take(i as int) =~= s@);
    done
}

/// `s` without the white space at its front.
pub open spec fn trimmed_front(s: Seq<char>) -> Seq<char>
    decreases s.len(),
{
    if s.len() > 0 && is_white(s[0]) {
        trimmed_front(s.drop_first())
    } else {
        s
    }
}

/// `s` without the white space at both ends.
pub open spec fn trimmed_both(s: Seq<char>) -> Seq<char> {
    trimmed(trimmed_front(s))
}

/// Where the characters without the white space at both ends start and end.
pub fn trim_range(chars: &Vec<char>) -> (r: (usize, usize))
    ensures
        r.0 <= r.1 <= chars@.len(),
        chars@.subrange(r.0 as int, r.1 as int) == trimmed_both(chars@),
{
    let mut from: usize = 0;
    let ghost s = chars@;
    assert(s.subrange(0, s.len() as int) =~= s);
    while from < chars.len() && chars[from].is_whitespace()
        invariant
            from <= chars@.len(),
            s == chars@,
            trimmed_front(s.subrange(from as int, s.len() as int)) == trimmed_front(s),
        decreases chars@.len() - from,
    {
        assert(s.subrange(from as int, s.len() as int).drop_first() =~= s.subrange(
            from + 1,
            s.len() as int,
        ));
        from += 1;
    }
    let ghost front = s.subrange(from as int, s.len() as int);
    let mut to: usize = chars.len();
    while to > from && chars[to - 1].is_whitespace()
        invariant
            from <= to <= chars@.len(),
            s == chars@,
            trimmed(s.subrange(from as int, to as int)) == trimmed(front),
        decreases to,
    {
        assert(s.subrange(from as int, to as int).drop_last() =~= s.subrange(from as int, to - 1));
        to -= 1;
    }
    (from, to)
}

/// Whether two string slices hold the same text.
pub fn same_text(a: &str, b: &str) -> (r: bool)
    ensures
        r == (a@ == b@),
{
    let x = a.as_bytes();
    let y = b.as_bytes();
    proof {
        encode_utf8_decode_utf8(a@);
        encode_utf8_decode_utf8(b@);
    }
    if x.len() != y.len() {
        return false;
    }
    let mut i: usize = 0;
    while i < x.len()
        invariant
            x@ == encode_utf8(a@),
            y@ == encode_utf8(b@),
            x@.len() == y@.len(),
            i <= x@.len(),
            forall|k: int| 0 <= k < i ==> x@[k] == y@[k],
        decreases x@.len() - i,
    {
        if x[i] != y[i] {
            return false;
        }
        i += 1;
    }
    assert(x@ =~= y@);
    true
}

/// Whether `s` is empty or white space alone.
pub fn blank(s: &str) -> (r: bool)
    ensures
        r == is_blank(s@),
{
    let t = trim_end(s);
    proof {
        lemma_blank_trimmed(s@);
    }
    t.is_empty()
}

proof fn lemma_blank_trimmed(s: Seq<char>)
    ensures
        is_blank(s) == (trimmed(s).len() == 0),
    decreases s.len(),
{
    if s.len() > 0 && is_white(s.last()) {
        lemma_blank_trimmed(s.drop_last());
        assert forall|i: int| is_blank(s.drop_last()) && 0 <= i < s.len() implies is_white(#[trigger] s[i]) by {
            if i < s.len() - 1 {
                assert(s.drop_last()[i] == s[i]);
            }
        }
        assert forall|i: int| is_blank(s) && 0 <= i < s.len() - 1 implies is_white(#[trigger] s.drop_last()[i]) by {
            assert(s[i] == s.drop_last()[i]);
        }
    } else if s.len() > 0 {
        assert(!is_white(s[s.len() - 1]));
    }
}

/// A number in decimal spells the number.
pub proof fn lemma_dec_value(n: nat)
    ensures
        all_digits(dec(n)),
        number(dec(n)) == n,
    decreases n,
{
    if n < 10 {
        assert(dec(n).drop_last() =~= Seq::<char>::empty());
        assert(number(Seq::<char>::empty()) == 0);
    } else {
        lemma_dec_value(n / 10);
        assert(dec(n).drop_last() =~= dec(n / 10));
        assert forall|i: int| 0 <= i < dec(n).len() implies is_digit(#[trigger] dec(n)[i]) by {
            if i < dec(n / 10).len() {
                assert(is_digit(dec(n / 10)[i]));
            }
        }
    }
}

proof fn lemma_zeros_value(k: nat, s: Seq<char>)
    ensures
        number(zeros(k) + s) == number(s),
    decreases s.len(), k,
{
    let t = zeros(k) + s;
    if s.len() > 0 {
        assert(t.drop_last() =~= zeros(k) + s.drop_last());
        lemma_zeros_value(k, s.drop_last());
    } else if k > 0 {
        assert(t.drop_last() =~= zeros((k - 1) as nat) + s);
        assert(t.last() == '0');
        lemma_zeros_value((k - 1) as nat, s);
    } else {
        assert(t =~= s);
    }
}

/// Leading zeros do not change the number.
pub proof fn lemma_padded_value(n: nat, width: nat)
    ensures
        number(zero_pad(dec(n), width)) == n,
{
    lemma_dec_value(n);
    if dec(n).len() < width {
        lemma_zeros_value((width - dec(n).len()) as nat, dec(n));
    }
}

/// White space behind a text changes nothing of what trimming leaves.
pub proof fn lemma_trim_behind(s: Seq<char>, pad: Seq<char>)
    requires
        is_blank(pad),
    ensures
        trimmed(s + pad) == trimmed(s),
    decreases pad.len(),
{
    if pad.len() == 0 {
        assert(s + pad =~= s);
    } else {
        let t = s + pad;
        assert(t.last() == pad[pad.len() - 1]);
        assert(t.drop_last() =~= s + pad.drop_last());
        assert forall|i: int| 0 <= i < pad.drop_last().len() implies is_white(
            #[trigger] pad.drop_last()[i],
        ) by {
            assert(pad.drop_last()[i] == pad[i]);
        }
        lemma_trim_behind(s, pad.drop_last());
    }
}

/// White space at the end of a text is all that trimming takes away.
pub proof fn lemma_trim_padding(s: Seq<char>, pad: Seq<char>)
    requires
        is_blank(pad),
        s.len() == 0 || !is_white(s.last()),
    ensures
        trimmed(s + pad) == s,
    decreases pad.len(),
{
    if pad.len() == 0 {
        assert(s + pad =~= s);
    } else {
        assert((s + pad).drop_last() =~= s + pad.drop_last());
        assert((s + pad).last() == pad[pad.len() - 1]);
        assert(is_blank(pad.drop_last())) by {
            assert forall|i: int| 0 <= i < pad.len() - 1 implies is_white(#[trigger] pad.drop_last()[i]) by {
                assert(pad[i] == pad.drop_last()[i]);
            }
        }
        lemma_trim_padding(s, pad.drop_last());
    }
}

/// Ten to the power of `k`.
pub open spec fn pow10(k: nat) -> nat
    decreases k,
{
    if k == 0 {
        1
    } else {
        10 * pow10((k - 1) as nat)
    }
}

/// A number below a power of ten has at most so many digits, and one that is not has more.
pub proof fn lemma_dec_len(n: nat, k: nat)
    ensures
        k > 0 && n < pow10(k) ==> dec(n).len() <= k,
        n >= pow10(k) ==> dec(n).len() > k,
        k == 16 ==> pow10(k) == 10_000_000_000_000_000,
    decreases n,
{
    if k == 16 {
        reveal_with_fuel(pow10, 17);
    }
    if n >= 10 {
        if k > 0 {
            lemma_dec_len(n / 10, (k - 1) as nat);
            if k == 1 {
                assert(pow10(1) == 10 * pow10(0));
            }
        } else {
            lemma_dec_len(n / 10, 0);
        }
    } else if k > 0 {
        lemma_pow10_grows(k);
    }
}

proof fn lemma_pow10_grows(k: nat)
    requires
        k > 0,
    ensures
        pow10(k) >= 10,
    decreases k,
{
    if k > 1 {
        lemma_pow10_grows((k - 1) as nat);
    } else {
        assert(pow10(0) == 1);
    }
}

/// A number that is written in decimal is read as itself, with or without white space around
/// it; a number that has no room in 32 bits is not read.
pub proof fn law_number_is_read(v: int, front: Seq<char>, behind: Seq<char>)
    requires
        is_blank(front),
        is_blank(behind),
    ensures
        -0x8000_0000 <= v <= 0x7fff_ffff ==> parsed_i32(
            trimmed_both(front + dec_int(v) + behind),
        ) == Some(v),
        v < -0x8000_0000 || v > 0x7fff_ffff ==> parsed_i32(
            trimmed_both(front + dec_int(v) + behind),
        ) is None,
{
    let s = dec_int(v);
    let d = if v < 0 {
        dec((-v) as nat)
    } else {
        dec(v as nat)
    };
    lemma_dec_value(if v < 0 {
        (-v) as nat
    } else {
        v as nat
    });
    assert(is_digit(d[0]));
    assert(is_digit(d[d.len() - 1]));
    assert(s.last() == d.last());
    assert(front + s + behind =~= front + (s + behind));
    lemma_trim_front(front, s + behind);
    lemma_trim_padding(s, behind);
    if v < 0 {
        assert(s.drop_first() =~= d);
    }
}

proof fn lemma_trim_front(front: Seq<char>, s: Seq<char>)
    requires
        is_blank(front),
        s.len() > 0,
        !is_white(s[0]),
    ensures
        trimmed_front(front + s) == s,
    decreases front.len(),
{
    let t = front + s;
    if front.len() == 0 {
        assert(t =~= s);
    } else {
        assert(t[0] == front[0]);
        assert(t.drop_first() =~= front.drop_first() + s);
        assert forall|i: int| 0 <= i < front.drop_first().len() implies is_white(
            #[trigger] front.drop_first()[i],
        ) by {
            assert(front.drop_first()[i] == front[i + 1]);
        }
        lemma_trim_front(front.drop_first(), s);
    }
}

/// Texts are cut where the separator stands: a text without one is one piece, and a separator
/// behind a text starts a new one.
pub proof fn law_pieces(a: Seq<char>, b: Seq<char>, sep: char)
    requires
        !b.contains(sep),
    ensures
        pieces(b, sep) == seq![b],
        pieces(a.push(sep) + b, sep) == pieces(a, sep).push(b),
    decreases b.len(),
{
    lemma_pieces_nonempty(a, sep);
    if b.len() == 0 {
        assert(b =~= Seq::<char>::empty());
        assert(pieces(b, sep) =~= seq![b]);
        let t = a.push(sep);
        assert(t + b =~= t);
        assert(t.drop_last() =~= a);
    } else {
        let c = b.drop_last();
        assert(b[b.len() - 1] == b.last());
        assert(!c.contains(sep)) by {
            assert forall|i: int| 0 <= i < c.len() implies c[i] != sep by {
                assert(b[i] == c[i]);
            }
        }
        law_pieces(a, c, sep);
        assert(c.push(b.last()) =~= b);
        assert(seq![c].drop_last().push(b) =~= seq![b]);
        let t = a.push(sep) + b;
        assert(t.drop_last() =~= a.push(sep) + c);
        assert(pieces(a, sep).push(c).drop_last().push(b) =~= pieces(a, sep).push(b));
    }
}

/// Digits one behind the other spell the number of the first, moved by as many places as the
/// second has, and that of the second.
pub proof fn lemma_number_concat(a: Seq<char>, b: Seq<char>)
    ensures
        number(a + b) == number(a) * pow10(b.len()) + number(b),
    decreases b.len(),
{
    if b.len() == 0 {
        assert(a + b =~= a);
        assert(pow10(0) == 1);
        assert(number(a) * 1 == number(a)) by (nonlinear_arith);
    } else {
        let t = a + b;
        assert(t.drop_last() =~= a + b.drop_last());
        lemma_number_concat(a, b.drop_last());
        let x = number(a);
        let p = pow10((b.len() - 1) as nat) as int;
        assert(10 * (x * p) == x * (10 * p)) by (nonlinear_arith);
    }
}

/// A number with all digits of its fraction is exact: without its sign and its point its digits
/// spell the number, and the point stands before as many digits as the unit has zeros.
pub proof fn law_fixed_is_exact(v: int, k: nat)
    requires
        k > 0,
    ensures
        ({
            let a = if v < 0 {
                (-v) as nat
            } else {
                v as nat
            };
            let s = fixed(v, pow10(k));
            let sign: int = if v < 0 {
                1
            } else {
                0
            };
            let at = s.len() - k - 1;
            &&& v < 0 ==> s[0] == '-'
            &&& sign < at < s.len()
            &&& s[at] == '.'
            &&& number(s.subrange(sign, at) + s.subrange(at + 1, s.len() as int)) == a
        }),
{
    let a = if v < 0 {
        (-v) as nat
    } else {
        v as nat
    };
    let unit = pow10(k);
    let s = fixed(v, unit);
    let sign: int = if v < 0 {
        1
    } else {
        0
    };
    lemma_pow10_grows(k);
    lemma_dec_len(unit, k);
    lemma_dec_len((unit - 1) as nat, k);
    lemma_pow10_len(k);
    let w = dec(a / unit);
    let f = zero_pad(dec(a % unit), k);
    lemma_dec_value(a / unit);
    lemma_padded_value(a % unit, k);
    vstd::arithmetic::div_mod::lemma_mod_bound(a as int, unit as int);
    lemma_dec_len(a % unit, k);
    assert(f.len() == k);
    let at = s.len() - k - 1;
    assert(s.subrange(sign, at) =~= w);
    assert(s.subrange(at + 1, s.len() as int) =~= f);
    lemma_number_concat(w, f);
    vstd::arithmetic::div_mod::lemma_fundamental_div_mod(a as int, unit as int);
    assert((a / unit) * unit == unit * (a / unit)) by (nonlinear_arith);
}

/// A power of ten has one digit more than it has zeros.
proof fn lemma_pow10_len(k: nat)
    ensures
        dec(pow10(k)).len() == k + 1,
    decreases k,
{
    if k == 0 {
        assert(pow10(0) == 1);
    } else {
        lemma_pow10_len((k - 1) as nat);
        lemma_pow10_grows(k);
        assert(pow10(k) / 10 == pow10((k - 1) as nat));
    }
}

/// A number with its fraction cut short: what is cut are zeros at its end alone, with the point
/// where nothing is left behind it.
pub proof fn law_scaled_is_exact(v: int, k: nat)
    requires
        k > 0,
    ensures
        ({
            let s = scaled(v, pow10(k));
            let t = fixed(v, pow10(k));
            ||| exists|n: nat| t == #[trigger] zeros_behind(s, n) && s.last() != '0'
            ||| t == zeros_behind(s.push('.'), k)
        }),
{
    let a = if v < 0 {
        (-v) as nat
    } else {
        v as nat
    };
    let unit = pow10(k);
    lemma_pow10_grows(k);
    lemma_pow10_len(k);
    lemma_dec_len(a % unit, k);
    vstd::arithmetic::div_mod::lemma_mod_bound(a as int, unit as int);
    let f = zero_pad(dec(a % unit), k);
    let s = scaled(v, unit);
    let t = fixed(v, unit);
    lemma_drop_zeros(f);
    let frac = drop_zeros(f);
    if frac.len() == 0 {
        assert(t =~= zeros_behind(s.push('.'), k));
    } else {
        let n = (f.len() - frac.len()) as nat;
        assert(t =~= zeros_behind(s, n));
        assert(s.last() == frac.last());
    }
}

/// A text with zeros behind it.
pub open spec fn zeros_behind(s: Seq<char>, n: nat) -> Seq<char> {
    s + zeros(n)
}

proof fn lemma_drop_zeros(s: Seq<char>)
    ensures
        drop_zeros(s).len() <= s.len(),
        s == drop_zeros(s) + zeros((s.len() - drop_zeros(s).len()) as nat),
        drop_zeros(s).len() > 0 ==> drop_zeros(s).last() != '0',
    decreases s.len(),
{
    if s.len() > 0 && s.last() == '0' {
        lemma_drop_zeros(s.drop_last());
        let d = drop_zeros(s);
        let n = (s.len() - 1 - d.len()) as nat;
        assert(s =~= s.drop_last().push('0'));
        assert(zeros(n + 1) =~= zeros(n).push('0'));
        assert(s =~= d + zeros(n + 1));
    } else {
        assert(s =~= s + zeros(0));
    }
}

/// What trimming leaves is a part of the text without white space at its ends.
pub proof fn lemma_trimmed_both(s: Seq<char>)
    ensures
        ({
            let t = trimmed_both(s);
            &&& t.len() > 0 ==> !is_white(t[0]) && !is_white(t[t.len() - 1])
            &&& exists|k: int|
                0 <= k && k + t.len() <= s.len() && #[trigger] s.subrange(k, k + t.len()) == t
        }),
{
    let f = trimmed_front(s);
    let t = trimmed_both(s);
    lemma_trimmed_front(s);
    lemma_trimmed_end(f);
    let k = s.len() - f.len();
    assert(t =~= f.subrange(0, t.len() as int));
    assert(f =~= s.subrange(k, s.len() as int));
    assert(s.subrange(k, k + t.len()) =~= t);
}

proof fn lemma_trimmed_front(s: Seq<char>)
    ensures
        trimmed_front(s).len() <= s.len(),
        trimmed_front(s) == s.subrange(s.len() - trimmed_front(s).len(), s.len() as int),
        trimmed_front(s).len() > 0 ==> !is_white(trimmed_front(s)[0]),
    decreases s.len(),
{
    if s.len() > 0 && is_white(s[0]) {
        let t = s.drop_first();
        lemma_trimmed_front(t);
        let f = trimmed_front(t);
        assert(t.subrange(t.len() - f.len(), t.len() as int) =~= s.subrange(
            s.len() - f.len(),
            s.len() as int,
        ));
    } else {
        assert(s.subrange(0, s.len() as int) =~= s);
    }
}

proof fn lemma_trimmed_end(s: Seq<char>)
    ensures
        trimmed(s).len() <= s.len(),
        trimmed(s) == s.take(trimmed(s).len() as int),
        trimmed(s).len() > 0 ==> !is_white(trimmed(s).last()),
    decreases s.len(),
{
    if s.len() > 0 && is_white(s.last()) {
        lemma_trimmed_end(s.drop_last());
        let n = trimmed(s).len() as int;
        assert(s.drop_last().take(n) =~= s.take(n));
    } else {
        assert(s.take(s.len() as int) =~= s);
    }
}

} // verus!
