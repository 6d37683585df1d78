//! What the server says when it looks for a newer version of itself.
use std::cmp::Ordering;
use vstd::prelude::*;

use crate::text;

verus! {

/// The number of a part of a version; 0 where it is none of 32 bits.
pub open spec fn part_number(part: Seq<char>) -> int {
    match text::parsed_nat(part, 0xffff_ffff) {
        Some(v) => v,
        None => 0,
    }
}

/// The number at a place of a version; 0 behind the last.
pub open spec fn number_at(parts: Seq<Seq<char>>, i: int) -> int {
    if i < parts.len() {
        part_number(parts[i])
    } else {
        0
    }
}

/// The first place at which two versions differ, from `i` on; the greater length where they
/// do not.
pub open spec fn first_difference(a: Seq<Seq<char>>, b: Seq<Seq<char>>, i: int) -> int
    decreases a.len() + b.len() - i,
{
    if i >= a.len() && i >= b.len() {
        i
    } else if number_at(a, i) != number_at(b, i) {
        i
    } else {
        first_difference(a, b, i + 1)
    }
}

/// How much greater the first version is than the second at the first place at which they
/// differ; 0 where they do not.
pub open spec fn difference(a: Seq<char>, b: Seq<char>) -> int {
    let p = text::pieces(a, '.');
    let q = text::pieces(b, '.');
    let i = first_difference(p, q, 0);
    number_at(p, i) - number_at(q, i)
}

fn number_of(parts: &Vec<Vec<char>>, i: usize) -> (r: u32)
    ensures
        r == number_at(text::piece_views(parts@), i as int),
{
    if i >= parts.len() {
        return 0;
    }
    let n: usize = parts[i].len();
    assert(parts@[i as int]@.subrange(0, n as int) =~= parts@[i as int]@);
    match text::parse_nat(&parts[i], 0, n) {
        Some(v) => v,
        None => 0,
    }
}

/// The numbers at the first place at which two versions differ; both 0 where they do not.
fn differing(a: &str, b: &str) -> (r: (u32, u32))
    ensures
        r.0 - r.1 == difference(a@, b@),
{
    let x = text::split_on(a, '.');
    let y = text::split_on(b, '.');
    let ghost p = text::pieces(a@, '.');
    let ghost q = text::pieces(b@, '.');
    let mut i: usize = 0;
    while i < x.len() || i < y.len()
        invariant
            i <= x@.len() || i <= y@.len(),
            p == text::piece_views(x@),
            q == text::piece_views(y@),
            p == text::pieces(a@, '.'),
            q == text::pieces(b@, '.'),
            first_difference(p, q, 0) == first_difference(p, q, i as int),
        decreases x@.len() + y@.len() - i,
    {
        let m: u32 = number_of(&x, i);
        let n: u32 = number_of(&y, i);
        if m != n {
            return (m, n);
        }
        i += 1;
    }
    (0, 0)
}

/// How two versions compare, part by part; a part that is missing counts as 0.
pub fn version_cmp(a: &str, b: &str) -> (r: Ordering)
    ensures
        r == (if difference(a@, b@) < 0 {
            Ordering::Less
        } else if difference(a@, b@) > 0 {
            Ordering::Greater
        } else {
            Ordering::Equal
        }),
{
    let (x, y) = differing(a, b);
    if x < y {
        Ordering::Less
    } else if x > y {
        Ordering::Greater
    } else {
        Ordering::Equal
    }
}

/// What is said of the version that the update server offers; an empty one is none.
pub open spec fn notice(latest: Seq<char>, current: Seq<char>) -> Seq<char> {
    if latest.len() == 0 {
        "  检查更新：服务器上的 version.json 格式无效"@
    } else if difference(latest, current) > 0 {
        "  发现新版本 "@ + latest + "（当前 "@ + current + "），请到更新服务器下载部署"@
    } else {
        "  已是最新版本 "@ + current
    }
}

/// What is said of the version that the update server offers.
pub fn update_notice(latest: &str, current: &str) -> (r: String)
    ensures
        r@ == notice(latest@, current@),
{
    if latest.is_empty() {
        return "  检查更新：服务器上的 version.json 格式无效".to_owned();
    }
    match version_cmp(latest, current) {
        Ordering::Greater => {
            let mut out = "  发现新版本 ".to_owned();
            out.push_str(latest);
            out.push_str("（当前 ");
            out.push_str(current);
            out.push_str("），请到更新服务器下载部署");
            out
        },
        _ => text::cat("  已是最新版本 ", current),
    }
}

/// `s` without the slashes at its end.
pub open spec fn without_slashes(s: Seq<char>) -> Seq<char>
    decreases s.len(),
{
    if s.len() > 0 && s.last() == '/' {
        without_slashes(s.drop_last())
    } else {
        s
    }
}

/// Where the update server tells what it offers.
pub fn manifest_url(base: &str) -> (r: String)
    ensures
        r@ == without_slashes(base@) + "/version.json"@,
{
    let chars = text::chars_of(base);
    let mut n: usize = chars.len();
    assert(base@.take(n as int) =~= base@);
    while n > 0 && chars[n - 1] == '/'
        invariant
            n <= chars@.len(),
            chars@ == base@,
            without_slashes(base@.take(n as int)) == without_slashes(base@),
        decreases n,
    {
        assert(base@.take(n as int).drop_last() =~= base@.take(n - 1));
        n -= 1;
    }
    assert(base@.take(n as int) =~= base@.subrange(0, n as int));
    let mut out = text::string_of(&chars, 0, n);
    out.push_str("/version.json");
    out
}

/// The name under which an installer is stored: the last part of its address.
pub open spec fn stored_name(url: Seq<char>) -> Seq<char> {
    let last = text::pieces(url, '/').last();
    if last.len() == 0 {
        "simuxchange-setup.exe"@
    } else {
        last
    }
}

/// The name under which an installer is stored.
pub fn download_name(url: &str) -> (r: String)
    ensures
        r@ == stored_name(url@),
{
    let parts = text::split_on(url, '/');
    let k: usize = parts.len() - 1;
    let n: usize = parts[k].len();
    assert(text::piece_views(parts@).last() == parts@[k as int]@);
    if n == 0 {
        return "simuxchange-setup.exe".to_owned();
    }
    assert(parts@[k as int]@.subrange(0, n as int) =~= parts@[k as int]@);
    text::string_of(&parts[k], 0, n)
}

/// Which of two versions is newer: the first place at which they differ as numbers decides,
/// and a place that a version does not have counts as 0. So versions that differ in zeros at
/// their end alone are the same.
pub proof fn law_first_place_decides(a: Seq<char>, b: Seq<char>, i: int)
    requires
        0 <= i,
        i < text::pieces(a, '.').len() || i < text::pieces(b, '.').len(),
        number_at(text::pieces(a, '.'), i) != number_at(text::pieces(b, '.'), i),
        forall|k: int|
            0 <= k < i ==> #[trigger] number_at(text::pieces(a, '.'), k) == number_at(
                text::pieces(b, '.'),
                k,
            ),
    ensures
        difference(a, b) == number_at(text::pieces(a, '.'), i) - number_at(
            text::pieces(b, '.'),
            i,
        ),
{
    lemma_first_difference(text::pieces(a, '.'), text::pieces(b, '.'), 0, i);
}

proof fn lemma_first_difference(a: Seq<Seq<char>>, b: Seq<Seq<char>>, from: int, i: int)
    requires
        0 <= from <= i,
        i < a.len() || i < b.len(),
        number_at(a, i) != number_at(b, i),
        forall|k: int| from <= k < i ==> #[trigger] number_at(a, k) == number_at(b, k),
    ensures
        first_difference(a, b, from) == i,
    decreases i - from,
{
    if from < i {
        assert(number_at(a, from) == number_at(b, from));
        lemma_first_difference(a, b, from + 1, i);
    }
}

/// Versions that agree at every place are the same.
pub proof fn law_same_versions(a: Seq<char>, b: Seq<char>)
    requires
        forall|k: int|
            0 <= k ==> #[trigger] number_at(text::pieces(a, '.'), k) == number_at(
                text::pieces(b, '.'),
                k,
            ),
    ensures
        difference(a, b) == 0,
{
    let p = text::pieces(a, '.');
    let q = text::pieces(b, '.');
    lemma_from_start(p, q, 0);
    let i = first_difference(p, q, 0);
    assert(number_at(p, i) == number_at(q, i));
}

proof fn lemma_from_start(a: Seq<Seq<char>>, b: Seq<Seq<char>>, i: int)
    requires
        0 <= i,
    ensures
        first_difference(a, b, i) >= i,
    decreases a.len() + b.len() - i,
{
    if (i < a.len() || i < b.len()) && number_at(a, i) == number_at(b, i) {
        lemma_from_start(a, b, i + 1);
    }
}

/// The parts of a version count as the numbers that they spell; one that has no room counts
/// as 0.
pub proof fn law_part_number(n: nat)
    ensures
        part_number(text::dec(n)) == (if n <= u32::MAX {
            n as int
        } else {
            0
        }),
{
    text::lemma_dec_value(n);
    assert(text::is_digit(text::dec(n)[0]));
}

/// Slashes at the end of an address change nothing.
pub proof fn law_slashes_are_dropped(base: Seq<char>)
    ensures
        without_slashes(base.push('/')) == without_slashes(base),
        base.len() == 0 || base.last() != '/' ==> without_slashes(base) == base,
{
    assert(base.push('/').drop_last() =~= base);
}

/// A newer version is announced with its name and that of the current one, and any other is
/// not. An empty version is none.
pub proof fn law_newer_version_is_announced(latest: Seq<char>, current: Seq<char>)
    requires
        latest.len() > 0,
    ensures
        difference(latest, current) > 0 ==> notice(latest, current) == "  发现新版本 "@ + latest
            + "（当前 "@ + current + "），请到更新服务器下载部署"@,
        difference(latest, current) <= 0 ==> notice(latest, current) == "  已是最新版本 "@
            + current,
        notice(Seq::empty(), current) == "  检查更新：服务器上的 version.json 格式无效"@,
{
}

/// An installer is stored under what stands behind the last slash of its address, or under a
/// name of its own where nothing does.
pub proof fn law_stored_name(front: Seq<char>, name: Seq<char>)
    requires
        !name.contains('/'),
    ensures
        name.len() > 0 ==> stored_name(front.push('/') + name) == name && stored_name(name)
            == name,
        stored_name(front.push('/')) == "simuxchange-setup.exe"@,
        stored_name(Seq::empty()) == "simuxchange-setup.exe"@,
{
    let none = Seq::<char>::empty();
    text::law_pieces(front, name, '/');
    text::law_pieces(front, none, '/');
    assert(front.push('/') + none =~= front.push('/'));
    assert(text::pieces(front, '/').push(name).last() == name);
    assert(text::pieces(front, '/').push(none).last() == none);
}

} // verus!
