//! The update server: which installer is the newest, and what may be published and deleted.
use vstd::prelude::*;
use vstd::seq_lib::*;

use crate::text;

verus! {

/// The number of a part of a version; 0 where it is none of 64 bits.
pub open spec fn part_number(part: Seq<char>) -> int {
    match text::parsed_nat(part, 0xffff_ffff_ffff_ffff) {
        Some(v) => v,
        None => 0,
    }
}

/// How two lists of parts compare: 1 where the first is greater, -1 where it is less. Parts
/// compare as numbers; of two lists that agree the longer one is greater.
pub open spec fn parts_order(a: Seq<Seq<char>>, b: Seq<Seq<char>>) -> int
    decreases a.len(),
{
    if a.len() == 0 && b.len() == 0 {
        0
    } else if a.len() == 0 {
        -1
    } else if b.len() == 0 {
        1
    } else if part_number(a[0]) > part_number(b[0]) {
        1
    } else if part_number(a[0]) < part_number(b[0]) {
        -1
    } else {
        parts_order(a.drop_first(), b.drop_first())
    }
}

/// How two versions compare, part by part.
pub open spec fn version_order(a: Seq<char>, b: Seq<char>) -> int {
    parts_order(text::pieces(a, '.'), text::pieces(b, '.'))
}

fn number_of(part: &Vec<char>) -> (r: u64)
    ensures
        r == part_number(part@),
{
    assert(part@.subrange(0, part@.len() as int) =~= part@);
    match text::parse_u64(part, 0, part.len()) {
        Some(v) => v,
        None => 0,
    }
}

fn compare_versions(a: &str, b: &str) -> (r: i32)
    ensures
        r == version_order(a@, b@),
{
    let x = text::split_on(a, '.');
    let y = text::split_on(b, '.');
    let ghost p = text::pieces(a@, '.');
    let ghost q = text::pieces(b@, '.');
    let mut i: usize = 0;
    assert(p.skip(0) =~= p && q.skip(0) =~= q);
    while i < x.len() && i < y.len()
        invariant
            i <= x@.len(),
            i <= y@.len(),
            p == text::piece_views(x@),
            q == text::piece_views(y@),
            p == text::pieces(a@, '.'),
            q == text::pieces(b@, '.'),
            parts_order(p, q) == parts_order(p.skip(i as int), q.skip(i as int)),
        decreases x@.len() - i,
    {
        let m: u64 = number_of(&x[i]);
        let n: u64 = number_of(&y[i]);
        assert(p.skip(i as int)[0] == x@[i as int]@ && q.skip(i as int)[0] == y@[i as int]@);
        if m != n {
            return if m > n {
                1
            } else {
                -1
            };
        }
        assert(p.skip(i as int).drop_first() =~= p.skip(i + 1));
        assert(q.skip(i as int).drop_first() =~= q.skip(i + 1));
        i += 1;
    }
    if i < y.len() {
        -1
    } else if i < x.len() {
        1
    } else {
        0
    }
}

/// How two versions compare: 1 where the first is greater, -1 where it is less.
pub fn version_cmp(a: &str, b: &str) -> (r: i32)
    ensures
        r == version_order(a@, b@),
{
    compare_versions(a, b)
}

proof fn lemma_parts_order(a: Seq<Seq<char>>, b: Seq<Seq<char>>)
    ensures
        parts_order(a, b) == -parts_order(b, a),
    decreases a.len(),
{
    if a.len() > 0 && b.len() > 0 {
        lemma_parts_order(a.drop_first(), b.drop_first());
    }
}

proof fn lemma_parts_same(a: Seq<Seq<char>>)
    ensures
        parts_order(a, a) == 0,
    decreases a.len(),
{
    if a.len() > 0 {
        lemma_parts_same(a.drop_first());
    }
}

proof fn lemma_parts_transitive(a: Seq<Seq<char>>, b: Seq<Seq<char>>, c: Seq<Seq<char>>)
    ensures
        parts_order(a, b) <= 0 && parts_order(b, c) <= 0 ==> parts_order(a, c) <= 0,
        parts_order(a, b) < 0 && parts_order(b, c) <= 0 ==> parts_order(a, c) < 0,
        parts_order(a, b) <= 0 && parts_order(b, c) < 0 ==> parts_order(a, c) < 0,
    decreases a.len() + b.len() + c.len(),
{
    if a.len() > 0 && b.len() > 0 && c.len() > 0 {
        lemma_parts_transitive(a.drop_first(), b.drop_first(), c.drop_first());
    }
}

/// Versions are ordered: swapping two turns the comparison round, and what is not greater
/// than a version is not greater than what that one is not greater than.
pub proof fn law_versions_are_ordered(a: Seq<char>, b: Seq<char>, c: Seq<char>)
    ensures
        version_order(a, b) == -version_order(b, a),
        version_order(a, a) == 0,
        version_order(a, b) <= 0 && version_order(b, c) <= 0 ==> version_order(a, c) <= 0,
        version_order(a, b) < 0 && version_order(b, c) <= 0 ==> version_order(a, c) < 0,
{
    lemma_parts_order(text::pieces(a, '.'), text::pieces(b, '.'));
    lemma_parts_same(text::pieces(a, '.'));
    lemma_parts_transitive(text::pieces(a, '.'), text::pieces(b, '.'), text::pieces(c, '.'));
}

/// Whether `s` starts with `p`.
pub open spec fn starts_with(s: Seq<char>, p: Seq<char>) -> bool {
    s.len() >= p.len() && s.subrange(0, p.len() as int) == p
}

/// Whether `s` ends with `p`.
pub open spec fn ends_with(s: Seq<char>, p: Seq<char>) -> bool {
    s.len() >= p.len() && s.subrange(s.len() - p.len(), s.len() as int) == p
}

/// What the name of an installer starts with.
pub open spec fn pkg_prefix() -> Seq<char> {
    "SimuXchange_"@
}

/// What the name of an installer ends with.
pub open spec fn pkg_suffix() -> Seq<char> {
    "_x64-setup.exe"@
}

/// Three or more numbers, separated by dots.
pub open spec fn is_version(v: Seq<char>) -> bool {
    let parts = text::pieces(v, '.');
    parts.len() >= 3 && forall|i: int|
        0 <= i < parts.len() ==> text::all_digits(#[trigger] parts[i])
}

/// The version that the name of an installer tells.
pub open spec fn version_in(name: Seq<char>) -> Option<Seq<char>> {
    let rest = name.subrange(pkg_prefix().len() as int, name.len() as int);
    let middle = rest.subrange(0, rest.len() - pkg_suffix().len());
    let v = text::pieces(middle, '_')[0];
    if starts_with(name, pkg_prefix()) && ends_with(rest, pkg_suffix()) && is_version(v) {
        Some(v)
    } else {
        None
    }
}

/// Whether the characters from `at` on are those of `p`.
fn matches_at(s: &Vec<char>, at: usize, p: &Vec<char>) -> (r: bool)
    requires
        at + p@.len() <= s@.len(),
    ensures
        r == (s@.subrange(at as int, at + p@.len()) == p@),
{
    let n: usize = s.len();
    let mut i: usize = 0;
    while i < p.len()
        invariant
            i <= p@.len(),
            at + p@.len() <= s@.len(),
            n == s@.len(),
            forall|k: int| 0 <= k < i ==> s@[at + k] == #[trigger] p@[k],
        decreases p@.len() - i,
    {
        if s[at + i] != p[i] {
            assert(s@.subrange(at as int, at + p@.len())[i as int] != p@[i as int]);
            return false;
        }
        i += 1;
    }
    assert(s@.subrange(at as int, at + p@.len()) =~= p@);
    true
}

fn digits_only(part: &Vec<char>) -> (r: bool)
    ensures
        r == text::all_digits(part@),
{
    if part.len() == 0 {
        return false;
    }
    let mut i: usize = 0;
    while i < part.len()
        invariant
            i <= part@.len(),
            forall|k: int| 0 <= k < i ==> text::is_digit(#[trigger] part@[k]),
        decreases part@.len() - i,
    {
        let c: u32 = part[i] as u32;
        if c < 48 || c > 57 {
            assert(!text::is_digit(part@[i as int]));
            return false;
        }
        i += 1;
    }
    true
}

fn check_version(v: &str) -> (r: bool)
    ensures
        r == is_version(v@),
{
    let parts = text::split_on(v, '.');
    let ghost views = text::pieces(v@, '.');
    if parts.len() < 3 {
        return false;
    }
    let mut i: usize = 0;
    while i < parts.len()
        invariant
            i <= parts@.len(),
            views == text::piece_views(parts@),
            views == text::pieces(v@, '.'),
            forall|k: int| 0 <= k < i ==> text::all_digits(#[trigger] views[k]),
        decreases parts@.len() - i,
    {
        if !digits_only(&parts[i]) {
            assert(!text::all_digits(views[i as int]));
            return false;
        }
        assert(views[i as int] == parts@[i as int]@);
        i += 1;
    }
    true
}

/// The version that the name of an installer tells; nothing where the name is not that of
/// an installer.
pub fn parse_version_from_filename(name: &str) -> (r: Option<String>)
    ensures
        match r {
            Some(v) => version_in(name@) == Some(v@),
            None => version_in(name@) is None,
        },
{
    let chars = text::chars_of(name);
    let prefix = text::chars_of("SimuXchange_");
    let suffix = text::chars_of("_x64-setup.exe");
    let n: usize = chars.len();
    let p: usize = prefix.len();
    let s: usize = suffix.len();
    if n < p || !matches_at(&chars, 0, &prefix) {
        return None;
    }
    let ghost rest = name@.subrange(p as int, n as int);
    if n - p < s {
        return None;
    }
    assert(rest.subrange(rest.len() - s, rest.len() as int) =~= name@.subrange(n - s, n as int));
    if !matches_at(&chars, n - s, &suffix) {
        return None;
    }
    assert(rest.subrange(0, rest.len() - s) =~= name@.subrange(p as int, n - s));
    let middle = text::string_of(&chars, p, n - s);
    let parts = text::split_on(middle.as_str(), '_');
    assert(text::piece_views(parts@)[0] == parts@[0]@);
    assert(parts@[0]@.subrange(0, parts@[0]@.len() as int) =~= parts@[0]@);
    let v = text::string_of(&parts[0], 0, parts[0].len());
    if check_version(v.as_str()) {
        Some(v)
    } else {
        None
    }
}

/// A character with which no part of a path is written.
pub open spec fn is_separator(c: char) -> bool {
    c == '/' || c == '\\'
}

/// A path with slashes for separators.
pub open spec fn slashed(s: Seq<char>) -> Seq<char> {
    s.map_values(
        |c: char|
            if c == '\\' {
                '/'
            } else {
                c
            },
    )
}

/// The last part that names something; none where it leads to the folder above.
pub open spec fn last_named(parts: Seq<Seq<char>>) -> Option<Seq<char>>
    decreases parts.len(),
{
    if parts.len() == 0 {
        None
    } else if parts.last().len() == 0 || parts.last() == "."@ {
        last_named(parts.drop_last())
    } else if parts.last() == ".."@ {
        None
    } else {
        Some(parts.last())
    }
}

/// The file that a path names, without the folders before it.
pub open spec fn file_in(name: Seq<char>) -> Option<Seq<char>> {
    last_named(text::pieces(slashed(name), '/'))
}

/// The file that a path names, without the folders before it, so that a name that comes
/// from outside cannot lead out of the folder.
pub fn safe_name(name: &str) -> (r: Option<String>)
    ensures
        match r {
            Some(f) => file_in(name@) == Some(f@),
            None => file_in(name@) is None,
        },
{
    let chars = text::chars_of(name);
    let mut path = String::new();
    let mut i: usize = 0;
    while i < chars.len()
        invariant
            i <= chars@.len(),
            chars@ == name@,
            path@ =~= slashed(name@).take(i as int),
        decreases chars@.len() - i,
    {
        if chars[i] == '\\' {
            path.push('/');
        } else {
            path.push(chars[i]);
        }
        i += 1;
    }
    assert(slashed(name@).take(i as int) =~= slashed(name@));
    let parts = text::split_on(path.as_str(), '/');
    let ghost views = text::pieces(slashed(name@), '/');
    let mut k: usize = parts.len();
    assert(views.take(k as int) =~= views);
    while k > 0
        invariant
            k <= parts@.len(),
            views == text::piece_views(parts@),
            views == text::pieces(slashed(name@), '/'),
            last_named(views.take(k as int)) == last_named(views),
        decreases k,
    {
        let ghost t = views.take(k as int);
        assert(t.last() == parts@[k - 1]@);
        assert(t.drop_last() =~= views.take(k - 1));
        let n: usize = parts[k - 1].len();
        assert(parts@[k - 1]@.subrange(0, n as int) =~= parts@[k - 1]@);
        let part = text::string_of(&parts[k - 1], 0, n);
        if n != 0 && !text::same_text(part.as_str(), ".") {
            return if text::same_text(part.as_str(), "..") {
                None
            } else {
                Some(part)
            };
        }
        k -= 1;
    }
    assert(views.take(0) =~= Seq::<Seq<char>>::empty());
    None
}

proof fn lemma_pieces_free(s: Seq<char>, sep: char)
    ensures
        forall|i: int|
            0 <= i < text::pieces(s, sep).len() ==> !(#[trigger] text::pieces(s, sep)[i]).contains(
                sep,
            ),
        forall|i: int, j: int|
            0 <= i < text::pieces(s, sep).len() && 0 <= j < text::pieces(s, sep)[i].len()
                ==> s.contains(#[trigger] text::pieces(s, sep)[i][j]),
    decreases s.len(),
{
    let all = text::pieces(s, sep);
    if s.len() > 0 {
        let t = s.drop_last();
        let before = text::pieces(t, sep);
        lemma_pieces_free(t, sep);
        text::lemma_pieces_nonempty(t, sep);
        assert forall|i: int| 0 <= i < all.len() implies !(#[trigger] all[i]).contains(sep) by {
            if s.last() == sep {
                if i < before.len() {
                    assert(all[i] == before[i]);
                }
            } else {
                if i < before.len() - 1 {
                    assert(all[i] == before[i]);
                } else {
                    assert(all[i] == before.last().push(s.last()));
                    assert(!before[before.len() - 1].contains(sep));
                    if all[i].contains(sep) {
                        let j = choose|j: int| 0 <= j < all[i].len() && all[i][j] == sep;
                        if j < before.last().len() {
                            assert(before.last()[j] == sep);
                        }
                    }
                }
            }
        }
        assert forall|i: int, j: int|
            0 <= i < all.len() && 0 <= j < all[i].len() implies s.contains(
            #[trigger] all[i][j],
        ) by {
            if s.last() == sep || i < before.len() - 1 {
                assert(all[i] == before[i]);
                assert(t.contains(before[i][j]));
                let k = choose|k: int| 0 <= k < t.len() && t[k] == before[i][j];
                assert(s[k] == all[i][j]);
            } else if j < before.last().len() {
                let b = before.len() - 1;
                assert(all[i][j] == before[b][j]);
                assert(t.contains(before[b][j]));
                let k = choose|k: int| 0 <= k < t.len() && t[k] == before[b][j];
                assert(s[k] == all[i][j]);
            } else {
                assert(s[s.len() - 1] == all[i][j]);
            }
        }
    }
}

/// A name that was made safe is that of a file in the folder itself: it is not empty, leads
/// nowhere else, and names no folder.
pub proof fn law_safe_name_stays_inside(name: Seq<char>)
    ensures
        file_in(name) matches Some(f) ==> {
            &&& f.len() > 0
            &&& f != "."@
            &&& f != ".."@
            &&& forall|i: int| 0 <= i < f.len() ==> !is_separator(#[trigger] f[i])
        },
{
    let s = slashed(name);
    let parts = text::pieces(s, '/');
    lemma_pieces_free(s, '/');
    lemma_last_named(parts);
    if let Some(f) = file_in(name) {
        let k = choose|k: int| 0 <= k < parts.len() && parts[k] == f;
        assert forall|i: int| 0 <= i < f.len() implies !is_separator(#[trigger] f[i]) by {
            assert(parts[k].contains(f[i]));
            assert(s.contains(parts[k][i]));
            let j = choose|j: int| 0 <= j < s.len() && s[j] == parts[k][i];
            assert(s[j] != '\\');
        }
    }
}

proof fn lemma_last_named(parts: Seq<Seq<char>>)
    ensures
        last_named(parts) matches Some(f) ==> parts.contains(f) && f.len() > 0 && f != "."@ && f
            != ".."@,
    decreases parts.len(),
{
    if parts.len() > 0 {
        let t = parts.drop_last();
        lemma_last_named(t);
        if let Some(f) = last_named(parts) {
            if parts.last() == f {
                assert(parts[parts.len() - 1] == f);
            } else {
                let k = choose|k: int| 0 <= k < t.len() && t[k] == f;
                assert(parts[k] == f);
            }
        }
    }
}

/// An installer that is not older than any other, and newer than all before it.
pub open spec fn is_newest(names: Seq<Seq<char>>, k: int) -> bool {
    &&& 0 <= k < names.len()
    &&& version_in(names[k]) is Some
    &&& forall|i: int|
        #![trigger names[i]]
        0 <= i < names.len() ==> (version_in(names[i]) matches Some(v) ==> version_order(
            v,
            version_in(names[k])->0,
        ) <= 0 && (i < k ==> version_order(v, version_in(names[k])->0) < 0))
}

/// The names of files.
pub open spec fn name_views(names: Seq<String>) -> Seq<Seq<char>> {
    names.map_values(|n: String| n@)
}

/// The place of the newest installer and its version.
pub fn newest_package(names: &Vec<String>) -> (r: Option<(usize, String)>)
    ensures
        match r {
            Some((k, v)) => is_newest(name_views(names@), k as int) && version_in(
                names@[k as int]@,
            ) == Some(v@),
            None => forall|i: int|
                0 <= i < names@.len() ==> version_in((#[trigger] names@[i])@) is None,
        },
{
    let ghost views = name_views(names@);
    let mut best: Option<(usize, String)> = None;
    let mut i: usize = 0;
    while i < names.len()
        invariant
            i <= names@.len(),
            views == name_views(names@),
            match best {
                Some((k, v)) => k < i && is_newest(views.take(i as int), k as int) && version_in(
                    names@[k as int]@,
                ) == Some(v@),
                None => forall|j: int|
                    0 <= j < i ==> version_in((#[trigger] names@[j])@) is None,
            },
        decreases names@.len() - i,
    {
        let ghost held = best;
        let ghost t = views.take(i as int);
        let ghost u = views.take(i + 1);
        assert(forall|j: int| 0 <= j < i ==> #[trigger] u[j] == t[j]);
        assert(u[i as int] == names@[i as int]@);
        if let Some(v) = parse_version_from_filename(names[i].as_str()) {
            let newer = match &best {
                Some((_, cur)) => compare_versions(v.as_str(), cur.as_str()) > 0,
                None => true,
            };
            proof {
                match held {
                    Some((k, cur)) => {
                        law_versions_are_ordered(v@, cur@, v@);
                        if newer {
                            assert forall|j: int|
                                #![trigger u[j]]
                                0 <= j < u.len() implies (version_in(u[j]) matches Some(w)
                                ==> version_order(w, v@) <= 0 && (j < i ==> version_order(w, v@)
                                < 0)) by {
                                if let Some(w) = version_in(u[j]) {
                                    if j < i {
                                        assert(t[j] == u[j]);
                                        lemma_parts_transitive(
                                            text::pieces(w, '.'),
                                            text::pieces(cur@, '.'),
                                            text::pieces(v@, '.'),
                                        );
                                        law_versions_are_ordered(cur@, v@, w);
                                    } else {
                                        law_versions_are_ordered(v@, v@, v@);
                                    }
                                }
                            }
                        } else {
                            assert(is_newest(u, k as int)) by {
                                assert(u[k as int] == t[k as int]);
                                assert forall|j: int|
                                    #![trigger u[j]]
                                    0 <= j < u.len() implies (version_in(u[j]) matches Some(w)
                                    ==> version_order(w, cur@) <= 0 && (j < k ==> version_order(
                                    w,
                                    cur@,
                                ) < 0)) by {
                                    if j < i {
                                        assert(t[j] == u[j]);
                                    }
                                }
                            }
                        }
                    },
                    None => {
                        law_versions_are_ordered(v@, v@, v@);
                        assert forall|j: int|
                            #![trigger u[j]]
                            0 <= j < i implies version_in(u[j]) is None by {
                            assert(version_in(names@[j]@) is None);
                        }
                    },
                }
            }
            if newer {
                best = Some((i, v));
            }
        } else {
            proof {
                if let Some((k, cur)) = held {
                    assert(is_newest(u, k as int)) by {
                        assert(u[k as int] == t[k as int]);
                        assert forall|j: int|
                            #![trigger u[j]]
                            0 <= j < u.len() implies (version_in(u[j]) matches Some(w)
                            ==> version_order(w, cur@) <= 0 && (j < k ==> version_order(w, cur@)
                            < 0)) by {
                            if j < i {
                                assert(t[j] == u[j]);
                            }
                        }
                    }
                }
            }
        }
        i += 1;
    }
    assert(views.take(i as int) =~= views);
    best
}

/// What clients ask for: the newest version and where to get it.
pub struct Manifest {
    pub version: String,
    /// What is new, each note in JSON.
    pub notes: Vec<String>,
    pub win_installer: String,
    pub linux_server: Option<String>,
}

/// The notes on a version.
pub struct NoteSet {
    pub version: String,
    /// Each note in JSON.
    pub notes: Vec<String>,
}

/// The notes on a version; none where there are none.
pub open spec fn notes_on(sets: Seq<NoteSet>, version: Seq<char>) -> Seq<Seq<char>>
    decreases sets.len(),
{
    if sets.len() == 0 {
        Seq::empty()
    } else if sets[0].version@ == version {
        name_views(sets[0].notes@)
    } else {
        notes_on(sets.drop_first(), version)
    }
}

fn copy_names(s: &Vec<String>) -> (r: Vec<String>)
    ensures
        name_views(r@) == name_views(s@),
{
    let mut out: Vec<String> = Vec::new();
    let mut i: usize = 0;
    while i < s.len()
        invariant
            i <= s@.len(),
            name_views(out@) =~= name_views(s@).take(i as int),
        decreases s@.len() - i,
    {
        let ghost was = name_views(out@);
        let one = s[i].clone();
        out.push(one);
        assert(name_views(out@) =~= was.push(one@));
        i += 1;
    }
    assert(name_views(s@).take(i as int) =~= name_views(s@));
    out
}

fn find_notes(sets: &Vec<NoteSet>, version: &str) -> (r: Vec<String>)
    ensures
        name_views(r@) == notes_on(sets@, version@),
{
    let mut i: usize = 0;
    assert(sets@.skip(0) =~= sets@);
    while i < sets.len()
        invariant
            i <= sets@.len(),
            notes_on(sets@, version@) == notes_on(sets@.skip(i as int), version@),
        decreases sets@.len() - i,
    {
        if text::same_text(sets[i].version.as_str(), version) {
            return copy_names(&sets[i].notes);
        }
        assert(sets@.skip(i as int).drop_first() =~= sets@.skip(i + 1));
        i += 1;
    }
    let out: Vec<String> = Vec::new();
    assert(name_views(out@) =~= Seq::<Seq<char>>::empty());
    out
}

/// What clients are told of the files in the folder.
pub open spec fn is_manifest(
    names: Seq<Seq<char>>,
    has_server: bool,
    sets: Seq<NoteSet>,
    m: Manifest,
) -> bool {
    exists|k: int| #[trigger]
        is_newest(names, k) && {
            &&& m.win_installer@ == names[k]
            &&& version_in(names[k]) == Some(m.version@)
            &&& name_views(m.notes@) == notes_on(sets, m.version@)
            &&& match m.linux_server {
                Some(f) => has_server && f@ == "simx-server"@,
                None => !has_server,
            }
        }
}

/// What clients are told: nothing where there is no installer.
pub fn build_manifest(names: &Vec<String>, has_server: bool, sets: &Vec<NoteSet>) -> (r: Option<
    Manifest,
>)
    ensures
        match r {
            Some(m) => is_manifest(name_views(names@), has_server, sets@, m),
            None => forall|i: int|
                0 <= i < names@.len() ==> version_in((#[trigger] names@[i])@) is None,
        },
{
    match newest_package(names) {
        Some((k, version)) => {
            let notes = find_notes(sets, version.as_str());
            let win_installer = names[k].clone();
            let linux_server = if has_server {
                Some("simx-server".to_owned())
            } else {
                None
            };
            let m = Manifest { version, notes, win_installer, linux_server };
            assert(is_newest(name_views(names@), k as int));
            assert(name_views(names@)[k as int] == names@[k as int]@);
            Some(m)
        },
        None => None,
    }
}

/// No two newest installers: the manifest does not depend on anything but the files and
/// their order.
pub proof fn law_newest_is_unique(names: Seq<Seq<char>>, a: int, b: int)
    requires
        is_newest(names, a),
        is_newest(names, b),
    ensures
        a == b,
{
    let v = version_in(names[a])->0;
    let w = version_in(names[b])->0;
    law_versions_are_ordered(v, w, v);
    assert(names[a] == names[a] && names[b] == names[b]);
}

/// The lines that hold something, without the white space round them.
pub open spec fn filled_lines(lines: Seq<Seq<char>>) -> Seq<Seq<char>>
    decreases lines.len(),
{
    if lines.len() == 0 {
        Seq::empty()
    } else {
        let before = filled_lines(lines.drop_last());
        let line = text::trimmed_both(lines.last());
        if line.len() == 0 {
            before
        } else {
            before.push(line)
        }
    }
}

/// The notes that a text holds, one in each line.
pub fn note_lines(notes: &str) -> (r: Vec<String>)
    ensures
        name_views(r@) == filled_lines(text::pieces(notes@, '\n')),
{
    let lines = text::split_on(notes, '\n');
    let ghost views = text::pieces(notes@, '\n');
    let mut out: Vec<String> = Vec::new();
    let mut i: usize = 0;
    assert(views.take(0) =~= Seq::<Seq<char>>::empty());
    assert(name_views(out@) =~= Seq::<Seq<char>>::empty());
    while i < lines.len()
        invariant
            i <= lines@.len(),
            views == text::piece_views(lines@),
            views == text::pieces(notes@, '\n'),
            name_views(out@) =~= filled_lines(views.take(i as int)),
        decreases lines@.len() - i,
    {
        proof {
            let t = views.take(i + 1);
            assert(t.drop_last() =~= views.take(i as int));
            assert(t.last() == lines@[i as int]@);
        }
        let (from, to) = text::trim_range(&lines[i]);
        if from < to {
            let ghost was = name_views(out@);
            let line = text::string_of(&lines[i], from, to);
            out.push(line);
            assert(name_views(out@) =~= was.push(line@));
        }
        i += 1;
    }
    assert(views.take(i as int) =~= views);
    out
}

/// What is to be published.
pub struct Publication {
    pub file_name: String,
    /// The version, where the name tells one; a file without one is offered but not
    /// announced.
    pub version: Option<String>,
    pub notes: Vec<String>,
}

impl Publication {
    /// Whether notes are to be kept: there are some, and there is a version for them.
    pub fn keeps_notes(&self) -> (r: bool)
        ensures
            r == (self.version is Some && self.notes@.len() > 0),
    {
        self.version.is_some() && self.notes.len() > 0
    }
}

/// Why a request is refused.
#[derive(Debug, Clone, Copy, PartialEq, Eq, Structural)]
pub enum Refusal {
    /// There is no installer in the upload.
    NoFile,
    /// The name of the installer is none of a file.
    BadUploadName,
    /// The name is none of a file.
    BadName,
    /// The file belongs to the server itself.
    SystemFile,
    /// The file is not there.
    NotFound,
}

impl Refusal {
    /// The status of the answer.
    pub open spec fn code(self) -> u16 {
        match self {
            Refusal::NoFile => 400,
            Refusal::BadUploadName => 400,
            Refusal::BadName => 400,
            Refusal::SystemFile => 403,
            Refusal::NotFound => 404,
        }
    }

    /// The words of the answer.
    pub open spec fn words(self) -> Seq<char> {
        match self {
            Refusal::NoFile => "缺少安装包文件（字段名 file）"@,
            Refusal::BadUploadName => "安装包文件名非法"@,
            Refusal::BadName => "文件名非法"@,
            Refusal::SystemFile => "系统文件不允许删除"@,
            Refusal::NotFound => "文件不存在"@,
        }
    }

    /// The status of the answer.
    pub fn status(self) -> (r: u16)
        ensures
            r == self.code(),
    {
        match self {
            Refusal::NoFile => 400,
            Refusal::BadUploadName => 400,
            Refusal::BadName => 400,
            Refusal::SystemFile => 403,
            Refusal::NotFound => 404,
        }
    }

    /// The words of the answer.
    pub fn message(self) -> (r: &'static str)
        ensures
            r@ == self.words(),
    {
        match self {
            Refusal::NoFile => "缺少安装包文件（字段名 file）",
            Refusal::BadUploadName => "安装包文件名非法",
            Refusal::BadName => "文件名非法",
            Refusal::SystemFile => "系统文件不允许删除",
            Refusal::NotFound => "文件不存在",
        }
    }
}

/// What an upload publishes, or why it is refused.
pub open spec fn is_upload(file: Option<Seq<char>>, notes: Seq<char>, r: Result<Publication, Refusal>) -> bool {
    match file {
        None => r matches Err(Refusal::NoFile),
        Some(name) => match file_in(name) {
            None => r matches Err(Refusal::BadUploadName),
            Some(f) => r matches Ok(p) && p.file_name@ == f && (match p.version {
                Some(v) => version_in(f) == Some(v@),
                None => version_in(f) is None,
            }) && name_views(p.notes@) == filled_lines(text::pieces(notes, '\n')),
        },
    }
}

/// What an upload publishes. `file` is the name that came with the installer.
pub fn upload(file: Option<&str>, notes: &str) -> (r: Result<Publication, Refusal>)
    ensures
        is_upload(
            match file {
                Some(f) => Some(f@),
                None => None,
            },
            notes@,
            r,
        ),
{
    match file {
        None => Err(Refusal::NoFile),
        Some(name) => match safe_name(name) {
            None => Err(Refusal::BadUploadName),
            Some(file_name) => {
                let version = parse_version_from_filename(file_name.as_str());
                Ok(Publication { file_name, version, notes: note_lines(notes) })
            },
        },
    }
}

/// The file that is to be deleted, or why none is: the files of the server itself stay.
pub fn delete_file(name: &str) -> (r: Result<String, Refusal>)
    ensures
        match file_in(name@) {
            None => r matches Err(Refusal::BadName),
            Some(f) => if f == "notes.json"@ || f == "version.json"@ {
                r matches Err(Refusal::SystemFile)
            } else {
                r matches Ok(x) && x@ == f
            },
        },
{
    match safe_name(name) {
        None => Err(Refusal::BadName),
        Some(f) => if text::same_text(f.as_str(), "notes.json") || text::same_text(
            f.as_str(),
            "version.json",
        ) {
            Err(Refusal::SystemFile)
        } else {
            Ok(f)
        },
    }
}

/// A file in the folder.
#[derive(Debug)]
pub struct FileInfo {
    pub name: String,
    pub size: u64,
    /// Seconds since 1970.
    pub modified: u64,
}

/// The newest first.
pub open spec fn newest_first(s: Seq<FileInfo>) -> bool {
    forall|i: int, j: int|
        0 <= i < j < s.len() ==> (#[trigger] s[i]).modified >= (#[trigger] s[j]).modified
}

/// The files, the newest first; files of the same time keep their order.
pub open spec fn listed(files: Seq<FileInfo>) -> Seq<FileInfo>
    decreases files.len(),
{
    if files.len() == 0 {
        Seq::empty()
    } else {
        let before = listed(files.drop_last());
        before.insert(place_by_age(before, files.last().modified), files.last())
    }
}

/// The place behind all files that are not older.
pub open spec fn place_by_age(s: Seq<FileInfo>, modified: u64) -> int
    decreases s.len(),
{
    if s.len() == 0 {
        0
    } else if s.last().modified >= modified {
        s.len() as int
    } else {
        place_by_age(s.drop_last(), modified)
    }
}

/// The files as they are shown, the newest first.
pub fn list_files(files: Vec<FileInfo>) -> (r: Vec<FileInfo>)
    ensures
        r@ == listed(files@),
{
    let mut rest = files;
    let mut turned: Vec<FileInfo> = Vec::new();
    while rest.len() > 0
        invariant
            rest@ + turned@.reverse() =~= files@,
        decreases rest@.len(),
    {
        let ghost was = rest@;
        let ghost had = turned@;
        if let Some(f) = rest.pop() {
            turned.push(f);
            assert(was =~= rest@.push(f));
            assert(turned@.reverse() =~= seq![f] + had.reverse());
        }
    }
    assert(turned@.reverse() =~= files@);
    let mut out: Vec<FileInfo> = Vec::new();
    let ghost n = files@.len() as int;
    assert(files@.take(0) =~= Seq::<FileInfo>::empty());
    while turned.len() > 0
        invariant
            n == files@.len(),
            turned@.len() <= n,
            turned@.reverse() =~= files@.skip(n - turned@.len()),
            out@ == listed(files@.take(n - turned@.len())),
        decreases turned@.len(),
    {
        let ghost was = turned@;
        if let Some(f) = turned.pop() {
            proof {
                let k = n - was.len();
                assert(was.reverse()[0] == f);
                assert(files@.skip(k)[0] == files@[k]);
                assert(files@.take(k + 1).drop_last() =~= files@.take(k));
                assert(files@.take(k + 1).last() == f);
                assert(turned@.reverse() =~= was.reverse().skip(1));
                assert(files@.skip(k).skip(1) =~= files@.skip(k + 1));
            }
            insert_file(&mut out, f);
        }
    }
    assert(files@.take(n) =~= files@);
    out
}

fn insert_file(out: &mut Vec<FileInfo>, f: FileInfo)
    ensures
        final(out)@ == old(out)@.insert(place_by_age(old(out)@, f.modified), f),
{
    let ghost all = out@;
    let mut i: usize = out.len();
    assert(all.take(i as int) =~= all);
    while i > 0 && out[i - 1].modified < f.modified
        invariant
            i <= out@.len(),
            out@ == all,
            place_by_age(all, f.modified) == place_by_age(all.take(i as int), f.modified),
        decreases i,
    {
        assert(all.take(i as int).drop_last() =~= all.take(i - 1));
        i -= 1;
    }
    out.insert(i, f);
}

/// The list holds all files, the newest first.
pub proof fn law_listed(files: Seq<FileInfo>)
    ensures
        newest_first(listed(files)),
        listed(files).to_multiset() == files.to_multiset(),
    decreases files.len(),
{
    if files.len() > 0 {
        let t = files.drop_last();
        let f = files.last();
        law_listed(t);
        let before = listed(t);
        let k = place_by_age(before, f.modified);
        lemma_place_by_age(before, f.modified);
        let s = before.insert(k, f);
        assert forall|i: int, j: int| 0 <= i < j < s.len() implies (#[trigger] s[i]).modified >= (
        #[trigger] s[j]).modified by {
            let x = if i < k { i } else { i - 1 };
            let y = if j < k { j } else { j - 1 };
            if i != k && j != k {
                assert(s[i] == before[x] && s[j] == before[y]);
            } else if i == k {
                assert(s[j] == before[j - 1]);
            } else {
                assert(s[i] == before[i]);
            }
        }
        assert(s.remove(k) =~= before);
        to_multiset_remove(s, k);
        s.to_multiset_ensures();
        assert(s[k] == f);
        assert(s.contains(f));
        assert(files =~= t.push(f));
        to_multiset_build(t, f);
        assert(s.to_multiset() =~= before.to_multiset().insert(f));
    } else {
        assert(listed(files) =~= files);
    }
}

proof fn lemma_place_by_age(s: Seq<FileInfo>, modified: u64)
    requires
        newest_first(s),
    ensures
        0 <= place_by_age(s, modified) <= s.len(),
        forall|i: int|
            0 <= i < place_by_age(s, modified) ==> (#[trigger] s[i]).modified >= modified,
        forall|i: int|
            place_by_age(s, modified) <= i < s.len() ==> (#[trigger] s[i]).modified < modified,
    decreases s.len(),
{
    if s.len() > 0 {
        if s.last().modified >= modified {
            assert forall|i: int| 0 <= i < s.len() implies (#[trigger] s[i]).modified
                >= modified by {
                if i < s.len() - 1 {
                    assert(s[i].modified >= s[s.len() - 1].modified);
                }
            }
        } else {
            let t = s.drop_last();
            assert(newest_first(t)) by {
                assert forall|i: int, j: int| 0 <= i < j < t.len() implies (
                #[trigger] t[i]).modified >= (#[trigger] t[j]).modified by {
                    assert(s[i].modified >= s[j].modified);
                }
            }
            lemma_place_by_age(t, modified);
            assert forall|i: int| place_by_age(s, modified) <= i < s.len() implies (
            #[trigger] s[i]).modified < modified by {
                if i < t.len() {
                    assert(t[i].modified < modified);
                }
            }
            assert forall|i: int| 0 <= i < place_by_age(s, modified) implies (
            #[trigger] s[i]).modified >= modified by {
                assert(t[i].modified >= modified);
            }
        }
    }
}

/// Which of two versions is newer: at the first place at which they differ as numbers the
/// greater number decides, and of two that agree as far as both go the longer one is newer.
pub proof fn law_first_difference_decides(a: Seq<Seq<char>>, b: Seq<Seq<char>>, i: int)
    requires
        0 <= i <= a.len(),
        i <= b.len(),
        forall|k: int| 0 <= k < i ==> part_number(#[trigger] a[k]) == part_number(b[k]),
    ensures
        i < a.len() && i < b.len() && part_number(a[i]) > part_number(b[i]) ==> parts_order(a, b)
            == 1,
        i < a.len() && i < b.len() && part_number(a[i]) < part_number(b[i]) ==> parts_order(a, b)
            == -1,
        i == b.len() && i < a.len() ==> parts_order(a, b) == 1,
        i == a.len() && i < b.len() ==> parts_order(a, b) == -1,
        i == a.len() && i == b.len() ==> parts_order(a, b) == 0,
    decreases i,
{
    if i > 0 {
        let c = a.drop_first();
        let d = b.drop_first();
        assert(part_number(a[0]) == part_number(b[0]));
        assert forall|k: int| 0 <= k < i - 1 implies part_number(#[trigger] c[k]) == part_number(
            d[k],
        ) by {
            assert(a[k + 1] == c[k]);
        }
        law_first_difference_decides(c, d, i - 1);
    }
}

/// The parts of a version count as the numbers that they spell.
pub proof fn law_part_number(n: nat)
    ensures
        n <= u64::MAX ==> part_number(text::dec(n)) == n,
{
    text::lemma_dec_value(n);
    assert(text::is_digit(text::dec(n)[0]));
}

/// The name of an installer tells the version that stands in it.
pub proof fn law_version_is_told(v: Seq<char>)
    requires
        is_version(v),
        !v.contains('_'),
    ensures
        version_in("SimuXchange_"@ + v + "_x64-setup.exe"@) == Some(v),
{
    let a = "SimuXchange_"@;
    let b = "_x64-setup.exe"@;
    let name = a + v + b;
    assert(name.subrange(0, a.len() as int) =~= a);
    let rest = name.subrange(a.len() as int, name.len() as int);
    assert(rest =~= v + b);
    assert(rest.subrange(rest.len() - b.len(), rest.len() as int) =~= b);
    assert(rest.subrange(0, rest.len() - b.len()) =~= v);
    text::law_pieces(Seq::empty(), v, '_');
}

/// The notes in a text: one for each line that is not blank, without the white space round it,
/// in order.
pub proof fn law_notes_by_line(lines: Seq<Seq<char>>, line: Seq<char>)
    ensures
        filled_lines(Seq::empty()) == Seq::<Seq<char>>::empty(),
        text::trimmed_both(line).len() == 0 ==> filled_lines(lines.push(line)) == filled_lines(
            lines,
        ),
        text::trimmed_both(line).len() > 0 ==> filled_lines(lines.push(line)) == filled_lines(
            lines,
        ).push(text::trimmed_both(line)),
{
    assert(lines.push(line).drop_last() =~= lines);
}

/// A path names the file behind its last separator, whichever of the two separators stands
/// there.
pub proof fn law_file_behind_folders(folder: Seq<char>, f: Seq<char>, sep: char)
    requires
        sep == '/' || sep == '\\',
        f.len() > 0,
        f != "."@,
        f != ".."@,
        !f.contains('/'),
        !f.contains('\\'),
    ensures
        file_in(f) == Some(f),
        file_in(folder.push(sep) + f) == Some(f),
{
    assert(slashed(f) =~= f) by {
        assert forall|i: int| 0 <= i < f.len() implies f[i] != '\\' by {
            assert(f.contains(f[i]));
        }
    }
    let s = slashed(folder.push(sep) + f);
    assert(s =~= slashed(folder).push('/') + f) by {
        assert forall|i: int| 0 <= i < f.len() implies f[i] != '\\' by {
            assert(f.contains(f[i]));
        }
    }
    text::law_pieces(slashed(folder), f, '/');
    assert(seq![f].last() == f);
}

/// The notes on a version are those of the first set that names it; where none names it there
/// are none.
pub proof fn law_notes_of_first_set(sets: Seq<NoteSet>, version: Seq<char>, k: int)
    requires
        0 <= k <= sets.len(),
        forall|i: int| 0 <= i < k ==> (#[trigger] sets[i]).version@ != version,
    ensures
        k < sets.len() && sets[k].version@ == version ==> notes_on(sets, version) == name_views(
            sets[k].notes@,
        ),
        k == sets.len() ==> notes_on(sets, version).len() == 0,
    decreases sets.len(),
{
    if sets.len() > 0 && k > 0 {
        assert(sets[0].version@ != version);
        let rest = sets.drop_first();
        assert forall|i: int| 0 <= i < k - 1 implies (#[trigger] rest[i]).version@ != version by {
            assert(rest[i] == sets[i + 1]);
        }
        law_notes_of_first_set(rest, version, k - 1);
    }
}

/// An upload without a file is refused as such, one whose name is no installer's for its name,
/// and any other is published under the name behind the folders.
pub proof fn law_upload_is_judged(
    file: Option<Seq<char>>,
    notes: Seq<char>,
    r: Result<Publication, Refusal>,
)
    requires
        is_upload(file, notes, r),
    ensures
        file is None <==> r matches Err(Refusal::NoFile),
        (file is Some && file_in(file->0) is None) <==> r matches Err(Refusal::BadUploadName),
        r matches Ok(p) ==> file is Some && file_in(file->0) == Some(p.file_name@) && (p.version
            is Some <==> version_in(p.file_name@) is Some),
        r matches Ok(p) ==> (p.version matches Some(v) ==> version_in(p.file_name@) == Some(v@)),
{
}

} // verus!
