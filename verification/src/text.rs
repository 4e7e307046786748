//! Byte- and character-level helpers shared by the parsers of this crate.

use vstd::prelude::*;
use vstd::utf8::*;
use vstd::string::StringSliceAdditionalSpecFns;
use crate::crypto::hex_val;

verus! {

broadcast use vstd::string::group_string_axioms;

/// `true` when two byte slices hold the same bytes.
pub fn bytes_eq(a: &[u8], b: &[u8]) -> (r: bool)
    ensures
        r == (a@ == b@),
{
    if a.len() != b.len() {
        return false;
    }
    let mut i: usize = 0;
    while i < a.len()
        invariant
            a@.len() == b@.len(),
            i <= a@.len(),
            forall|j: int| 0 <= j < i ==> a@[j] == b@[j],
        decreases a@.len() - i,
    {
        if a[i] != b[i] {
            return false;
        }
        i = i + 1;
    }
    assert(a@ =~= b@);
    true
}

/// Equal UTF-8 encodings come from equal character sequences.
pub proof fn lemma_encode_utf8_injective(a: Seq<char>, b: Seq<char>)
    requires
        encode_utf8(a) == encode_utf8(b),
    ensures
        a == b,
{
    encode_utf8_decode_utf8(a);
    encode_utf8_decode_utf8(b);
}

/// `true` when two strings are equal.
pub fn str_eq(a: &str, b: &str) -> (r: bool)
    ensures
        r == (a@ == b@),
{
    let r = bytes_eq(a.as_bytes(), b.as_bytes());
    proof {
        if r {
            lemma_encode_utf8_injective(a@, b@);
        }
    }
    r
}

/// `true` when `prefix` is a prefix of `s` (byte-wise).
pub open spec fn has_prefix(s: Seq<u8>, prefix: Seq<u8>) -> bool {
    prefix.len() <= s.len() && s.subrange(0, prefix.len() as int) == prefix
}

/// `true` when `s` starts with `prefix`.
pub fn bytes_starts_with(s: &[u8], prefix: &[u8]) -> (r: bool)
    ensures
        r == has_prefix(s@, prefix@),
{
    if prefix.len() > s.len() {
        return false;
    }
    let mut i: usize = 0;
    while i < prefix.len()
        invariant
            prefix@.len() <= s@.len(),
            i <= prefix@.len(),
            forall|j: int| 0 <= j < i ==> s@[j] == prefix@[j],
        decreases prefix@.len() - i,
    {
        if s[i] != prefix[i] {
            assert(s@.subrange(0, prefix@.len() as int)[i as int] != prefix@[i as int]);
            return false;
        }
        i = i + 1;
    }
    assert(s@.subrange(0, prefix@.len() as int) =~= prefix@);
    true
}


/// The characters of a string, in order.
pub fn chars_of(s: &str) -> (v: Vec<char>)
    ensures
        v@ == s@,
{
    let mut v: Vec<char> = Vec::new();
    for c in it: s.chars()
        invariant
            v@ == it.seq().take(it.index() as int),
            it.seq() == s@,
    {
        v.push(c);
    }
    v
}


/// Unicode `White_Space` characters, the set that `char::is_whitespace`
/// and `str::trim` use.
pub open spec fn is_whitespace(c: char) -> bool {
    ('\t' <= c && c <= '\r') || c == ' ' || c == '\u{85}' || c == '\u{A0}' || c == '\u{1680}'
        || ('\u{2000}' <= c && c <= '\u{200A}') || c == '\u{2028}' || c == '\u{2029}' || c
        == '\u{202F}' || c == '\u{205F}' || c == '\u{3000}'
}

/// `true` for a Unicode whitespace character.
pub fn is_whitespace_char(c: char) -> (b: bool)
    ensures
        b == is_whitespace(c),
{
    ('\t' <= c && c <= '\r') || c == ' ' || c == '\u{85}' || c == '\u{A0}' || c == '\u{1680}'
        || ('\u{2000}' <= c && c <= '\u{200A}') || c == '\u{2028}' || c == '\u{2029}' || c
        == '\u{202F}' || c == '\u{205F}' || c == '\u{3000}'
}

/// `s` without its leading whitespace.
pub open spec fn trim_start(s: Seq<char>) -> Seq<char>
    decreases s.len(),
{
    if s.len() > 0 && is_whitespace(s[0]) {
        trim_start(s.drop_first())
    } else {
        s
    }
}

/// `s` without its trailing whitespace.
pub open spec fn trim_end(s: Seq<char>) -> Seq<char>
    decreases s.len(),
{
    if s.len() > 0 && is_whitespace(s.last()) {
        trim_end(s.drop_last())
    } else {
        s
    }
}

/// `s` without leading and trailing whitespace (`str::trim`).
pub open spec fn trim(s: Seq<char>) -> Seq<char> {
    trim_end(trim_start(s))
}

/// The character range `[start, end)` of `v` that `trim` keeps.
pub fn trim_bounds(v: &Vec<char>) -> (r: (usize, usize))
    ensures
        r.0 <= r.1 <= v@.len(),
        v@.subrange(r.0 as int, r.1 as int) == trim(v@),
{
    let n = v.len();
    let mut i: usize = 0;
    assert(v@.subrange(0, n as int) =~= v@);
    while i < n && is_whitespace_char(v[i])
        invariant
            n == v@.len(),
            i <= n,
            trim_start(v@) == trim_start(v@.subrange(i as int, n as int)),
        decreases n - i,
    {
        assert(v@.subrange(i as int, n as int).drop_first() =~= v@.subrange(i + 1, n as int));
        i = i + 1;
    }
    assert(trim_start(v@) == v@.subrange(i as int, n as int));
    let mut j: usize = n;
    assert(trim(v@) == trim_end(v@.subrange(i as int, j as int)));
    while j > i && is_whitespace_char(v[j - 1])
        invariant
            n == v@.len(),
            i <= j <= n,
            trim(v@) == trim_end(v@.subrange(i as int, j as int)),
        decreases j - i,
    {
        assert(v@.subrange(i as int, j as int).drop_last() =~= v@.subrange(i as int, j - 1));
        j = j - 1;
    }
    (i, j)
}

/// `s.trim()`.
pub fn trim_str(s: &str) -> (t: &str)
    ensures
        t@ == trim(s@),
{
    let v = chars_of(s);
    let (a, b) = trim_bounds(&v);
    s.substring_char(a, b)
}

/// ASCII upper-case letters mapped to lower case; other characters unchanged.
pub open spec fn ascii_lower(c: char) -> char {
    if 'A' <= c && c <= 'Z' {
        ((c as u32) + 32) as char
    } else {
        c
    }
}

/// `char::to_ascii_lowercase`.
pub fn to_ascii_lower(c: char) -> (d: char)
    ensures
        d == ascii_lower(c),
{
    if 'A' <= c && c <= 'Z' {
        ((c as u8) + 32) as char
    } else {
        c
    }
}

/// `true` when `v[from..to]` equals `lit`.
pub fn chars_range_eq(v: &Vec<char>, from: usize, to: usize, lit: &Vec<char>) -> (r: bool)
    requires
        from <= to <= v@.len(),
    ensures
        r == (v@.subrange(from as int, to as int) == lit@),
{
    if to - from != lit.len() {
        return false;
    }
    let mut k: usize = 0;
    while k < lit.len()
        invariant
            from <= to <= v@.len(),
            to - from == lit@.len(),
            k <= lit@.len(),
            forall|m: int| 0 <= m < k ==> v@[from + m] == lit@[m],
        decreases lit@.len() - k,
    {
        if v[from + k] != lit[k] {
            assert(v@.subrange(from as int, to as int)[k as int] != lit@[k as int]);
            return false;
        }
        k = k + 1;
    }
    assert(v@.subrange(from as int, to as int) =~= lit@);
    true
}


/// Index of the first `c` in `s` at or after `from`, or -1.
pub open spec fn find_char(s: Seq<char>, c: char, from: int) -> int
    decreases s.len() - from,
{
    if from < 0 || from >= s.len() {
        -1
    } else if s[from] == c {
        from
    } else {
        find_char(s, c, from + 1)
    }
}

/// Searching a suffix `s[a..]` finds the same occurrence, shifted by `a`.
pub proof fn lemma_find_char_suffix(s: Seq<char>, c: char, a: int, i: int)
    requires
        0 <= a <= s.len(),
        0 <= i <= s.len() - a,
    ensures
        find_char(s.subrange(a, s.len() as int), c, i) == (if find_char(s, c, a + i) < 0 {
            -1
        } else {
            find_char(s, c, a + i) - a
        }),
    decreases s.len() - a - i,
{
    let t = s.subrange(a, s.len() as int);
    if i < t.len() {
        assert(t[i] == s[a + i]);
        lemma_find_char_suffix(s, c, a, i + 1);
    }
}

/// Index of the first `c` in `v[from..]`, or `v.len()`.
pub fn find_char_from(v: &Vec<char>, c: char, from: usize) -> (k: usize)
    requires
        from <= v@.len(),
    ensures
        from <= k <= v@.len(),
        k == v@.len() <==> find_char(v@, c, from as int) < 0,
        k < v@.len() ==> find_char(v@, c, from as int) == k,
{
    let mut i = from;
    while i < v.len()
        invariant
            from <= i <= v@.len(),
            find_char(v@, c, from as int) == find_char(v@, c, i as int),
        decreases v@.len() - i,
    {
        if v[i] == c {
            return i;
        }
        i = i + 1;
    }
    i
}

/// The part of `v[from..to]` that `trim` keeps, as a range of `v`.
pub fn trim_range(v: &Vec<char>, from: usize, to: usize) -> (r: (usize, usize))
    requires
        from <= to <= v@.len(),
    ensures
        from <= r.0 <= r.1 <= to,
        v@.subrange(r.0 as int, r.1 as int) == trim(v@.subrange(from as int, to as int)),
{
    let ghost w = v@.subrange(from as int, to as int);
    let mut i: usize = from;
    assert(v@.subrange(from as int, to as int) =~= w);
    while i < to && is_whitespace_char(v[i])
        invariant
            from <= i <= to <= v@.len(),
            w == v@.subrange(from as int, to as int),
            trim_start(w) == trim_start(v@.subrange(i as int, to as int)),
        decreases to - i,
    {
        assert(v@.subrange(i as int, to as int).drop_first() =~= v@.subrange(i + 1, to as int));
        i = i + 1;
    }
    assert(trim_start(w) == v@.subrange(i as int, to as int));
    let mut j: usize = to;
    assert(trim(w) == trim_end(v@.subrange(i as int, j as int)));
    while j > i && is_whitespace_char(v[j - 1])
        invariant
            from <= i <= j <= to <= v@.len(),
            trim(w) == trim_end(v@.subrange(i as int, j as int)),
        decreases j - i,
    {
        assert(v@.subrange(i as int, j as int).drop_last() =~= v@.subrange(i as int, j - 1));
        j = j - 1;
    }
    (i, j)
}

/// `true` when `v[from..to]` starts with `prefix`.
pub fn chars_range_starts_with(v: &Vec<char>, from: usize, to: usize, prefix: &Vec<char>) -> (r: bool)
    requires
        from <= to <= v@.len(),
    ensures
        r == (prefix@.len() <= to - from && v@.subrange(from as int, from + prefix@.len())
            == prefix@),
{
    if prefix.len() > to - from {
        return false;
    }
    chars_range_eq(v, from, from + prefix.len(), prefix)
}

/// A pair of bytes read as `u8::from_str_radix(pair, 16)` reads a
/// two-character string: two hex digits, or `+` followed by one.
pub open spec fn radix16_pair(b0: u8, b1: u8) -> Option<u8> {
    match (hex_val(b0), hex_val(b1)) {
        (Some(h), Some(l)) => Some((h * 16 + l) as u8),
        _ => if b0 == 43u8 && hex_val(b1) is Some {
            hex_val(b1)
        } else {
            None
        },
    }
}

/// Hex decoding two bytes at a time with `u8::from_str_radix`: an odd
/// length, or any pair that does not read, gives `None`.
pub open spec fn radix16_decode(b: Seq<u8>) -> Option<Seq<u8>>
    decreases b.len(),
{
    if b.len() % 2 != 0 {
        None
    } else if b.len() == 0 {
        Some(Seq::empty())
    } else {
        match (radix16_pair(b[0], b[1]), radix16_decode(b.subrange(2, b.len() as int))) {
            (Some(x), Some(rest)) => Some(seq![x] + rest),
            _ => None,
        }
    }
}

/// Slicing the string two bytes at a time stays on character boundaries up
/// to the first pair that does not read (where decoding stops).
pub open spec fn radix16_slicing_ok(b: Seq<u8>) -> bool
    decreases b.len(),
{
    if b.len() % 2 != 0 || b.len() == 0 {
        true
    } else if radix16_pair(b[0], b[1]) is Some {
        radix16_slicing_ok(b.subrange(2, b.len() as int))
    } else {
        !is_continuation_byte(b[0]) && (b.len() == 2 || !is_continuation_byte(b[2]))
    }
}

fn hex_value(b: u8) -> (r: Option<u8>)
    ensures
        r == hex_val(b),
{
    if 48 <= b && b <= 57 {
        Some(b - 48)
    } else if 97 <= b && b <= 102 {
        Some(b - 87)
    } else if 65 <= b && b <= 70 {
        Some(b - 55)
    } else {
        None
    }
}

/// Decodes hex text two characters at a time, the way
/// `u8::from_str_radix(&s[i..i + 2], 16)` does (so `+f` reads as 15).
pub fn decode_hex_pairs(s: &str) -> (r: Option<Vec<u8>>)
    requires
        radix16_slicing_ok(s.spec_bytes()),
    ensures
        r matches Some(v) ==> radix16_decode(s.spec_bytes()) == Some(v@),
        r is None ==> radix16_decode(s.spec_bytes()) is None,
{
    let b = s.as_bytes();
    if b.len() % 2 != 0 {
        return None;
    }
    let mut out: Vec<u8> = Vec::new();
    let mut i: usize = 0;
    assert(b@.subrange(0, b@.len() as int) =~= b@);
    proof {
        match radix16_decode(b@) {
            Some(rest) => {
                assert(out@ + rest =~= rest);
            },
            None => {},
        }
    }
    while i < b.len()
        invariant
            b@ == s.spec_bytes(),
            b@.len() % 2 == 0,
            i <= b@.len(),
            i % 2 == 0,
            radix16_decode(b@) == match radix16_decode(b@.subrange(i as int, b@.len() as int)) {
                Some(rest) => Some(out@ + rest),
                None => None,
            },
        decreases b@.len() - i,
    {
        let ghost rem = b@.subrange(i as int, b@.len() as int);
        assert(rem.subrange(2, rem.len() as int) =~= b@.subrange(i + 2, b@.len() as int));
        assert(rem.len() % 2 == 0 && rem.len() >= 2);
        assert(rem[0] == b@[i as int] && rem[1] == b@[i + 1]);
        let hi = hex_value(b[i]);
        let lo = hex_value(b[i + 1]);
        let xo: Option<u8> = match (hi, lo) {
            (Some(h), Some(l)) => Some(h * 16 + l),
            _ => {
                if b[i] == 43u8 && lo.is_some() {
                    lo
                } else {
                    None
                }
            },
        };
        assert(xo == radix16_pair(rem[0], rem[1]));
        let x = match xo {
            Some(x) => x,
            None => {
                assert(radix16_decode(rem) is None);
                return None;
            },
        };
        proof {
            match radix16_decode(b@.subrange(i + 2, b@.len() as int)) {
                Some(rest) => {
                    assert(out@.push(x) + rest =~= out@ + (seq![x] + rest));
                },
                None => {},
            }
        }
        out.push(x);
        i = i + 2;
    }
    proof {
        assert(b@.subrange(i as int, b@.len() as int) =~= Seq::<u8>::empty());
        assert(out@ + Seq::<u8>::empty() =~= out@);
    }
    Some(out)
}

/// `find_char` finds an occurrence at or after `from`, or nothing.
pub proof fn lemma_find_char_range(s: Seq<char>, c: char, from: int)
    ensures
        find_char(s, c, from) >= -1,
        find_char(s, c, from) >= 0 ==> from <= find_char(s, c, from) < s.len() && s[find_char(
            s,
            c,
            from,
        )] == c,
    decreases s.len() - from,
{
    if 0 <= from < s.len() && s[from] != c {
        lemma_find_char_range(s, c, from + 1);
    }
}

/// `s.split(c)`: the pieces between occurrences of `c`, in order (one
/// piece when `c` does not occur).
pub open spec fn split_char(s: Seq<char>, c: char) -> Seq<Seq<char>>
    decreases s.len(),
{
    let k = find_char(s, c, 0);
    if k < 0 {
        seq![s]
    } else {
        proof {
            lemma_find_char_range(s, c, 0);
        }
        seq![s.subrange(0, k)] + split_char(s.subrange(k + 1, s.len() as int), c)
    }
}

/// `s.split(c)` collected into owned strings.
pub fn split_str(s: &str, c: char) -> (parts: Vec<String>)
    ensures
        parts@.map_values(|p: String| p@) == split_char(s@, c),
{
    let v = chars_of(s);
    let mut parts: Vec<String> = Vec::new();
    let mut start: usize = 0;
    assert(s@.subrange(0, s@.len() as int) =~= s@);
    loop
        invariant
            v@ == s@,
            start <= v@.len(),
            split_char(s@, c) == parts@.map_values(|p: String| p@) + split_char(
                s@.subrange(start as int, s@.len() as int),
                c,
            ),
        decreases v@.len() - start,
    {
        let ghost rest = s@.subrange(start as int, s@.len() as int);
        let k = find_char_from(&v, c, start);
        proof {
            lemma_find_char_suffix(s@, c, start as int, 0);
            lemma_find_char_range(s@, c, start as int);
        }
        let piece = s.substring_char(start, k);
        let ghost before = parts@.map_values(|p: String| p@);
        parts.push(String::from_str(piece));
        assert(parts@.map_values(|p: String| p@) =~= before.push(piece@));
        if k == v.len() {
            assert(rest.subrange(0, rest.len() as int) =~= rest);
            assert(piece@ =~= rest);
            assert(split_char(rest, c) == seq![rest]);
            assert(before + seq![rest] =~= before.push(piece@));
            return parts;
        }
        let ghost kk = (k - start) as int;
        assert(find_char(rest, c, 0) == kk);
        assert(rest.subrange(0, kk) =~= piece@);
        assert(rest.subrange(kk + 1, rest.len() as int) =~= s@.subrange(k + 1, s@.len() as int));
        assert(before + split_char(rest, c) =~= before.push(piece@) + split_char(
            s@.subrange(k + 1, s@.len() as int),
            c,
        ));
        start = k + 1;
    }
}

/// Whether `radix16_slicing_ok` holds of the bytes of `s`.
pub fn hex_slicing_ok(s: &str) -> (r: bool)
    ensures
        r == radix16_slicing_ok(s.spec_bytes()),
{
    let b = s.as_bytes();
    if b.len() % 2 != 0 {
        return true;
    }
    let mut i: usize = 0;
    assert(b@.subrange(0, b@.len() as int) =~= b@);
    while i < b.len()
        invariant
            b@ == s.spec_bytes(),
            b@.len() % 2 == 0,
            i <= b@.len(),
            i % 2 == 0,
            radix16_slicing_ok(b@) == radix16_slicing_ok(b@.subrange(i as int, b@.len() as int)),
        decreases b@.len() - i,
    {
        let ghost rem = b@.subrange(i as int, b@.len() as int);
        assert(rem.subrange(2, rem.len() as int) =~= b@.subrange(i + 2, b@.len() as int));
        assert(rem[0] == b@[i as int] && rem[1] == b@[i + 1]);
        let hi = hex_value(b[i]);
        let lo = hex_value(b[i + 1]);
        let ok = match (hi, lo) {
            (Some(_), Some(_)) => true,
            _ => b[i] == 43u8 && lo.is_some(),
        };
        assert(ok == radix16_pair(rem[0], rem[1]) is Some);
        if !ok {
            let c0 = 0x80 <= b[i] && b[i] <= 0xbf;
            if i + 2 == b.len() {
                return !c0;
            }
            assert(rem[2] == b@[i + 2]);
            let c2 = 0x80 <= b[i + 2] && b[i + 2] <= 0xbf;
            return !c0 && !c2;
        }
        i = i + 2;
    }
    assert(b@.subrange(i as int, b@.len() as int).len() == 0);
    true
}

/// Unicode lower case of a string (`str::to_lowercase`).
pub uninterp spec fn unicode_lowercase(s: Seq<char>) -> Seq<char>;

/// `str::to_lowercase`.
#[verifier::external_body]
pub(crate) fn to_lowercase(s: &str) -> (r: String)
    ensures
        r@ == unicode_lowercase(s@),
{
    s.to_lowercase()
}

/// The 128-bit value of a UUID written as text, in any form that
/// `Uuid::parse_str` reads (hyphenated, simple, braced or URN); `None` for
/// any other text.
pub uninterp spec fn uuid_text_value(s: Seq<char>) -> Option<u128>;

/// `uuid::Uuid::parse_str(s)`, as its 128-bit value.
#[verifier::external_body]
pub(crate) fn parse_uuid(s: &str) -> (r: Option<u128>)
    ensures
        r == uuid_text_value(s@),
{
    uuid::Uuid::parse_str(s).ok().map(|u| u.as_u128())
}

} // verus!
