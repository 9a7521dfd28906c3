//! Parsing of 6-digit hex color strings into 8-bit RGB channels, and the
//! inverse formatting of channels as uppercase hex.

use vstd::prelude::*;

verus! {

/// A character that is a hexadecimal digit in either case.
pub open spec fn is_hex_digit(c: char) -> bool {
    ('0' <= c && c <= '9') || ('a' <= c && c <= 'f') || ('A' <= c && c <= 'F')
}

/// Numeric value of a hexadecimal digit character.
pub open spec fn hex_val(c: char) -> u8
    recommends
        is_hex_digit(c),
{
    if '0' <= c && c <= '9' {
        (c as int - '0' as int) as u8
    } else if 'a' <= c && c <= 'f' {
        (c as int - 'a' as int + 10) as u8
    } else if 'A' <= c && c <= 'F' {
        (c as int - 'A' as int + 10) as u8
    } else {
        0
    }
}

/// Value of the two-digit hex pair `hi``lo`.
pub open spec fn pair_val(hi: char, lo: char) -> u8
    recommends
        is_hex_digit(hi),
        is_hex_digit(lo),
{
    (hex_val(hi) as int * 16 + hex_val(lo) as int) as u8
}

/// Converts one character to its hex-digit value; `None` on a non-digit.
fn hex_digit_val(c: char) -> (r: Option<u8>)
    ensures
        r is Some <==> is_hex_digit(c),
        r is Some ==> r->Some_0 == hex_val(c),
{
    if '0' <= c && c <= '9' {
        Some(c as u8 - ('0' as u8))
    } else if 'a' <= c && c <= 'f' {
        Some(c as u8 - ('a' as u8) + 10)
    } else if 'A' <= c && c <= 'F' {
        Some(c as u8 - ('A' as u8) + 10)
    } else {
        None
    }
}

/// What parsing a hex color string yields: the first six characters read as
/// three two-digit pairs, or `None` when the string is shorter than six
/// characters or any of the first six is not a hex digit.
pub open spec fn spec_parse_hex(s: Seq<char>) -> Option<(u8, u8, u8)> {
    if s.len() >= 6 && (forall|i: int| 0 <= i < 6 ==> is_hex_digit(s[i])) {
        Some((pair_val(s[0], s[1]), pair_val(s[2], s[3]), pair_val(s[4], s[5])))
    } else {
        None
    }
}

/// Parses the leading six characters of `hex` as an RGB triple.
/// Signals failure on short or non-hex input instead of panicking.
pub fn parse_hex(hex: &str) -> (r: Option<(u8, u8, u8)>)
    ensures
        r == spec_parse_hex(hex@),
{
    let n = hex.unicode_len();
    if n < 6 {
        return None;
    }
    let d0 = hex_digit_val(hex.get_char(0));
    let d1 = hex_digit_val(hex.get_char(1));
    let d2 = hex_digit_val(hex.get_char(2));
    let d3 = hex_digit_val(hex.get_char(3));
    let d4 = hex_digit_val(hex.get_char(4));
    let d5 = hex_digit_val(hex.get_char(5));
    match (d0, d1, d2, d3, d4, d5) {
        (Some(v0), Some(v1), Some(v2), Some(v3), Some(v4), Some(v5)) => Some(
            (v0 * 16 + v1, v2 * 16 + v3, v4 * 16 + v5),
        ),
        _ => None,
    }
}

/// The string with all leading `#` characters removed.
pub open spec fn strip_hash(s: Seq<char>) -> Seq<char>
    decreases s.len(),
{
    if s.len() > 0 && s[0] == '#' {
        strip_hash(s.skip(1))
    } else {
        s
    }
}

proof fn lemma_strip_hash_at(s: Seq<char>, i: int)
    requires
        0 <= i <= s.len(),
        forall|j: int| 0 <= j < i ==> s[j] == '#',
        i < s.len() ==> s[i] != '#',
    ensures
        strip_hash(s) =~= s.skip(i),
    decreases i,
{
    if i == 0 {
        if s.len() > 0 && s[0] == '#' {
            assert(false);
        }
        assert(s.skip(0) =~= s);
    } else {
        assert(s[0] == '#');
        lemma_strip_hash_at(s.skip(1), i - 1);
        assert(s.skip(1).skip(i - 1) =~= s.skip(i));
    }
}

/// Parses `hex` into 8-bit channels after stripping any leading `#`
/// characters; `None` on malformed input.
pub fn hex_to_rgb_u8(hex: &str) -> (r: Option<[u8; 3]>)
    ensures
        r is Some <==> spec_parse_hex(strip_hash(hex@)) is Some,
        r is Some ==> (r->Some_0@ == (seq![
            spec_parse_hex(strip_hash(hex@))->Some_0.0,
            spec_parse_hex(strip_hash(hex@))->Some_0.1,
            spec_parse_hex(strip_hash(hex@))->Some_0.2,
        ])),
{
    let n = hex.unicode_len();
    let mut i: usize = 0;
    while i < n && hex.get_char(i) == '#'
        invariant
            0 <= i <= n,
            n == hex@.len(),
            forall|j: int| 0 <= j < i ==> hex@[j] == '#',
        decreases n - i,
    {
        i = i + 1;
    }
    proof {
        lemma_strip_hash_at(hex@, i as int);
    }
    let rest = hex.substring_char(i, n);
    assert(rest@ =~= strip_hash(hex@));
    match parse_hex(rest) {
        Some((rv, gv, bv)) => {
            let arr = [rv, gv, bv];
            assert(arr@ =~= seq![rv, gv, bv]);
            Some(arr)
        },
        None => None,
    }
}

/// The uppercase hex digit character for a value below 16.
pub open spec fn hex_digit_char(v: int) -> char
    recommends
        0 <= v < 16,
{
    if v == 0 { '0' } else if v == 1 { '1' } else if v == 2 { '2' } else if v == 3 { '3' }
    else if v == 4 { '4' } else if v == 5 { '5' } else if v == 6 { '6' } else if v == 7 { '7' }
    else if v == 8 { '8' } else if v == 9 { '9' } else if v == 10 { 'A' } else if v == 11 { 'B' }
    else if v == 12 { 'C' } else if v == 13 { 'D' } else if v == 14 { 'E' } else { 'F' }
}

/// The two uppercase hex digits of one 8-bit channel.
pub open spec fn hex_pair(n: u8) -> Seq<char> {
    seq![hex_digit_char(n as int / 16), hex_digit_char(n as int % 16)]
}

/// One-character string for an uppercase hex digit.
pub(crate) fn hex_digit_str(v: u8) -> (r: &'static str)
    requires
        v < 16,
    ensures
        r@ =~= seq![hex_digit_char(v as int)],
{
    proof {
        reveal_strlit("0");
        reveal_strlit("1");
        reveal_strlit("2");
        reveal_strlit("3");
        reveal_strlit("4");
        reveal_strlit("5");
        reveal_strlit("6");
        reveal_strlit("7");
        reveal_strlit("8");
        reveal_strlit("9");
        reveal_strlit("A");
        reveal_strlit("B");
        reveal_strlit("C");
        reveal_strlit("D");
        reveal_strlit("E");
        reveal_strlit("F");
    }
    if v == 0 { "0" } else if v == 1 { "1" } else if v == 2 { "2" } else if v == 3 { "3" }
    else if v == 4 { "4" } else if v == 5 { "5" } else if v == 6 { "6" } else if v == 7 { "7" }
    else if v == 8 { "8" } else if v == 9 { "9" } else if v == 10 { "A" } else if v == 11 { "B" }
    else if v == 12 { "C" } else if v == 13 { "D" } else if v == 14 { "E" } else { "F" }
}

/// Formats RGB channels as six uppercase hex digits.
pub fn rgb_to_hex(rgb: [u8; 3]) -> (s: String)
    ensures
        s@ == hex_pair(rgb[0]) + hex_pair(rgb[1]) + hex_pair(rgb[2]),
{
    let mut s = String::new();
    s.append(hex_digit_str(rgb[0] / 16));
    s.append(hex_digit_str(rgb[0] % 16));
    s.append(hex_digit_str(rgb[1] / 16));
    s.append(hex_digit_str(rgb[1] % 16));
    s.append(hex_digit_str(rgb[2] / 16));
    s.append(hex_digit_str(rgb[2] % 16));
    assert(s@ =~= hex_pair(rgb[0]) + hex_pair(rgb[1]) + hex_pair(rgb[2]));
    s
}

} // verus!
