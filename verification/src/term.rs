//! Terminal escape formatting: wraps a piece of text in the truecolor escape
//! sequence that paints it with a foreground color given as a hex string, on
//! a black background.

use crate::hex::hex_digit_char;
use crate::hex::hex_digit_str;
use crate::hex::parse_hex;
use crate::hex::spec_parse_hex;
use vstd::prelude::*;

verus! {

/// The decimal digits of an 8-bit value, without leading zeros.
pub open spec fn dec_of(n: u8) -> Seq<char> {
    if n < 10 {
        seq![hex_digit_char(n as int)]
    } else if n < 100 {
        seq![hex_digit_char(n as int / 10), hex_digit_char(n as int % 10)]
    } else {
        seq![
            hex_digit_char(n as int / 100),
            hex_digit_char((n as int / 10) % 10),
            hex_digit_char(n as int % 10),
        ]
    }
}

/// Formats an 8-bit value in decimal.
fn dec_str(n: u8) -> (r: String)
    ensures
        r@ == dec_of(n),
{
    let mut s = String::new();
    if n >= 100 {
        s.append(hex_digit_str(n / 100));
        s.append(hex_digit_str((n / 10) % 10));
        s.append(hex_digit_str(n % 10));
    } else if n >= 10 {
        s.append(hex_digit_str(n / 10));
        s.append(hex_digit_str(n % 10));
    } else {
        s.append(hex_digit_str(n));
    }
    assert(s@ =~= dec_of(n));
    s
}

/// The escape sequence that renders `text` bold, with the given foreground
/// channels, on a black background, and then resets all attributes.
pub open spec fn spec_colorize(rv: u8, gv: u8, bv: u8, text: Seq<char>) -> Seq<char> {
    "\x1b[1m\x1b[48;2;0;0;0m\x1b[38;2;"@ + dec_of(rv) + ";"@ + dec_of(gv) + ";"@ + dec_of(bv)
        + "m"@ + text + "\x1b[0m"@
}

/// Wraps `text` in the escape sequence for the foreground color written in
/// `hex` (six hex digits, no leading `#`), on a black background.
pub fn colorize_output(hex: &str, text: &str) -> (r: String)
    requires
        spec_parse_hex(hex@) is Some,
    ensures
        r@ == spec_colorize(
            spec_parse_hex(hex@)->Some_0.0,
            spec_parse_hex(hex@)->Some_0.1,
            spec_parse_hex(hex@)->Some_0.2,
            text@,
        ),
{
    let (rv, gv, bv) = parse_hex(hex).unwrap();
    let mut out = String::from_str("\x1b[1m\x1b[48;2;0;0;0m\x1b[38;2;");
    let rs = dec_str(rv);
    out.append(rs.as_str());
    out.append(";");
    let gs = dec_str(gv);
    out.append(gs.as_str());
    out.append(";");
    let bs = dec_str(bv);
    out.append(bs.as_str());
    out.append("m");
    out.append(text);
    out.append("\x1b[0m");
    assert(out@ =~= spec_colorize(rv, gv, bv, text@));
    out
}

} // verus!
