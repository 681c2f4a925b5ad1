//! Codec strings for the catalog's selection parameters.
use vstd::prelude::*;

verus! {

/// The hexadecimal digit of `d` (below 16), in upper or lower case.
pub open spec fn hex_digit(d: int, upper: bool) -> char {
    if d < 10 {
        ('0' as int + d) as char
    } else if upper {
        ('A' as int + d - 10) as char
    } else {
        ('a' as int + d - 10) as char
    }
}

/// Two hexadecimal digits of a byte.
pub open spec fn hex2(b: u8, upper: bool) -> Seq<char> {
    seq![hex_digit(b as int / 16, upper), hex_digit(b as int % 16, upper)]
}

/// The decimal digits of a byte, without leading zeros.
pub open spec fn decimal(b: u8) -> Seq<char> {
    let n = b as int;
    if n < 10 {
        seq![hex_digit(n, false)]
    } else if n < 100 {
        seq![hex_digit(n / 10, false), hex_digit(n % 10, false)]
    } else {
        seq![hex_digit(n / 100, false), hex_digit((n / 10) % 10, false), hex_digit(n % 10, false)]
    }
}

/// `avc1.PPCCLL`: profile, constraint flags and level in upper-case hex.
pub open spec fn avc1_text(profile: u8, constraints: u8, level: u8) -> Seq<char> {
    seq!['a', 'v', 'c', '1', '.'] + hex2(profile, true) + hex2(constraints, true) + hex2(level, true)
}

/// `mp4a.OO.P`: object type in lower-case hex, then the audio profile in
/// decimal.
pub open spec fn mp4a_text(object_type: u8, profile: u8) -> Seq<char> {
    seq!['m', 'p', '4', 'a', '.'] + hex2(object_type, false) + seq!['.'] + decimal(profile)
}

/// The characters of ASCII bytes.
pub open spec fn ascii_chars(b: Seq<u8>) -> Seq<char> {
    b.map_values(|c: u8| c as char)
}

/// Relies on rfc6381-codec's `Codec::avc1` and its `Display`, which writes
/// `avc1.` and the three bytes as two upper-case hex digits each.
#[verifier::external_body]
pub fn avc1_codec(profile: u8, constraints: u8, level: u8) -> (r: String)
    ensures
        r@ == avc1_text(profile, constraints, level),
{
    rfc6381_codec::Codec::avc1(profile, constraints, level).to_string()
}

/// Relies on `String::from_utf8`, which accepts any valid UTF-8, and ASCII
/// is; each ASCII byte is one character.
#[verifier::external_body]
fn ascii_string(b: Vec<u8>) -> (r: String)
    requires
        forall|i: int| 0 <= i < b@.len() ==> b@[i] < 128,
    ensures
        r@ == ascii_chars(b@),
{
    String::from_utf8(b).unwrap_or_default()
}

fn hex_byte(d: u8, upper: bool) -> (r: u8)
    requires
        d < 16,
    ensures
        r < 128,
        r as char == hex_digit(d as int, upper),
{
    if d < 10 {
        48 + d
    } else if upper {
        55 + d
    } else {
        87 + d
    }
}

/// The codec string of an AAC-family audio stream.
pub fn mp4a_codec(object_type: u8, profile: u8) -> (r: String)
    ensures
        r@ == mp4a_text(object_type, profile),
{
    let mut b: Vec<u8> = Vec::new();
    b.push(109);
    b.push(112);
    b.push(52);
    b.push(97);
    b.push(46);
    b.push(hex_byte(object_type / 16, false));
    b.push(hex_byte(object_type % 16, false));
    b.push(46);
    if profile >= 100 {
        b.push(hex_byte(profile / 100, false));
    }
    if profile >= 10 {
        b.push(hex_byte((profile / 10) % 10, false));
    }
    b.push(hex_byte(profile % 10, false));
    let ghost chars = ascii_chars(b@);
    assert(chars =~= mp4a_text(object_type, profile));
    ascii_string(b)
}

} // verus!
