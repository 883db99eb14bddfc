use base64::Engine;
use vstd::prelude::*;

verus! {

// ---------------------------------------------------------------------------
// Hexadecimal
// ---------------------------------------------------------------------------

/// The lower-case hexadecimal digit for a value below sixteen.
pub open spec fn hex_digit(n: u8) -> char
    recommends
        n < 16,
{
    if n == 0 {
        '0'
    } else if n == 1 {
        '1'
    } else if n == 2 {
        '2'
    } else if n == 3 {
        '3'
    } else if n == 4 {
        '4'
    } else if n == 5 {
        '5'
    } else if n == 6 {
        '6'
    } else if n == 7 {
        '7'
    } else if n == 8 {
        '8'
    } else if n == 9 {
        '9'
    } else if n == 10 {
        'a'
    } else if n == 11 {
        'b'
    } else if n == 12 {
        'c'
    } else if n == 13 {
        'd'
    } else if n == 14 {
        'e'
    } else {
        'f'
    }
}

/// The two lower-case digits of one byte, most significant first.
pub open spec fn hex_of_byte(b: u8) -> Seq<char> {
    seq![hex_digit(b / 16), hex_digit(b % 16)]
}

/// The lower-case hexadecimal rendering of a byte string.
pub open spec fn hex_of(bs: Seq<u8>) -> Seq<char>
    decreases bs.len(),
{
    if bs.len() == 0 {
        Seq::empty()
    } else {
        hex_of(bs.drop_last()) + hex_of_byte(bs.last())
    }
}

/// Relies on hex::encode: each byte becomes its two lower-case digits,
/// most significant first, in input order.
#[verifier::external_body]
pub fn hex_encode(b: &[u8]) -> (r: String)
    ensures
        r@ == hex_of(b@),
{
    hex::encode(b)
}

/// Relies on hex::decode: a canonical lower-case rendering decodes back to
/// exactly the bytes it renders, and any accepted input has two digits per
/// decoded byte.
#[verifier::external_body]
pub fn hex_decode(s: &str) -> (r: Option<Vec<u8>>)
    ensures
        r is Some ==> 2 * r->0@.len() == s@.len(),
        forall|bs: Seq<u8>| s@ == hex_of(bs) ==> r is Some && r->0@ == bs,
{
    hex::decode(s).ok()
}

// ---------------------------------------------------------------------------
// URL-safe base64
// ---------------------------------------------------------------------------

/// The padded URL-safe base64 rendering of a byte string, as the wire and
/// storage encoding of every binary value.
pub uninterp spec fn b64_of(bs: Seq<u8>) -> Seq<char>;

/// Relies on base64's URL_SAFE engine: encoding is a pure function of the
/// bytes, over the ASCII URL-safe alphabet, four characters per three bytes
/// with padding.
#[verifier::external_body]
pub fn b64_encode(b: &[u8]) -> (r: String)
    ensures
        r@ == b64_of(b@),
        r@.len() == 4 * ((b@.len() + 2) / 3),
        vstd::utf8::is_ascii_chars(r@),
{
    base64::engine::general_purpose::URL_SAFE.encode(b)
}

/// Relies on base64's URL_SAFE engine: it only accepts canonical padded
/// encodings, and decodes an encoding back to exactly the bytes encoded.
#[verifier::external_body]
pub fn b64_decode(s: &str) -> (r: Option<Vec<u8>>)
    ensures
        r is Some ==> s@ == b64_of(r->0@),
        forall|bs: Seq<u8>| s@ == b64_of(bs) ==> r is Some && r->0@ == bs,
{
    base64::engine::general_purpose::URL_SAFE.decode(s).ok()
}

// ---------------------------------------------------------------------------
// UTF-8
// ---------------------------------------------------------------------------

/// Relies on String::from_utf8: it succeeds exactly on valid UTF-8 and
/// returns the character sequence the bytes encode.
#[verifier::external_body]
pub fn string_from_utf8(b: Vec<u8>) -> (r: Option<String>)
    ensures
        r is Some <==> vstd::utf8::valid_utf8(b@),
        r is Some ==> r->0@ == vstd::utf8::decode_utf8(b@),
{
    String::from_utf8(b).ok()
}

} // verus!
