//! Percent-encoding of header values, through the `percent-encoding` crate.

use percent_encoding::{percent_decode_str, percent_encode, NON_ALPHANUMERIC};
use vstd::prelude::*;
use vstd::utf8::*;

verus! {

/// Whether `b` is an ASCII letter or digit.
pub open spec fn is_alnum(b: u8) -> bool {
    (48 <= b <= 57) || (65 <= b <= 90) || (97 <= b <= 122)
}

/// Upper-case hexadecimal digits.
pub open spec fn hex_digit(n: int) -> char {
    seq!['0', '1', '2', '3', '4', '5', '6', '7', '8', '9', 'A', 'B', 'C', 'D', 'E', 'F'][n]
}

/// Encoding of one byte: itself when alphanumeric, else `%XX`.
pub open spec fn encode_byte(b: u8) -> Seq<char> {
    if is_alnum(b) {
        seq![b as char]
    } else {
        seq!['%', hex_digit(b as int / 16), hex_digit(b as int % 16)]
    }
}

/// Percent-encoding with the set of every byte but ASCII letters and digits.
pub open spec fn encode_bytes(b: Seq<u8>) -> Seq<char>
    decreases b.len(),
{
    if b.len() == 0 {
        Seq::empty()
    } else {
        encode_byte(b[0]) + encode_bytes(b.drop_first())
    }
}

/// Value of a hexadecimal digit byte, either case.
pub open spec fn hex_value(b: u8) -> Option<int> {
    if 48 <= b <= 57 {
        Some(b - 48)
    } else if 65 <= b <= 70 {
        Some(b - 55)
    } else if 97 <= b <= 102 {
        Some(b - 87)
    } else {
        None
    }
}

/// Percent-decoding: each `%` followed by two hexadecimal digits becomes the
/// byte they denote; every other byte stays.
pub open spec fn decode_bytes(b: Seq<u8>) -> Seq<u8>
    decreases b.len(),
{
    if b.len() == 0 {
        Seq::empty()
    } else if b[0] == 37 && b.len() >= 3 && hex_value(b[1]) is Some && hex_value(b[2]) is Some {
        seq![(hex_value(b[1])->0 * 16 + hex_value(b[2])->0) as u8] + decode_bytes(b.skip(3))
    } else {
        seq![b[0]] + decode_bytes(b.drop_first())
    }
}

/// A header value as text of the wire: its percent-encoded UTF-8 bytes.
pub open spec fn encoded(v: Seq<char>) -> Seq<char> {
    encode_bytes(encode_utf8(v))
}

/// A header value read from the wire: percent-decoded when the decoded bytes
/// are UTF-8, else the text as it came.
pub open spec fn decoded(v: Seq<char>) -> Seq<char> {
    let b = decode_bytes(encode_utf8(v));
    if valid_utf8(b) {
        decode_utf8(b)
    } else {
        v
    }
}

/// Bytes of ASCII characters.
pub open spec fn ascii_bytes(c: Seq<char>) -> Seq<u8> {
    c.map_values(|x: char| x as u8)
}

proof fn lemma_encode_byte_shape(b: u8)
    ensures
        is_ascii_chars(encode_byte(b)),
        decode_bytes(ascii_bytes(encode_byte(b))) == seq![b],
        encode_byte(b).len() > 0,
        ascii_bytes(encode_byte(b))[0] == 37 ==> encode_byte(b).len() == 3,
{
    let e = encode_byte(b);
    let x = ascii_bytes(e);
    if is_alnum(b) {
        assert(x =~= seq![b]);
        assert(decode_bytes(seq![b]) =~= seq![b]) by {
            assert(decode_bytes(seq![b].drop_first()) =~= Seq::<u8>::empty());
        }
    } else {
        let hi = b as int / 16;
        let lo = b as int % 16;
        assert(0 <= hi < 16 && 0 <= lo < 16);
        assert(x.len() == 3);
        assert(x[0] == 37);
        assert(hex_value(x[1]) == Some(hi));
        assert(hex_value(x[2]) == Some(lo));
        assert(hi * 16 + lo == b);
        assert(x.skip(3) =~= Seq::<u8>::empty());
        assert(decode_bytes(x) == seq![(hex_value(x[1])->0 * 16 + hex_value(x[2])->0) as u8] + decode_bytes(x.skip(3)));
        assert(decode_bytes(Seq::<u8>::empty()) == Seq::<u8>::empty());
        assert(((hi * 16 + lo) as u8) == b);
        assert(decode_bytes(x) =~= seq![b]);
    }
}

/// Percent-decoding undoes percent-encoding.
pub proof fn lemma_decode_encode_bytes(b: Seq<u8>)
    ensures
        is_ascii_chars(encode_bytes(b)),
        decode_bytes(ascii_bytes(encode_bytes(b))) == b,
    decreases b.len(),
{
    if b.len() == 0 {
        assert(ascii_bytes(encode_bytes(b)) =~= Seq::<u8>::empty());
    } else {
        lemma_encode_byte_shape(b[0]);
        lemma_decode_encode_bytes(b.drop_first());
        let e = encode_byte(b[0]);
        let r = encode_bytes(b.drop_first());
        assert(encode_bytes(b) == e + r);
        assert forall|i: int| 0 <= i < (e + r).len() implies '\0' <= #[trigger] (e + r)[i] <= '\u{7f}' by {
            if i < e.len() {
                assert((e + r)[i] == e[i]);
            } else {
                assert((e + r)[i] == r[i - e.len()]);
            }
        }
        let x = ascii_bytes(e + r);
        assert(x =~= ascii_bytes(e) + ascii_bytes(r));
        let xe = ascii_bytes(e);
        if xe[0] == 37 && xe.len() == 3 && hex_value(xe[1]) is Some && hex_value(xe[2]) is Some {
            assert(x.skip(3) =~= ascii_bytes(r));
            assert(decode_bytes(x) == seq![(hex_value(xe[1])->0 * 16 + hex_value(xe[2])->0) as u8] + decode_bytes(ascii_bytes(r)));
            assert(decode_bytes(xe) == seq![(hex_value(xe[1])->0 * 16 + hex_value(xe[2])->0) as u8] + decode_bytes(xe.skip(3)));
            assert(xe.skip(3) =~= Seq::<u8>::empty());
        } else {
            assert(xe.len() == 1);
            assert(x.drop_first() =~= ascii_bytes(r));
            assert(decode_bytes(xe) == seq![xe[0]] + decode_bytes(xe.drop_first()));
            assert(xe.drop_first() =~= Seq::<u8>::empty());
        }
        assert(b =~= seq![b[0]] + b.drop_first());
    }
}

/// Header values survive the wire: a value percent-encoded and read back is
/// the value itself, whatever characters it holds.
pub proof fn lemma_value_round_trip(v: Seq<char>)
    ensures
        decoded(encoded(v)) == v,
{
    let b = encode_utf8(v);
    lemma_decode_encode_bytes(b);
    let e = encode_bytes(b);
    is_ascii_chars_encode_utf8(e);
    assert(encode_utf8(e) =~= ascii_bytes(e));
    encode_utf8_valid_utf8(v);
    encode_utf8_decode_utf8(v);
}

/// Relies on `percent_encoding::percent_encode` with `NON_ALPHANUMERIC`:
/// every byte of the UTF-8 text but an ASCII letter or digit becomes `%`
/// and two upper-case hexadecimal digits.
#[verifier::external_body]
pub(crate) fn encode_value(s: &str) -> (r: String)
    ensures
        r@ == encoded(s@),
{
    percent_encode(s.as_bytes(), NON_ALPHANUMERIC).to_string()
}

/// Relies on `percent_encoding::percent_decode_str` and `PercentDecode::decode_utf8`:
/// the decoded bytes, when they are UTF-8.
#[verifier::external_body]
fn decode_value_utf8(s: &str) -> (r: Option<String>)
    ensures
        r is Some <==> valid_utf8(decode_bytes(encode_utf8(s@))),
        r matches Some(t) ==> t@ == decode_utf8(decode_bytes(encode_utf8(s@))),
{
    percent_decode_str(s).decode_utf8().ok().map(|c| c.into_owned())
}

/// Decodes a header value read from the wire.
pub fn decode_value(s: &str) -> (r: String)
    ensures
        r@ == decoded(s@),
{
    match decode_value_utf8(s) {
        Some(t) => t,
        None => crate::error::owned(s),
    }
}

} // verus!
