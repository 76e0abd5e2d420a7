//! Percent-encoding of parameter values: every byte outside the unreserved set
//! `A-Z a-z 0-9 - _ . ~` is written as `%` and two upper-case hexadecimal digits.
use vstd::prelude::*;
use vstd::utf8::{decode_utf8, encode_utf8, encode_utf8_decode_utf8, encode_utf8_valid_utf8, is_ascii_chars, is_ascii_chars_encode_utf8, valid_utf8};
use crate::crc::{hex_digit, hex_upper};
use crate::error::ProtoError;
use crate::strings::{push_char, string_from_utf8};

verus! {

/// Bytes that stand for themselves in an encoded value.
pub open spec fn is_unreserved(b: u8) -> bool {
    (65 <= b && b <= 90) || (97 <= b && b <= 122) || (48 <= b && b <= 57) || b == 45 || b == 95
        || b == 46 || b == 126
}

/// The encoding of one byte.
pub open spec fn encode_byte(b: u8) -> Seq<char> {
    if is_unreserved(b) {
        seq![b as char]
    } else {
        seq!['%', hex_upper((b >> 4u8) as u32), hex_upper((b & 15u8) as u32)]
    }
}

/// The encoding of a byte sequence, byte by byte.
pub open spec fn percent_encode(bytes: Seq<u8>) -> Seq<char>
    decreases bytes.len(),
{
    if bytes.len() == 0 {
        Seq::empty()
    } else {
        percent_encode(bytes.drop_last()) + encode_byte(bytes.last())
    }
}

/// The value of a hexadecimal digit of either case.
pub open spec fn hex_value(b: u8) -> Option<u8> {
    if 48 <= b && b <= 57 {
        Some((b - 48) as u8)
    } else if 97 <= b && b <= 102 {
        Some((b - 87) as u8)
    } else if 65 <= b && b <= 70 {
        Some((b - 55) as u8)
    } else {
        None
    }
}

/// The bytes that an encoded byte sequence stands for, or `None` where an
/// escape is cut short or holds a non-hexadecimal digit.
pub open spec fn percent_decode(bytes: Seq<u8>) -> Option<Seq<u8>>
    decreases bytes.len(),
{
    if bytes.len() == 0 {
        Some(Seq::empty())
    } else if bytes[0] == 37 {
        if bytes.len() < 3 {
            None
        } else {
            match (hex_value(bytes[1]), hex_value(bytes[2])) {
                (Some(h), Some(l)) => match percent_decode(bytes.skip(3)) {
                    Some(rest) => Some(seq![(h * 16 + l) as u8] + rest),
                    None => None,
                },
                _ => None,
            }
        }
    } else {
        match percent_decode(bytes.skip(1)) {
            Some(rest) => Some(seq![bytes[0]] + rest),
            None => None,
        }
    }
}

/// `prefix` in front of a decoded remainder.
pub open spec fn prepend(prefix: Seq<u8>, rest: Option<Seq<u8>>) -> Option<Seq<u8>> {
    match rest {
        Some(r) => Some(prefix + r),
        None => None,
    }
}

/// What decoding the encoded text `v` gives: the string its bytes stand for,
/// or why there is none.
pub open spec fn decode_text(v: Seq<char>) -> Result<Seq<char>, ProtoError> {
    match percent_decode(encode_utf8(v)) {
        None => Err(ProtoError::BadEscape),
        Some(bytes) => if valid_utf8(bytes) {
            Ok(decode_utf8(bytes))
        } else {
            Err(ProtoError::BadUtf8)
        },
    }
}

/// The value of a hexadecimal digit, `None` for any other byte.
pub fn from_hex(byte: u8) -> (r: Option<u8>)
    ensures
        r == hex_value(byte),
{
    if 48 <= byte && byte <= 57 {
        Some(byte - 48)
    } else if 97 <= byte && byte <= 102 {
        Some(byte - 87)
    } else if 65 <= byte && byte <= 70 {
        Some(byte - 55)
    } else {
        None
    }
}

/// Encodes the UTF-8 bytes of `value`.
pub fn encode_value(value: &str) -> (r: String)
    ensures
        r@ == percent_encode(encode_utf8(value@)),
{
    let bytes = value.as_bytes();
    let mut encoded = String::new();
    let n = bytes.len();
    for i in 0..n
        invariant
            n == bytes@.len(),
            bytes@ == encode_utf8(value@),
            encoded@ == percent_encode(bytes@.subrange(0, i as int)),
    {
        let byte = bytes[i];
        if (65 <= byte && byte <= 90) || (97 <= byte && byte <= 122) || (48 <= byte && byte <= 57)
            || byte == 45 || byte == 95 || byte == 46 || byte == 126 {
            push_char(&mut encoded, byte as char);
        } else {
            let hi: u8 = byte >> 4;
            let lo: u8 = byte & 15;
            assert(hi < 16 && lo < 16) by (bit_vector)
                requires
                    hi == byte >> 4u8,
                    lo == byte & 15u8,
            ;
            push_char(&mut encoded, '%');
            push_char(&mut encoded, hex_digit(hi as u32));
            push_char(&mut encoded, hex_digit(lo as u32));
        }
        assert(bytes@.subrange(0, i + 1).drop_last() =~= bytes@.subrange(0, i as int));
        assert(encoded@ =~= percent_encode(bytes@.subrange(0, i + 1)));
    }
    assert(bytes@.subrange(0, n as int) =~= bytes@);
    encoded
}

/// Decodes an encoded value back into a string.
pub fn decode_value(value: &str) -> (r: Result<String, ProtoError>)
    ensures
        match decode_text(value@) {
            Ok(t) => r matches Ok(s) && s@ == t,
            Err(e) => r matches Err(x) && x == e,
        },
{
    let bytes = value.as_bytes();
    let n = bytes.len();
    let mut output: Vec<u8> = Vec::with_capacity(n);
    let mut i: usize = 0;
    proof {
        assert(bytes@.skip(0) =~= bytes@);
        match percent_decode(bytes@) {
            Some(r) => assert(output@ + r =~= r),
            None => {},
        }
    }
    while i < n
        invariant
            n == bytes@.len(),
            bytes@ == encode_utf8(value@),
            i <= n,
            percent_decode(bytes@) == prepend(output@, percent_decode(bytes@.skip(i as int))),
        decreases n - i,
    {
        let rest = Ghost(bytes@.skip(i as int));
        if bytes[i] == 37 {
            if n - i <= 2 {
                return Err(ProtoError::BadEscape);
            }
            assert(rest@[1] == bytes@[i + 1] && rest@[2] == bytes@[i + 2]);
            let hi = match from_hex(bytes[i + 1]) {
                Some(h) => h,
                None => {
                    return Err(ProtoError::BadEscape);
                },
            };
            let lo = match from_hex(bytes[i + 2]) {
                Some(l) => l,
                None => {
                    return Err(ProtoError::BadEscape);
                },
            };
            let b: u8 = (hi << 4) | lo;
            assert(b == hi * 16 + lo) by (bit_vector)
                requires
                    hi < 16,
                    lo < 16,
                    b == (hi << 4u8) | lo,
            ;
            assert(rest@.skip(3) =~= bytes@.skip(i + 3));
            let ghost before = output@;
            output.push(b);
            assert(output@ =~= before + seq![b]);
            proof {
                match percent_decode(bytes@.skip(i + 3)) {
                    Some(r) => assert(before + (seq![b] + r) =~= output@ + r),
                    None => {},
                }
            }
            i = i + 3;
        } else {
            assert(rest@.skip(1) =~= bytes@.skip(i + 1));
            let ghost before = output@;
            let b = bytes[i];
            output.push(b);
            assert(output@ =~= before + seq![b]);
            proof {
                match percent_decode(bytes@.skip(i + 1)) {
                    Some(r) => assert(before + (seq![b] + r) =~= output@ + r),
                    None => {},
                }
            }
            i = i + 1;
        }
    }
    assert(bytes@.skip(n as int) =~= Seq::<u8>::empty());
    assert(output@ + Seq::<u8>::empty() =~= output@);
    match string_from_utf8(output) {
        Some(s) => Ok(s),
        None => Err(ProtoError::BadUtf8),
    }
}

/// The bytes of a text made of ASCII characters only.
pub open spec fn ascii_bytes(cs: Seq<char>) -> Seq<u8> {
    Seq::new(cs.len(), |i: int| cs[i] as u8)
}

proof fn lemma_hex_upper(n: u32)
    requires
        n < 16,
    ensures
        (hex_upper(n) as u32) < 128,
        hex_value(hex_upper(n) as u8) == Some(n as u8),
        hex_upper(n) as u8 != 37,
{
}

proof fn lemma_encode_byte_ascii(b: u8)
    ensures
        is_ascii_chars(encode_byte(b)),
        encode_byte(b).len() > 0,
        ascii_bytes(encode_byte(b))[0] == 37 <==> !is_unreserved(b),
{
    assert((b >> 4u8) < 16 && (b & 15u8) < 16) by (bit_vector);
    lemma_hex_upper((b >> 4u8) as u32);
    lemma_hex_upper((b & 15u8) as u32);
}

/// Every encoded value is plain ASCII.
pub proof fn lemma_encode_is_ascii(bytes: Seq<u8>)
    ensures
        is_ascii_chars(percent_encode(bytes)),
    decreases bytes.len(),
{
    if bytes.len() > 0 {
        lemma_encode_is_ascii(bytes.drop_last());
        lemma_encode_byte_ascii(bytes.last());
        let a = percent_encode(bytes.drop_last());
        let b = encode_byte(bytes.last());
        assert forall|i: int| 0 <= i < (a + b).len() implies '\0' <= #[trigger] (a + b)[i] <= '\u{7f}' by {
            if i < a.len() {
                assert((a + b)[i] == a[i]);
            } else {
                assert((a + b)[i] == b[i - a.len()]);
            }
        }
    }
}

proof fn lemma_decode_one(b: u8, rest: Seq<u8>)
    ensures
        percent_decode(ascii_bytes(encode_byte(b)) + rest) == prepend(seq![b], percent_decode(rest)),
{
    let e = ascii_bytes(encode_byte(b));
    let s = e + rest;
    lemma_encode_byte_ascii(b);
    if is_unreserved(b) {
        assert(e =~= seq![b]);
        assert(s.skip(1) =~= rest);
    } else {
        let h = (b >> 4u8) as u32;
        let l = (b & 15u8) as u32;
        assert(h < 16 && l < 16 && h * 16 + l == b) by (bit_vector)
            requires
                h == (b >> 4u8) as u32,
                l == (b & 15u8) as u32,
        ;
        lemma_hex_upper(h);
        lemma_hex_upper(l);
        assert(s[1] == hex_upper(h) as u8);
        assert(s[2] == hex_upper(l) as u8);
        assert(s.skip(3) =~= rest);
    }
    match percent_decode(rest) {
        Some(r) => assert(seq![b] + r =~= seq![b] + r),
        None => {},
    }
}

proof fn lemma_decode_encoded_prefix(bytes: Seq<u8>, rest: Seq<u8>)
    ensures
        percent_decode(ascii_bytes(percent_encode(bytes)) + rest) == prepend(bytes, percent_decode(rest)),
    decreases bytes.len(),
{
    if bytes.len() == 0 {
        assert(ascii_bytes(percent_encode(bytes)) + rest =~= rest);
        match percent_decode(rest) {
            Some(r) => assert(bytes + r =~= r),
            None => {},
        }
    } else {
        let init = bytes.drop_last();
        let last = bytes.last();
        let a = ascii_bytes(percent_encode(init));
        let b = ascii_bytes(encode_byte(last));
        assert(ascii_bytes(percent_encode(bytes)) =~= a + b);
        assert(ascii_bytes(percent_encode(bytes)) + rest =~= a + (b + rest));
        lemma_decode_encoded_prefix(init, b + rest);
        lemma_decode_one(last, rest);
        match percent_decode(rest) {
            Some(r) => assert(init + (seq![last] + r) =~= bytes + r),
            None => {},
        }
    }
}

/// The bytes of an encoded value are its characters, one byte each.
pub proof fn lemma_encoded_bytes(bytes: Seq<u8>)
    ensures
        encode_utf8(percent_encode(bytes)) == ascii_bytes(percent_encode(bytes)),
{
    lemma_encode_is_ascii(bytes);
    is_ascii_chars_encode_utf8(percent_encode(bytes));
    assert(encode_utf8(percent_encode(bytes)) =~= ascii_bytes(percent_encode(bytes)));
}

/// Decoding an encoded value gives back the text that was encoded: for every
/// string `v`, `decode_value(&encode_value(v))` is `Ok` of a string equal to `v`.
pub proof fn lemma_decode_encode_roundtrip(text: Seq<char>)
    ensures
        decode_text(percent_encode(encode_utf8(text))) == Ok::<Seq<char>, ProtoError>(text),
{
    let bytes = encode_utf8(text);
    lemma_encoded_bytes(bytes);
    lemma_decode_encoded_prefix(bytes, Seq::empty());
    assert(ascii_bytes(percent_encode(bytes)) + Seq::<u8>::empty() =~= ascii_bytes(percent_encode(bytes)));
    assert(bytes + Seq::<u8>::empty() =~= bytes);
    encode_utf8_valid_utf8(text);
    encode_utf8_decode_utf8(text);
}

} // verus!
