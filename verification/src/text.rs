use vstd::prelude::*;
use vstd::utf8::*;

use crate::error::FsError;

verus! {

/// What a file's bytes read as: the character sequence they encode when
/// they are valid UTF-8, and `InvalidEncoding` otherwise.
pub open spec fn read_response(bytes: Seq<u8>) -> Result<Seq<char>, FsError> {
    if valid_utf8(bytes) {
        Ok(decode_utf8(bytes))
    } else {
        Err(FsError::InvalidEncoding)
    }
}

/// The mathematical value of a text result: the string's character
/// sequence on success, the error unchanged on failure.
pub open spec fn text_result_view(r: Result<String, FsError>) -> Result<Seq<char>, FsError> {
    match r {
        Ok(s) => Ok(s@),
        Err(e) => Err(e),
    }
}

/// True for bytes of the form `10xxxxxx`, which may only continue a
/// multi-byte scalar encoding.
fn is_continuation(b: u8) -> (r: bool)
    ensures
        r == is_continuation_byte(b),
{
    0x80 <= b && b <= 0xbf
}

/// Any byte below 0x80 encodes a scalar on its own.
proof fn lemma_scalar_width_1(rest: Seq<u8>)
    requires
        rest.len() >= 1,
        rest[0] < 0x80,
    ensures
        valid_first_scalar(rest),
        length_of_first_scalar(rest) == 1,
{
    let b0 = rest[0];
    assert(is_leading_byte_width_1(b0));
    assert(codepoint_width_1(b0) <= 0x7f) by (bit_vector);
}

/// A leading byte in `0xc2..=0xdf` followed by one continuation byte
/// encodes a scalar in `0x80..=0x7ff`.
proof fn lemma_scalar_width_2(rest: Seq<u8>)
    requires
        rest.len() >= 2,
        0xc2 <= rest[0] <= 0xdf,
        is_continuation_byte(rest[1]),
    ensures
        valid_first_scalar(rest),
        length_of_first_scalar(rest) == 2,
{
    let b0 = rest[0];
    let b1 = rest[1];
    assert(!is_leading_byte_width_1(b0) && is_leading_byte_width_2(b0));
    assert(0x80 <= codepoint_width_2(b0, b1) <= 0x7ff) by (bit_vector)
        requires
            0xc2 <= b0 <= 0xdf && 0x80 <= b1 <= 0xbf,
    ;
}

/// Bytes in `0x80..=0xc1` never start a scalar: `0x80..=0xbf` are bare
/// continuation bytes, and `0xc0..=0xc1` only begin overlong encodings.
proof fn lemma_invalid_low(rest: Seq<u8>)
    requires
        rest.len() >= 1,
        0x80 <= rest[0] <= 0xc1,
    ensures
        !valid_first_scalar(rest),
{
    let b0 = rest[0];
    if 0xc0 <= b0 && rest.len() >= 2 && is_continuation_byte(rest[1]) {
        let b1 = rest[1];
        assert(codepoint_width_2(b0, b1) < 0x80) by (bit_vector)
            requires
                0xc0 <= b0 <= 0xc1 && 0x80 <= b1 <= 0xbf,
        ;
    }
}

/// The second byte of a three-byte encoding must avoid the overlong range
/// after `0xe0` and the surrogate range after `0xed`.
spec fn second_byte_ok_width_3(b0: u8, b1: u8) -> bool {
    if b0 == 0xe0 {
        0xa0 <= b1 <= 0xbf
    } else if b0 == 0xed {
        0x80 <= b1 <= 0x9f
    } else {
        is_continuation_byte(b1)
    }
}

/// A leading byte in `0xe0..=0xef` starts a scalar exactly when two
/// continuation bytes follow and the second byte keeps the scalar out of
/// the overlong and surrogate ranges.
proof fn lemma_width_3(rest: Seq<u8>)
    requires
        rest.len() >= 1,
        0xe0 <= rest[0] <= 0xef,
    ensures
        valid_first_scalar(rest) <==> (rest.len() >= 3 && second_byte_ok_width_3(rest[0], rest[1])
            && is_continuation_byte(rest[2])),
        valid_first_scalar(rest) ==> length_of_first_scalar(rest) == 3,
{
    let b0 = rest[0];
    assert(!is_leading_byte_width_1(b0) && !is_leading_byte_width_2(b0)
        && is_leading_byte_width_3(b0));
    if rest.len() >= 3 && is_continuation_byte(rest[1]) && is_continuation_byte(rest[2]) {
        let b1 = rest[1];
        let b2 = rest[2];
        assert(valid_leading_and_continuation_bytes_first_codepoint(rest));
        let cp = codepoint_width_3(b0, b1, b2);
        assert((b0 == 0xe0 && 0xa0 <= b1) || (0xe1 <= b0 && b0 != 0xed) || (b0 == 0xed && b1
            <= 0x9f) ==> 0x800 <= cp && !(0xd800 <= cp <= 0xdfff)) by (bit_vector)
            requires
                cp == codepoint_width_3(b0, b1, b2) && 0xe0 <= b0 <= 0xef && 0x80 <= b1 <= 0xbf
                    && 0x80 <= b2 <= 0xbf,
        ;
        assert(b0 == 0xe0 && b1 < 0xa0 ==> cp < 0x800) by (bit_vector)
            requires
                cp == codepoint_width_3(b0, b1, b2) && 0xe0 <= b0 <= 0xef && 0x80 <= b1 <= 0xbf
                    && 0x80 <= b2 <= 0xbf,
        ;
        assert(b0 == 0xed && b1 > 0x9f ==> 0xd800 <= cp <= 0xdfff) by (bit_vector)
            requires
                cp == codepoint_width_3(b0, b1, b2) && 0xe0 <= b0 <= 0xef && 0x80 <= b1 <= 0xbf
                    && 0x80 <= b2 <= 0xbf,
        ;
    }
}

/// The second byte of a four-byte encoding must avoid the overlong range
/// after `0xf0` and stay at or below U+10FFFF after `0xf4`.
spec fn second_byte_ok_width_4(b0: u8, b1: u8) -> bool {
    if b0 == 0xf0 {
        0x90 <= b1 <= 0xbf
    } else if b0 == 0xf4 {
        0x80 <= b1 <= 0x8f
    } else {
        is_continuation_byte(b1)
    }
}

/// A leading byte in `0xf0..=0xf4` starts a scalar exactly when three
/// continuation bytes follow and the second byte keeps the scalar in
/// `0x10000..=0x10ffff`.
proof fn lemma_width_4(rest: Seq<u8>)
    requires
        rest.len() >= 1,
        0xf0 <= rest[0] <= 0xf4,
    ensures
        valid_first_scalar(rest) <==> (rest.len() >= 4 && second_byte_ok_width_4(rest[0], rest[1])
            && is_continuation_byte(rest[2]) && is_continuation_byte(rest[3])),
        valid_first_scalar(rest) ==> length_of_first_scalar(rest) == 4,
{
    let b0 = rest[0];
    assert(!is_leading_byte_width_1(b0) && !is_leading_byte_width_2(b0)
        && !is_leading_byte_width_3(b0) && is_leading_byte_width_4(b0));
    if rest.len() >= 4 && is_continuation_byte(rest[1]) && is_continuation_byte(rest[2])
        && is_continuation_byte(rest[3]) {
        let b1 = rest[1];
        let b2 = rest[2];
        let b3 = rest[3];
        assert(valid_leading_and_continuation_bytes_first_codepoint(rest));
        let cp = codepoint_width_4(b0, b1, b2, b3);
        assert((b0 == 0xf0 && 0x90 <= b1) || (0xf1 <= b0 <= 0xf3) || (b0 == 0xf4 && b1 <= 0x8f)
            ==> 0x10000 <= cp <= 0x10ffff) by (bit_vector)
            requires
                cp == codepoint_width_4(b0, b1, b2, b3) && 0xf0 <= b0 <= 0xf4 && 0x80 <= b1 <= 0xbf
                    && 0x80 <= b2 <= 0xbf && 0x80 <= b3 <= 0xbf,
        ;
        assert(b0 == 0xf0 && b1 < 0x90 ==> cp < 0x10000) by (bit_vector)
            requires
                cp == codepoint_width_4(b0, b1, b2, b3) && 0xf0 <= b0 <= 0xf4 && 0x80 <= b1 <= 0xbf
                    && 0x80 <= b2 <= 0xbf && 0x80 <= b3 <= 0xbf,
        ;
        assert(b0 == 0xf4 && b1 > 0x8f ==> cp > 0x10ffff) by (bit_vector)
            requires
                cp == codepoint_width_4(b0, b1, b2, b3) && 0xf0 <= b0 <= 0xf4 && 0x80 <= b1 <= 0xbf
                    && 0x80 <= b2 <= 0xbf && 0x80 <= b3 <= 0xbf,
        ;
    }
}

/// Bytes above `0xf4` never start a scalar: `0xf5..=0xf7` would encode
/// values beyond U+10FFFF, and `0xf8..=0xff` fit no leading pattern.
proof fn lemma_invalid_high(rest: Seq<u8>)
    requires
        rest.len() >= 1,
        rest[0] > 0xf4,
    ensures
        !valid_first_scalar(rest),
{
    let b0 = rest[0];
    if b0 <= 0xf7 && rest.len() >= 4 && is_continuation_byte(rest[1]) && is_continuation_byte(
        rest[2],
    ) && is_continuation_byte(rest[3]) {
        let b1 = rest[1];
        let b2 = rest[2];
        let b3 = rest[3];
        assert(codepoint_width_4(b0, b1, b2, b3) > 0x10ffff) by (bit_vector)
            requires
                0xf5 <= b0 <= 0xf7 && 0x80 <= b1 <= 0xbf && 0x80 <= b2 <= 0xbf && 0x80 <= b3
                    <= 0xbf,
        ;
    }
}

/// A sequence whose first `i` bytes are valid UTF-8 but whose remainder
/// opens with a malformed scalar is not valid UTF-8 as a whole.
proof fn lemma_prefix_then_bad_scalar(bytes: Seq<u8>, i: int)
    requires
        0 <= i < bytes.len(),
        partial_valid_utf8(bytes, i),
        !valid_first_scalar(bytes.subrange(i, bytes.len() as int)),
    ensures
        !valid_utf8(bytes),
{
    let rest = bytes.subrange(i, bytes.len() as int);
    assert(rest.len() > 0);
    assert(!valid_utf8(rest));
    partial_valid_partial_invalid_utf8(bytes, i);
}

/// Decides whether the given bytes are valid UTF-8, scalar by scalar.
pub fn utf8_check(bytes: &Vec<u8>) -> (valid: bool)
    ensures
        valid == valid_utf8(bytes@),
{
    let n = bytes.len();
    let mut i: usize = 0;
    proof {
        assert(bytes@.subrange(0, 0) =~= Seq::<u8>::empty());
    }
    while i < n
        invariant
            i <= n,
            n == bytes@.len(),
            partial_valid_utf8(bytes@, i as int),
        decreases n - i,
    {
        let ghost rest = bytes@.subrange(i as int, n as int);
        let b0 = bytes[i];
        let step: usize;
        if b0 < 0x80 {
            proof {
                lemma_scalar_width_1(rest);
            }
            step = 1;
        } else if b0 < 0xc2 {
            proof {
                lemma_invalid_low(rest);
                lemma_prefix_then_bad_scalar(bytes@, i as int);
            }
            return false;
        } else if b0 < 0xe0 {
            if n - i >= 2 && is_continuation(bytes[i + 1]) {
                proof {
                    lemma_scalar_width_2(rest);
                }
                step = 2;
            } else {
                proof {
                    lemma_prefix_then_bad_scalar(bytes@, i as int);
                }
                return false;
            }
        } else if b0 < 0xf0 {
            let second_ok = n - i >= 2 && (if b0 == 0xe0 {
                0xa0 <= bytes[i + 1] && bytes[i + 1] <= 0xbf
            } else if b0 == 0xed {
                0x80 <= bytes[i + 1] && bytes[i + 1] <= 0x9f
            } else {
                is_continuation(bytes[i + 1])
            });
            if n - i >= 3 && second_ok && is_continuation(bytes[i + 2]) {
                proof {
                    lemma_width_3(rest);
                }
                step = 3;
            } else {
                proof {
                    lemma_width_3(rest);
                    lemma_prefix_then_bad_scalar(bytes@, i as int);
                }
                return false;
            }
        } else if b0 < 0xf5 {
            let second_ok = n - i >= 2 && (if b0 == 0xf0 {
                0x90 <= bytes[i + 1] && bytes[i + 1] <= 0xbf
            } else if b0 == 0xf4 {
                0x80 <= bytes[i + 1] && bytes[i + 1] <= 0x8f
            } else {
                is_continuation(bytes[i + 1])
            });
            if n - i >= 4 && second_ok && is_continuation(bytes[i + 2]) && is_continuation(
                bytes[i + 3],
            ) {
                proof {
                    lemma_width_4(rest);
                }
                step = 4;
            } else {
                proof {
                    lemma_width_4(rest);
                    lemma_prefix_then_bad_scalar(bytes@, i as int);
                }
                return false;
            }
        } else {
            proof {
                lemma_invalid_high(rest);
                lemma_prefix_then_bad_scalar(bytes@, i as int);
            }
            return false;
        }
        proof {
            partial_valid_utf8_extend(bytes@, i as int);
            assert(length_of_first_scalar(rest) == step);
        }
        i = i + step;
    }
    proof {
        assert(bytes@.subrange(0, n as int) =~= bytes@);
    }
    true
}

/// Relies on `String::from_utf8`: on bytes that are valid UTF-8 it returns
/// the string holding exactly those bytes, that is, the text they decode to.
#[verifier::external_body]
fn string_from_utf8(bytes: Vec<u8>) -> (text: String)
    requires
        valid_utf8(bytes@),
    ensures
        text@ == decode_utf8(bytes@),
{
    match String::from_utf8(bytes) {
        Ok(text) => text,
        Err(_) => String::new(),
    }
}

/// Decodes the bytes read from a file as UTF-8 text, reporting
/// `InvalidEncoding` exactly when they are not valid UTF-8.
pub fn decode_text(bytes: Vec<u8>) -> (r: Result<String, FsError>)
    ensures
        text_result_view(r) == read_response(bytes@),
{
    if utf8_check(&bytes) {
        Ok(string_from_utf8(bytes))
    } else {
        Err(FsError::InvalidEncoding)
    }
}

/// Round trip: the bytes that encode a text always read back as exactly
/// that text.
pub proof fn lemma_read_round_trip(content: Seq<char>)
    ensures
        read_response(encode_utf8(content)) == Ok::<Seq<char>, FsError>(content),
{
    encode_utf8_valid_utf8(content);
    encode_utf8_decode_utf8(content);
}

/// A successful read is byte-faithful: re-encoding the returned text
/// yields the very bytes that were read.
pub proof fn lemma_read_text_faithful(bytes: Seq<u8>)
    requires
        read_response(bytes) is Ok,
    ensures
        valid_utf8(bytes),
        encode_utf8(read_response(bytes)->Ok_0) == bytes,
{
    decode_utf8_encode_utf8(bytes);
}

} // verus!
