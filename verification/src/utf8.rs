//! UTF-8, as far as the kernel needs it: telling text from other bytes.

use vstd::prelude::*;

verus! {

/// A byte that continues a character: `10xxxxxx`.
pub open spec fn is_continuation(byte: u8) -> bool {
    0x80 <= byte <= 0xBF
}

/// The length of the character at the start of `bytes`, or 0 where no
/// well-formed character starts there.
///
/// One byte encodes the characters up to U+007F, two bytes those up to
/// U+07FF, three those up to U+FFFF, and four those up to U+10FFFF. A
/// character must be encoded in the shortest way, and the surrogates U+D800
/// to U+DFFF are no characters.
pub open spec fn first_char_len(bytes: Seq<u8>) -> int {
    if bytes.len() == 0 {
        0
    } else if bytes[0] <= 0x7F {
        1
    } else if 0xC2 <= bytes[0] <= 0xDF {
        if bytes.len() >= 2 && is_continuation(bytes[1]) {
            2
        } else {
            0
        }
    } else if 0xE0 <= bytes[0] <= 0xEF {
        if bytes.len() >= 3 && is_continuation(bytes[1]) && is_continuation(bytes[2]) && (bytes[0]
            == 0xE0 ==> bytes[1] >= 0xA0) && (bytes[0] == 0xED ==> bytes[1] <= 0x9F) {
            3
        } else {
            0
        }
    } else if 0xF0 <= bytes[0] <= 0xF4 {
        if bytes.len() >= 4 && is_continuation(bytes[1]) && is_continuation(bytes[2])
            && is_continuation(bytes[3]) && (bytes[0] == 0xF0 ==> bytes[1] >= 0x90) && (bytes[0]
            == 0xF4 ==> bytes[1] <= 0x8F) {
            4
        } else {
            0
        }
    } else {
        0
    }
}

/// Whether `bytes` is well-formed UTF-8: one well-formed character after
/// the other.
pub open spec fn spec_valid_utf8(bytes: Seq<u8>) -> bool
    decreases bytes.len(),
{
    if bytes.len() == 0 {
        true
    } else {
        let n = first_char_len(bytes);
        n > 0 && spec_valid_utf8(bytes.subrange(n, bytes.len() as int))
    }
}

/// The scalar value that two bytes hold is encoded in the shortest way
/// exactly where the first byte is 0xC2 or more, and is no surrogate.
proof fn lemma_two_bytes(b0: u8, b1: u8)
    requires
        0xC0 <= b0 <= 0xDF,
        is_continuation(b1),
    ensures
        0x80 <= vstd::utf8::codepoint_width_2(b0, b1) <==> b0 >= 0xC2,
        vstd::utf8::not_surrogate(vstd::utf8::codepoint_width_2(b0, b1)),
{
    assert(0xC0 <= b0 <= 0xDF && 0x80 <= b1 <= 0xBF ==> (0x80 <= ((((b0 & 0x1F) as u32) << 6) | ((b1
        & 0x3F) as u32)) <==> b0 >= 0xC2) && ((((b0 & 0x1F) as u32) << 6) | ((b1 & 0x3F) as u32))
        < 0xD800) by (bit_vector);
}

/// The scalar value that three bytes hold is encoded in the shortest way
/// exactly where the second byte is 0xA0 or more after 0xE0, and is no
/// surrogate exactly where the second byte is 0x9F or less after 0xED.
proof fn lemma_three_bytes(b0: u8, b1: u8, b2: u8)
    requires
        0xE0 <= b0 <= 0xEF,
        is_continuation(b1),
        is_continuation(b2),
    ensures
        0x800 <= vstd::utf8::codepoint_width_3(b0, b1, b2) <==> (b0 == 0xE0 ==> b1 >= 0xA0),
        vstd::utf8::not_surrogate(vstd::utf8::codepoint_width_3(b0, b1, b2)) <==> (b0 == 0xED ==> b1
            <= 0x9F),
{
    assert(0xE0 <= b0 <= 0xEF && 0x80 <= b1 <= 0xBF && 0x80 <= b2 <= 0xBF ==> (0x800 <= ((((b0
        & 0x0F) as u32) << 12) | (((b1 & 0x3F) as u32) << 6) | ((b2 & 0x3F) as u32)) <==> (b0
        == 0xE0 ==> b1 >= 0xA0)) && (!(0xD800 <= ((((b0 & 0x0F) as u32) << 12) | (((b1
        & 0x3F) as u32) << 6) | ((b2 & 0x3F) as u32)) <= 0xDFFF) <==> (b0 == 0xED ==> b1 <= 0x9F)))
        by (bit_vector);
}

/// The scalar value that four bytes hold lies from U+10000 to U+10FFFF
/// exactly where the first byte is 0xF4 or less, the second 0x90 or more
/// after 0xF0 and 0x8F or less after 0xF4. It is no surrogate then.
proof fn lemma_four_bytes(b0: u8, b1: u8, b2: u8, b3: u8)
    requires
        0xF0 <= b0 <= 0xF7,
        is_continuation(b1),
        is_continuation(b2),
        is_continuation(b3),
    ensures
        0x10000 <= vstd::utf8::codepoint_width_4(b0, b1, b2, b3) <= 0x10FFFF <==> b0 <= 0xF4 && (b0
            == 0xF0 ==> b1 >= 0x90) && (b0 == 0xF4 ==> b1 <= 0x8F),
        0x10000 <= vstd::utf8::codepoint_width_4(b0, b1, b2, b3) ==> vstd::utf8::not_surrogate(
            vstd::utf8::codepoint_width_4(b0, b1, b2, b3),
        ),
{
    assert(0xF0 <= b0 <= 0xF7 && 0x80 <= b1 <= 0xBF && 0x80 <= b2 <= 0xBF && 0x80 <= b3 <= 0xBF ==> (
    0x10000 <= ((((b0 & 0x07) as u32) << 18) | (((b1 & 0x3F) as u32) << 12) | (((b2
        & 0x3F) as u32) << 6) | ((b3 & 0x3F) as u32)) && ((((b0 & 0x07) as u32) << 18) | (((b1
        & 0x3F) as u32) << 12) | (((b2 & 0x3F) as u32) << 6) | ((b3 & 0x3F) as u32)) <= 0x10FFFF
        <==> b0 <= 0xF4 && (b0 == 0xF0 ==> b1 >= 0x90) && (b0 == 0xF4 ==> b1 <= 0x8F)))
        by (bit_vector);
}

/// A well-formed character starts `bytes` exactly where vstd's model of
/// UTF-8 finds a scalar value there, and the two agree on its length.
pub proof fn lemma_first_char_agrees(bytes: Seq<u8>)
    ensures
        first_char_len(bytes) > 0 <==> bytes.len() > 0 && vstd::utf8::valid_first_scalar(bytes),
        first_char_len(bytes) > 0 ==> first_char_len(bytes) == vstd::utf8::length_of_first_scalar(
            bytes,
        ),
{
    if bytes.len() > 0 {
        let b0 = bytes[0];
        if b0 <= 0x7F {
            assert((b0 & 0x7F) as u32 <= 0x7F) by (bit_vector);
        } else if 0xC0 <= b0 <= 0xDF {
            if bytes.len() >= 2 && is_continuation(bytes[1]) {
                lemma_two_bytes(b0, bytes[1]);
            }
        } else if 0xE0 <= b0 <= 0xEF {
            if bytes.len() >= 3 && is_continuation(bytes[1]) && is_continuation(bytes[2]) {
                lemma_three_bytes(b0, bytes[1], bytes[2]);
            }
        } else if 0xF0 <= b0 <= 0xF7 {
            if bytes.len() >= 4 && is_continuation(bytes[1]) && is_continuation(bytes[2])
                && is_continuation(bytes[3]) {
                lemma_four_bytes(b0, bytes[1], bytes[2], bytes[3]);
            }
        }
    }
}

/// What this module calls well-formed UTF-8 is what vstd's model of UTF-8
/// calls valid, the model by which vstd states what a `str` holds.
pub proof fn lemma_valid_utf8_agrees(bytes: Seq<u8>)
    ensures
        spec_valid_utf8(bytes) == vstd::utf8::valid_utf8(bytes),
    decreases bytes.len(),
{
    if bytes.len() > 0 {
        lemma_first_char_agrees(bytes);
        let n = first_char_len(bytes);
        if n > 0 {
            lemma_valid_utf8_agrees(bytes.subrange(n, bytes.len() as int));
        }
    }
}

fn continues(bytes: &[u8], at: usize) -> (yes: bool)
    ensures
        yes <==> at < bytes@.len() && is_continuation(bytes@[at as int]),
{
    at < bytes.len() && bytes[at] >= 0x80 && bytes[at] <= 0xBF
}

/// Tells whether `bytes` is well-formed UTF-8.
pub fn is_valid_utf8(bytes: &[u8]) -> (valid: bool)
    ensures
        valid == spec_valid_utf8(bytes@),
        valid == vstd::utf8::valid_utf8(bytes@),
{
    proof {
        lemma_valid_utf8_agrees(bytes@);
    }
    let len = bytes.len();
    let mut i: usize = 0;
    assert(bytes@.subrange(0, len as int) =~= bytes@);
    while i < len
        invariant
            i <= len,
            len == bytes@.len(),
            spec_valid_utf8(bytes@.subrange(i as int, len as int)) == spec_valid_utf8(bytes@),
            spec_valid_utf8(bytes@) == vstd::utf8::valid_utf8(bytes@),
        decreases len - i,
    {
        let ghost rest = bytes@.subrange(i as int, len as int);
        assert(rest[0] == bytes@[i as int]);
        assert(rest.len() >= 2 ==> rest[1] == bytes@[i + 1]);
        assert(rest.len() >= 3 ==> rest[2] == bytes@[i + 2]);
        assert(rest.len() >= 4 ==> rest[3] == bytes@[i + 3]);
        let first = bytes[i];
        let width: usize = if first <= 0x7F {
            1
        } else if first >= 0xC2 && first <= 0xDF {
            if len - i >= 2 && continues(bytes, i + 1) {
                2
            } else {
                0
            }
        } else if first >= 0xE0 && first <= 0xEF {
            if len - i >= 3 && continues(bytes, i + 1) && continues(bytes, i + 2) && (first != 0xE0
                || bytes[i + 1] >= 0xA0) && (first != 0xED || bytes[i + 1] <= 0x9F) {
                3
            } else {
                0
            }
        } else if first >= 0xF0 && first <= 0xF4 {
            if len - i >= 4 && continues(bytes, i + 1) && continues(bytes, i + 2) && continues(
                bytes,
                i + 3,
            ) && (first != 0xF0 || bytes[i + 1] >= 0x90) && (first != 0xF4 || bytes[i + 1]
                <= 0x8F) {
                4
            } else {
                0
            }
        } else {
            0
        };
        assert(width == first_char_len(rest));
        if width == 0 {
            return false;
        }
        assert(rest.subrange(width as int, rest.len() as int) =~= bytes@.subrange(
            i + width,
            len as int,
        ));
        i += width;
    }
    true
}

} // verus!
