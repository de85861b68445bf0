//! Zero-terminated byte buffers, the form in which the engine reads text.

use crate::error::{Status, WhisperError};
use vstd::prelude::*;
use vstd::string::StringSliceAdditionalSpecFns;
use vstd::utf8::{
    char_is_scalar, char_u32_cast, encode_scalar, encode_utf8, has_width_1_encoding, is_scalar,
};

verus! {

/// Whether `bytes` is a C string: some bytes, none of them zero, and then one
/// zero byte.
pub open spec fn is_c_string(bytes: Seq<u8>) -> bool {
    &&& bytes.len() >= 1
    &&& bytes.last() == 0
    &&& !bytes.drop_last().contains(0u8)
}

/// The C string that holds `text`.
pub open spec fn terminated(text: Seq<u8>) -> Seq<u8> {
    text.push(0u8)
}

/// A C string is the termination of the bytes before its zero byte, and a
/// termination is a C string exactly when no zero byte stands inside.
pub proof fn lemma_terminated_c_string(text: Seq<u8>)
    ensures
        is_c_string(terminated(text)) <==> !text.contains(0u8),
        terminated(text).drop_last() == text,
        terminated(text).len() == text.len() + 1,
{
    assert(terminated(text).drop_last() =~= text);
}

/// The UTF-8 encoding of a scalar holds a zero byte exactly when the scalar
/// is zero.
proof fn lemma_scalar_zero_byte(scalar: u32)
    requires
        is_scalar(scalar),
    ensures
        encode_scalar(scalar).contains(0u8) <==> scalar == 0,
{
    let bytes = encode_scalar(scalar);
    if has_width_1_encoding(scalar) {
        assert((scalar & 0x7F) as u8 == 0u8 <==> scalar == 0) by (bit_vector)
            requires
                scalar <= 0x7F,
        ;
        assert(bytes[0] == (scalar & 0x7F) as u8);
        if scalar == 0 {
            assert(bytes.contains(bytes[0]));
        }
    } else {
        assert(0xC0u8 | ((scalar >> 6) & 0x1F) as u8 != 0u8) by (bit_vector);
        assert(0xE0u8 | ((scalar >> 12) & 0x0F) as u8 != 0u8) by (bit_vector);
        assert(0xF0u8 | ((scalar >> 18) & 0x7) as u8 != 0u8) by (bit_vector);
        assert(0x80u8 | (scalar & 0x3F) as u8 != 0u8) by (bit_vector);
        assert(0x80u8 | ((scalar >> 6) & 0x3F) as u8 != 0u8) by (bit_vector);
        assert(0x80u8 | ((scalar >> 12) & 0x3F) as u8 != 0u8) by (bit_vector);
        assert forall|i: int| 0 <= i < bytes.len() implies bytes[i] != 0u8 by {}
    }
}

/// The bytes of a text hold a zero byte exactly when the text holds the
/// character of code zero: a text is rejected for a zero byte exactly when
/// it has that character in it.
pub proof fn lemma_zero_byte_is_zero_char(text: Seq<char>)
    ensures
        encode_utf8(text).contains(0u8) <==> text.contains('\0'),
    decreases text.len(),
{
    if text.len() > 0 {
        let head = encode_scalar(text[0] as u32);
        let rest = text.drop_first();
        let tail = encode_utf8(rest);
        char_is_scalar(text[0]);
        lemma_scalar_zero_byte(text[0] as u32);
        lemma_zero_byte_is_zero_char(rest);
        assert(('\0' as u32) == 0u32);
        if head.contains(0u8) {
            let i = choose|i: int| 0 <= i < head.len() && head[i] == 0u8;
            assert((head + tail)[i] == 0u8);
            char_u32_cast(text[0], 0u32);
            assert(text[0] == '\0');
        }
        if tail.contains(0u8) {
            let i = choose|i: int| 0 <= i < tail.len() && tail[i] == 0u8;
            assert((head + tail)[head.len() + i] == 0u8);
            let j = choose|j: int| 0 <= j < rest.len() && rest[j] == '\0';
            assert(text[j + 1] == '\0');
        }
        if (head + tail).contains(0u8) {
            let i = choose|i: int| 0 <= i < (head + tail).len() && (head + tail)[i] == 0u8;
            if i < head.len() {
                assert(head[i] == 0u8);
            } else {
                assert(tail[i - head.len()] == 0u8);
            }
        }
        if text.contains('\0') {
            let j = choose|j: int| 0 <= j < text.len() && text[j] == '\0';
            if j == 0 {
                assert(head.contains(0u8));
            } else {
                assert(rest[j - 1] == '\0');
                assert(tail.contains(0u8));
            }
        }
    }
}

/// The empty C string: a single zero byte.
pub fn empty_c_string() -> (buffer: Vec<u8>)
    ensures
        buffer@ == terminated(Seq::empty()),
        is_c_string(buffer@),
{
    let mut buffer: Vec<u8> = Vec::new();
    buffer.push(0u8);
    proof {
        lemma_terminated_c_string(Seq::empty());
        assert(buffer@ =~= terminated(Seq::empty()));
    }
    buffer
}

/// Copies `text` into a fresh zero-terminated buffer. Text with a zero byte
/// inside, which is text with the character of code zero in it, cannot be
/// read back by the engine and is rejected as an invalid argument.
pub fn c_string(text: &str) -> (r: Result<Vec<u8>, WhisperError>)
    ensures
        r is Ok <==> !text@.contains('\0'),
        match r {
            Ok(buffer) => !text.spec_bytes().contains(0u8) && buffer@ == terminated(
                text.spec_bytes(),
            ) && is_c_string(buffer@),
            Err(e) => text.spec_bytes().contains(0u8) && e.carries(
                Status::InvalidArg,
                "String must not contain a zero byte"@,
            ),
        },
{
    let bytes = text.as_bytes();
    proof {
        lemma_zero_byte_is_zero_char(text@);
    }
    let mut buffer: Vec<u8> = Vec::new();
    let mut i: usize = 0;
    while i < bytes.len()
        invariant
            i <= bytes.len(),
            bytes@ == text.spec_bytes(),
            buffer@ == bytes@.take(i as int),
            !buffer@.contains(0u8),
        decreases bytes.len() - i,
    {
        let byte = bytes[i];
        if byte == 0 {
            proof {
                assert(bytes@[i as int] == 0u8 && bytes@.contains(bytes@[i as int]));
                lemma_zero_byte_is_zero_char(text@);
            }
            return Err(WhisperError::invalid_arg("String must not contain a zero byte"));
        }
        proof {
            let grown = buffer@.push(byte);
            assert(grown =~= bytes@.take(i + 1));
            assert forall|k: int| 0 <= k < grown.len() implies grown[k] != 0u8 by {
                if k < i {
                    assert(buffer@.contains(buffer@[k]));
                }
            }
        }
        buffer.push(byte);
        i = i + 1;
    }
    proof {
        assert(bytes@.take(i as int) =~= bytes@);
        lemma_terminated_c_string(bytes@);
    }
    buffer.push(0u8);
    Ok(buffer)
}

} // verus!
