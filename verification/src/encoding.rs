//! Base64, with the standard alphabet and padding.

use vstd::prelude::*;
use vstd::utf8::encode_utf8;

verus! {

/// How many characters encode `n` bytes.
pub open spec fn encoded_len(n: nat) -> nat {
    (n + 2) / 3 * 4
}

/// The byte at `k`, zero past the end.
pub open spec fn byte_at(bytes: Seq<u8>, k: int) -> int {
    if 0 <= k < bytes.len() {
        bytes[k] as int
    } else {
        0
    }
}

/// The `j`th group of six bits.
pub open spec fn sextet(bytes: Seq<u8>, j: int) -> int {
    let k = 6 * j / 8;
    let pair = byte_at(bytes, k) * 256 + byte_at(bytes, k + 1);
    let below: int = if j % 4 == 0 {
        1024
    } else if j % 4 == 1 {
        16
    } else if j % 4 == 2 {
        64
    } else {
        256
    };
    pair / below % 64
}

/// The character for a group of six bits.
pub open spec fn symbol(v: int) -> char {
    if v < 26 {
        ('A' as int + v) as char
    } else if v < 52 {
        ('a' as int + v - 26) as char
    } else if v < 62 {
        ('0' as int + v - 52) as char
    } else if v == 62 {
        '+'
    } else {
        '/'
    }
}

/// Bytes as base64: a symbol for each six bits begun, padded to a multiple of four.
pub open spec fn encoded(bytes: Seq<u8>) -> Seq<char> {
    Seq::new(
        encoded_len(bytes.len()),
        |j: int|
            if 6 * j < 8 * bytes.len() {
                symbol(sextet(bytes, j))
            } else {
                '='
            },
    )
}

/// Calls `encode` of `base64::engine::general_purpose::STANDARD` on the bytes of a text. It
/// panics where the result would not fit in memory.
#[verifier::external_body]
pub(crate) fn encode(text: &str) -> (r: String)
    requires
        encoded_len(encode_utf8(text@).len()) <= isize::MAX,
    ensures
        r@ == encoded(encode_utf8(text@)),
{
    base64::Engine::encode(&base64::engine::general_purpose::STANDARD, text)
}

} // verus!
