//! Base64 text for a sequence of bytes, in the standard and the URL-safe alphabet.

use vstd::prelude::*;

verus! {

/// The byte at position `i`, or 0 past the end.
pub open spec fn byte_or_zero(bytes: Seq<u8>, i: int) -> int {
    if 0 <= i < bytes.len() {
        bytes[i] as int
    } else {
        0
    }
}

/// The 24 bits of the `g`-th group of three bytes, the first byte on top.
pub open spec fn group_bits(bytes: Seq<u8>, g: int) -> int {
    byte_or_zero(bytes, 3 * g) * 0x1_0000 + byte_or_zero(bytes, 3 * g + 1) * 0x100 + byte_or_zero(
        bytes,
        3 * g + 2,
    )
}

/// The value of the `k`-th group of six bits: each group of three bytes holds four.
pub open spec fn sextet(bytes: Seq<u8>, k: int) -> int {
    let bits = group_bits(bytes, k / 4);
    if k % 4 == 0 {
        bits / 0x4_0000
    } else if k % 4 == 1 {
        bits / 0x1000 % 64
    } else if k % 4 == 2 {
        bits / 64 % 64
    } else {
        bits % 64
    }
}

/// The 64 characters that stand for the values of six bits.
pub open spec fn alphabet(url_safe: bool) -> Seq<char> {
    if url_safe {
        "ABCDEFGHIJKLMNOPQRSTUVWXYZabcdefghijklmnopqrstuvwxyz0123456789-_"@
    } else {
        "ABCDEFGHIJKLMNOPQRSTUVWXYZabcdefghijklmnopqrstuvwxyz0123456789+/"@
    }
}

/// The character that fills the last group of four.
pub open spec fn padding() -> char {
    '='
}

/// The number of characters that carry bits of `n` bytes.
pub open spec fn data_len(n: nat) -> nat {
    (4 * n + 2) / 3
}

/// The number of characters in the text for `n` bytes, padding included.
pub open spec fn encoded_len(n: nat) -> nat {
    4 * ((n + 2) / 3)
}

/// The padded base64 text of `bytes`.
pub open spec fn base64_text(bytes: Seq<u8>, url_safe: bool) -> Seq<char> {
    Seq::new(
        encoded_len(bytes.len()),
        |k: int|
            if k < data_len(bytes.len()) {
                alphabet(url_safe)[sextet(bytes, k)]
            } else {
                padding()
            },
    )
}

/// A letter, a digit, or one of the two signs of the alphabet.
pub open spec fn in_alphabet(c: char, url_safe: bool) -> bool {
    ||| 'A' <= c <= 'Z'
    ||| 'a' <= c <= 'z'
    ||| '0' <= c <= '9'
    ||| c == (if url_safe { '-' } else { '+' })
    ||| c == (if url_safe { '_' } else { '/' })
}

/// `base64::encode` gives the padded base64 text of the bytes in the standard
/// alphabet. It fails where the text's length does not fit, which `requires`
/// leaves out.
#[verifier::external_body]
pub(crate) fn encode_standard(bytes: &[u8]) -> (text: String)
    requires
        encoded_len(bytes@.len()) <= isize::MAX,
    ensures
        text@ == base64_text(bytes@, false),
{
    base64::encode(bytes)
}

/// `base64::encode_config` with `base64::URL_SAFE` gives the padded base64 text
/// of the bytes in the URL-safe alphabet. It fails where the text's length does
/// not fit, which `requires` leaves out.
#[verifier::external_body]
pub(crate) fn encode_url_safe(bytes: &[u8]) -> (text: String)
    requires
        encoded_len(bytes@.len()) <= isize::MAX,
    ensures
        text@ == base64_text(bytes@, true),
{
    base64::encode_config(bytes, base64::URL_SAFE)
}

/// The value of six bits is under 64.
pub proof fn lemma_sextet_range(bytes: Seq<u8>, k: int)
    requires
        0 <= k,
    ensures
        0 <= sextet(bytes, k) < 64,
{
    let bits = group_bits(bytes, k / 4);
    assert(0 <= bits < 0x100_0000);
}

/// Each alphabet has 64 characters, all of them letters, digits or its two signs.
pub proof fn lemma_alphabet(url_safe: bool, v: int)
    requires
        0 <= v < 64,
    ensures
        alphabet(url_safe).len() == 64,
        in_alphabet(alphabet(url_safe)[v], url_safe),
{
    reveal_strlit("ABCDEFGHIJKLMNOPQRSTUVWXYZabcdefghijklmnopqrstuvwxyz0123456789+/");
    reveal_strlit("ABCDEFGHIJKLMNOPQRSTUVWXYZabcdefghijklmnopqrstuvwxyz0123456789-_");
}

/// The text for `n` bytes has `encoded_len(n)` characters. The first
/// `data_len(n)` are of the alphabet chosen, the rest is padding.
pub proof fn lemma_base64_text_shape(bytes: Seq<u8>, url_safe: bool)
    ensures
        base64_text(bytes, url_safe).len() == encoded_len(bytes.len()),
        data_len(bytes.len()) <= encoded_len(bytes.len()),
        forall|k: int|
            0 <= k < data_len(bytes.len()) ==> in_alphabet(
                #[trigger] base64_text(bytes, url_safe)[k],
                url_safe,
            ),
        forall|k: int|
            data_len(bytes.len()) <= k < encoded_len(bytes.len()) ==> #[trigger] base64_text(
                bytes,
                url_safe,
            )[k] == padding(),
{
    assert forall|k: int| 0 <= k < data_len(bytes.len()) implies in_alphabet(
        #[trigger] base64_text(bytes, url_safe)[k],
        url_safe,
    ) by {
        lemma_sextet_range(bytes, k);
        lemma_alphabet(url_safe, sextet(bytes, k));
    }
}

} // verus!
