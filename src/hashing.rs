//! SHA-256 digests in hex, and the difficulty that a proof-of-work digest must meet.

use crypto::digest::Digest;
use vstd::prelude::*;

verus! {

/// Texts digested here are shorter than this many characters. A character
/// takes at most four bytes in UTF-8, so the hasher is fed fewer than `2^61`
/// bytes, the most whose length in bits it can count.
pub const HASH_INPUT_LIMIT: u64 = 0x0800_0000_0000_0000;

/// How many leading `'0'` characters a proof-of-work digest must have.
pub const DIFFICULTY: usize = 4;

/// The lowercase hex SHA-256 digest of the UTF-8 bytes of a text.
pub uninterp spec fn sha256_hex_of(text: Seq<char>) -> Seq<char>;

/// A lowercase hex digit: `0`-`9` or `a`-`f`.
pub open spec fn is_lower_hex(c: char) -> bool {
    (48 <= (c as u32) <= 57) || (97 <= (c as u32) <= 102)
}

/// A SHA-256 digest written in hex: 64 lowercase hex digits, two for each of
/// its 32 bytes.
pub open spec fn is_hex_digest(h: Seq<char>) -> bool {
    h.len() == 64 && forall|i: int| 0 <= i < 64 ==> is_lower_hex(#[trigger] h[i])
}

/// Relies on rust-crypto's `Sha256` through `Digest::input_str` and
/// `Digest::result_str`: the digest of the text's UTF-8 bytes, as lowercase
/// hex; `result_str` writes each of the 32 bytes of the digest as two digits
/// of `0123456789abcdef`. The hasher panics when the input's length in bits overflows a `u64`,
/// which the bound on `text` rules out.
#[verifier::external_body]
pub(crate) fn sha256_hex(text: &str) -> (r: String)
    requires
        text@.len() < HASH_INPUT_LIMIT,
    ensures
        r@ == sha256_hex_of(text@),
        is_hex_digest(r@),
{
    let mut hasher = crypto::sha2::Sha256::new();
    hasher.input_str(text);
    hasher.result_str()
}

/// A digest meets the difficulty when it starts with `DIFFICULTY` zeros.
pub open spec fn meets_difficulty(digest: Seq<char>) -> bool {
    &&& digest.len() >= DIFFICULTY
    &&& forall|i: int| 0 <= i < DIFFICULTY ==> digest[i] == '0'
}

/// Whether `digest` meets the difficulty.
pub fn has_leading_zeros(digest: &String) -> (r: bool)
    ensures
        r == meets_difficulty(digest@),
{
    let text = digest.as_str();
    if text.unicode_len() < DIFFICULTY {
        return false;
    }
    let mut i: usize = 0;
    while i < DIFFICULTY
        invariant
            i <= DIFFICULTY,
            text@ == digest@,
            text@.len() >= DIFFICULTY,
            forall|k: int| 0 <= k < i ==> text@[k] == '0',
        decreases DIFFICULTY - i,
    {
        if text.get_char(i) != '0' {
            return false;
        }
        i = i + 1;
    }
    true
}

} // verus!
