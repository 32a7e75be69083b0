//! SHA-256 hex digests, computed by the `sha256` crate.

use vstd::prelude::*;

verus! {

/// The lowercase hexadecimal SHA-256 digest of the UTF-8 encoding of `input`.
pub uninterp spec fn sha256_hex(input: Seq<char>) -> Seq<char>;

/// A lowercase hexadecimal digit: `0`-`9` or `a`-`f`.
pub open spec fn is_lower_hex_char(c: char) -> bool {
    ('0' <= c && c <= '9') || ('a' <= c && c <= 'f')
}

/// A SHA-256 digest in hex: 64 lowercase hexadecimal digits.
pub open spec fn is_hex_digest(s: Seq<char>) -> bool {
    s.len() == 64 && forall|i: int| 0 <= i < s.len() ==> is_lower_hex_char(#[trigger] s[i])
}

/// Calls `sha256::digest` on the string. The crate hashes the UTF-8 bytes with
/// SHA-256 and renders the 32-byte result with `hex::encode`, so the contract
/// claims: the result is the named digest of the input, it is 64 characters
/// long, and every character is a lowercase hex digit.
#[verifier::external_body]
pub(crate) fn sha256_digest(input: String) -> (r: String)
    ensures
        r@ == sha256_hex(input@),
        is_hex_digest(r@),
{
    sha256::digest(input)
}

} // verus!
