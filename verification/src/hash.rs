//! Content hashing with BLAKE3.
use vstd::prelude::*;

verus! {

/// The lowercase hexadecimal BLAKE3 digest of the UTF-8 bytes of a text, as
/// `blake3::hash(text.as_bytes()).to_hex()` gives it.
pub uninterp spec fn blake3_hex_of(text: Seq<char>) -> Seq<char>;

/// Whether `c` is one of `0-9a-f`.
pub open spec fn is_lower_hex_digit(c: char) -> bool {
    ('0' <= c && c <= '9') || ('a' <= c && c <= 'f')
}

/// Calls `blake3::hash` on the bytes of `text` and `Hash::to_hex` on the
/// digest. The digest is 32 bytes, written as 64 lowercase hex digits;
/// which digits they are is left to the name `blake3_hex_of`.
#[verifier::external_body]
pub(crate) fn blake3_hex(text: &str) -> (r: String)
    ensures
        r@ == blake3_hex_of(text@),
        r@.len() == 64,
        forall|i: int| 0 <= i < r@.len() ==> is_lower_hex_digit(#[trigger] r@[i]),
{
    blake3::hash(text.as_bytes()).to_hex().to_string()
}

} // verus!
