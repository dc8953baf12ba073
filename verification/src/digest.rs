//! SHA-256 digests, computed by the `sha2` crate.
use vstd::prelude::*;

verus! {

/// The lower-case hexadecimal SHA-256 digest of some bytes.
pub uninterp spec fn sha256_hex_spec(bytes: Seq<u8>) -> Seq<char>;

/// Calls `sha2::Sha256::digest` and renders the 32-byte digest as lower-case
/// hex (`LowerHex`), 64 characters. Claimed: the text is `sha256_hex_spec`
/// of the bytes, nothing else.
#[verifier::external_body]
pub(crate) fn sha256_hex(bytes: &[u8]) -> (res: String)
    ensures
        res@ == sha256_hex_spec(bytes@),
        res@.len() == 64,
        forall|i: int| 0 <= i < 64 ==> ('0' <= #[trigger] res@[i] <= '9') || ('a' <= res@[i] <= 'f'),
{
    format!("{:x}", <sha2::Sha256 as sha2::Digest>::digest(bytes))
}

} // verus!
