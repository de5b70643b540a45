//! Content fingerprints: an MD5 digest of a response body and its size.
use vstd::prelude::*;
use vstd::string::StringSliceAdditionalSpecFns;

verus! {

/// The lowercase hexadecimal MD5 digest of `data`.
pub uninterp spec fn md5_hex(data: Seq<u8>) -> Seq<char>;

/// A digit of lowercase hexadecimal.
pub open spec fn is_lower_hex_digit(c: char) -> bool {
    ('0' <= c && c <= '9') || ('a' <= c && c <= 'f')
}

/// Relies on md5::compute and the digest's `LowerHex` formatting: the digest
/// of the bytes alone, written as two lowercase hex digits per digest byte.
#[verifier::external_body]
fn md5_hex_of(data: &[u8]) -> (r: String)
    ensures
        r@ == md5_hex(data@),
        r@.len() == 32,
        forall|i: int| 0 <= i < r@.len() ==> is_lower_hex_digit(#[trigger] r@[i]),
{
    format!("{:x}", md5::compute(data))
}

/// A response body's fingerprint.
pub struct Fingerprint {
    /// Hex digest of the body's bytes.
    pub hash: String,
    /// Length of the body in bytes.
    pub size: usize,
}

/// The digest and byte length of `body`.
pub fn fingerprint(body: &str) -> (r: Fingerprint)
    ensures
        r.hash@ == md5_hex(body.spec_bytes()),
        r.hash@.len() == 32,
        forall|i: int| 0 <= i < r.hash@.len() ==> is_lower_hex_digit(#[trigger] r.hash@[i]),
        r.size == body.spec_bytes().len(),
{
    let bytes = body.as_bytes();
    let hash = md5_hex_of(bytes);
    Fingerprint { hash, size: bytes.len() }
}

} // verus!
