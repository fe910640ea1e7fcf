//! Content hashing: a SHA-256 digest over a file's bytes, published as an
//! uppercase hexadecimal string.  The digest itself comes from an outside
//! cryptographic library and is only named here; the hex encoding is stated
//! exactly and the composition is verified.

use vstd::prelude::*;

verus! {

/// SHA-256 digest of `data`: a function of the input bytes alone.
pub uninterp spec fn sha256_of(data: Seq<u8>) -> Seq<u8>;

/// Uppercase hexadecimal digit for a value below 16.
pub open spec fn hex_digit(n: u8) -> char
    recommends
        n < 16,
{
    if n < 10 {
        (n + 48) as char  // '0' .. '9'
    } else {
        (n + 55) as char  // 'A' .. 'F'
    }
}

/// Uppercase hexadecimal encoding: two digits per byte, high nibble first.
pub open spec fn hex_upper_of(data: Seq<u8>) -> Seq<char> {
    Seq::new(
        data.len() * 2,
        |i: int|
            if i % 2 == 0 {
                hex_digit(data[i / 2] / 16)
            } else {
                hex_digit(data[i / 2] % 16)
            },
    )
}

/// Hex string of the SHA-256 digest of `data`: the content identity this
/// library stores for a file with those bytes.
pub open spec fn spec_content_hash(data: Seq<u8>) -> Seq<char> {
    hex_upper_of(sha256_of(data))
}

/// Relies on ring::digest::digest with SHA256: a 32-byte digest that is a
/// function of the input bytes alone.
#[verifier::external_body]
fn sha256_digest(data: &[u8]) -> (r: Vec<u8>)
    ensures
        r@ == sha256_of(data@),
        r@.len() == 32,
{
    ring::digest::digest(&ring::digest::SHA256, data).as_ref().to_vec()
}

/// Relies on data_encoding::HEXUPPER.encode: RFC 4648 hexadecimal with the
/// symbols 0-9 A-F, two symbols per byte, high nibble first.
#[verifier::external_body]
fn hex_encode_upper(data: &[u8]) -> (r: String)
    ensures
        r@ == hex_upper_of(data@),
{
    data_encoding::HEXUPPER.encode(data)
}

/// Content hash of a file whose bytes are `data`: the SHA-256 digest,
/// uppercase-hex encoded.  Always 64 characters.
pub fn hash_bytes(data: &[u8]) -> (r: String)
    ensures
        r@ == spec_content_hash(data@),
        r@.len() == 64,
{
    let digest = sha256_digest(data);
    hex_encode_upper(digest.as_slice())
}

} // verus!
