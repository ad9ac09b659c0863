//! Hashing primitives: SHA-256, RIPEMD-160, and the derived hash160 and
//! double-SHA-256 forms used by addresses, transaction ids and signature
//! hashes.
use sha2::Digest;
use vstd::prelude::*;

verus! {

/// The SHA-256 digest of a byte sequence, as computed by the `sha2` crate.
pub uninterp spec fn sha256_of(data: Seq<u8>) -> Seq<u8>;

/// The RIPEMD-160 digest of a byte sequence, as computed by the `ripemd` crate.
pub uninterp spec fn ripemd160_of(data: Seq<u8>) -> Seq<u8>;

/// RIPEMD-160 applied to the SHA-256 digest of the data.
pub open spec fn hash160_of(data: Seq<u8>) -> Seq<u8> {
    ripemd160_of(sha256_of(data))
}

/// SHA-256 applied twice.
pub open spec fn dsha256_of(data: Seq<u8>) -> Seq<u8> {
    sha256_of(sha256_of(data))
}

/// The first four bytes of the double-SHA-256 digest: the base58check checksum.
pub open spec fn checksum4_of(data: Seq<u8>) -> Seq<u8> {
    dsha256_of(data).take(4)
}

/// Relies on sha2::Sha256 (via digest::Digest::digest): a 32-byte digest
/// that depends on the input bytes alone.
#[verifier::external_body]
fn sha256_raw(data: &[u8]) -> (r: Vec<u8>)
    ensures
        r@ == sha256_of(data@),
        r@.len() == 32,
{
    sha2::Sha256::digest(data).to_vec()
}

/// Relies on ripemd::Ripemd160 (via digest::Digest::digest): a 20-byte digest
/// that depends on the input bytes alone.
#[verifier::external_body]
fn ripemd160_raw(data: &[u8]) -> (r: Vec<u8>)
    ensures
        r@ == ripemd160_of(data@),
        r@.len() == 20,
{
    ripemd::Ripemd160::digest(data).to_vec()
}

/// SHA-256 of a byte vector.
pub fn sha256(data: &Vec<u8>) -> (r: Vec<u8>)
    ensures
        r@ == sha256_of(data@),
        r@.len() == 32,
{
    sha256_raw(data.as_slice())
}

/// RIPEMD-160 of a byte vector.
pub fn ripemd160(data: &Vec<u8>) -> (r: Vec<u8>)
    ensures
        r@ == ripemd160_of(data@),
        r@.len() == 20,
{
    ripemd160_raw(data.as_slice())
}

/// RIPEMD-160 of the SHA-256 digest: the public-key hash used by both
/// address forms.
pub fn hash160(data: &Vec<u8>) -> (r: Vec<u8>)
    ensures
        r@ == hash160_of(data@),
        r@.len() == 20,
{
    let first = sha256(data);
    ripemd160(&first)
}

/// SHA-256 applied twice, the digest form used for transaction ids and
/// signature hashes.
pub fn double_sha256(data: &Vec<u8>) -> (r: Vec<u8>)
    ensures
        r@ == dsha256_of(data@),
        r@.len() == 32,
{
    let first = sha256(data);
    sha256(&first)
}

/// The four-byte base58check checksum of the data.
pub fn checksum4(data: &Vec<u8>) -> (r: Vec<u8>)
    ensures
        r@ == checksum4_of(data@),
        r@.len() == 4,
{
    let digest = double_sha256(data);
    let mut out: Vec<u8> = Vec::new();
    let mut i: usize = 0;
    while i < 4
        invariant
            i <= 4,
            digest@ == dsha256_of(data@),
            digest@.len() == 32,
            out@ == dsha256_of(data@).take(i as int),
        decreases 4 - i,
    {
        out.push(digest[i]);
        proof {
            assert(out@ =~= dsha256_of(data@).take(i + 1));
        }
        i = i + 1;
    }
    out
}

} // verus!
