//! The two selector hash families.
//!
//! A contract can be deployed against networks that standardize on
//! different hash algorithms for their ABI, so the selector resolver
//! supports both and callers pick one [`HashFamily`] per table.

use vstd::prelude::*;

verus! {

/// Which cryptographic hash a network standardizes on for method selectors.
#[derive(PartialEq, Eq, Structural, Clone, Copy, Debug)]
pub enum HashFamily {
    Keccak256,
    Sm3,
}

/// The Keccak-256 digest of a string's UTF-8 bytes.
/// A function of the input alone; its value is not axiomatized here.
pub uninterp spec fn keccak256_of(s: Seq<char>) -> Seq<u8>;

/// The SM3 digest of a string's UTF-8 bytes.
/// A function of the input alone; its value is not axiomatized here.
pub uninterp spec fn sm3_of(s: Seq<char>) -> Seq<u8>;

/// The digest of `s` under the chosen family.
pub open spec fn digest_of(family: HashFamily, s: Seq<char>) -> Seq<u8> {
    match family {
        HashFamily::Keccak256 => keccak256_of(s),
        HashFamily::Sm3 => sm3_of(s),
    }
}

/// Relies on `tiny_keccak::Keccak::v256` with `Hasher::update` and
/// `Hasher::finalize`: a 32-byte Keccak-256 digest of the input bytes,
/// depending on the input alone.
#[verifier::external_body]
fn keccak256_digest(s: &str) -> (r: Vec<u8>)
    ensures
        r@ == keccak256_of(s@),
        r@.len() == 32,
{
    let mut hasher = tiny_keccak::Keccak::v256();
    tiny_keccak::Hasher::update(&mut hasher, s.as_bytes());
    let mut out = [0u8; 32];
    tiny_keccak::Hasher::finalize(hasher, &mut out);
    out.to_vec()
}

/// Relies on `sm3::Sm3` through `sm3::Digest::digest`: a 32-byte SM3
/// digest of the input bytes, depending on the input alone.
#[verifier::external_body]
fn sm3_digest(s: &str) -> (r: Vec<u8>)
    ensures
        r@ == sm3_of(s@),
        r@.len() == 32,
{
    let out = <sm3::Sm3 as sm3::Digest>::digest(s.as_bytes());
    out.to_vec()
}

/// The digest of `s` under `family`, as 32 bytes.
pub fn family_digest(family: HashFamily, s: &str) -> (r: Vec<u8>)
    ensures
        r@ == digest_of(family, s@),
        r@.len() == 32,
{
    match family {
        HashFamily::Keccak256 => keccak256_digest(s),
        HashFamily::Sm3 => sm3_digest(s),
    }
}

} // verus!
