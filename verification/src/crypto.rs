//! The keyed digest and the fixed-time comparison, each through the
//! outside crate the protocol names.
#![allow(unused_imports)]
use vstd::prelude::*;

use hmac::Mac;

verus! {

/// The HMAC-SHA256 digest of `msg` under `key`, both taken as the UTF-8
/// bytes of the characters.  A function of the two arguments alone.
pub uninterp spec fn hmac_sha256(key: Seq<char>, msg: Seq<char>) -> Seq<u8>;

/// Relies on `hmac::Hmac<sha2::Sha256>`: the digest depends on the key
/// and message bytes alone and is 32 bytes long, and `new_from_slice`
/// accepts a key of any length, so the fallback arm is never taken.
#[verifier::external_body]
pub(crate) fn hmac_sha256_digest(key: &str, msg: &str) -> (r: Vec<u8>)
    ensures
        r@ == hmac_sha256(key@, msg@),
        r@.len() == 32,
{
    let mut mac = match <hmac::Hmac<sha2::Sha256> as hmac::digest::KeyInit>::new_from_slice(
        key.as_bytes(),
    ) {
        Ok(m) => m,
        Err(_) => return Vec::new(),
    };
    hmac::digest::Update::update(&mut mac, msg.as_bytes());
    mac.finalize().into_bytes().to_vec()
}

/// Relies on `subtle::ConstantTimeEq` on byte slices: it decides equality
/// of the two slices, and on equal lengths takes time independent of
/// where they differ.
#[verifier::external_body]
pub(crate) fn ct_eq_bytes(a: &[u8], b: &[u8]) -> (r: bool)
    ensures
        r == (a@ == b@),
{
    subtle::ConstantTimeEq::ct_eq(a, b).unwrap_u8() == 1
}

} // verus!
