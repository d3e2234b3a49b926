//! Content fingerprinting and the change decision.

use crate::bytes::bytes_eq;
use vstd::prelude::*;

verus! {

/// The 64-byte lowercase hex digest of `bytes` under the 256-bit hash.
/// The digest is a function of the input bytes alone.
pub uninterp spec fn spec_sha256_hex(bytes: Seq<u8>) -> Seq<u8>;

/// Relies on sha2's `Sha256` (a 32-byte digest that depends on the input
/// bytes alone) and core's lowercase-hex formatting of that digest, two hex
/// digits per byte.
#[verifier::external_body]
fn sha256_hex(bytes: &[u8]) -> (r: Vec<u8>)
    ensures
        r@ == spec_sha256_hex(bytes@),
        r@.len() == 64,
{
    let mut hasher = <sha2::Sha256 as sha2::Digest>::new();
    sha2::Digest::update(&mut hasher, bytes);
    let digest = sha2::Digest::finalize(hasher);
    format!("{:x}", digest).into_bytes()
}

/// Deterministic fingerprint of a canonical text: its 64-character
/// lowercase hex digest.
pub fn fingerprint(text: &[u8]) -> (r: Vec<u8>)
    ensures
        r@ == spec_sha256_hex(text@),
        r@.len() == 64,
{
    sha256_hex(text)
}

/// The change decision: a fetch counts as changed when there is no prior
/// fingerprint, or the new fingerprint differs from the prior one.
pub open spec fn spec_is_changed(last: Option<Seq<u8>>, new_fp: Seq<u8>) -> bool {
    match last {
        None => true,
        Some(h) => h != new_fp,
    }
}

/// Decide whether a fetch with fingerprint `new_fp` counts as changed,
/// given the most recent stored fingerprint, if any.
pub fn is_changed(last: Option<&Vec<u8>>, new_fp: &Vec<u8>) -> (r: bool)
    ensures
        r == spec_is_changed(
            match last {
                Some(h) => Some(h@),
                None => None,
            },
            new_fp@,
        ),
{
    match last {
        None => true,
        Some(h) => !bytes_eq(h.as_slice(), new_fp.as_slice()),
    }
}

} // verus!
