//! Trusted boundary to the cryptographic primitives.
//!
//! Keccak-256 comes from `alloy`; recoverable ECDSA over secp256k1 comes from
//! `k256`.  Each function below makes one such call; its contract states what
//! the called crate's source and documentation promise, over named results
//! that stand for the primitives' outputs.

use vstd::prelude::*;

verus! {

/// The Keccak-256 digest of a byte string: 32 bytes, a function of the input
/// bytes alone.
pub uninterp spec fn keccak_of(b: Seq<u8>) -> Seq<u8>;

/// Whether 32 bytes are a valid secp256k1 secret key (a nonzero scalar below
/// the group order), as `SigningKey::from_bytes` decides it.
pub uninterp spec fn secret_key_valid(secret: Seq<u8>) -> bool;

/// The recoverable signature that the deterministic (RFC 6979) ECDSA signer
/// produces for a secret key and a 32-byte prehash: 64 bytes `r ‖ s` followed
/// by one recovery-id byte.
pub uninterp spec fn sig65_of(secret: Seq<u8>, digest: Seq<u8>) -> Seq<u8>;

/// The verifying key of a secret key, as an uncompressed SEC1 point:
/// 65 bytes, format byte 4, then the x and y coordinates.
pub uninterp spec fn pubkey_point_of(secret: Seq<u8>) -> Seq<u8>;

/// Public-key recovery over secp256k1: the uncompressed SEC1 point recovered
/// from a 32-byte prehash, 64 signature bytes `r ‖ s` and a recovery id, or
/// `None` when the signature bytes are out of range or recovery yields no
/// valid point.
pub uninterp spec fn recover_of(digest: Seq<u8>, rs: Seq<u8>, recid: u8) -> Option<Seq<u8>>;

/// Relies on `alloy::primitives::keccak256`: the Keccak-256 digest of the
/// input, 32 bytes.
#[verifier::external_body]
pub(crate) fn keccak(b: &[u8]) -> (r: Vec<u8>)
    ensures
        r@ == keccak_of(b@),
        r@.len() == 32,
{
    alloy::primitives::keccak256(b).to_vec()
}

/// Relies on `k256::ecdsa::SigningKey::from_bytes`, which fails exactly on
/// byte strings that are not a valid secret key, and on
/// `SigningKey::sign_prehash_recoverable`, which deterministically (RFC 6979,
/// empty additional data) signs the prehash and returns a recovery id of at
/// most 3 from which `VerifyingKey::recover_from_prehash` recovers the
/// signer's verifying key (the crate's recovery module documents and tests
/// this round trip).
#[verifier::external_body]
pub(crate) fn sign_recoverable(secret: &[u8; 32], digest: &Vec<u8>) -> (r: Option<Vec<u8>>)
    requires
        digest@.len() == 32,
    ensures
        r is Some <==> secret_key_valid(secret@),
        r is Some ==> ({
            let s = r.unwrap()@;
            &&& s == sig65_of(secret@, digest@)
            &&& s.len() == 65
            &&& s[64] < 4
            &&& recover_of(digest@, s.take(64), s[64]) == Some(pubkey_point_of(secret@))
            &&& pubkey_point_of(secret@).len() == 65
            &&& pubkey_point_of(secret@)[0] == 4
        }),
{
    let field_bytes = k256::FieldBytes::from(*secret);
    let key = k256::ecdsa::SigningKey::from_bytes(&field_bytes).ok()?;
    let (sig, recid) = key.sign_prehash_recoverable(digest.as_slice());
    let mut out: Vec<u8> = sig.to_bytes().to_vec();
    out.push(recid.to_byte());
    Some(out)
}

/// Relies on `k256::ecdsa::SigningKey::from_bytes` and
/// `VerifyingKey::to_sec1_point`: the verifying key of the secret key as an
/// uncompressed SEC1 point, 65 bytes with format byte 4.
#[verifier::external_body]
pub(crate) fn verifying_key_bytes(secret: &[u8; 32]) -> (r: Option<Vec<u8>>)
    ensures
        r is Some <==> secret_key_valid(secret@),
        r is Some ==> ({
            let p = r.unwrap()@;
            &&& p == pubkey_point_of(secret@)
            &&& p.len() == 65
            &&& p[0] == 4
        }),
{
    let field_bytes = k256::FieldBytes::from(*secret);
    let key = k256::ecdsa::SigningKey::from_bytes(&field_bytes).ok()?;
    Some(key.verifying_key().to_sec1_point(false).as_bytes().to_vec())
}

/// Relies on `k256::ecdsa::Signature::from_slice`, `RecoveryId::from_byte`
/// and `VerifyingKey::recover_from_prehash`: public-key recovery over
/// secp256k1, a function of the prehash, the 64 signature bytes and the
/// recovery id alone, returned as an uncompressed SEC1 point.  Signature
/// bytes with `r` or `s` out of range, and recoveries that yield no valid
/// point, are the `None` case of the named result.
#[verifier::external_body]
pub(crate) fn recover_pubkey(digest: &Vec<u8>, sig: &Vec<u8>, recid: u8) -> (r: Option<Vec<u8>>)
    requires
        digest@.len() == 32,
        sig@.len() >= 64,
        recid < 2,
    ensures
        r is Some <==> recover_of(digest@, sig@.take(64), recid) is Some,
        r is Some ==> ({
            let p = r.unwrap()@;
            &&& recover_of(digest@, sig@.take(64), recid) == Some(p)
            &&& p.len() == 65
            &&& p[0] == 4
        }),
{
    let parsed = k256::ecdsa::Signature::from_slice(&sig[..64]).ok()?;
    let id = k256::ecdsa::RecoveryId::from_byte(recid)?;
    let vk = k256::ecdsa::VerifyingKey::recover_from_prehash(digest.as_slice(), &parsed, id).ok()?;
    Some(vk.to_sec1_point(false).as_bytes().to_vec())
}

} // verus!
