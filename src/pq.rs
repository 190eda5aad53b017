//! ML-DSA-3 (Dilithium-3) keys and detached signatures, and addresses.
use vstd::prelude::*;
use crate::util::{HashAlg, digest_hex, hash_hex};

verus! {

pub const PUBLIC_KEY_BYTES: usize = 1952;

pub const SECRET_KEY_BYTES: usize = 4032;

pub const SIGNATURE_BYTES: usize = 3309;

/// Whether `sig` is a valid detached signature of `msg` under `pk`.
pub uninterp spec fn mldsa3_accepts(msg: Seq<u8>, sig: Seq<u8>, pk: Seq<u8>) -> bool;

/// The detached signature of `msg` under `sk`; signing is deterministic.
pub uninterp spec fn mldsa3_signature(msg: Seq<u8>, sk: Seq<u8>) -> Seq<u8>;

/// `pk` verifies every signature made with `sk`.
pub open spec fn is_key_pair(sk: Seq<u8>, pk: Seq<u8>) -> bool {
    forall|m: Seq<u8>| #[trigger] mldsa3_accepts(m, mldsa3_signature(m, sk), pk)
}

/// Relies on `pqcrypto_dilithium::dilithium3::keypair`: a fresh random key
/// pair of the fixed sizes, secret key first, whose public key verifies the
/// signatures that its secret key makes.
#[verifier::external_body]
fn fresh_keypair() -> (r: (Vec<u8>, Vec<u8>))
    ensures
        r.0@.len() == SECRET_KEY_BYTES,
        r.1@.len() == PUBLIC_KEY_BYTES,
        is_key_pair(r.0@, r.1@),
{
    let (pk, sk) = pqcrypto_dilithium::dilithium3::keypair();
    (
        pqcrypto_traits::sign::SecretKey::as_bytes(&sk).to_vec(),
        pqcrypto_traits::sign::PublicKey::as_bytes(&pk).to_vec(),
    )
}

/// A fresh key pair: `(secret key, public key)`.
pub fn keygen_mldsa3() -> (r: (Vec<u8>, Vec<u8>))
    ensures
        r.0@.len() == SECRET_KEY_BYTES,
        r.1@.len() == PUBLIC_KEY_BYTES,
        is_key_pair(r.0@, r.1@),
{
    fresh_keypair()
}

/// A fresh key pair: `(secret key, public key)`.
pub fn keypair_mldsa3() -> (r: (Vec<u8>, Vec<u8>))
    ensures
        r.0@.len() == SECRET_KEY_BYTES,
        r.1@.len() == PUBLIC_KEY_BYTES,
        is_key_pair(r.0@, r.1@),
{
    keygen_mldsa3()
}

/// Relies on `pqcrypto_dilithium::dilithium3::detached_sign`, after
/// `SecretKey::from_bytes`, which takes exactly a secret key's length: the
/// deterministic detached signature, of exactly the signature size.
#[verifier::external_body]
pub fn sign_mldsa3(msg: &[u8], sk: &[u8]) -> (r: Vec<u8>)
    requires
        sk@.len() == SECRET_KEY_BYTES,
    ensures
        r@ == mldsa3_signature(msg@, sk@),
        r@.len() == SIGNATURE_BYTES,
{
    let sk = <pqcrypto_dilithium::dilithium3::SecretKey as pqcrypto_traits::sign::SecretKey>::from_bytes(sk).unwrap();
    let sig = pqcrypto_dilithium::dilithium3::detached_sign(msg, &sk);
    pqcrypto_traits::sign::DetachedSignature::as_bytes(&sig).to_vec()
}

/// Relies on `pqcrypto_dilithium::dilithium3::verify_detached_signature`,
/// after `PublicKey::from_bytes` (exactly a public key's length) and
/// `DetachedSignature::from_bytes` (at most the signature size); bytes that
/// these refuse, and a signature of any other length than the signature
/// size, are not a valid signature.
#[verifier::external_body]
pub fn verify_mldsa3(msg: &[u8], sig: &[u8], pk: &[u8]) -> (r: bool)
    ensures
        r == mldsa3_accepts(msg@, sig@, pk@),
        pk@.len() != PUBLIC_KEY_BYTES ==> !r,
        sig@.len() != SIGNATURE_BYTES ==> !r,
{
    let pk = match <pqcrypto_dilithium::dilithium3::PublicKey as pqcrypto_traits::sign::PublicKey>::from_bytes(pk) {
        Ok(pk) => pk,
        Err(_) => return false,
    };
    let sig = match <pqcrypto_dilithium::dilithium3::DetachedSignature as pqcrypto_traits::sign::DetachedSignature>::from_bytes(sig) {
        Ok(s) => s,
        Err(_) => return false,
    };
    pqcrypto_dilithium::dilithium3::verify_detached_signature(&sig, msg, &pk).is_ok()
}

/// The address of a public key: the hex digest of its bytes.
pub fn address_from_pk(alg: HashAlg, pk: &[u8]) -> (r: String)
    ensures
        r@ == digest_hex(alg, pk@),
        r@.len() == 128,
{
    hash_hex(alg, pk)
}

} // verus!
