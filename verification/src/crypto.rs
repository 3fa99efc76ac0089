//! The pluggable cryptographic capability behind presentation verification.
//!
//! The presentation verifier needs two primitives: a digest, to check
//! disclosed plaintext against the signed range commitments, and a signature
//! check, to validate the attestation under the embedded verifying key. Both
//! are supplied through [`CryptoProvider`]; each implementation fixes the
//! meaning of its two spec functions and proves its executable methods
//! against them. [`TransparentProvider`] is a trivial, verified
//! implementation for tests and examples; it offers no cryptographic
//! security.

use vstd::prelude::*;

use crate::bytes::{bytes_eq, copy_bytes, push_bytes};

verus! {

/// A digest and a signature check, with their mathematical meanings.
///
/// `digest_spec` and `sig_ok_spec` are functions of their arguments alone:
/// the same data must always yield the same digest, and the same
/// (algorithm, key, message, signature) quadruple the same verdict.
pub trait CryptoProvider: Sized {
    /// The digest of `data`.
    spec fn digest_spec(&self, data: Seq<u8>) -> Seq<u8>;

    /// Whether `sig` is a valid signature over `msg` under the verifying key
    /// `key` with algorithm `alg`.
    spec fn sig_ok_spec(&self, alg: u64, key: Seq<u8>, msg: Seq<u8>, sig: Seq<u8>) -> bool;

    /// Compute the digest of `data`.
    fn digest(&self, data: &Vec<u8>) -> (r: Vec<u8>)
        ensures
            r@ == self.digest_spec(data@),
    ;

    /// Check `sig` over `msg` under `key` with algorithm `alg`.
    fn verify_signature(&self, alg: u64, key: &Vec<u8>, msg: &Vec<u8>, sig: &Vec<u8>) -> (r:
        bool)
        ensures
            r == self.sig_ok_spec(alg, key@, msg@, sig@),
    ;
}

/// A transparent provider for tests and examples, with no cryptographic
/// security: the digest of a byte string is the byte string itself, and a
/// valid signature is the verifying key followed by the message. Tamper
/// detection still works — the digest is injective — but anyone who can read
/// a presentation can also forge one.
pub struct TransparentProvider;

impl TransparentProvider {
    /// The signature that [`TransparentProvider`] accepts over `msg` under
    /// `key`: the key followed by the message.
    pub fn sign(key: &Vec<u8>, msg: &Vec<u8>) -> (r: Vec<u8>)
        ensures
            r@ == key@ + msg@,
    {
        let mut r = copy_bytes(key);
        push_bytes(&mut r, msg);
        r
    }
}

impl CryptoProvider for TransparentProvider {
    open spec fn digest_spec(&self, data: Seq<u8>) -> Seq<u8> {
        data
    }

    open spec fn sig_ok_spec(&self, alg: u64, key: Seq<u8>, msg: Seq<u8>, sig: Seq<u8>) -> bool {
        sig == key + msg
    }

    fn digest(&self, data: &Vec<u8>) -> (r: Vec<u8>) {
        copy_bytes(data)
    }

    fn verify_signature(&self, alg: u64, key: &Vec<u8>, msg: &Vec<u8>, sig: &Vec<u8>) -> (r:
        bool) {
        let expected = Self::sign(key, msg);
        bytes_eq(sig, &expected)
    }
}

} // verus!
