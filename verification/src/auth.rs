//! Keys and block signatures. The scheme is deterministic: a public key is
//! derived from the private key by the content digest, and a signature is a
//! digest of the signer's public key and the signed hash, so a signature
//! validates exactly when it was produced for that key and hash.

use vstd::prelude::*;
use crate::blocks::spec_words_of_hash;
use crate::hashes::{digest_words, spec_digest, Hash256, PublicKey, Signature};

verus! {

/// A private signing key.
#[derive(Clone, Copy, Debug, PartialEq, Eq, Structural)]
pub struct PrivateKey {
    pub raw: Hash256,
}

/// The public key derived from private key material.
pub open spec fn spec_public_of(key: Hash256) -> PublicKey {
    spec_digest(seq![7u64] + spec_words_of_hash(key))
}

/// The unique signature this scheme produces for `pk` over `hash`.
pub open spec fn spec_signature_for(pk: PublicKey, hash: Hash256) -> Signature {
    Signature {
        hi: spec_digest(seq![8u64] + spec_words_of_hash(pk) + spec_words_of_hash(hash)),
        lo: spec_digest(seq![9u64] + spec_words_of_hash(pk) + spec_words_of_hash(hash)),
    }
}

impl PrivateKey {
    pub fn new(raw: Hash256) -> (r: PrivateKey)
        ensures
            r.raw == raw,
    {
        PrivateKey { raw }
    }

    pub fn public_key(&self) -> (r: PublicKey)
        ensures
            r == spec_public_of(self.raw),
    {
        let mut ws: Vec<u64> = Vec::new();
        ws.push(7u64);
        ws.push(self.raw.w0);
        ws.push(self.raw.w1);
        ws.push(self.raw.w2);
        ws.push(self.raw.w3);
        proof {
            assert(ws@ =~= seq![7u64] + spec_words_of_hash(self.raw));
        }
        digest_words(&ws)
    }
}

impl From<u64> for PrivateKey {
    fn from(v: u64) -> (r: PrivateKey)
        ensures
            r.raw == Hash256::spec_from_u64(v),
    {
        PrivateKey { raw: Hash256::from_u64(v) }
    }
}

impl vstd::std_specs::convert::FromSpecImpl<u64> for PrivateKey {
    open spec fn obeys_from_spec() -> bool {
        true
    }

    open spec fn from_spec(v: u64) -> PrivateKey {
        PrivateKey { raw: Hash256::spec_from_u64(v) }
    }
}

impl Default for PrivateKey {
    fn default() -> (r: PrivateKey)
        ensures
            r.raw == Hash256::spec_from_u64(1),
    {
        PrivateKey { raw: Hash256::from_u64(1) }
    }
}

/// Signs `hash` with `key`: the result is the unique signature for the
/// signer's public key over `hash`.
pub fn sign_hash(key: &PrivateKey, hash: &Hash256) -> (r: Signature)
    ensures
        r == spec_signature_for(spec_public_of(key.raw), *hash),
{
    let pk = key.public_key();
    let mut ws_hi: Vec<u64> = Vec::new();
    ws_hi.push(8u64);
    ws_hi.push(pk.w0);
    ws_hi.push(pk.w1);
    ws_hi.push(pk.w2);
    ws_hi.push(pk.w3);
    ws_hi.push(hash.w0);
    ws_hi.push(hash.w1);
    ws_hi.push(hash.w2);
    ws_hi.push(hash.w3);
    proof {
        assert(ws_hi@ =~= seq![8u64] + spec_words_of_hash(pk) + spec_words_of_hash(*hash));
    }
    let hi = digest_words(&ws_hi);
    let mut ws_lo: Vec<u64> = Vec::new();
    ws_lo.push(9u64);
    ws_lo.push(pk.w0);
    ws_lo.push(pk.w1);
    ws_lo.push(pk.w2);
    ws_lo.push(pk.w3);
    ws_lo.push(hash.w0);
    ws_lo.push(hash.w1);
    ws_lo.push(hash.w2);
    ws_lo.push(hash.w3);
    proof {
        assert(ws_lo@ =~= seq![9u64] + spec_words_of_hash(pk) + spec_words_of_hash(*hash));
    }
    let lo = digest_words(&ws_lo);
    Signature { hi, lo }
}

/// Whether `sig` is the signature of `pk` over `hash`.
pub fn validate_signature(pk: &PublicKey, hash: &Hash256, sig: &Signature) -> (r: bool)
    ensures
        r == (*sig == spec_signature_for(*pk, *hash)),
{
    let mut ws_hi: Vec<u64> = Vec::new();
    ws_hi.push(8u64);
    ws_hi.push(pk.w0);
    ws_hi.push(pk.w1);
    ws_hi.push(pk.w2);
    ws_hi.push(pk.w3);
    ws_hi.push(hash.w0);
    ws_hi.push(hash.w1);
    ws_hi.push(hash.w2);
    ws_hi.push(hash.w3);
    proof {
        assert(ws_hi@ =~= seq![8u64] + spec_words_of_hash(*pk) + spec_words_of_hash(*hash));
    }
    let hi = digest_words(&ws_hi);
    let mut ws_lo: Vec<u64> = Vec::new();
    ws_lo.push(9u64);
    ws_lo.push(pk.w0);
    ws_lo.push(pk.w1);
    ws_lo.push(pk.w2);
    ws_lo.push(pk.w3);
    ws_lo.push(hash.w0);
    ws_lo.push(hash.w1);
    ws_lo.push(hash.w2);
    ws_lo.push(hash.w3);
    proof {
        assert(ws_lo@ =~= seq![9u64] + spec_words_of_hash(*pk) + spec_words_of_hash(*hash));
    }
    let lo = digest_words(&ws_lo);
    sig.hi == hi && sig.lo == lo
}

} // verus!
