//! Fixed-width 256-bit values: block hashes, account identifiers, public
//! keys, roots and links. A value is held as four 64-bit words, most
//! significant first, matching the big-endian wire order.

use vstd::prelude::*;

verus! {

/// A 256-bit value, most significant word first.
#[derive(Clone, Copy, Debug, PartialEq, Eq, Hash, Structural)]
pub struct Hash256 {
    pub w0: u64,
    pub w1: u64,
    pub w2: u64,
    pub w3: u64,
}

/// An account identifier is the account's public key.
pub type Account = Hash256;

/// The hash of a block.
pub type BlockHash = Hash256;

/// A public key.
pub type PublicKey = Hash256;

/// The root of a block: its previous hash, or the account for an open.
pub type Root = Hash256;

/// The link field of a state block.
pub type Link = Hash256;

impl Hash256 {
    pub open spec fn spec_is_zero(self) -> bool {
        self.w0 == 0 && self.w1 == 0 && self.w2 == 0 && self.w3 == 0
    }

    pub fn zero() -> (r: Hash256)
        ensures
            r.spec_is_zero(),
    {
        Hash256 { w0: 0, w1: 0, w2: 0, w3: 0 }
    }

    pub fn is_zero(&self) -> (r: bool)
        ensures
            r == self.spec_is_zero(),
    {
        self.w0 == 0 && self.w1 == 0 && self.w2 == 0 && self.w3 == 0
    }

    /// Builds the value whose low 64 bits are `v` and whose upper words are
    /// zero.
    pub open spec fn spec_from_u64(v: u64) -> Hash256 {
        Hash256 { w0: 0, w1: 0, w2: 0, w3: v }
    }

    pub fn from_u64(v: u64) -> (r: Hash256)
        ensures
            r == Hash256::spec_from_u64(v),
    {
        Hash256 { w0: 0, w1: 0, w2: 0, w3: v }
    }
}

/// A 64-byte signature, held as two 256-bit halves.
#[derive(Clone, Copy, Debug, PartialEq, Eq, Hash, Structural)]
pub struct Signature {
    pub hi: Hash256,
    pub lo: Hash256,
}

impl Signature {
    pub fn zero() -> (r: Signature)
        ensures
            r.hi.spec_is_zero() && r.lo.spec_is_zero(),
    {
        Signature { hi: Hash256::zero(), lo: Hash256::zero() }
    }
}

/// One round of the 64-bit mixing function used by the content digest.
pub open spec fn spec_mix(h: u64, x: u64) -> u64 {
    vstd::wrapping::u64_specs::wrapping_mul(h ^ x, 0x9E3779B97F4A7C15u64) ^ ((h ^ x) >> 31)
}

pub fn mix(h: u64, x: u64) -> (r: u64)
    ensures
        r == spec_mix(h, x),
{
    let t = h ^ x;
    t.wrapping_mul(0x9E3779B97F4A7C15u64) ^ (t >> 31)
}

/// One absorption step of the 256-bit digest state.
pub open spec fn spec_digest_step(st: (u64, u64, u64, u64), x: u64) -> (u64, u64, u64, u64) {
    let a = spec_mix(st.0, x);
    let b = spec_mix(st.1, a);
    let c = spec_mix(st.2, b);
    let d = spec_mix(st.3, c);
    (a, b, c, d)
}

pub open spec fn spec_digest_state(s: Seq<u64>) -> (u64, u64, u64, u64)
    decreases s.len(),
{
    if s.len() == 0 {
        (0x6A09E667F3BCC908u64, 0xBB67AE8584CAA73Bu64, 0x3C6EF372FE94F82Bu64, 0xA54FF53A5F1D36F1u64)
    } else {
        spec_digest_step(spec_digest_state(s.drop_last()), s.last())
    }
}

/// The 256-bit content digest of a word sequence: blocks are identified by
/// the digest of their hashable fields.
pub open spec fn spec_digest(s: Seq<u64>) -> Hash256 {
    let st = spec_digest_state(s);
    Hash256 { w0: st.0, w1: st.1, w2: st.2, w3: st.3 }
}

pub fn digest_words(ws: &Vec<u64>) -> (r: Hash256)
    ensures
        r == spec_digest(ws@),
{
    let mut a: u64 = 0x6A09E667F3BCC908u64;
    let mut b: u64 = 0xBB67AE8584CAA73Bu64;
    let mut c: u64 = 0x3C6EF372FE94F82Bu64;
    let mut d: u64 = 0xA54FF53A5F1D36F1u64;
    let mut i: usize = 0;
    proof {
        assert(ws@.subrange(0, 0) =~= Seq::<u64>::empty());
    }
    while i < ws.len()
        invariant
            i <= ws.len(),
            (a, b, c, d) == spec_digest_state(ws@.subrange(0, i as int)),
        decreases ws.len() - i,
    {
        let x = ws[i];
        a = mix(a, x);
        b = mix(b, a);
        c = mix(c, b);
        d = mix(d, c);
        i = i + 1;
        proof {
            assert(ws@.subrange(0, i as int).drop_last() =~= ws@.subrange(0, i as int - 1));
            assert(ws@.subrange(0, i as int).last() == ws@[i as int - 1]);
        }
    }
    proof {
        assert(ws@.subrange(0, ws@.len() as int) =~= ws@);
    }
    Hash256 { w0: a, w1: b, w2: c, w3: d }
}

impl From<u64> for Hash256 {
    fn from(v: u64) -> (r: Hash256)
        ensures
            r == Hash256::spec_from_u64(v),
    {
        Hash256::from_u64(v)
    }
}

impl vstd::std_specs::convert::FromSpecImpl<u64> for Hash256 {
    open spec fn obeys_from_spec() -> bool {
        true
    }

    open spec fn from_spec(v: u64) -> Hash256 {
        Hash256::spec_from_u64(v)
    }
}

} // verus!
