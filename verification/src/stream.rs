//! An in-memory byte stream with a write end and a read cursor, and the
//! byte-level encodings shared by the block and message codecs.
//!
//! Every encoding has a spec-level byte sequence (`spec_*` functions); the
//! writers append exactly those bytes, the readers return a value whose
//! encoding equals the bytes consumed, and the `lemma_*_inj` lemmas state
//! that each encoding is injective, which gives round trips.

use vstd::prelude::*;
use crate::hashes::{Hash256, Signature};

verus! {

#[verifier::opaque]
pub open spec fn spec_be16(v: u16) -> Seq<u8> {
    seq![(v >> 8) as u8, v as u8]
}

#[verifier::opaque]
pub open spec fn spec_le16(v: u16) -> Seq<u8> {
    seq![v as u8, (v >> 8) as u8]
}

#[verifier::opaque]
pub open spec fn spec_be32(v: u32) -> Seq<u8> {
    seq![(v >> 24) as u8, (v >> 16) as u8, (v >> 8) as u8, v as u8]
}

#[verifier::opaque]
pub open spec fn spec_be64(v: u64) -> Seq<u8> {
    seq![
        (v >> 56) as u8,
        (v >> 48) as u8,
        (v >> 40) as u8,
        (v >> 32) as u8,
        (v >> 24) as u8,
        (v >> 16) as u8,
        (v >> 8) as u8,
        v as u8,
    ]
}

#[verifier::opaque]
pub open spec fn spec_be128(v: u128) -> Seq<u8> {
    spec_be64((v >> 64) as u64) + spec_be64(v as u64)
}

#[verifier::opaque]
pub open spec fn spec_hash_bytes(h: Hash256) -> Seq<u8> {
    spec_be64(h.w0) + spec_be64(h.w1) + spec_be64(h.w2) + spec_be64(h.w3)
}

#[verifier::opaque]
pub open spec fn spec_sig_bytes(s: Signature) -> Seq<u8> {
    spec_hash_bytes(s.hi) + spec_hash_bytes(s.lo)
}

/// Two concatenations of equal-length prefixes are equal piecewise.
pub proof fn lemma_concat_split(a1: Seq<u8>, a2: Seq<u8>, b1: Seq<u8>, b2: Seq<u8>)
    requires
        a1.len() == b1.len(),
        a1 + a2 == b1 + b2,
    ensures
        a1 == b1,
        a2 == b2,
{
    assert forall|i: int| 0 <= i < a1.len() implies a1[i] == b1[i] by {
        assert((a1 + a2)[i] == a1[i]);
        assert((b1 + b2)[i] == b1[i]);
    }
    assert(a1 =~= b1);
    assert((a1 + a2).len() == a1.len() + a2.len());
    assert((b1 + b2).len() == b1.len() + b2.len());
    assert(a2.len() == b2.len());
    assert forall|i: int| 0 <= i < a2.len() implies a2[i] == b2[i] by {
        assert((a1 + a2)[a1.len() + i] == a2[i]);
        assert((b1 + b2)[b1.len() + i] == b2[i]);
    }
    assert(a2 =~= b2);
}

pub proof fn lemma_be16_inj(a: u16, b: u16)
    requires
        spec_be16(a) == spec_be16(b),
    ensures
        a == b,
{
    reveal(spec_be16);
    assert(spec_be16(a)[0] == spec_be16(b)[0]);
    assert(spec_be16(a)[1] == spec_be16(b)[1]);
    assert(a == b) by (bit_vector)
        requires
            (a >> 8) as u8 == (b >> 8) as u8,
            a as u8 == b as u8,
    ;
}

pub proof fn lemma_le16_inj(a: u16, b: u16)
    requires
        spec_le16(a) == spec_le16(b),
    ensures
        a == b,
{
    reveal(spec_le16);
    assert(spec_le16(a)[0] == spec_le16(b)[0]);
    assert(spec_le16(a)[1] == spec_le16(b)[1]);
    assert(a == b) by (bit_vector)
        requires
            (a >> 8) as u8 == (b >> 8) as u8,
            a as u8 == b as u8,
    ;
}

pub proof fn lemma_be32_inj(a: u32, b: u32)
    requires
        spec_be32(a) == spec_be32(b),
    ensures
        a == b,
{
    reveal(spec_be32);
    assert(spec_be32(a)[0] == spec_be32(b)[0]);
    assert(spec_be32(a)[1] == spec_be32(b)[1]);
    assert(spec_be32(a)[2] == spec_be32(b)[2]);
    assert(spec_be32(a)[3] == spec_be32(b)[3]);
    assert(a == b) by (bit_vector)
        requires
            (a >> 24) as u8 == (b >> 24) as u8,
            (a >> 16) as u8 == (b >> 16) as u8,
            (a >> 8) as u8 == (b >> 8) as u8,
            a as u8 == b as u8,
    ;
}

pub proof fn lemma_be64_inj(a: u64, b: u64)
    requires
        spec_be64(a) == spec_be64(b),
    ensures
        a == b,
{
    reveal(spec_be64);
    assert(spec_be64(a)[0] == spec_be64(b)[0]);
    assert(spec_be64(a)[1] == spec_be64(b)[1]);
    assert(spec_be64(a)[2] == spec_be64(b)[2]);
    assert(spec_be64(a)[3] == spec_be64(b)[3]);
    assert(spec_be64(a)[4] == spec_be64(b)[4]);
    assert(spec_be64(a)[5] == spec_be64(b)[5]);
    assert(spec_be64(a)[6] == spec_be64(b)[6]);
    assert(spec_be64(a)[7] == spec_be64(b)[7]);
    assert(a == b) by (bit_vector)
        requires
            (a >> 56) as u8 == (b >> 56) as u8,
            (a >> 48) as u8 == (b >> 48) as u8,
            (a >> 40) as u8 == (b >> 40) as u8,
            (a >> 32) as u8 == (b >> 32) as u8,
            (a >> 24) as u8 == (b >> 24) as u8,
            (a >> 16) as u8 == (b >> 16) as u8,
            (a >> 8) as u8 == (b >> 8) as u8,
            a as u8 == b as u8,
    ;
}

pub proof fn lemma_be128_inj(a: u128, b: u128)
    requires
        spec_be128(a) == spec_be128(b),
    ensures
        a == b,
{
    reveal(spec_be128);
    lemma_be64_len((a >> 64) as u64);
    lemma_be64_len(a as u64);
    lemma_be64_len((b >> 64) as u64);
    lemma_be64_len(b as u64);
    lemma_concat_split(
        spec_be64((a >> 64) as u64),
        spec_be64(a as u64),
        spec_be64((b >> 64) as u64),
        spec_be64(b as u64),
    );
    lemma_be64_inj((a >> 64) as u64, (b >> 64) as u64);
    lemma_be64_inj(a as u64, b as u64);
    assert(a == b) by (bit_vector)
        requires
            (a >> 64) as u64 == (b >> 64) as u64,
            a as u64 == b as u64,
    ;
}

pub proof fn lemma_hash_bytes_inj(a: Hash256, b: Hash256)
    requires
        spec_hash_bytes(a) == spec_hash_bytes(b),
    ensures
        a == b,
{
    reveal(spec_hash_bytes);
    lemma_be64_len(a.w0);
    lemma_be64_len(a.w1);
    lemma_be64_len(a.w2);
    lemma_be64_len(a.w3);
    lemma_be64_len(b.w0);
    lemma_be64_len(b.w1);
    lemma_be64_len(b.w2);
    lemma_be64_len(b.w3);
    lemma_concat_split(
        spec_be64(a.w0) + spec_be64(a.w1) + spec_be64(a.w2),
        spec_be64(a.w3),
        spec_be64(b.w0) + spec_be64(b.w1) + spec_be64(b.w2),
        spec_be64(b.w3),
    );
    lemma_concat_split(
        spec_be64(a.w0) + spec_be64(a.w1),
        spec_be64(a.w2),
        spec_be64(b.w0) + spec_be64(b.w1),
        spec_be64(b.w2),
    );
    lemma_concat_split(spec_be64(a.w0), spec_be64(a.w1), spec_be64(b.w0), spec_be64(b.w1));
    lemma_be64_inj(a.w0, b.w0);
    lemma_be64_inj(a.w1, b.w1);
    lemma_be64_inj(a.w2, b.w2);
    lemma_be64_inj(a.w3, b.w3);
}

pub proof fn lemma_sig_bytes_inj(a: Signature, b: Signature)
    requires
        spec_sig_bytes(a) == spec_sig_bytes(b),
    ensures
        a == b,
{
    reveal(spec_sig_bytes);
    lemma_hash_bytes_len(a.hi);
    lemma_hash_bytes_len(a.lo);
    lemma_hash_bytes_len(b.hi);
    lemma_hash_bytes_len(b.lo);
    lemma_concat_split(
        spec_hash_bytes(a.hi),
        spec_hash_bytes(a.lo),
        spec_hash_bytes(b.hi),
        spec_hash_bytes(b.lo),
    );
    lemma_hash_bytes_inj(a.hi, b.hi);
    lemma_hash_bytes_inj(a.lo, b.lo);
}

/// A growable byte buffer with a read cursor, used by every codec.
pub struct MemoryStream {
    pub data: Vec<u8>,
    pub read_pos: usize,
}

impl MemoryStream {
    pub open spec fn bytes(self) -> Seq<u8> {
        self.data@
    }

    pub open spec fn pos(self) -> int {
        self.read_pos as int
    }

    pub open spec fn wf(self) -> bool {
        self.read_pos <= self.data@.len()
    }

    pub fn new() -> (r: MemoryStream)
        ensures
            r.wf(),
            r.bytes() == Seq::<u8>::empty(),
            r.pos() == 0,
    {
        let r = MemoryStream { data: Vec::new(), read_pos: 0 };
        proof {
            assert(r.bytes() =~= Seq::<u8>::empty());
        }
        r
    }

    pub fn from_vec(v: Vec<u8>) -> (r: MemoryStream)
        ensures
            r.wf(),
            r.bytes() == v@,
            r.pos() == 0,
    {
        MemoryStream { data: v, read_pos: 0 }
    }

    pub fn to_vec(&self) -> (r: Vec<u8>)
        ensures
            r@ == self.bytes(),
    {
        let mut out: Vec<u8> = Vec::new();
        let mut i: usize = 0;
        while i < self.data.len()
            invariant
                i <= self.data.len(),
                out@ == self.data@.subrange(0, i as int),
            decreases self.data.len() - i,
        {
            out.push(self.data[i]);
            i = i + 1;
            proof {
                assert(out@ =~= self.data@.subrange(0, i as int));
            }
        }
        proof {
            assert(out@ =~= self.data@);
        }
        out
    }

    pub fn position(&self) -> (r: usize)
        ensures
            r as int == self.pos(),
    {
        self.read_pos
    }

    pub fn bytes_written(&self) -> (r: usize)
        ensures
            r == self.bytes().len(),
    {
        self.data.len()
    }

    pub fn remaining(&self) -> (r: usize)
        requires
            self.wf(),
        ensures
            r == self.bytes().len() - self.pos(),
    {
        self.data.len() - self.read_pos
    }

    pub fn at_end(&self) -> (r: bool)
        requires
            self.wf(),
        ensures
            r == (self.pos() == self.bytes().len()),
    {
        self.read_pos == self.data.len()
    }

    pub fn write_u8(&mut self, v: u8)
        requires
            old(self).wf(),
        ensures
            final(self).wf(),
            final(self).bytes() == old(self).bytes().push(v),
            final(self).pos() == old(self).pos(),
    {
        self.data.push(v);
    }

    pub fn write_u16_be(&mut self, v: u16)
        requires
            old(self).wf(),
        ensures
            final(self).wf(),
            final(self).bytes() == old(self).bytes() + spec_be16(v),
            final(self).pos() == old(self).pos(),
    {
        self.data.push(#[verifier::truncate] ((v >> 8) as u8));
        self.data.push(#[verifier::truncate] (v as u8));
        proof {
            reveal(spec_be16);
            assert(self.bytes() =~= old(self).bytes() + spec_be16(v));
        }
    }

    pub fn write_u16_le(&mut self, v: u16)
        requires
            old(self).wf(),
        ensures
            final(self).wf(),
            final(self).bytes() == old(self).bytes() + spec_le16(v),
            final(self).pos() == old(self).pos(),
    {
        self.data.push(#[verifier::truncate] (v as u8));
        self.data.push(#[verifier::truncate] ((v >> 8) as u8));
        proof {
            reveal(spec_le16);
            assert(self.bytes() =~= old(self).bytes() + spec_le16(v));
        }
    }

    pub fn write_u32_be(&mut self, v: u32)
        requires
            old(self).wf(),
        ensures
            final(self).wf(),
            final(self).bytes() == old(self).bytes() + spec_be32(v),
            final(self).pos() == old(self).pos(),
    {
        self.data.push(#[verifier::truncate] ((v >> 24) as u8));
        self.data.push(#[verifier::truncate] ((v >> 16) as u8));
        self.data.push(#[verifier::truncate] ((v >> 8) as u8));
        self.data.push(#[verifier::truncate] (v as u8));
        proof {
            reveal(spec_be32);
            assert(self.bytes() =~= old(self).bytes() + spec_be32(v));
        }
    }

    pub fn write_u64_be(&mut self, v: u64)
        requires
            old(self).wf(),
        ensures
            final(self).wf(),
            final(self).bytes() == old(self).bytes() + spec_be64(v),
            final(self).pos() == old(self).pos(),
    {
        self.data.push(#[verifier::truncate] ((v >> 56) as u8));
        self.data.push(#[verifier::truncate] ((v >> 48) as u8));
        self.data.push(#[verifier::truncate] ((v >> 40) as u8));
        self.data.push(#[verifier::truncate] ((v >> 32) as u8));
        self.data.push(#[verifier::truncate] ((v >> 24) as u8));
        self.data.push(#[verifier::truncate] ((v >> 16) as u8));
        self.data.push(#[verifier::truncate] ((v >> 8) as u8));
        self.data.push(#[verifier::truncate] (v as u8));
        proof {
            reveal(spec_be64);
            assert(self.bytes() =~= old(self).bytes() + spec_be64(v));
        }
    }

    pub fn write_u128_be(&mut self, v: u128)
        requires
            old(self).wf(),
        ensures
            final(self).wf(),
            final(self).bytes() == old(self).bytes() + spec_be128(v),
            final(self).pos() == old(self).pos(),
    {
        self.write_u64_be(#[verifier::truncate] ((v >> 64) as u64));
        self.write_u64_be(#[verifier::truncate] (v as u64));
        proof {
            reveal(spec_be128);
            assert(self.bytes() =~= old(self).bytes() + spec_be128(v));
        }
    }

    pub fn write_hash(&mut self, h: &Hash256)
        requires
            old(self).wf(),
        ensures
            final(self).wf(),
            final(self).bytes() == old(self).bytes() + spec_hash_bytes(*h),
            final(self).pos() == old(self).pos(),
    {
        self.write_u64_be(h.w0);
        self.write_u64_be(h.w1);
        self.write_u64_be(h.w2);
        self.write_u64_be(h.w3);
        proof {
            reveal(spec_hash_bytes);
            assert(self.bytes() =~= old(self).bytes() + spec_hash_bytes(*h));
        }
    }

    pub fn write_sig(&mut self, s: &Signature)
        requires
            old(self).wf(),
        ensures
            final(self).wf(),
            final(self).bytes() == old(self).bytes() + spec_sig_bytes(*s),
            final(self).pos() == old(self).pos(),
    {
        self.write_hash(&s.hi);
        self.write_hash(&s.lo);
        proof {
            reveal(spec_sig_bytes);
            assert(self.bytes() =~= old(self).bytes() + spec_sig_bytes(*s));
        }
    }

    pub fn read_u8(&mut self) -> (r: Option<u8>)
        requires
            old(self).wf(),
        ensures
            final(self).wf(),
            final(self).bytes() == old(self).bytes(),
            old(self).pos() < old(self).bytes().len() ==> r == Some(old(self).bytes()[old(self).pos()])
                && final(self).pos() == old(self).pos() + 1,
            old(self).pos() == old(self).bytes().len() ==> r is None && final(self).pos() == old(self).pos(),
    {
        if self.read_pos < self.data.len() {
            let b = self.data[self.read_pos];
            self.read_pos = self.read_pos + 1;
            Some(b)
        } else {
            None
        }
    }

    pub fn read_u16_be(&mut self) -> (r: Option<u16>)
        requires
            old(self).wf(),
        ensures
            final(self).wf(),
            final(self).bytes() == old(self).bytes(),
            r is Some ==> final(self).pos() == old(self).pos() + 2
                && old(self).bytes().subrange(old(self).pos(), final(self).pos()) == spec_be16(r->Some_0),
            r is None ==> final(self).pos() == old(self).pos()
                && old(self).pos() + 2 > old(self).bytes().len(),
    {
        if self.data.len() - self.read_pos < 2 {
            return None;
        }
        let b0 = self.data[self.read_pos];
        let b1 = self.data[self.read_pos + 1];
        let v: u16 = ((b0 as u16) << 8) | (b1 as u16);
        self.read_pos = self.read_pos + 2;
        proof {
            assert((v >> 8) as u8 == b0 && v as u8 == b1) by (bit_vector)
                requires
                    v == ((b0 as u16) << 8) | (b1 as u16),
            ;
            reveal(spec_be16);
            assert(old(self).bytes().subrange(old(self).pos(), self.pos()) =~= spec_be16(v));
        }
        Some(v)
    }

    pub fn read_u16_le(&mut self) -> (r: Option<u16>)
        requires
            old(self).wf(),
        ensures
            final(self).wf(),
            final(self).bytes() == old(self).bytes(),
            r is Some ==> final(self).pos() == old(self).pos() + 2
                && old(self).bytes().subrange(old(self).pos(), final(self).pos()) == spec_le16(r->Some_0),
            r is None ==> final(self).pos() == old(self).pos()
                && old(self).pos() + 2 > old(self).bytes().len(),
    {
        if self.data.len() - self.read_pos < 2 {
            return None;
        }
        let b0 = self.data[self.read_pos];
        let b1 = self.data[self.read_pos + 1];
        let v: u16 = ((b1 as u16) << 8) | (b0 as u16);
        self.read_pos = self.read_pos + 2;
        proof {
            assert(v as u8 == b0 && (v >> 8) as u8 == b1) by (bit_vector)
                requires
                    v == ((b1 as u16) << 8) | (b0 as u16),
            ;
            reveal(spec_le16);
            assert(old(self).bytes().subrange(old(self).pos(), self.pos()) =~= spec_le16(v));
        }
        Some(v)
    }

    pub fn read_u32_be(&mut self) -> (r: Option<u32>)
        requires
            old(self).wf(),
        ensures
            final(self).wf(),
            final(self).bytes() == old(self).bytes(),
            r is Some ==> final(self).pos() == old(self).pos() + 4
                && old(self).bytes().subrange(old(self).pos(), final(self).pos()) == spec_be32(r->Some_0),
            r is None ==> final(self).pos() == old(self).pos()
                && old(self).pos() + 4 > old(self).bytes().len(),
    {
        if self.data.len() - self.read_pos < 4 {
            return None;
        }
        let b0 = self.data[self.read_pos];
        let b1 = self.data[self.read_pos + 1];
        let b2 = self.data[self.read_pos + 2];
        let b3 = self.data[self.read_pos + 3];
        let v: u32 = ((b0 as u32) << 24) | ((b1 as u32) << 16) | ((b2 as u32) << 8) | (b3 as u32);
        self.read_pos = self.read_pos + 4;
        proof {
            assert((v >> 24) as u8 == b0 && (v >> 16) as u8 == b1 && (v >> 8) as u8 == b2
                && v as u8 == b3) by (bit_vector)
                requires
                    v == ((b0 as u32) << 24) | ((b1 as u32) << 16) | ((b2 as u32) << 8) | (
                    b3 as u32),
            ;
            reveal(spec_be32);
            assert(old(self).bytes().subrange(old(self).pos(), self.pos()) =~= spec_be32(v));
        }
        Some(v)
    }

    pub fn read_u64_be(&mut self) -> (r: Option<u64>)
        requires
            old(self).wf(),
        ensures
            final(self).wf(),
            final(self).bytes() == old(self).bytes(),
            r is Some ==> final(self).pos() == old(self).pos() + 8
                && old(self).bytes().subrange(old(self).pos(), final(self).pos()) == spec_be64(r->Some_0),
            r is None ==> final(self).pos() == old(self).pos()
                && old(self).pos() + 8 > old(self).bytes().len(),
    {
        if self.data.len() - self.read_pos < 8 {
            return None;
        }
        let b0 = self.data[self.read_pos];
        let b1 = self.data[self.read_pos + 1];
        let b2 = self.data[self.read_pos + 2];
        let b3 = self.data[self.read_pos + 3];
        let b4 = self.data[self.read_pos + 4];
        let b5 = self.data[self.read_pos + 5];
        let b6 = self.data[self.read_pos + 6];
        let b7 = self.data[self.read_pos + 7];
        let v: u64 = ((b0 as u64) << 56) | ((b1 as u64) << 48) | ((b2 as u64) << 40)
            | ((b3 as u64) << 32) | ((b4 as u64) << 24) | ((b5 as u64) << 16)
            | ((b6 as u64) << 8) | (b7 as u64);
        self.read_pos = self.read_pos + 8;
        proof {
            assert((v >> 56) as u8 == b0 && (v >> 48) as u8 == b1 && (v >> 40) as u8 == b2
                && (v >> 32) as u8 == b3 && (v >> 24) as u8 == b4 && (v >> 16) as u8 == b5
                && (v >> 8) as u8 == b6 && v as u8 == b7) by (bit_vector)
                requires
                    v == ((b0 as u64) << 56) | ((b1 as u64) << 48) | ((b2 as u64) << 40)
                        | ((b3 as u64) << 32) | ((b4 as u64) << 24) | ((b5 as u64) << 16)
                        | ((b6 as u64) << 8) | (b7 as u64),
            ;
            reveal(spec_be64);
            assert(old(self).bytes().subrange(old(self).pos(), self.pos()) =~= spec_be64(v));
        }
        Some(v)
    }

    pub fn read_u128_be(&mut self) -> (r: Option<u128>)
        requires
            old(self).wf(),
        ensures
            final(self).wf(),
            final(self).bytes() == old(self).bytes(),
            r is Some ==> final(self).pos() == old(self).pos() + 16
                && old(self).bytes().subrange(old(self).pos(), final(self).pos()) == spec_be128(r->Some_0),
            r is None ==> final(self).pos() == old(self).pos()
                && old(self).pos() + 16 > old(self).bytes().len(),
    {
        if self.data.len() - self.read_pos < 16 {
            return None;
        }
        let hi = self.read_u64_be().unwrap();
        let lo = self.read_u64_be().unwrap();
        let v: u128 = ((hi as u128) << 64) | (lo as u128);
        proof {
            assert((v >> 64) as u64 == hi && v as u64 == lo) by (bit_vector)
                requires
                    v == ((hi as u128) << 64) | (lo as u128),
            ;
            reveal(spec_be128);
            assert(old(self).bytes().subrange(old(self).pos(), self.pos()) =~= spec_be128(v));
        }
        Some(v)
    }

    pub fn read_hash(&mut self) -> (r: Option<Hash256>)
        requires
            old(self).wf(),
        ensures
            final(self).wf(),
            final(self).bytes() == old(self).bytes(),
            r is Some ==> final(self).pos() == old(self).pos() + 32
                && old(self).bytes().subrange(old(self).pos(), final(self).pos()) == spec_hash_bytes(r->Some_0),
            r is None ==> final(self).pos() == old(self).pos()
                && old(self).pos() + 32 > old(self).bytes().len(),
    {
        if self.data.len() - self.read_pos < 32 {
            return None;
        }
        let w0 = self.read_u64_be().unwrap();
        let w1 = self.read_u64_be().unwrap();
        let w2 = self.read_u64_be().unwrap();
        let w3 = self.read_u64_be().unwrap();
        let h = Hash256 { w0, w1, w2, w3 };
        proof {
            reveal(spec_hash_bytes);
            assert(old(self).bytes().subrange(old(self).pos(), self.pos()) =~= spec_hash_bytes(h));
        }
        Some(h)
    }

    pub fn read_sig(&mut self) -> (r: Option<Signature>)
        requires
            old(self).wf(),
        ensures
            final(self).wf(),
            final(self).bytes() == old(self).bytes(),
            r is Some ==> final(self).pos() == old(self).pos() + 64
                && old(self).bytes().subrange(old(self).pos(), final(self).pos()) == spec_sig_bytes(r->Some_0),
            r is None ==> final(self).pos() == old(self).pos()
                && old(self).pos() + 64 > old(self).bytes().len(),
    {
        if self.data.len() - self.read_pos < 64 {
            return None;
        }
        let hi = self.read_hash().unwrap();
        let lo = self.read_hash().unwrap();
        let s = Signature { hi, lo };
        proof {
            reveal(spec_sig_bytes);
            assert(old(self).bytes().subrange(old(self).pos(), self.pos()) =~= spec_sig_bytes(s));
        }
        Some(s)
    }
}


pub broadcast proof fn lemma_be16_len(v: u16)
    ensures
        (#[trigger] spec_be16(v)).len() == 2,
{
    reveal(spec_be16);
}

pub broadcast proof fn lemma_le16_len(v: u16)
    ensures
        (#[trigger] spec_le16(v)).len() == 2,
{
    reveal(spec_le16);
}

pub broadcast proof fn lemma_be32_len(v: u32)
    ensures
        (#[trigger] spec_be32(v)).len() == 4,
{
    reveal(spec_be32);
}

pub broadcast proof fn lemma_be64_len(v: u64)
    ensures
        (#[trigger] spec_be64(v)).len() == 8,
{
    reveal(spec_be64);
}

pub broadcast proof fn lemma_be128_len(v: u128)
    ensures
        (#[trigger] spec_be128(v)).len() == 16,
{
    reveal(spec_be128);
    lemma_be64_len((v >> 64) as u64);
    lemma_be64_len(v as u64);
}

pub broadcast proof fn lemma_hash_bytes_len(h: Hash256)
    ensures
        (#[trigger] spec_hash_bytes(h)).len() == 32,
{
    reveal(spec_hash_bytes);
    lemma_be64_len(h.w0);
    lemma_be64_len(h.w1);
    lemma_be64_len(h.w2);
    lemma_be64_len(h.w3);
}

pub broadcast proof fn lemma_sig_bytes_len(s: Signature)
    ensures
        (#[trigger] spec_sig_bytes(s)).len() == 64,
{
    reveal(spec_sig_bytes);
    lemma_hash_bytes_len(s.hi);
    lemma_hash_bytes_len(s.lo);
}

/// The length facts of every leaf encoding, for use as ambient lemmas.
pub broadcast group group_codec_lens {
    lemma_be16_len,
    lemma_be32_len,
    lemma_le16_len,
    lemma_be64_len,
    lemma_be128_len,
    lemma_hash_bytes_len,
    lemma_sig_bytes_len,
}

} // verus!
