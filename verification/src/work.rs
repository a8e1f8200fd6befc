//! Proof-of-work values and thresholds. The work value of a nonce over a
//! root is a digest word of the root combined with the nonce; a block's work
//! is sufficient when its value reaches the threshold for the block's epoch
//! and kind.

use vstd::prelude::*;
use crate::blocks::{spec_words_of_hash, BlockDetails};
use crate::epoch::Epoch;
use crate::hashes::{digest_words, spec_digest, Hash256};

verus! {

/// The digest word a root contributes to its work values.
pub open spec fn spec_work_base(root: Hash256) -> u64 {
    spec_digest(seq![10u64] + spec_words_of_hash(root)).w0
}

/// The work value of `nonce` over `root`.
pub open spec fn spec_work_value(root: Hash256, nonce: u64) -> u64 {
    spec_work_base(root) ^ nonce
}

pub fn work_base(root: &Hash256) -> (r: u64)
    ensures
        r == spec_work_base(*root),
{
    let mut ws: Vec<u64> = Vec::new();
    ws.push(10u64);
    ws.push(root.w0);
    ws.push(root.w1);
    ws.push(root.w2);
    ws.push(root.w3);
    proof {
        assert(ws@ =~= seq![10u64] + spec_words_of_hash(*root));
    }
    digest_words(&ws).w0
}

pub fn work_value(root: &Hash256, nonce: u64) -> (r: u64)
    ensures
        r == spec_work_value(*root, nonce),
{
    work_base(root) ^ nonce
}

/// The difficulty thresholds in force: one for chains up to epoch 1, and a
/// high and a low one for epoch 2, where receive-like and epoch blocks get
/// the lower bar.
#[derive(Clone, Copy, Debug, PartialEq, Eq, Structural)]
pub struct WorkThresholds {
    pub epoch_1: u64,
    pub epoch_2: u64,
    pub epoch_2_receive: u64,
}

impl WorkThresholds {
    /// The low thresholds used by the development network.
    pub fn publish_dev() -> (r: WorkThresholds)
        ensures
            r == (WorkThresholds {
                epoch_1: 0x8000_0000_0000_0000u64,
                epoch_2: 0xC000_0000_0000_0000u64,
                epoch_2_receive: 0x4000_0000_0000_0000u64,
            }),
    {
        WorkThresholds {
            epoch_1: 0x8000_0000_0000_0000u64,
            epoch_2: 0xC000_0000_0000_0000u64,
            epoch_2_receive: 0x4000_0000_0000_0000u64,
        }
    }

    /// The threshold a block with the given details must meet.
    pub open spec fn spec_threshold(self, details: BlockDetails) -> u64 {
        match details.epoch {
            Epoch::Epoch2 => if details.is_receive || details.is_epoch {
                self.epoch_2_receive
            } else {
                self.epoch_2
            },
            _ => self.epoch_1,
        }
    }

    pub fn threshold(&self, details: &BlockDetails) -> (r: u64)
        ensures
            r == self.spec_threshold(*details),
    {
        match details.epoch {
            Epoch::Epoch2 => if details.is_receive || details.is_epoch {
                self.epoch_2_receive
            } else {
                self.epoch_2
            },
            _ => self.epoch_1,
        }
    }

    /// The threshold no block may fall below, whatever its details.
    pub fn threshold_base(&self) -> (r: u64)
        ensures
            r == self.epoch_1,
    {
        self.epoch_1
    }
}

/// Finds a nonce whose work value over `root` meets `threshold`: the work
/// oracle of this network. The value scheme makes the best nonce direct to
/// compute, so generation never fails and always yields the maximal value.
pub fn generate_work(root: &Hash256, threshold: u64) -> (r: u64)
    ensures
        spec_work_value(*root, r) == u64::MAX,
        spec_work_value(*root, r) >= threshold,
{
    let base = work_base(root);
    let nonce = base ^ 0xFFFF_FFFF_FFFF_FFFFu64;
    proof {
        let b = spec_work_base(*root);
        assert(b ^ (b ^ 0xFFFF_FFFF_FFFF_FFFFu64) == 0xFFFF_FFFF_FFFF_FFFFu64) by (bit_vector);
    }
    nonce
}

} // verus!
