//! The records persisted per account and per receivable send, and the error
//! kinds of the ledger state machine.

use vstd::prelude::*;
use crate::amount::Amount;
use crate::epoch::Epoch;
use crate::hashes::{Account, BlockHash, Hash256, PublicKey};
use crate::kvmap::MapKey;

verus! {

/// The head state of one account chain.
#[derive(Clone, Copy, Debug, PartialEq, Eq, Structural)]
pub struct AccountInfo {
    pub head: BlockHash,
    pub representative: PublicKey,
    pub open_block: BlockHash,
    pub balance: Amount,
    pub modified: u64,
    pub block_count: u64,
    pub epoch: Epoch,
}

impl AccountInfo {
    pub open spec fn spec_default() -> AccountInfo {
        AccountInfo {
            head: Hash256 { w0: 0, w1: 0, w2: 0, w3: 0 },
            representative: Hash256 { w0: 0, w1: 0, w2: 0, w3: 0 },
            open_block: Hash256 { w0: 0, w1: 0, w2: 0, w3: 0 },
            balance: Amount { raw: 0 },
            modified: 0,
            block_count: 0,
            epoch: Epoch::Epoch0,
        }
    }
}

impl Default for AccountInfo {
    fn default() -> (r: AccountInfo)
        ensures
            r == AccountInfo::spec_default(),
    {
        AccountInfo {
            head: Hash256::zero(),
            representative: Hash256::zero(),
            open_block: Hash256::zero(),
            balance: Amount::zero(),
            modified: 0,
            block_count: 0,
            epoch: Epoch::Epoch0,
        }
    }
}

/// Identifies one receivable amount: the destination account and the hash of
/// the send that created it.
#[derive(Clone, Copy, Debug, PartialEq, Eq, Hash, Structural)]
pub struct PendingKey {
    pub account: Account,
    pub send_block_hash: BlockHash,
}

impl PendingKey {
    pub fn new(account: Account, send_block_hash: BlockHash) -> (r: PendingKey)
        ensures
            r == (PendingKey { account, send_block_hash }),
    {
        PendingKey { account, send_block_hash }
    }
}

/// What a receivable amount is worth and where it came from.
#[derive(Clone, Copy, Debug, PartialEq, Eq, Structural)]
pub struct PendingInfo {
    pub source: Account,
    pub amount: Amount,
    pub epoch: Epoch,
}

impl PendingInfo {
    pub fn new(source: Account, amount: Amount, epoch: Epoch) -> (r: PendingInfo)
        ensures
            r == (PendingInfo { source, amount, epoch }),
    {
        PendingInfo { source, amount, epoch }
    }
}

/// How much of an account's chain has been confirmed, and the last confirmed
/// block.
#[derive(Clone, Copy, Debug, PartialEq, Eq, Structural)]
pub struct ConfirmationHeightInfo {
    pub height: u64,
    pub frontier: BlockHash,
}

impl ConfirmationHeightInfo {
    pub fn new(height: u64, frontier: BlockHash) -> (r: ConfirmationHeightInfo)
        ensures
            r == (ConfirmationHeightInfo { height, frontier }),
    {
        ConfirmationHeightInfo { height, frontier }
    }
}

impl Default for ConfirmationHeightInfo {
    fn default() -> (r: ConfirmationHeightInfo)
        ensures
            r.height == 0,
            r.frontier.spec_is_zero(),
    {
        ConfirmationHeightInfo { height: 0, frontier: Hash256::zero() }
    }
}

impl MapKey for Hash256 {
    fn key_eq(&self, other: &Hash256) -> (r: bool)
        ensures
            r == (*self == *other),
    {
        self.w0 == other.w0 && self.w1 == other.w1 && self.w2 == other.w2 && self.w3 == other.w3
    }
}

impl MapKey for PendingKey {
    fn key_eq(&self, other: &PendingKey) -> (r: bool)
        ensures
            r == (*self == *other),
    {
        self.account.key_eq(&other.account) && self.send_block_hash.key_eq(&other.send_block_hash)
    }
}

/// Why a candidate block may not be inserted. Each check of the validator
/// maps to one kind.
#[derive(Clone, Copy, Debug, PartialEq, Eq, Structural)]
pub enum ProcessError {
    /// The hash is already stored or pruned.
    BlockExists,
    /// The signature does not validate against the author.
    BadSignature,
    /// The work nonce does not meet the threshold for the block's details.
    WorkInsufficient,
    /// `previous` is set but not stored.
    GapPrevious,
    /// A receive whose source send is not stored or pruned.
    GapSource,
    /// The block opens an already-open account, or does not extend its head.
    Fork,
    /// The stated balance contradicts the chain or the pending entry.
    BalanceMismatch,
    /// A receive whose source resolves to no matching pending entry.
    Unreceivable,
    /// An epoch block changing, or a change block keeping, the representative.
    RepresentativeMismatch,
    /// An epoch block whose link is not the account's next epoch.
    EpochInvalid,
}

/// Why a rollback request failed.
#[derive(Clone, Copy, Debug, PartialEq, Eq, Structural)]
pub enum RollbackError {
    /// The target hash is not stored.
    BlockNotFound,
    /// The target is at or below the account's confirmation height.
    AlreadyConfirmed,
    /// The store contradicts itself; not recoverable locally.
    IntegrityViolation,
}

} // verus!
