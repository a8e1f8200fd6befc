//! The block validator: a pure function from a candidate block and a read
//! snapshot of the ledger to either the exact mutation to perform or the
//! first failing check's error.

use vstd::prelude::*;
use crate::amount::Amount;
use crate::auth::spec_signature_for;
use crate::blocks::{BlockDetails, BlockEnum, BlockSideband};
use crate::epoch::{Epoch, Epochs};
use crate::hashes::{Account, BlockHash, Hash256, PublicKey};
use crate::kvmap::MapKey;
use crate::ledger_types::{AccountInfo, PendingInfo, PendingKey, ProcessError};
use crate::work::{spec_work_value, WorkThresholds};

verus! {

/// A pending entry a send creates: its key and its record.
#[derive(Clone, Copy, Debug, PartialEq, Eq, Structural)]
pub struct PendingAdd {
    pub key: PendingKey,
    pub info: PendingInfo,
}

/// The mutation a validated block performs, emitted by the validator and
/// applied by the ledger under a write transaction.
#[derive(Clone, Copy, Debug, PartialEq, Eq, Structural)]
pub struct BlockInsertInstructions {
    pub account: Account,
    pub old_account_info: AccountInfo,
    pub set_account_info: AccountInfo,
    pub delete_pending: Option<PendingKey>,
    pub insert_pending: Option<PendingAdd>,
    pub set_sideband: BlockSideband,
    pub is_epoch_block: bool,
}

/// A candidate block together with everything the checks read: a snapshot
/// gathered from the store under one read transaction.
#[derive(Clone, Copy, Debug)]
pub struct BlockValidator {
    pub block: BlockEnum,
    pub epochs: Epochs,
    pub work: WorkThresholds,
    pub account: Account,
    pub block_exists: bool,
    pub old_account_info: Option<AccountInfo>,
    pub pending_receive_info: Option<PendingInfo>,
    pub any_pending_exists: bool,
    pub source_block_exists: bool,
    pub previous_block: Option<BlockEnum>,
    pub seconds_since_epoch: u64,
}

impl BlockValidator {
    /// The balance the account held before this block.
    pub open spec fn spec_prev_balance(self) -> u128 {
        match self.old_account_info {
            Some(info) => info.balance.raw,
            None => 0,
        }
    }

    pub open spec fn spec_old_epoch(self) -> Epoch {
        match self.old_account_info {
            Some(info) => info.epoch,
            None => Epoch::Epoch0,
        }
    }

    pub open spec fn spec_old_count(self) -> u64 {
        match self.old_account_info {
            Some(info) => info.block_count,
            None => 0,
        }
    }

    pub open spec fn spec_old_rep(self) -> PublicKey {
        match self.old_account_info {
            Some(info) => info.representative,
            None => Hash256 { w0: 0, w1: 0, w2: 0, w3: 0 },
        }
    }

    /// A state block whose balance is unchanged and whose link is a
    /// recognised epoch marker: a candidate epoch-upgrade block.
    pub open spec fn spec_is_epoch_candidate(self) -> bool {
        match self.block {
            BlockEnum::State(b) => b.balance.raw == self.spec_prev_balance()
                && self.epochs.spec_is_epoch_link(b.link),
            _ => false,
        }
    }

    /// The block debits its account.
    pub open spec fn spec_is_send(self) -> bool {
        match self.block {
            BlockEnum::LegacySend(_) => true,
            BlockEnum::State(b) => !b.previous.spec_is_zero() && b.balance.raw
                < self.spec_prev_balance(),
            _ => false,
        }
    }

    /// The block credits a pending send into its account.
    pub open spec fn spec_is_receive(self) -> bool {
        match self.block {
            BlockEnum::LegacyReceive(_) => true,
            BlockEnum::LegacyOpen(_) => true,
            BlockEnum::State(b) => if b.previous.spec_is_zero() {
                !self.spec_is_epoch_candidate()
            } else {
                b.balance.raw >= self.spec_prev_balance() && !self.spec_is_epoch_candidate()
                    && !b.link.spec_is_zero()
            },
            _ => false,
        }
    }

    /// The block only re-delegates or re-states the account.
    pub open spec fn spec_is_change(self) -> bool {
        match self.block {
            BlockEnum::LegacyChange(_) => true,
            BlockEnum::State(b) => !b.previous.spec_is_zero() && b.balance.raw
                >= self.spec_prev_balance() && !self.spec_is_epoch_candidate()
                && b.link.spec_is_zero(),
            _ => false,
        }
    }

    /// The epoch the account is at once this block applies.
    pub open spec fn spec_new_epoch(self) -> Epoch {
        if self.spec_is_epoch_candidate() {
            self.epochs.spec_epoch_of_link(self.block.spec_link())->Some_0
        } else if self.block is State {
            self.spec_old_epoch()
        } else {
            Epoch::Epoch0
        }
    }

    pub open spec fn spec_details(self) -> BlockDetails {
        BlockDetails {
            epoch: self.spec_new_epoch(),
            is_send: self.spec_is_send(),
            is_receive: self.spec_is_receive(),
            is_epoch: self.spec_is_epoch_candidate(),
        }
    }

    /// The signature must be the author's over the block hash; an epoch
    /// block may instead carry the epoch signer's signature.
    pub open spec fn spec_sig_ok(self) -> bool {
        ||| self.block.spec_signature() == spec_signature_for(
            self.account,
            self.block.spec_hash(),
        )
        ||| (self.spec_is_epoch_candidate() && self.block.spec_signature() == spec_signature_for(
            self.epochs.signer,
            self.block.spec_hash(),
        ))
    }

    /// The work nonce over the block's root must reach the threshold for
    /// the block's details.
    pub open spec fn spec_work_ok(self) -> bool {
        spec_work_value(self.block.spec_root(), self.block.spec_work()) >= self.work.spec_threshold(
            self.spec_details(),
        )
    }

    pub open spec fn spec_gap_previous(self) -> bool {
        !self.block.spec_previous().spec_is_zero() && self.previous_block is None
    }

    pub open spec fn spec_gap_source(self) -> bool {
        self.spec_is_receive() && !self.source_block_exists
    }

    pub open spec fn spec_fork(self) -> bool {
        if self.block.spec_is_open() {
            self.old_account_info is Some
        } else {
            match self.old_account_info {
                Some(info) => self.block.spec_previous() != info.head,
                None => true,
            }
        }
    }

    /// The balance and representative rules, checked once the structural
    /// checks pass.
    pub open spec fn spec_semantics_error(self) -> Option<ProcessError> {
        if self.spec_is_epoch_candidate() {
            if self.epochs.spec_epoch_of_link(self.block.spec_link()) != spec_epoch_successor(
                self.spec_old_epoch(),
            ) {
                Some(ProcessError::EpochInvalid)
            } else if self.block.spec_representative_opt()->Some_0 != self.spec_old_rep() {
                Some(ProcessError::RepresentativeMismatch)
            } else {
                None
            }
        } else if self.spec_is_receive() {
            if self.pending_receive_info is None {
                Some(ProcessError::Unreceivable)
            } else {
                let pending = self.pending_receive_info->Some_0;
                match self.block {
                    BlockEnum::State(b) => if b.balance.raw - self.spec_prev_balance()
                        != pending.amount.raw {
                        Some(ProcessError::BalanceMismatch)
                    } else {
                        None
                    },
                    BlockEnum::LegacyReceive(_) => if self.spec_prev_balance() + pending.amount.raw
                        > u128::MAX {
                        Some(ProcessError::BalanceMismatch)
                    } else {
                        None
                    },
                    _ => None,
                }
            }
        } else if self.spec_is_change() {
            let balance_mismatch = match self.block.spec_balance_opt() {
                Some(b) => b.raw != self.spec_prev_balance(),
                None => false,
            };
            if balance_mismatch {
                Some(ProcessError::BalanceMismatch)
            } else if self.block.spec_representative_opt()->Some_0 == self.spec_old_rep() {
                Some(ProcessError::RepresentativeMismatch)
            } else {
                None
            }
        } else {
            // a send
            if self.block.spec_balance_opt()->Some_0.raw >= self.spec_prev_balance() {
                Some(ProcessError::BalanceMismatch)
            } else {
                None
            }
        }
    }

    /// The first failing check, in the order the checks run.
    pub open spec fn spec_first_error(self) -> Option<ProcessError> {
        if self.block_exists {
            Some(ProcessError::BlockExists)
        } else if !self.spec_sig_ok() {
            Some(ProcessError::BadSignature)
        } else if !self.spec_work_ok() {
            Some(ProcessError::WorkInsufficient)
        } else if self.spec_gap_previous() {
            Some(ProcessError::GapPrevious)
        } else if self.spec_gap_source() {
            Some(ProcessError::GapSource)
        } else if self.spec_fork() {
            Some(ProcessError::Fork)
        } else {
            self.spec_semantics_error()
        }
    }

    /// The amount this block moves: what a send debits or a receive
    /// credits.
    pub open spec fn spec_amount(self) -> u128 {
        if self.spec_is_send() {
            (self.spec_prev_balance() - self.block.spec_balance_opt()->Some_0.raw) as u128
        } else if self.spec_is_receive() {
            self.pending_receive_info->Some_0.amount.raw
        } else {
            0
        }
    }

    /// The account balance once this block applies.
    pub open spec fn spec_new_balance(self) -> u128 {
        match self.block {
            BlockEnum::State(b) => b.balance.raw,
            BlockEnum::LegacySend(b) => b.balance.raw,
            BlockEnum::LegacyReceive(_) => (self.spec_prev_balance() + self.spec_amount()) as u128,
            BlockEnum::LegacyOpen(_) => self.spec_amount(),
            BlockEnum::LegacyChange(_) => self.spec_prev_balance(),
        }
    }

    pub open spec fn spec_new_rep(self) -> PublicKey {
        match self.block.spec_representative_opt() {
            Some(rep) => rep,
            None => self.spec_old_rep(),
        }
    }

    pub open spec fn spec_sideband(self) -> BlockSideband {
        BlockSideband {
            height: (self.spec_old_count() + 1) as u64,
            timestamp: self.seconds_since_epoch,
            successor: Hash256 { w0: 0, w1: 0, w2: 0, w3: 0 },
            account: self.account,
            balance: Amount { raw: self.spec_new_balance() },
            details: self.spec_details(),
            source_epoch: if self.spec_is_receive() {
                self.pending_receive_info->Some_0.epoch
            } else {
                Epoch::Epoch0
            },
        }
    }

    pub open spec fn spec_new_account_info(self) -> AccountInfo {
        AccountInfo {
            head: self.block.spec_hash(),
            representative: self.spec_new_rep(),
            open_block: if self.block.spec_is_open() {
                self.block.spec_hash()
            } else {
                match self.old_account_info {
                    Some(info) => info.open_block,
                    None => Hash256 { w0: 0, w1: 0, w2: 0, w3: 0 },
                }
            },
            balance: Amount { raw: self.spec_new_balance() },
            modified: self.seconds_since_epoch,
            block_count: (self.spec_old_count() + 1) as u64,
            epoch: self.spec_new_epoch(),
        }
    }

    pub open spec fn spec_instructions(self) -> BlockInsertInstructions {
        BlockInsertInstructions {
            account: self.account,
            old_account_info: match self.old_account_info {
                Some(info) => info,
                None => AccountInfo::spec_default(),
            },
            set_account_info: self.spec_new_account_info(),
            delete_pending: if self.spec_is_receive() {
                Some(PendingKey { account: self.account, send_block_hash: self.block.spec_source_or_link() })
            } else {
                None
            },
            insert_pending: if self.spec_is_send() {
                Some(PendingAdd {
                    key: PendingKey {
                        account: self.block.spec_destination_or_link(),
                        send_block_hash: self.block.spec_hash(),
                    },
                    info: PendingInfo {
                        source: self.account,
                        amount: Amount { raw: self.spec_amount() },
                        epoch: self.spec_new_epoch(),
                    },
                })
            } else {
                None
            },
            set_sideband: self.spec_sideband(),
            is_epoch_block: self.spec_is_epoch_candidate(),
        }
    }

    /// Runs every check of the snapshot in order and, when all pass, emits
    /// the exact mutation to apply.
    pub fn validate(&self) -> (r: Result<BlockInsertInstructions, ProcessError>)
        requires
            self.spec_old_count() < u64::MAX,
        ensures
            r matches Err(e) ==> self.spec_first_error() == Some(e),
            r is Ok ==> self.spec_first_error() is None,
            r matches Ok(ins) ==> ins == self.spec_instructions(),
    {
        let hash = self.block.hash();
        let prev_balance = match &self.old_account_info {
            Some(info) => info.balance.raw,
            None => 0,
        };
        let old_rep = match &self.old_account_info {
            Some(info) => info.representative,
            None => Hash256::zero(),
        };
        let old_epoch = match &self.old_account_info {
            Some(info) => info.epoch,
            None => Epoch::Epoch0,
        };
        let old_count = match &self.old_account_info {
            Some(info) => info.block_count,
            None => 0,
        };

        let is_epoch_candidate = match &self.block {
            BlockEnum::State(b) => b.balance.raw == prev_balance && self.epochs.is_epoch_link(
                &b.link,
            ),
            _ => false,
        };
        let is_send = match &self.block {
            BlockEnum::LegacySend(_) => true,
            BlockEnum::State(b) => !b.previous.is_zero() && b.balance.raw < prev_balance,
            _ => false,
        };
        let is_receive = match &self.block {
            BlockEnum::LegacyReceive(_) => true,
            BlockEnum::LegacyOpen(_) => true,
            BlockEnum::State(b) => if b.previous.is_zero() {
                !is_epoch_candidate
            } else {
                b.balance.raw >= prev_balance && !is_epoch_candidate && !b.link.is_zero()
            },
            _ => false,
        };
        let is_change = match &self.block {
            BlockEnum::LegacyChange(_) => true,
            BlockEnum::State(b) => !b.previous.is_zero() && b.balance.raw >= prev_balance
                && !is_epoch_candidate && b.link.is_zero(),
            _ => false,
        };
        let new_epoch = if is_epoch_candidate {
            match self.epochs.epoch_of_link(&self.block.link()) {
                Some(e) => e,
                None => Epoch::Epoch0,
            }
        } else if matches!(self.block, BlockEnum::State(_)) {
            old_epoch
        } else {
            Epoch::Epoch0
        };
        let details = BlockDetails {
            epoch: new_epoch,
            is_send,
            is_receive,
            is_epoch: is_epoch_candidate,
        };

        // 1. already stored or pruned
        if self.block_exists {
            return Err(ProcessError::BlockExists);
        }

        // 2. signature
        let signature = self.block.signature();
        let mut sig_ok = crate::auth::validate_signature(&self.account, &hash, &signature);
        if !sig_ok && is_epoch_candidate {
            sig_ok = crate::auth::validate_signature(&self.epochs.signer, &hash, &signature);
        }
        if !sig_ok {
            return Err(ProcessError::BadSignature);
        }

        // 3. work threshold
        let root = self.block.root();
        if crate::work::work_value(&root, self.block.work()) < self.work.threshold(&details) {
            return Err(ProcessError::WorkInsufficient);
        }

        // 4. previous present
        if !self.block.previous().is_zero() && self.previous_block.is_none() {
            return Err(ProcessError::GapPrevious);
        }

        // 5. source present
        if is_receive && !self.source_block_exists {
            return Err(ProcessError::GapSource);
        }

        // 6. fork
        let fork = if self.block.is_open() {
            self.old_account_info.is_some()
        } else {
            match &self.old_account_info {
                Some(info) => {
                    let p = self.block.previous();
                    !p.key_eq(&info.head)
                }
                None => true,
            }
        };
        if fork {
            return Err(ProcessError::Fork);
        }

        // 7. balance and representative semantics
        let mut amount: u128 = 0;
        if is_epoch_candidate {
            let linked = self.epochs.epoch_of_link(&self.block.link());
            let wanted = old_epoch.successor();
            let epoch_matches = match (linked, wanted) {
                (Some(a), Some(b)) => a == b,
                _ => false,
            };
            if !epoch_matches {
                return Err(ProcessError::EpochInvalid);
            }
            let rep = match self.block.representative_opt() {
                Some(rep) => rep,
                None => Hash256::zero(),
            };
            if !rep.key_eq(&old_rep) {
                return Err(ProcessError::RepresentativeMismatch);
            }
        } else if is_receive {
            match &self.pending_receive_info {
                None => {
                    return Err(ProcessError::Unreceivable);
                }
                Some(pending) => {
                    match &self.block {
                        BlockEnum::State(b) => {
                            if b.balance.raw - prev_balance != pending.amount.raw {
                                return Err(ProcessError::BalanceMismatch);
                            }
                        }
                        BlockEnum::LegacyReceive(_) => {
                            if prev_balance.checked_add(pending.amount.raw).is_none() {
                                return Err(ProcessError::BalanceMismatch);
                            }
                        }
                        _ => {}
                    }
                    amount = pending.amount.raw;
                }
            }
        } else if is_change {
            match self.block.balance_opt() {
                Some(b) => if b.raw != prev_balance {
                    return Err(ProcessError::BalanceMismatch);
                },
                None => {}
            }
            let rep = match self.block.representative_opt() {
                Some(rep) => rep,
                None => Hash256::zero(),
            };
            if rep.key_eq(&old_rep) {
                return Err(ProcessError::RepresentativeMismatch);
            }
        } else {
            // a send
            let stated = match self.block.balance_opt() {
                Some(b) => b.raw,
                None => 0,
            };
            if stated >= prev_balance {
                return Err(ProcessError::BalanceMismatch);
            }
            amount = prev_balance - stated;
        }

        let new_balance: u128 = match &self.block {
            BlockEnum::State(b) => b.balance.raw,
            BlockEnum::LegacySend(b) => b.balance.raw,
            BlockEnum::LegacyReceive(_) => prev_balance + amount,
            BlockEnum::LegacyOpen(_) => amount,
            BlockEnum::LegacyChange(_) => prev_balance,
        };
        let new_rep = match self.block.representative_opt() {
            Some(rep) => rep,
            None => old_rep,
        };
        let old_info = match &self.old_account_info {
            Some(info) => *info,
            None => AccountInfo::default(),
        };
        let sideband = BlockSideband {
            height: old_count + 1,
            timestamp: self.seconds_since_epoch,
            successor: Hash256::zero(),
            account: self.account,
            balance: Amount::raw(new_balance),
            details,
            source_epoch: if is_receive {
                match &self.pending_receive_info {
                    Some(p) => p.epoch,
                    None => Epoch::Epoch0,
                }
            } else {
                Epoch::Epoch0
            },
        };
        let new_info = AccountInfo {
            head: hash,
            representative: new_rep,
            open_block: if self.block.is_open() {
                hash
            } else {
                old_info.open_block
            },
            balance: Amount::raw(new_balance),
            modified: self.seconds_since_epoch,
            block_count: old_count + 1,
            epoch: new_epoch,
        };
        Ok(BlockInsertInstructions {
            account: self.account,
            old_account_info: old_info,
            set_account_info: new_info,
            delete_pending: if is_receive {
                Some(PendingKey::new(self.account, self.block.source_or_link()))
            } else {
                None
            },
            insert_pending: if is_send {
                Some(PendingAdd {
                    key: PendingKey::new(self.block.destination_or_link(), hash),
                    info: PendingInfo::new(self.account, Amount::raw(amount), new_epoch),
                })
            } else {
                None
            },
            set_sideband: sideband,
            is_epoch_block: is_epoch_candidate,
        })
    }
}

/// The epoch that follows `e`, at spec level.
pub open spec fn spec_epoch_successor(e: Epoch) -> Option<Epoch> {
    match e {
        Epoch::Unspecified => Some(Epoch::Epoch0),
        Epoch::Epoch0 => Some(Epoch::Epoch1),
        Epoch::Epoch1 => Some(Epoch::Epoch2),
        Epoch::Epoch2 => None,
    }
}


/// What a successfully validated block does to the books: the exact balance
/// and pending accounting each block kind performs. This is the fact the
/// ledger's conservation argument rests on.
pub proof fn lemma_validate_effects(v: BlockValidator)
    requires
        v.spec_first_error() is None,
        v.spec_old_count() < u64::MAX,
    ensures
        v.block.spec_is_open() ==> v.old_account_info is None,
        !v.block.spec_is_open() ==> v.old_account_info is Some,
        v.spec_instructions().account == v.account,
        v.spec_instructions().set_account_info.balance.raw == v.spec_new_balance(),
        v.spec_instructions().set_account_info.block_count == v.spec_old_count() + 1,
        v.spec_is_send() ==> {
            let ins = v.spec_instructions();
            &&& ins.insert_pending is Some
            &&& ins.delete_pending is None
            &&& ins.insert_pending->Some_0.key.send_block_hash == v.block.spec_hash()
            &&& v.spec_new_balance() + ins.insert_pending->Some_0.info.amount.raw
                == v.spec_prev_balance()
        },
        v.spec_is_receive() ==> {
            let ins = v.spec_instructions();
            &&& ins.insert_pending is None
            &&& ins.delete_pending is Some
            &&& v.pending_receive_info is Some
            &&& ins.delete_pending->Some_0 == (PendingKey {
                account: v.account,
                send_block_hash: v.block.spec_source_or_link(),
            })
            &&& v.spec_new_balance() == v.spec_prev_balance()
                + v.pending_receive_info->Some_0.amount.raw
        },
        !v.spec_is_send() && !v.spec_is_receive() ==> {
            let ins = v.spec_instructions();
            &&& ins.insert_pending is None
            &&& ins.delete_pending is None
            &&& v.spec_new_balance() == v.spec_prev_balance()
        },
        !(v.spec_is_send() && v.spec_is_receive()),
{
    if v.spec_is_receive() {
        match v.block {
            BlockEnum::LegacyOpen(_) => {
                assert(v.old_account_info is None);
                assert(v.spec_prev_balance() == 0);
            }
            _ => {}
        }
    }
}

} // verus!
