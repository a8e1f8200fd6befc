//! The rollback engine: undoes unconfirmed head blocks, cascading into the
//! receiving account when a rolled-back send has already been received, and
//! restores the pending entry a receive had consumed.

use vstd::prelude::*;
use crate::amount::Amount;
use crate::blocks::{BlockEnum, BlockSideband};
use crate::hashes::{Account, BlockHash, Hash256, PublicKey};
use crate::kvmap::{
    lemma_assoc_contains, lemma_assoc_member_index, lemma_sum_push, lemma_sum_remove,
    lemma_sum_update,
};
use crate::ledger::{spec_amount_weight, spec_balance_weight, spec_count_weight, Ledger};
use crate::ledger_types::{AccountInfo, PendingInfo, PendingKey, RollbackError};

verus! {


/// Every read one head-rollback makes resolves consistently: the block is
/// stored as its account's head and unconfirmed, counts and predecessor
/// line up, and the pending table agrees with the head's kind. On such a
/// state `roll_back_head` is owed success.
pub open spec fn spec_head_rollback_ready(l: Ledger, head_hash: BlockHash) -> bool {
    let b = l.blocks.view()[head_hash];
    let account = b.spec_account_calculated();
    let info = l.accounts.view()[account];
    let previous = b.spec_previous();
    let conf = if l.confirmation_height.view().dom().contains(account) {
        l.confirmation_height.view()[account].height
    } else {
        0
    };
    let prev_balance = if previous.spec_is_zero() {
        0
    } else {
        l.blocks.view()[previous].spec_balance_calculated().raw
    };
    let cur = info.balance.raw;
    &&& l.blocks.view().dom().contains(head_hash)
    &&& l.accounts.view().dom().contains(account)
    &&& info.head == head_hash
    &&& b.spec_sideband().height > conf
    &&& info.block_count != 0
    &&& previous != head_hash
    &&& (previous.spec_is_zero() ==> info.block_count == 1)
    &&& (!previous.spec_is_zero() ==> l.blocks.view().dom().contains(previous))
    &&& (cur < prev_balance ==> {
        let key = PendingKey {
            account: b.spec_destination_or_link(),
            send_block_hash: head_hash,
        };
        l.pending.view().dom().contains(key) ==> l.pending.view()[key].amount.raw == prev_balance
            - cur
    })
    &&& (cur >= prev_balance ==> forall|i: int|
        0 <= i < l.pending.entries@.len() ==> (#[trigger] l.pending.entries@[i]).0.send_block_hash
            != head_hash)
    &&& (cur > prev_balance ==> {
        let source = b.spec_source_or_link();
        &&& source != head_hash
        &&& !l.pending.view().dom().contains(
            PendingKey { account, send_block_hash: source },
        )
        &&& (if l.blocks.view().dom().contains(source) {
            l.blocks.view()[source].spec_destination_or_link() == account
        } else {
            l.pruned.view().dom().contains(source)
        })
    })
}

/// A ready head whose send, if it is one, is still unreceived: the head
/// rollback removes it outright instead of cascading.
pub open spec fn spec_head_rollback_complete(l: Ledger, head_hash: BlockHash) -> bool {
    let b = l.blocks.view()[head_hash];
    let info = l.accounts.view()[b.spec_account_calculated()];
    let previous = b.spec_previous();
    let prev_balance = if previous.spec_is_zero() {
        0
    } else {
        l.blocks.view()[previous].spec_balance_calculated().raw
    };
    &&& spec_head_rollback_ready(l, head_hash)
    &&& (info.balance.raw < prev_balance ==> l.pending.view().dom().contains(
        PendingKey {
            account: b.spec_destination_or_link(),
            send_block_hash: head_hash,
        },
    ))
}

/// The representative in force at `current`: walk back through stored
/// blocks until one carries a representative, giving up after `steps`
/// blocks or at a gap.
pub open spec fn spec_representative_walk(
    blocks: Map<BlockHash, BlockEnum>,
    current: BlockHash,
    steps: nat,
) -> Option<PublicKey>
    decreases steps,
{
    if steps == 0 || current.spec_is_zero() || !blocks.dom().contains(current) {
        None
    } else {
        match blocks[current].spec_representative_opt() {
            Some(rep) => Some(rep),
            None => spec_representative_walk(
                blocks,
                blocks[current].spec_previous(),
                (steps - 1) as nat,
            ),
        }
    }
}


/// The exact effect of removing one head block: what `roll_back_head` does
/// to each table when it answers `Done`.
pub open spec fn spec_head_effect(pre: Ledger, post: Ledger, head_hash: BlockHash, now: u64) -> bool {
    let b = pre.blocks.view()[head_hash];
    let account = b.spec_account_calculated();
    let info = pre.accounts.view()[account];
    let previous = b.spec_previous();
    let prev_balance = if previous.spec_is_zero() {
        Amount { raw: 0 }
    } else {
        pre.blocks.view()[previous].spec_balance_calculated()
    };
    let cur = info.balance.raw;
    &&& (previous.spec_is_zero() ==> post.blocks.view() == pre.blocks.view().remove(head_hash)
        && post.accounts.view() == pre.accounts.view().remove(account))
    &&& (!previous.spec_is_zero() ==> ({
        let pb = pre.blocks.view()[previous];
        let cleared = pb.spec_with_sideband(
            BlockSideband {
                successor: Hash256 { w0: 0, w1: 0, w2: 0, w3: 0 },
                ..pb.spec_sideband()
            },
        );
        &&& post.blocks.view() == pre.blocks.view().remove(head_hash).insert(previous, cleared)
        &&& post.accounts.view().dom().contains(account)
        &&& post.accounts.view() == pre.accounts.view().insert(
            account,
            post.accounts.view()[account],
        )
        &&& post.accounts.view()[account].head == previous
        &&& post.accounts.view()[account].balance == prev_balance
    }))
    &&& (cur < prev_balance.raw ==> post.pending.view() == pre.pending.view().remove(
        PendingKey { account: b.spec_destination_or_link(), send_block_hash: head_hash },
    ))
    &&& (cur > prev_balance.raw ==> ({
        let source = b.spec_source_or_link();
        let linked = if pre.blocks.view().dom().contains(source) {
            pre.blocks.view()[source].spec_account_calculated()
        } else {
            Hash256 { w0: 0, w1: 0, w2: 0, w3: 0 }
        };
        post.pending.view() == pre.pending.view().insert(
            PendingKey { account, send_block_hash: source },
            PendingInfo {
                source: linked,
                amount: Amount { raw: (cur - prev_balance.raw) as u128 },
                epoch: b.spec_sideband().source_epoch,
            },
        )
    }))
    &&& (cur == prev_balance.raw ==> post.pending.view() == pre.pending.view())
    &&& post.confirmation_height == pre.confirmation_height
    &&& post.supply == pre.supply
    &&& post.block_count == pre.block_count - 1
}

/// A send at its chain head that was already received, and the receiver's
/// own head is exactly the matching receive, itself ready to roll back:
/// the one-level cascade `rollback` is owed to resolve.
pub open spec fn spec_send_cascade_ready(l: Ledger, target: BlockHash) -> bool {
    let b = l.blocks.view()[target];
    let account = b.spec_account_calculated();
    let info = l.accounts.view()[account];
    let previous = b.spec_previous();
    let prev_balance = if previous.spec_is_zero() {
        0u128
    } else {
        l.blocks.view()[previous].spec_balance_calculated().raw
    };
    let dest = b.spec_destination_or_link();
    let rinfo = l.accounts.view()[dest];
    let rhead = rinfo.head;
    let rb = l.blocks.view()[rhead];
    let rprevious = rb.spec_previous();
    let rprev_balance = if rprevious.spec_is_zero() {
        0u128
    } else {
        l.blocks.view()[rprevious].spec_balance_calculated().raw
    };
    &&& spec_head_rollback_ready(l, target)
    &&& info.balance.raw < prev_balance
    &&& !l.pending.view().dom().contains(
        PendingKey { account: dest, send_block_hash: target },
    )
    &&& l.accounts.view().dom().contains(dest)
    &&& dest != account
    &&& spec_head_rollback_complete(l, rhead)
    &&& rb.spec_account_calculated() == dest
    &&& rb.spec_source_or_link() == target
    &&& rinfo.balance.raw > rprev_balance
    &&& rinfo.balance.raw - rprev_balance == prev_balance - info.balance.raw
    &&& rhead != target
    &&& (rprevious.spec_is_zero() || rprevious != target)
    &&& (previous.spec_is_zero() || previous != rhead)
}


/// Once the receiver's matching head receive is rolled back, the send
/// itself has its pending entry again and is ready to roll back outright.
#[verifier::rlimit(100)]
proof fn lemma_cascade_step_ready(
    l0: Ledger,
    l2: Ledger,
    target: BlockHash,
    rhead: BlockHash,
    now: u64,
)
    requires
        spec_send_cascade_ready(l0, target),
        rhead == l0.accounts.view()[l0.blocks.view()[target].spec_destination_or_link()].head,
        spec_head_effect(l0, l2, rhead, now),
    ensures
        spec_head_rollback_complete(l2, target),
        l2.blocks.view()[target] == l0.blocks.view()[target],
{
    let b = l0.blocks.view()[target];
    let account = b.spec_account_calculated();
    let info = l0.accounts.view()[account];
    let previous = b.spec_previous();
    let cur = info.balance.raw;
    let dest = b.spec_destination_or_link();
    let rb = l0.blocks.view()[rhead];
    let rprev = rb.spec_previous();
    let rcur = l0.accounts.view()[dest].balance.raw;
    let rprevb = if rprev.spec_is_zero() {
        0u128
    } else {
        l0.blocks.view()[rprev].spec_balance_calculated().raw
    };
    // the send has a predecessor: its balance dropped below something
    assert(!previous.spec_is_zero());
    let prevb = l0.blocks.view()[previous].spec_balance_calculated();
    // the receive's rollback left the send and its predecessor in place
    assert(rb.spec_account_calculated() == dest);
    if rprev.spec_is_zero() {
        assert(l2.blocks.view() == l0.blocks.view().remove(rhead));
    } else {
        let rpb = l0.blocks.view()[rprev];
        let cleared = rpb.spec_with_sideband(
            BlockSideband {
                successor: Hash256 { w0: 0, w1: 0, w2: 0, w3: 0 },
                ..rpb.spec_sideband()
            },
        );
        assert(l2.blocks.view() == l0.blocks.view().remove(rhead).insert(rprev, cleared));
        assert(cleared.spec_balance_calculated() == rpb.spec_balance_calculated());
    }
    assert(l2.blocks.view().dom().contains(target));
    assert(l2.blocks.view()[target] == b);
    assert(l2.blocks.view().dom().contains(previous));
    assert(l2.blocks.view()[previous].spec_balance_calculated() == prevb);
    // the sender's record is untouched
    assert(account != dest);
    assert(l2.accounts.view().dom().contains(account));
    assert(l2.accounts.view()[account] == info);
    assert(l2.confirmation_height == l0.confirmation_height);
    // the receive's rollback recreated the pending entry of this send
    assert(rcur > rprevb);
    let key = PendingKey { account: dest, send_block_hash: target };
    assert(l2.pending.view().dom().contains(key));
    assert(l2.pending.view()[key].amount.raw == rcur - rprevb);
    assert(l2.pending.view()[key].amount.raw == prevb.raw - cur);
    // every readiness conjunct holds again, now with the entry present
    assert(spec_head_rollback_ready(l2, target));
    assert(spec_head_rollback_complete(l2, target));
}

/// The account record a non-open rollback restores, parameterised by the
/// representative the back-walk found.
pub open spec fn spec_restored_account(
    previous: BlockHash,
    rep: PublicKey,
    open_block: BlockHash,
    balance: Amount,
    modified: u64,
    block_count: u64,
    epoch: crate::epoch::Epoch,
) -> AccountInfo {
    AccountInfo {
        head: previous,
        representative: rep,
        open_block,
        balance,
        modified,
        block_count,
        epoch,
    }
}

/// What one head-rollback attempt did: removed the head, or found that a
/// send must first be un-received at its destination.
#[derive(Clone, Copy, Debug)]
enum HeadStep {
    Done(BlockEnum),
    Cascade(Account),
}

impl Ledger {
    /// Whether any pending entry references `hash` as its send.
    fn pending_references(&self, hash: &BlockHash) -> (r: bool)
        requires
            self.wf(),
        ensures
            r == exists|i: int|
                0 <= i < self.pending.entries@.len() && (#[trigger] self.pending.entries@[i]).0.send_block_hash
                    == *hash,
    {
        let mut i: usize = 0;
        while i < self.pending.len()
            invariant
                self.pending.wf(),
                i <= self.pending.entries@.len(),
                forall|j: int|
                    0 <= j < i ==> (#[trigger] self.pending.entries@[j]).0.send_block_hash
                        != *hash,
            decreases self.pending.entries@.len() - i,
        {
            let h = self.pending.entries[i].0.send_block_hash;
            if h.w0 == hash.w0 && h.w1 == hash.w1 && h.w2 == hash.w2 && h.w3 == hash.w3 {
                return true;
            }
            i = i + 1;
        }
        false
    }

    /// The representative in force at block `start`, found by walking back
    /// to the nearest representative-carrying block; `None` when the walk
    /// runs out of stored blocks or steps.
    fn representative_of(&self, start: &BlockHash, max_steps: u64) -> (r: Option<PublicKey>)
        requires
            self.wf(),
        ensures
            r == spec_representative_walk(self.blocks.view(), *start, max_steps as nat),
    {
        let mut current: BlockHash = *start;
        let mut steps = max_steps;
        loop
            invariant
                self.wf(),
                spec_representative_walk(self.blocks.view(), *start, max_steps as nat)
                    == spec_representative_walk(self.blocks.view(), current, steps as nat),
            decreases steps,
        {
            if steps == 0 || current.is_zero() {
                return None;
            }
            match self.get_block(&current) {
                None => {
                    return None;
                }
                Some(b) => {
                    match b.representative_opt() {
                        Some(rep) => {
                            return Some(rep);
                        }
                        None => {
                            current = b.previous();
                        }
                    }
                }
            }
            steps = steps - 1;
        }
    }

    /// Rolls back the head block of the account owning `head_hash`, with
    /// every consistency check made before the first write: an error or a
    /// cascade request leaves the state untouched.
    #[verifier::rlimit(100)]
    fn roll_back_head(&mut self, head_hash: BlockHash, now: u64) -> (r: Result<
        HeadStep,
        RollbackError,
    >)
        requires
            old(self).wf(),
            old(self).blocks.view().dom().contains(head_hash),
        ensures
            final(self).wf(),
            final(self).supply == old(self).supply,
            final(self).confirmation_height == old(self).confirmation_height,
            final(self).epochs == old(self).epochs,
            final(self).work == old(self).work,
            r matches Ok(HeadStep::Done(b)) ==> !final(self).blocks.view().dom().contains(
                head_hash,
            ) && final(self).block_count == old(self).block_count - 1 && b == old(self).blocks.view()[head_hash],
            r matches Ok(HeadStep::Done(_)) ==> ({
                let b = old(self).blocks.view()[head_hash];
                let account = b.spec_account_calculated();
                let info = old(self).accounts.view()[account];
                let previous = b.spec_previous();
                let is_open = previous.spec_is_zero();
                let prev_balance = if is_open {
                    Amount { raw: 0 }
                } else {
                    old(self).blocks.view()[previous].spec_balance_calculated()
                };
                let cur = info.balance.raw;
                (is_open ==> final(self).blocks.view() == old(self).blocks.view().remove(head_hash) && final(self).accounts.view() == old(self).accounts.view().remove(account))
            }),
            r matches Ok(HeadStep::Done(_)) ==> ({
                let b = old(self).blocks.view()[head_hash];
                let account = b.spec_account_calculated();
                let info = old(self).accounts.view()[account];
                let previous = b.spec_previous();
                let is_open = previous.spec_is_zero();
                let prev_balance = if is_open {
                    Amount { raw: 0 }
                } else {
                    old(self).blocks.view()[previous].spec_balance_calculated()
                };
                let cur = info.balance.raw;
                (!is_open ==> final(self).blocks.view() == old(self).blocks.view().remove(head_hash).insert(previous, old(self).blocks.view()[previous].spec_with_sideband(
                    BlockSideband {
                        successor: Hash256 { w0: 0, w1: 0, w2: 0, w3: 0 },
                        ..old(self).blocks.view()[previous].spec_sideband()
                    },
                )))
            }),
            r matches Ok(HeadStep::Done(_)) ==> ({
                let b = old(self).blocks.view()[head_hash];
                let account = b.spec_account_calculated();
                let info = old(self).accounts.view()[account];
                let previous = b.spec_previous();
                let prev_balance = old(self).blocks.view()[previous].spec_balance_calculated();
                !previous.spec_is_zero() ==> exists|rep: PublicKey|
                    final(self).accounts.view() == old(self).accounts.view().insert(
                        account,
                        #[trigger] spec_restored_account(
                            previous,
                            rep,
                            info.open_block,
                            prev_balance,
                            now,
                            (info.block_count - 1) as u64,
                            old(self).blocks.view()[previous].spec_sideband().details.epoch,
                        ),
                    )
            }),
            r matches Ok(HeadStep::Done(_)) ==> ({
                let b = old(self).blocks.view()[head_hash];
                let account = b.spec_account_calculated();
                let info = old(self).accounts.view()[account];
                let previous = b.spec_previous();
                !previous.spec_is_zero() ==> final(self).accounts.view()[account].representative
                    == (match spec_representative_walk(
                    old(self).blocks.view(),
                    previous,
                    info.block_count as nat,
                ) {
                    Some(rep) => rep,
                    None => info.representative,
                })
            }),
            r matches Ok(HeadStep::Done(_)) ==> ({
                let b = old(self).blocks.view()[head_hash];
                let account = b.spec_account_calculated();
                let info = old(self).accounts.view()[account];
                let previous = b.spec_previous();
                let is_open = previous.spec_is_zero();
                let prev_balance = if is_open {
                    Amount { raw: 0 }
                } else {
                    old(self).blocks.view()[previous].spec_balance_calculated()
                };
                let cur = info.balance.raw;
                &&& (cur < prev_balance.raw ==> final(self).pending.view() == old(self).pending.view().remove(
                    PendingKey {
                        account: b.spec_destination_or_link(),
                        send_block_hash: head_hash,
                    },
                ))
                &&& (cur > prev_balance.raw ==> ({
                    let source = b.spec_source_or_link();
                    let linked = if old(self).blocks.view().dom().contains(source) {
                        old(self).blocks.view()[source].spec_account_calculated()
                    } else {
                        Hash256 { w0: 0, w1: 0, w2: 0, w3: 0 }
                    };
                    final(self).pending.view() == old(self).pending.view().insert(
                        PendingKey { account, send_block_hash: source },
                        PendingInfo {
                            source: linked,
                            amount: Amount { raw: (cur - prev_balance.raw) as u128 },
                            epoch: b.spec_sideband().source_epoch,
                        },
                    )
                }))
                &&& (cur == prev_balance.raw ==> final(self).pending.view() == old(self).pending.view())
            }),
            r matches Ok(HeadStep::Done(_)) ==> ({
                let b = old(self).blocks.view()[head_hash];
                let account = b.spec_account_calculated();
                let info = old(self).accounts.view()[account];
                let previous = b.spec_previous();
                let is_open = previous.spec_is_zero();
                let prev_balance = if is_open {
                    Amount { raw: 0 }
                } else {
                    old(self).blocks.view()[previous].spec_balance_calculated()
                };
                let cur = info.balance.raw;
                &&& (!b.spec_is_legacy() ==> final(self).frontiers.view() == old(self).frontiers.view())
                &&& (b.spec_is_legacy() && is_open ==> final(self).frontiers.view() == old(self).frontiers.view().remove(head_hash))
                &&& (b.spec_is_legacy() && !is_open ==> final(self).frontiers.view() == old(self).frontiers.view().remove(head_hash).insert(previous, account))
            }),
            r matches Ok(HeadStep::Done(_)) ==> ({
                let b = old(self).blocks.view()[head_hash];
                let account = b.spec_account_calculated();
                let info = old(self).accounts.view()[account];
                let previous = b.spec_previous();
                let prev_balance = if previous.spec_is_zero() {
                    0u128
                } else {
                    old(self).blocks.view()[previous].spec_balance_calculated().raw
                };
                let subtracted = crate::ledger::spec_weight_add(
                    old(self).rep_weights.view(),
                    info.representative,
                    vstd::wrapping::u128_specs::wrapping_sub(0u128, info.balance.raw),
                );
                &&& (previous.spec_is_zero() ==> final(self).rep_weights.view() == subtracted)
                &&& (!previous.spec_is_zero() ==> final(self).rep_weights.view()
                    == crate::ledger::spec_weight_add(
                    subtracted,
                    final(self).accounts.view()[account].representative,
                    prev_balance,
                ))
            }),
            r matches Ok(HeadStep::Cascade(_)) ==> *final(self) == *old(self),
            r is Err ==> *final(self) == *old(self),
            spec_head_rollback_ready(*old(self), head_hash) ==> r is Ok,
            spec_head_rollback_complete(*old(self), head_hash) ==> r matches Ok(HeadStep::Done(_)),
            r matches Ok(HeadStep::Done(_)) ==> spec_head_effect(
                *old(self),
                *final(self),
                head_hash,
                now,
            ),
            ({
                let b = old(self).blocks.view()[head_hash];
                let info = old(self).accounts.view()[b.spec_account_calculated()];
                let previous = b.spec_previous();
                let prev_balance = if previous.spec_is_zero() {
                    0u128
                } else {
                    old(self).blocks.view()[previous].spec_balance_calculated().raw
                };
                spec_head_rollback_ready(*old(self), head_hash) && info.balance.raw < prev_balance
                    && !old(self).pending.view().dom().contains(
                    PendingKey {
                        account: b.spec_destination_or_link(),
                        send_block_hash: head_hash,
                    },
                ) ==> r == Ok::<HeadStep, RollbackError>(
                    HeadStep::Cascade(b.spec_destination_or_link()),
                )
            }),
    {
        let block = match self.get_block(&head_hash) {
            Some(b) => b,
            None => {
                return Err(RollbackError::IntegrityViolation);
            }
        };
        let sb = block.sideband_field();
        let account = block.account();
        let info = match self.account_info(&account) {
            Some(i) => i,
            None => {
                return Err(RollbackError::IntegrityViolation);
            }
        };
        if !info.head.key_eq_roll(&head_hash) {
            return Err(RollbackError::IntegrityViolation);
        }
        let conf = self.confirmation_height_info(&account);
        if sb.height <= conf.height {
            return Err(RollbackError::AlreadyConfirmed);
        }
        if info.block_count == 0 {
            return Err(RollbackError::IntegrityViolation);
        }
        let previous = block.previous();
        if previous.key_eq_roll(&head_hash) {
            return Err(RollbackError::IntegrityViolation);
        }
        let is_open = previous.is_zero();
        if is_open && info.block_count != 1 {
            return Err(RollbackError::IntegrityViolation);
        }
        let (prev_block, previous_balance) = if is_open {
            (None, Amount::zero())
        } else {
            match self.get_block(&previous) {
                Some(pb) => {
                    let b = pb.balance_calculated();
                    (Some(pb), b)
                }
                None => {
                    return Err(RollbackError::IntegrityViolation);
                }
            }
        };
        let cur_balance = info.balance;

        // classify the head by its balance delta
        let is_send = cur_balance.lt(&previous_balance);
        let is_receive_like = previous_balance.lt(&cur_balance);

        // checks per kind, still before any write
        let mut delete_key: Option<PendingKey> = None;
        let mut recreate: Option<(PendingKey, PendingInfo)> = None;
        if is_send {
            let dest = block.destination_or_link();
            let pkey = PendingKey::new(dest, head_hash);
            match self.pending_info(&pkey) {
                None => {
                    return Ok(HeadStep::Cascade(dest));
                }
                Some(pi) => {
                    if pi.amount.raw != previous_balance.raw - cur_balance.raw {
                        return Err(RollbackError::IntegrityViolation);
                    }
                    delete_key = Some(pkey);
                }
            }
        } else {
            if self.pending_references(&head_hash) {
                return Err(RollbackError::IntegrityViolation);
            }
            if is_receive_like {
                let source = block.source_or_link();
                if source.key_eq_roll(&head_hash) {
                    return Err(RollbackError::IntegrityViolation);
                }
                let pkey = PendingKey::new(account, source);
                if self.pending.contains_key(&pkey) {
                    return Err(RollbackError::IntegrityViolation);
                }
                let linked_account: Account;
                match self.get_block(&source) {
                    Some(src) => {
                        if !src.destination_or_link().key_eq_roll(&account) {
                            return Err(RollbackError::IntegrityViolation);
                        }
                        linked_account = src.account();
                    }
                    None => {
                        if !self.pruned.contains_key(&source) {
                            return Err(RollbackError::IntegrityViolation);
                        }
                        linked_account = Hash256::zero();
                    }
                }
                let amount = Amount::raw(cur_balance.raw - previous_balance.raw);
                recreate = Some((pkey, PendingInfo::new(linked_account, amount, sb.source_epoch)));
            }
        }

        // the account record that replaces the current one
        let prev_rep: PublicKey = if is_open {
            Hash256::zero()
        } else {
            match self.representative_of(&previous, info.block_count) {
                Some(rep) => rep,
                None => info.representative,
            }
        };

        // all checks passed: mutate
        let ghost pending0 = self.pending;
        match &delete_key {
            Some(k) => {
                proof {
                    assert(self.pending.view().dom().contains(*k));
                }
                self.pending.delete(k);
                proof {
                    let i = choose|i: int|
                        0 <= i < pending0.entries@.len() && pending0.entries@[i].0 == *k
                            && self.pending.entries@ == pending0.entries@.remove(i);
                    lemma_assoc_contains(pending0.entries@, i);
                    lemma_sum_remove(pending0.entries@, i, spec_amount_weight());
                }
            }
            None => {}
        }
        match &recreate {
            Some((k, pi)) => {
                proof {
                    assert(!pending0.view().dom().contains(*k));
                    assert forall|j: int|
                        0 <= j < pending0.entries@.len() implies pending0.entries@[j].0
                        != *k by {
                        if pending0.entries@[j].0 == *k {
                            lemma_assoc_contains(pending0.entries@, j);
                        }
                    }
                    lemma_sum_push(pending0.entries@, *k, *pi, spec_amount_weight());
                }
                self.pending.insert(*k, *pi);
            }
            None => {}
        }

        let ghost accounts0 = self.accounts;
        if is_open {
            self.accounts.delete(&account);
            proof {
                let i = choose|i: int|
                    0 <= i < accounts0.entries@.len() && accounts0.entries@[i].0 == account
                        && self.accounts.entries@ == accounts0.entries@.remove(i);
                lemma_assoc_contains(accounts0.entries@, i);
                lemma_sum_remove(accounts0.entries@, i, spec_count_weight());
                lemma_sum_remove(accounts0.entries@, i, spec_balance_weight());
            }
        } else {
            let epoch = match &prev_block {
                Some(pb) => pb.sideband_field().details.epoch,
                None => crate::epoch::Epoch::Epoch0,
            };
            let new_info = AccountInfo {
                head: previous,
                representative: prev_rep,
                open_block: info.open_block,
                balance: previous_balance,
                modified: now,
                block_count: info.block_count - 1,
                epoch,
            };
            self.accounts.insert(account, new_info);
            proof {
                let i = choose|i: int|
                    0 <= i < accounts0.entries@.len() && accounts0.entries@[i].0 == account
                        && self.accounts.entries@ == accounts0.entries@.update(
                        i,
                        (account, new_info),
                    );
                lemma_assoc_contains(accounts0.entries@, i);
                lemma_sum_update(accounts0.entries@, i, account, new_info, spec_count_weight());
                lemma_sum_update(accounts0.entries@, i, account, new_info, spec_balance_weight());
            }
        }

        let ghost blocks0 = self.blocks;
        self.blocks.delete(&head_hash);
        if block.is_legacy() {
            self.frontiers.delete(&head_hash);
            if !is_open {
                self.frontiers.insert(previous, account);
            }
        }
        match &prev_block {
            Some(pb) => {
                let mut cleared = *pb;
                cleared.set_sideband(
                    BlockSideband { successor: Hash256::zero(), ..pb.sideband_field() },
                );
                self.blocks.insert(previous, cleared);
            }
            None => {}
        }

        self.representation_add(info.representative, Amount::zero().wrapping_sub(cur_balance));
        if !is_open {
            self.representation_add(prev_rep, previous_balance);
        }

        proof {
            lemma_assoc_member_index(blocks0.entries@, head_hash);
            assert(blocks0.entries@.len() >= 1);
        }
        self.block_count = self.block_count - 1;

        proof {
            // the remaining pending entries are still backed
            assert forall|i: int| 0 <= i < self.pending.entries@.len() implies {
                let k = (#[trigger] self.pending.entries@[i]).0;
                ||| (self.blocks.view().dom().contains(k.send_block_hash)
                    && self.blocks.view()[k.send_block_hash].spec_destination_or_link() == k.account)
                ||| self.pruned.view().dom().contains(k.send_block_hash)
            } by {
                let k = self.pending.entries@[i].0;
                let entry = self.pending.entries@[i];
                if recreate is Some && i == self.pending.entries@.len() - 1 {
                    assert(entry == (recreate->Some_0.0, recreate->Some_0.1));
                } else {
                    // carried over from before the rollback
                    let j = if delete_key is Some {
                        let di = choose|di: int|
                            0 <= di < pending0.entries@.len() && pending0.entries@[di].0
                                == delete_key->Some_0 && self.pending.entries@
                                == pending0.entries@.remove(di);
                        if i < di {
                            i
                        } else {
                            i + 1
                        }
                    } else {
                        i
                    };
                    assert(0 <= j < old(self).pending.entries@.len());
                    assert(old(self).pending.entries@[j] == entry);
                    assert(old(self).spec_pending_backed());
                    if old(self).blocks.view().dom().contains(k.send_block_hash) {
                        if k.send_block_hash == head_hash {
                            if old(self).pruned.view().dom().contains(k.send_block_hash) {
                                // still backed by the pruned table
                            } else {
                                // a send's own pending entry was deleted; for
                                // any other kind no reference survived the scan
                                assert(old(self).blocks.view()[head_hash].spec_destination_or_link()
                                    == k.account);
                                if is_send {
                                    assert(k == delete_key->Some_0);
                                    assert(false);
                                } else {
                                    assert(false);
                                }
                            }
                        } else {
                            assert(self.blocks.view().dom().contains(k.send_block_hash));
                            if !is_open && k.send_block_hash == previous {
                                let pb = old(self).blocks.view()[previous];
                                assert(self.blocks.view()[previous].spec_destination_or_link()
                                    == pb.spec_destination_or_link());
                            } else {
                                assert(self.blocks.view()[k.send_block_hash] == old(self).blocks.view()[k.send_block_hash]);
                            }
                        }
                    }
                }
            }
        }

        proof {
            let b = old(self).blocks.view()[head_hash];
            let acct = b.spec_account_calculated();
            let infov = old(self).accounts.view()[acct];
            assert(acct == account);
            assert(infov == info);
            if previous.spec_is_zero() {
                assert(self.blocks.view() =~= old(self).blocks.view().remove(head_hash));
                assert(self.accounts.view() =~= old(self).accounts.view().remove(account));
            } else {
                let pb = old(self).blocks.view()[previous];
                let cleared = pb.spec_with_sideband(
                    BlockSideband {
                        successor: Hash256 { w0: 0, w1: 0, w2: 0, w3: 0 },
                        ..pb.spec_sideband()
                    },
                );
                assert(self.blocks.view() =~= old(self).blocks.view().remove(head_hash).insert(
                    previous,
                    cleared,
                ));
                assert(self.accounts.view() =~= old(self).accounts.view().insert(
                    account,
                    spec_restored_account(
                        previous,
                        prev_rep,
                        info.open_block,
                        previous_balance,
                        now,
                        (info.block_count - 1) as u64,
                        pb.spec_sideband().details.epoch,
                    ),
                ));
            }
            let prevb = if previous.spec_is_zero() {
                Amount { raw: 0 }
            } else {
                old(self).blocks.view()[previous].spec_balance_calculated()
            };
            let cur = infov.balance.raw;
            assert(prevb == previous_balance);
            assert(cur == cur_balance.raw);
            if cur < prevb.raw {
                assert(self.pending.view() =~= old(self).pending.view().remove(
                    PendingKey { account: b.spec_destination_or_link(), send_block_hash: head_hash },
                ));
            } else if cur > prevb.raw {
                let source = b.spec_source_or_link();
                let linked = if old(self).blocks.view().dom().contains(source) {
                    old(self).blocks.view()[source].spec_account_calculated()
                } else {
                    Hash256 { w0: 0, w1: 0, w2: 0, w3: 0 }
                };
                assert(self.pending.view() =~= old(self).pending.view().insert(
                    PendingKey { account, send_block_hash: source },
                    PendingInfo {
                        source: linked,
                        amount: Amount { raw: (cur - prevb.raw) as u128 },
                        epoch: b.spec_sideband().source_epoch,
                    },
                ));
            } else {
                assert(self.pending.view() =~= old(self).pending.view());
            }
            if !previous.spec_is_zero() {
                let pb2 = old(self).blocks.view()[b.spec_previous()];
                assert(self.accounts.view() == old(self).accounts.view().insert(
                    acct,
                    spec_restored_account(
                        b.spec_previous(),
                        prev_rep,
                        infov.open_block,
                        prevb,
                        now,
                        (infov.block_count - 1) as u64,
                        pb2.spec_sideband().details.epoch,
                    ),
                ));
                assert(exists|rep: PublicKey|
                    self.accounts.view() == old(self).accounts.view().insert(
                        acct,
                        #[trigger] spec_restored_account(
                            b.spec_previous(),
                            rep,
                            infov.open_block,
                            prevb,
                            now,
                            (infov.block_count - 1) as u64,
                            pb2.spec_sideband().details.epoch,
                        ),
                    ));
            }
            let eb = old(self).blocks.view()[head_hash];
            let eacct = eb.spec_account_calculated();
            let einfo = old(self).accounts.view()[eacct];
            let eprev = eb.spec_previous();
            let eprevb = if eprev.spec_is_zero() {
                Amount { raw: 0 }
            } else {
                old(self).blocks.view()[eprev].spec_balance_calculated()
            };
            let ecur = einfo.balance.raw;
            assert(eprev.spec_is_zero() ==> self.blocks.view() == old(self).blocks.view().remove(
                head_hash,
            ) && self.accounts.view() == old(self).accounts.view().remove(eacct));
            let epb = old(self).blocks.view()[eprev];
            let ecleared = epb.spec_with_sideband(
                BlockSideband {
                    successor: Hash256 { w0: 0, w1: 0, w2: 0, w3: 0 },
                    ..epb.spec_sideband()
                },
            );
            assert(!eprev.spec_is_zero() ==> self.blocks.view() == old(self).blocks.view().remove(
                head_hash,
            ).insert(eprev, ecleared));
            assert(!eprev.spec_is_zero() ==> exists|rep: PublicKey|
                self.accounts.view() == old(self).accounts.view().insert(
                    eacct,
                    #[trigger] spec_restored_account(
                        eprev,
                        rep,
                        einfo.open_block,
                        eprevb,
                        now,
                        (einfo.block_count - 1) as u64,
                        epb.spec_sideband().details.epoch,
                    ),
                ));
            assert(!eprev.spec_is_zero() ==> self.accounts.view().dom().contains(eacct)
                && self.accounts.view()[eacct].head == eprev && self.accounts.view()[eacct].balance
                == eprevb);
            assert(!eprev.spec_is_zero() ==> self.accounts.view() =~= old(
                self,
            ).accounts.view().insert(eacct, self.accounts.view()[eacct]));
            assert(ecur < eprevb.raw ==> self.pending.view() == old(self).pending.view().remove(
                PendingKey {
                    account: eb.spec_destination_or_link(),
                    send_block_hash: head_hash,
                },
            ));
            assert(ecur > eprevb.raw ==> self.pending.view() == old(self).pending.view().insert(
                PendingKey { account: eacct, send_block_hash: eb.spec_source_or_link() },
                PendingInfo {
                    source: if old(self).blocks.view().dom().contains(eb.spec_source_or_link()) {
                        old(self).blocks.view()[eb.spec_source_or_link()].spec_account_calculated()
                    } else {
                        Hash256 { w0: 0, w1: 0, w2: 0, w3: 0 }
                    },
                    amount: Amount { raw: (ecur - eprevb.raw) as u128 },
                    epoch: eb.spec_sideband().source_epoch,
                },
            ));
            assert(ecur == eprevb.raw ==> self.pending.view() == old(self).pending.view());
            assert(spec_head_effect(*old(self), *self, head_hash, now));
            if !b.spec_is_legacy() {
                assert(self.frontiers.view() =~= old(self).frontiers.view());
            } else if previous.spec_is_zero() {
                assert(self.frontiers.view() =~= old(self).frontiers.view().remove(head_hash));
            } else {
                assert(self.frontiers.view() =~= old(self).frontiers.view().remove(
                    head_hash,
                ).insert(previous, account));
            }
        }
        Ok(HeadStep::Done(block))
    }

    /// Rolls back blocks until `target` is gone: repeatedly removes the
    /// head of `target`'s account, cascading into receiving accounts, and
    /// returns every block removed, cascade blocks before the send that
    /// caused them. `fuel` bounds the recursion; running out reports the
    /// store inconsistent.
    #[verifier::rlimit(100)]
    fn rollback_rec(&mut self, target: BlockHash, now: u64, fuel: u64) -> (r: Result<
        Vec<BlockEnum>,
        RollbackError,
    >)
        requires
            old(self).wf(),
        ensures
            final(self).wf(),
            final(self).supply == old(self).supply,
            final(self).confirmation_height == old(self).confirmation_height,
            final(self).epochs == old(self).epochs,
            final(self).work == old(self).work,
            r matches Ok(rolled) ==> !final(self).blocks.view().dom().contains(target) && final(self).block_count == old(self).block_count - rolled@.len(),
            fuel >= 2 && spec_head_rollback_complete(*old(self), target) ==> (r matches Ok(
                rolled,
            ) && rolled@.len() == 1 && rolled@[0] == old(self).blocks.view()[target]
                && spec_head_effect(*old(self), *final(self), target, now)),
            fuel >= 3 && spec_send_cascade_ready(*old(self), target) ==> ({
                let b = old(self).blocks.view()[target];
                let account = b.spec_account_calculated();
                let previous = b.spec_previous();
                let dest = b.spec_destination_or_link();
                let rhead = old(self).accounts.view()[dest].head;
                &&& (r matches Ok(rolled) && rolled@.len() == 2 && rolled@[0] == old(self).blocks.view()[rhead]
                    && rolled@[1] == b)
                &&& !final(self).blocks.view().dom().contains(target)
                &&& !final(self).blocks.view().dom().contains(rhead)
                &&& !final(self).pending.view().dom().contains(
                    PendingKey { account: dest, send_block_hash: target },
                )
                &&& final(self).accounts.view().dom().contains(account)
                &&& final(self).accounts.view()[account].head == previous
                &&& final(self).accounts.view()[account].balance == old(self).blocks.view()[previous].spec_balance_calculated()
            }),
            !old(self).blocks.view().dom().contains(target) ==> (r matches Ok(rolled)
                && rolled@.len() == 0 && *final(self) == *old(self)),
            ({
                let b = old(self).blocks.view()[target];
                let account = b.spec_account_calculated();
                let conf = if old(self).confirmation_height.view().dom().contains(account) {
                    old(self).confirmation_height.view()[account].height
                } else {
                    0
                };
                old(self).blocks.view().dom().contains(target) && fuel > 0
                    && old(self).accounts.view().dom().contains(account)
                    && b.spec_sideband().height <= conf ==> r == Err::<Vec<BlockEnum>, RollbackError>(
                    RollbackError::AlreadyConfirmed,
                ) && *final(self) == *old(self)
            }),
        decreases fuel,
    {
        if !self.blocks.contains_key(&target) {
            return Ok(Vec::new());
        }
        if fuel == 0 {
            return Err(RollbackError::IntegrityViolation);
        }
        let block = match self.get_block(&target) {
            Some(b) => b,
            None => {
                return Err(RollbackError::IntegrityViolation);
            }
        };
        let account = block.account();
        let info = match self.account_info(&account) {
            Some(i) => i,
            None => {
                return Err(RollbackError::IntegrityViolation);
            }
        };
        let sb = block.sideband_field();
        let conf = self.confirmation_height_info(&account);
        if sb.height <= conf.height {
            return Err(RollbackError::AlreadyConfirmed);
        }
        let head = info.head;
        if !self.blocks.contains_key(&head) {
            return Err(RollbackError::IntegrityViolation);
        }
        match self.roll_back_head(head, now) {
            Err(e) => Err(e),
            Ok(HeadStep::Done(rolled_head)) => {
                proof {
                    if fuel >= 3 && spec_send_cascade_ready(*old(self), target) {
                        // a ready, already-received send head is owed a cascade
                        assert(head == target);
                        assert(false);
                    }
                }
                let ghost mid = *self;
                let rest = self.rollback_rec(target, now, fuel - 1)?;
                let mut rolled: Vec<BlockEnum> = Vec::new();
                rolled.push(rolled_head);
                let mut i: usize = 0;
                while i < rest.len()
                    invariant
                        i <= rest@.len(),
                        rolled@ =~= seq![rolled_head] + rest@.subrange(0, i as int),
                    decreases rest@.len() - i,
                {
                    rolled.push(rest[i]);
                    i = i + 1;
                    proof {
                        assert(rolled@ =~= seq![rolled_head] + rest@.subrange(0, i as int));
                    }
                }
                proof {
                    assert(rest@.subrange(0, rest@.len() as int) =~= rest@);
                    if fuel >= 2 && spec_head_rollback_complete(*old(self), target) {
                        assert(head == target);
                        assert(spec_head_effect(*old(self), mid, target, now));
                        assert(!mid.blocks.view().dom().contains(target));
                        assert(rest@.len() == 0);
                        assert(*self == mid);
                        assert(rolled@ =~= seq![rolled_head]);
                    }
                }
                Ok(rolled)
            }
            Ok(HeadStep::Cascade(dest)) => {
                proof {
                    if fuel >= 2 && spec_head_rollback_complete(*old(self), target) {
                        assert(head == target);
                        assert(spec_head_rollback_complete(*old(self), head));
                        assert(false);
                    }
                }
                let dest_head = match self.account_info(&dest) {
                    Some(i) => i.head,
                    None => {
                        proof {
                            if fuel >= 3 && spec_send_cascade_ready(*old(self), target) {
                                assert(head == target);
                                assert(dest == old(self).blocks.view()[target].spec_destination_or_link());
                                assert(old(self).accounts.view().dom().contains(dest));
                                assert(false);
                            }
                        }
                        return Err(RollbackError::IntegrityViolation);
                    }
                };
                proof {
                    if fuel >= 3 && spec_send_cascade_ready(*old(self), target) {
                        assert(head == target);
                        assert(dest == old(self).blocks.view()[target].spec_destination_or_link());
                        assert(dest_head == old(self).accounts.view()[dest].head);
                        assert(spec_head_rollback_complete(*old(self), dest_head));
                    }
                }
                let mut rolled = self.rollback_rec(dest_head, now, fuel - 1)?;
                let ghost s2 = *self;
                proof {
                    if fuel >= 3 && spec_send_cascade_ready(*old(self), target) {
                        lemma_cascade_step_ready(*old(self), s2, target, dest_head, now);
                    }
                }
                let rest = self.rollback_rec(target, now, fuel - 1)?;
                let mut i: usize = 0;
                let ghost rolled0 = rolled@;
                while i < rest.len()
                    invariant
                        i <= rest@.len(),
                        rolled@ =~= rolled0 + rest@.subrange(0, i as int),
                    decreases rest@.len() - i,
                {
                    rolled.push(rest[i]);
                    i = i + 1;
                    proof {
                        assert(rolled@ =~= rolled0 + rest@.subrange(0, i as int));
                    }
                }
                proof {
                    assert(rest@.subrange(0, rest@.len() as int) =~= rest@);
                    if fuel >= 3 && spec_send_cascade_ready(*old(self), target) {
                        let b = old(self).blocks.view()[target];
                        assert(rolled0 =~= seq![old(self).blocks.view()[dest_head]]);
                        assert(spec_head_rollback_complete(s2, target));
                        assert(s2.blocks.view()[target] == b);
                        assert(rest@ =~= seq![b]);
                        assert(rolled@ =~= rolled0 + rest@);
                        assert(spec_head_effect(s2, *self, target, now));
                        assert(!self.blocks.view().dom().contains(target));
                        assert(!self.blocks.view().dom().contains(dest_head));
                        assert(!self.pending.view().dom().contains(
                            PendingKey { account: dest, send_block_hash: target },
                        ));
                    }
                }
                Ok(rolled)
            }
        }
    }

    /// Removes `target` and everything above it, cascading into accounts
    /// that received rolled-back sends. Only unconfirmed blocks can go: a
    /// confirmed target is refused with the state untouched.
    pub fn rollback(&mut self, target: &BlockHash, now: u64) -> (r: Result<
        Vec<BlockEnum>,
        RollbackError,
    >)
        requires
            old(self).wf(),
        ensures
            final(self).wf(),
            final(self).supply == old(self).supply,
            final(self).confirmation_height == old(self).confirmation_height,
            !old(self).blocks.view().dom().contains(*target) ==> r == Err::<
                Vec<BlockEnum>,
                RollbackError,
            >(RollbackError::BlockNotFound) && *final(self) == *old(self),
            r matches Ok(rolled) ==> !final(self).blocks.view().dom().contains(*target) && final(self).block_count == old(self).block_count - rolled@.len(),
            spec_head_rollback_complete(*old(self), *target) ==> r is Ok,
            spec_send_cascade_ready(*old(self), *target) ==> ({
                let b = old(self).blocks.view()[*target];
                let account = b.spec_account_calculated();
                let previous = b.spec_previous();
                let dest = b.spec_destination_or_link();
                let rhead = old(self).accounts.view()[dest].head;
                &&& (r matches Ok(rolled) && rolled@.len() == 2 && rolled@[0] == old(self).blocks.view()[rhead]
                    && rolled@[1] == b)
                &&& !final(self).blocks.view().dom().contains(*target)
                &&& !final(self).blocks.view().dom().contains(rhead)
                &&& !final(self).pending.view().dom().contains(
                    PendingKey { account: dest, send_block_hash: *target },
                )
                &&& final(self).accounts.view().dom().contains(account)
                &&& final(self).accounts.view()[account].head == previous
                &&& final(self).accounts.view()[account].balance == old(self).blocks.view()[previous].spec_balance_calculated()
            }),
            ({
                let b = old(self).blocks.view()[*target];
                let account = b.spec_account_calculated();
                let conf = if old(self).confirmation_height.view().dom().contains(account) {
                    old(self).confirmation_height.view()[account].height
                } else {
                    0
                };
                old(self).blocks.view().dom().contains(*target) && old(
                    self,
                ).accounts.view().dom().contains(account) && b.spec_sideband().height <= conf
                    ==> r == Err::<Vec<BlockEnum>, RollbackError>(RollbackError::AlreadyConfirmed)
                    && *final(self) == *old(self)
            }),
    {
        if !self.blocks.contains_key(target) {
            return Err(RollbackError::BlockNotFound);
        }
        self.rollback_rec(*target, now, u64::MAX)
    }
}

impl Hash256 {
    /// Field equality used by the rollback checks.
    fn key_eq_roll(&self, other: &Hash256) -> (r: bool)
        ensures
            r == (*self == *other),
    {
        self.w0 == other.w0 && self.w1 == other.w1 && self.w2 == other.w2 && self.w3 == other.w3
    }
}

} // verus!
