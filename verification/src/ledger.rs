//! The ledger: the seven persisted tables, the factory that gathers a
//! validator snapshot, and the mutator that applies a validated block
//! atomically. Its well-formedness carries the conservation invariant: the
//! sum of account balances and pending amounts equals the supply.

use vstd::prelude::*;
use crate::amount::Amount;
use crate::blocks::{BlockEnum, BlockSideband};
use crate::epoch::Epochs;
use crate::hashes::{Account, BlockHash, Hash256, PublicKey};
use crate::kvmap::{
    lemma_assoc_absent, lemma_assoc_contains, lemma_sum_element_bound, lemma_sum_nonneg,
    lemma_sum_push, lemma_sum_remove, lemma_sum_update, spec_sum, KvMap,
};
use crate::ledger_types::{
    AccountInfo, ConfirmationHeightInfo, PendingInfo, PendingKey, ProcessError,
};
use crate::validator::{BlockInsertInstructions, BlockValidator};
use crate::work::WorkThresholds;

verus! {

/// The balance an account entry contributes to the conserved total.
pub open spec fn spec_balance_weight() -> spec_fn(AccountInfo) -> int {
    |a: AccountInfo| a.balance.raw as int
}

/// The block count an account entry contributes.
pub open spec fn spec_count_weight() -> spec_fn(AccountInfo) -> int {
    |a: AccountInfo| a.block_count as int
}

/// The amount a pending entry contributes to the conserved total.
pub open spec fn spec_amount_weight() -> spec_fn(PendingInfo) -> int {
    |p: PendingInfo| p.amount.raw as int
}

/// A representative-weight cache update: adds `delta` to `rep`'s weight,
/// wrapping.
pub open spec fn spec_weight_add(m: Map<Hash256, Amount>, rep: Hash256, delta: u128) -> Map<
    Hash256,
    Amount,
> {
    let current = if m.dom().contains(rep) {
        m[rep].raw
    } else {
        0
    };
    m.insert(rep, Amount { raw: vstd::wrapping::u128_specs::wrapping_add(current, delta) })
}

/// The ledger state: the persisted tables, the cached representative
/// weights, the block counter and the protocol constants.
pub struct Ledger {
    pub accounts: KvMap<Hash256, AccountInfo>,
    pub blocks: KvMap<Hash256, BlockEnum>,
    pub pending: KvMap<PendingKey, PendingInfo>,
    pub frontiers: KvMap<Hash256, Account>,
    pub confirmation_height: KvMap<Hash256, ConfirmationHeightInfo>,
    pub pruned: KvMap<Hash256, bool>,
    pub rep_weights: KvMap<Hash256, Amount>,
    pub block_count: u64,
    pub supply: Amount,
    pub epochs: Epochs,
    pub work: WorkThresholds,
}

impl Ledger {
    /// Every pending entry's send hash resolves to a stored block crediting
    /// that entry's account, or to a pruned hash.
    pub open spec fn spec_pending_backed(self) -> bool {
        forall|i: int|
            0 <= i < self.pending.entries@.len() ==> {
                let k = (#[trigger] self.pending.entries@[i]).0;
                ||| (self.blocks.view().dom().contains(k.send_block_hash) && self.blocks.view()[k.send_block_hash].spec_destination_or_link()
                    == k.account)
                ||| self.pruned.view().dom().contains(k.send_block_hash)
            }
    }

    /// Well-formedness: unique keys everywhere, the block counter matches
    /// the stored blocks, account block counts sum to the counter, pending
    /// entries are backed, and value is conserved: balances plus pending
    /// amounts equal the supply.
    pub open spec fn wf(self) -> bool {
        &&& self.accounts.wf()
        &&& self.blocks.wf()
        &&& self.pending.wf()
        &&& self.frontiers.wf()
        &&& self.confirmation_height.wf()
        &&& self.pruned.wf()
        &&& self.rep_weights.wf()
        &&& self.block_count as int == self.blocks.entries@.len()
        &&& spec_sum(self.accounts.entries@, spec_count_weight()) == self.block_count as int
        &&& spec_sum(self.accounts.entries@, spec_balance_weight()) + spec_sum(
            self.pending.entries@,
            spec_amount_weight(),
        ) == self.supply.raw as int
        &&& self.spec_pending_backed()
    }

    /// An empty ledger: no accounts, no blocks, supply zero.
    pub fn new(epochs: Epochs, work: WorkThresholds) -> (r: Ledger)
        ensures
            r.wf(),
            r.accounts.view() == Map::<Hash256, AccountInfo>::empty(),
            r.blocks.view() == Map::<Hash256, BlockEnum>::empty(),
            r.pending.view() == Map::<PendingKey, PendingInfo>::empty(),
            r.block_count == 0,
            r.supply.raw == 0,
            r.epochs == epochs,
            r.work == work,
    {
        Ledger {
            accounts: KvMap::new(),
            blocks: KvMap::new(),
            pending: KvMap::new(),
            frontiers: KvMap::new(),
            confirmation_height: KvMap::new(),
            pruned: KvMap::new(),
            rep_weights: KvMap::new(),
            block_count: 0,
            supply: Amount::zero(),
            epochs,
            work,
        }
    }

    /// Whether `hash` is stored or pruned.
    pub fn block_or_pruned_exists(&self, hash: &BlockHash) -> (r: bool)
        requires
            self.wf(),
        ensures
            r == (self.blocks.view().dom().contains(*hash) || self.pruned.view().dom().contains(
                *hash,
            )),
    {
        self.blocks.contains_key(hash) || self.pruned.contains_key(hash)
    }

    pub fn get_block(&self, hash: &BlockHash) -> (r: Option<BlockEnum>)
        requires
            self.wf(),
        ensures
            self.blocks.view().dom().contains(*hash) ==> r == Some(self.blocks.view()[*hash]),
            !self.blocks.view().dom().contains(*hash) ==> r is None,
    {
        self.blocks.get(hash)
    }

    pub fn account_info(&self, account: &Account) -> (r: Option<AccountInfo>)
        requires
            self.wf(),
        ensures
            self.accounts.view().dom().contains(*account) ==> r == Some(
                self.accounts.view()[*account],
            ),
            !self.accounts.view().dom().contains(*account) ==> r is None,
    {
        self.accounts.get(account)
    }

    pub fn pending_info(&self, key: &PendingKey) -> (r: Option<PendingInfo>)
        requires
            self.wf(),
        ensures
            self.pending.view().dom().contains(*key) ==> r == Some(self.pending.view()[*key]),
            !self.pending.view().dom().contains(*key) ==> r is None,
    {
        self.pending.get(key)
    }

    pub fn confirmation_height_info(&self, account: &Account) -> (r: ConfirmationHeightInfo)
        requires
            self.wf(),
        ensures
            self.confirmation_height.view().dom().contains(*account) ==> r
                == self.confirmation_height.view()[*account],
            !self.confirmation_height.view().dom().contains(*account) ==> r.height == 0,
    {
        match self.confirmation_height.get(account) {
            Some(info) => info,
            None => ConfirmationHeightInfo::default(),
        }
    }

    /// The cached voting weight of a representative.
    pub fn weight(&self, rep: &Hash256) -> (r: Amount)
        requires
            self.wf(),
        ensures
            self.rep_weights.view().dom().contains(*rep) ==> r == self.rep_weights.view()[*rep],
            !self.rep_weights.view().dom().contains(*rep) ==> r.raw == 0,
    {
        match self.rep_weights.get(rep) {
            Some(w) => w,
            None => Amount::zero(),
        }
    }

    /// Whether any pending entry is addressed to `account`.
    pub fn receivable_any(&self, account: &Account) -> (r: bool)
        requires
            self.wf(),
        ensures
            r == exists|i: int|
                0 <= i < self.pending.entries@.len() && (#[trigger] self.pending.entries@[i]).0.account
                    == *account,
    {
        let mut i: usize = 0;
        while i < self.pending.len()
            invariant
                self.pending.wf(),
                i <= self.pending.entries@.len(),
                forall|j: int|
                    0 <= j < i ==> (#[trigger] self.pending.entries@[j]).0.account != *account,
            decreases self.pending.entries@.len() - i,
        {
            let entry_account = self.pending.entries[i].0.account;
            if entry_account.key_eq_ledger(account) {
                return true;
            }
            i = i + 1;
        }
        false
    }

    /// The snapshot the validator checks `block` against, gathered from the
    /// tables as of now.
    pub open spec fn spec_validator(self, block: BlockEnum, now: u64) -> BlockValidator {
        let hash = block.spec_hash();
        let prev = block.spec_previous();
        let previous_block = if prev.spec_is_zero() {
            None::<BlockEnum>
        } else if self.blocks.view().dom().contains(prev) {
            Some(self.blocks.view()[prev])
        } else {
            None
        };
        let account = match block.spec_account_field() {
            Some(a) => a,
            None => match previous_block {
                Some(p) => match p.spec_account_field() {
                    Some(a) => a,
                    None => p.spec_sideband().account,
                },
                None => Hash256 { w0: 0, w1: 0, w2: 0, w3: 0 },
            },
        };
        let source = block.spec_source_or_link();
        let pkey = PendingKey { account, send_block_hash: source };
        BlockValidator {
            block,
            epochs: self.epochs,
            work: self.work,
            account,
            block_exists: self.blocks.view().dom().contains(hash)
                || self.pruned.view().dom().contains(hash),
            old_account_info: if self.accounts.view().dom().contains(account) {
                Some(self.accounts.view()[account])
            } else {
                None
            },
            pending_receive_info: if source.spec_is_zero() {
                None
            } else if self.pending.view().dom().contains(pkey) {
                Some(self.pending.view()[pkey])
            } else {
                None
            },
            any_pending_exists: exists|i: int|
                0 <= i < self.pending.entries@.len() && (#[trigger] self.pending.entries@[i]).0.account
                    == account,
            source_block_exists: !source.spec_is_zero() && (self.blocks.view().dom().contains(
                source,
            ) || self.pruned.view().dom().contains(source)),
            previous_block,
            seconds_since_epoch: now,
        }
    }

    /// Gathers everything the checks read, under one read snapshot.
    pub fn create_validator(&self, block: &BlockEnum, now: u64) -> (r: BlockValidator)
        requires
            self.wf(),
        ensures
            r == self.spec_validator(*block, now),
    {
        let hash = block.hash();
        let prev = block.previous();
        let previous_block = if prev.is_zero() {
            None
        } else {
            self.get_block(&prev)
        };
        let account = match block.account_field() {
            Some(a) => a,
            None => match &previous_block {
                Some(p) => p.account(),
                None => Hash256::zero(),
            },
        };
        let source = block.source_or_link();
        let pkey = PendingKey::new(account, source);
        let pending_receive_info = if source.is_zero() {
            None
        } else {
            self.pending_info(&pkey)
        };
        BlockValidator {
            block: *block,
            epochs: self.epochs,
            work: self.work,
            account,
            block_exists: self.block_or_pruned_exists(&hash),
            old_account_info: self.account_info(&account),
            pending_receive_info,
            any_pending_exists: self.receivable_any(&account),
            source_block_exists: !source.is_zero() && self.block_or_pruned_exists(&source),
            previous_block,
            seconds_since_epoch: now,
        }
    }

    /// Adds `delta` (wrapping) to the cached weight of `rep`.
    pub(crate) fn representation_add(&mut self, rep: Hash256, delta: Amount)
        requires
            old(self).rep_weights.wf(),
        ensures
            final(self).rep_weights.wf(),
            final(self).rep_weights.view() == spec_weight_add(
                old(self).rep_weights.view(),
                rep,
                delta.raw,
            ),
            final(self).accounts == old(self).accounts,
            final(self).blocks == old(self).blocks,
            final(self).pending == old(self).pending,
            final(self).frontiers == old(self).frontiers,
            final(self).confirmation_height == old(self).confirmation_height,
            final(self).pruned == old(self).pruned,
            final(self).block_count == old(self).block_count,
            final(self).supply == old(self).supply,
            final(self).epochs == old(self).epochs,
            final(self).work == old(self).work,
    {
        let current = match self.rep_weights.get(&rep) {
            Some(w) => w,
            None => Amount::zero(),
        };
        self.rep_weights.insert(rep, current.wrapping_add(delta));
    }
}


/// The blocks table after a block is applied: the new block keyed by its
/// hash, and its predecessor's sideband pointed at it.
pub open spec fn spec_blocks_after(
    m: Map<Hash256, BlockEnum>,
    block: BlockEnum,
    ins: BlockInsertInstructions,
) -> Map<Hash256, BlockEnum> {
    let hash = block.spec_hash();
    let base = m.insert(hash, block.spec_with_sideband(ins.set_sideband));
    let prev = block.spec_previous();
    if prev.spec_is_zero() {
        base
    } else {
        let pb = m[prev];
        base.insert(
            prev,
            pb.spec_with_sideband(BlockSideband { successor: hash, ..pb.spec_sideband() }),
        )
    }
}

/// The pending table after a block is applied.
pub open spec fn spec_pending_after(
    m: Map<PendingKey, PendingInfo>,
    ins: BlockInsertInstructions,
) -> Map<PendingKey, PendingInfo> {
    let m1 = match ins.delete_pending {
        Some(k) => m.remove(k),
        None => m,
    };
    match ins.insert_pending {
        Some(pa) => m1.insert(pa.key, pa.info),
        None => m1,
    }
}

/// The frontier table after a block is applied: the old legacy head entry
/// leaves, and a legacy block installs its own.
pub open spec fn spec_frontiers_after(
    m: Map<Hash256, Account>,
    block: BlockEnum,
    ins: BlockInsertInstructions,
) -> Map<Hash256, Account> {
    let m1 = if ins.old_account_info.block_count > 0 {
        m.remove(ins.old_account_info.head)
    } else {
        m
    };
    if block.spec_is_legacy() {
        m1.insert(block.spec_hash(), ins.account)
    } else {
        m1
    }
}

/// The weight cache after a block is applied: the new balance joins the new
/// representative, the old balance leaves the old one.
pub open spec fn spec_weights_after(
    m: Map<Hash256, Amount>,
    ins: BlockInsertInstructions,
) -> Map<Hash256, Amount> {
    let m1 = spec_weight_add(
        m,
        ins.set_account_info.representative,
        ins.set_account_info.balance.raw,
    );
    if ins.old_account_info.block_count > 0 {
        spec_weight_add(
            m1,
            ins.old_account_info.representative,
            vstd::wrapping::u128_specs::wrapping_sub(0u128, ins.old_account_info.balance.raw),
        )
    } else {
        m1
    }
}

impl Ledger {
    /// Applies validated instructions under one write transaction: block,
    /// successor pointer, account record, pending set, frontier index,
    /// weight cache and counter move together.
    #[verifier::rlimit(100)]
    fn apply_block(&mut self, block: &BlockEnum, Ghost(v): Ghost<BlockValidator>, ins: BlockInsertInstructions, now: u64)
        requires
            old(self).wf(),
            old(self).block_count < u64::MAX,
            v == old(self).spec_validator(*block, now),
            v.spec_first_error() is None,
            v.spec_old_count() < u64::MAX,
            ins == v.spec_instructions(),
        ensures
            final(self).wf(),
            final(self).accounts.view() == old(self).accounts.view().insert(
                ins.account,
                ins.set_account_info,
            ),
            final(self).blocks.view() == spec_blocks_after(old(self).blocks.view(), *block, ins),
            final(self).pending.view() == spec_pending_after(old(self).pending.view(), ins),
            final(self).frontiers.view() == spec_frontiers_after(
                old(self).frontiers.view(),
                *block,
                ins,
            ),
            final(self).rep_weights.view() == spec_weights_after(old(self).rep_weights.view(), ins),
            final(self).confirmation_height == old(self).confirmation_height,
            final(self).pruned == old(self).pruned,
            final(self).block_count == old(self).block_count + 1,
            final(self).supply == old(self).supply,
            final(self).epochs == old(self).epochs,
            final(self).work == old(self).work,
    {
        proof {
            crate::validator::lemma_validate_effects(v);
        }
        let hash = block.hash();
        let prev = block.previous();

        // read the predecessor before touching the table
        let prev_update: Option<BlockEnum> = if prev.is_zero() {
            None
        } else {
            let pb = match self.get_block(&prev) {
                Some(pb) => pb,
                None => {
                    proof {
                        assert(false);
                    }
                    *block
                }
            };
            let sb = pb.sideband_field();
            let mut updated = pb;
            updated.set_sideband(BlockSideband { successor: hash, ..sb });
            Some(updated)
        };

        let mut stored = *block;
        stored.set_sideband(ins.set_sideband);
        self.blocks.insert(hash, stored);
        match prev_update {
            Some(updated) => {
                self.blocks.insert(prev, updated);
            }
            None => {}
        }

        let ghost accounts0 = self.accounts;
        self.accounts.insert(ins.account, ins.set_account_info);
        proof {
            // account sums move by the new record minus the old one
            if v.old_account_info is Some {
                assert(accounts0.view().dom().contains(ins.account));
                let i = choose|i: int|
                    0 <= i < accounts0.entries@.len() && accounts0.entries@[i].0 == ins.account
                        && self.accounts.entries@ == accounts0.entries@.update(
                        i,
                        (ins.account, ins.set_account_info),
                    );
                lemma_assoc_contains(accounts0.entries@, i);
                lemma_sum_update(
                    accounts0.entries@,
                    i,
                    ins.account,
                    ins.set_account_info,
                    spec_count_weight(),
                );
                lemma_sum_update(
                    accounts0.entries@,
                    i,
                    ins.account,
                    ins.set_account_info,
                    spec_balance_weight(),
                );
            } else {
                assert(!accounts0.view().dom().contains(ins.account));
                lemma_sum_push(
                    accounts0.entries@,
                    ins.account,
                    ins.set_account_info,
                    spec_count_weight(),
                );
                lemma_sum_push(
                    accounts0.entries@,
                    ins.account,
                    ins.set_account_info,
                    spec_balance_weight(),
                );
            }
        }

        let ghost pending0 = self.pending;
        match &ins.delete_pending {
            Some(k) => {
                proof {
                    assert(v.spec_is_receive());
                    assert(self.pending.view().dom().contains(*k));
                }
                self.pending.delete(k);
                proof {
                    let i = choose|i: int|
                        0 <= i < pending0.entries@.len() && pending0.entries@[i].0 == *k
                            && self.pending.entries@ == pending0.entries@.remove(i);
                    lemma_assoc_contains(pending0.entries@, i);
                    lemma_sum_remove(pending0.entries@, i, spec_amount_weight());
                }
            }
            None => {}
        }
        match &ins.insert_pending {
            Some(pa) => {
                proof {
                    // the key is fresh: its send hash is this block's hash,
                    // which was neither stored nor pruned
                    assert(pa.key.send_block_hash == block.spec_hash());
                    assert forall|j: int|
                        0 <= j < pending0.entries@.len() implies pending0.entries@[j].0
                        != pa.key by {
                        assert(old(self).spec_pending_backed());
                        assert(0 <= j < old(self).pending.entries@.len());
                    }
                    lemma_assoc_absent(pending0.entries@, pa.key);
                    lemma_sum_push(pending0.entries@, pa.key, pa.info, spec_amount_weight());
                }
                self.pending.insert(pa.key, pa.info);
            }
            None => {}
        }

        if ins.old_account_info.block_count > 0 {
            self.frontiers.delete(&ins.old_account_info.head);
        }
        if block.is_legacy() {
            self.frontiers.insert(hash, ins.account);
        }

        self.representation_add(
            ins.set_account_info.representative,
            ins.set_account_info.balance,
        );
        if ins.old_account_info.block_count > 0 {
            self.representation_add(
                ins.old_account_info.representative,
                Amount::zero().wrapping_sub(ins.old_account_info.balance),
            );
        }

        self.block_count = self.block_count + 1;

        proof {
            // the new pending set remains backed by the grown block table
            assert forall|i: int| 0 <= i < self.pending.entries@.len() implies {
                let k = (#[trigger] self.pending.entries@[i]).0;
                ||| (self.blocks.view().dom().contains(k.send_block_hash)
                    && self.blocks.view()[k.send_block_hash].spec_destination_or_link() == k.account)
                ||| self.pruned.view().dom().contains(k.send_block_hash)
            } by {
                let k = self.pending.entries@[i].0;
                let entry = self.pending.entries@[i];
                if v.spec_is_send() && i == self.pending.entries@.len() - 1 {
                    assert(k.send_block_hash == block.spec_hash());
                    assert(self.blocks.view().dom().contains(k.send_block_hash));
                } else {
                    // an entry carried over from the old table
                    let j = if v.spec_is_receive() {
                        let di = choose|di: int|
                            0 <= di < pending0.entries@.len() && pending0.entries@[di].0
                                == ins.delete_pending->Some_0 && self.pending.entries@
                                == pending0.entries@.remove(di);
                        if i < di {
                            i
                        } else {
                            i + 1
                        }
                    } else {
                        i
                    };
                    assert(0 <= j < old(self).pending.entries@.len());
                    assert(old(self).pending.entries@[j] == entry);
                    assert(old(self).spec_pending_backed());
                    if old(self).blocks.view().dom().contains(k.send_block_hash) {
                        assert(self.blocks.view().dom().contains(k.send_block_hash));
                        if !prev.spec_is_zero() && k.send_block_hash == prev {
                            let pb = old(self).blocks.view()[prev];
                            assert(self.blocks.view()[prev] == pb.spec_with_sideband(
                                BlockSideband { successor: block.spec_hash(), ..pb.spec_sideband() },
                            ));
                        } else {
                            assert(k.send_block_hash != block.spec_hash());
                            assert(self.blocks.view()[k.send_block_hash] == old(
                                self,
                            ).blocks.view()[k.send_block_hash]);
                        }
                    }
                }
            }
        }
    }

    /// Validates `block` against the current state and, when every check
    /// passes, applies it atomically. The result is the block's hash, or
    /// the first failing check's error with the state untouched.
    pub fn process(&mut self, block: &BlockEnum, now: u64) -> (r: Result<BlockHash, ProcessError>)
        requires
            old(self).wf(),
            old(self).block_count < u64::MAX,
        ensures
            final(self).wf(),
            ({
                let v = old(self).spec_validator(*block, now);
                let ins = v.spec_instructions();
                &&& (r matches Err(e) ==> Some(e) == v.spec_first_error() && *final(self) == *old(
                    self,
                ))
                &&& (r is Ok ==> {
                    &&& v.spec_first_error() is None
                    &&& r->Ok_0 == block.spec_hash()
                    &&& final(self).accounts.view() == old(self).accounts.view().insert(
                        ins.account,
                        ins.set_account_info,
                    )
                    &&& final(self).blocks.view() == spec_blocks_after(
                        old(self).blocks.view(),
                        *block,
                        ins,
                    )
                    &&& final(self).pending.view() == spec_pending_after(
                        old(self).pending.view(),
                        ins,
                    )
                    &&& final(self).frontiers.view() == spec_frontiers_after(
                        old(self).frontiers.view(),
                        *block,
                        ins,
                    )
                    &&& final(self).rep_weights.view() == spec_weights_after(
                        old(self).rep_weights.view(),
                        ins,
                    )
                    &&& final(self).confirmation_height == old(self).confirmation_height
                    &&& final(self).pruned == old(self).pruned
                    &&& final(self).block_count == old(self).block_count + 1
                    &&& final(self).supply == old(self).supply
                })
            }),
    {
        let v = self.create_validator(block, now);
        proof {
            if v.old_account_info is Some {
                let account = v.account;
                assert(self.accounts.view().dom().contains(account));
                crate::kvmap::lemma_assoc_member_index(self.accounts.entries@, account);
                let i = choose|i: int|
                    0 <= i < self.accounts.entries@.len() && self.accounts.entries@[i].0 == account;
                lemma_assoc_contains(self.accounts.entries@, i);
                lemma_sum_element_bound(self.accounts.entries@, i, spec_count_weight());
            }
        }
        let ins = match v.validate() {
            Ok(ins) => ins,
            Err(e) => {
                return Err(e);
            }
        };
        self.apply_block(block, Ghost(v), ins, now);
        Ok(block.hash())
    }
}



impl Ledger {
    /// Initialises an empty ledger with the genesis open block: the genesis
    /// account holds the whole supply and delegates it to itself.
    pub fn init_genesis(&mut self, genesis_key: &crate::auth::PrivateKey, now: u64) -> (r:
        BlockHash)
        requires
            old(self).wf(),
            old(self).accounts.entries@.len() == 0,
            old(self).pending.entries@.len() == 0,
            old(self).blocks.entries@.len() == 0,
            old(self).block_count == 0,
        ensures
            final(self).wf(),
            final(self).supply.raw == u128::MAX,
            final(self).block_count == 1,
            final(self).blocks.view().dom().contains(r),
            final(self).accounts.view().dom().contains(
                crate::auth::spec_public_of(genesis_key.raw),
            ),
            ({
                let info = final(self).accounts.view()[crate::auth::spec_public_of(
                    genesis_key.raw,
                )];
                &&& info.balance.raw == u128::MAX
                &&& info.head == r
                &&& info.block_count == 1
            }),
            final(self).epochs == old(self).epochs,
            final(self).work == old(self).work,
    {
        let account = genesis_key.public_key();
        let work_nonce = crate::work::generate_work(&account, 0);
        let mut open = crate::builders::new_open_block(
            account,
            account,
            account,
            genesis_key,
            work_nonce,
        );
        let sideband = BlockSideband {
            height: 1,
            timestamp: now,
            successor: Hash256::zero(),
            account,
            balance: Amount::max(),
            details: crate::blocks::BlockDetails {
                epoch: crate::epoch::Epoch::Epoch0,
                is_send: false,
                is_receive: true,
                is_epoch: false,
            },
            source_epoch: crate::epoch::Epoch::Epoch0,
        };
        open.set_sideband(sideband);
        let hash = open.hash();
        let info = AccountInfo {
            head: hash,
            representative: account,
            open_block: hash,
            balance: Amount::max(),
            modified: now,
            block_count: 1,
            epoch: crate::epoch::Epoch::Epoch0,
        };
        proof {
            lemma_sum_push(self.blocks.entries@, hash, open, |b: BlockEnum| 0int);
            lemma_sum_push(self.accounts.entries@, account, info, spec_count_weight());
            lemma_sum_push(self.accounts.entries@, account, info, spec_balance_weight());
            lemma_assoc_absent(self.accounts.entries@, account);
            lemma_assoc_absent(self.blocks.entries@, hash);
        }
        self.blocks.insert(hash, open);
        self.accounts.insert(account, info);
        self.frontiers.insert(hash, account);
        self.rep_weights.insert(account, Amount::max());
        self.block_count = 1;
        self.supply = Amount::max();
        hash
    }

    /// Records how much of an account's chain is confirmed.
    pub fn set_confirmation_height(&mut self, account: Account, info: ConfirmationHeightInfo)
        requires
            old(self).wf(),
        ensures
            final(self).wf(),
            final(self).confirmation_height.view() == old(self).confirmation_height.view().insert(
                account,
                info,
            ),
            final(self).accounts == old(self).accounts,
            final(self).blocks == old(self).blocks,
            final(self).pending == old(self).pending,
            final(self).supply == old(self).supply,
            final(self).block_count == old(self).block_count,
    {
        self.confirmation_height.insert(account, info);
    }
}

/// Value conservation: in every well-formed ledger - and process, rollback
/// and genesis initialisation all preserve well-formedness - the account
/// balances and the pending amounts together equal the supply.
pub proof fn lemma_ledger_conservation(l: Ledger)
    requires
        l.wf(),
    ensures
        spec_sum(l.accounts.entries@, spec_balance_weight()) + spec_sum(
            l.pending.entries@,
            spec_amount_weight(),
        ) == l.supply.raw as int,
{
}

impl Hash256 {
    /// Field equality used by the ledger's scans.
    fn key_eq_ledger(&self, other: &Hash256) -> (r: bool)
        ensures
            r == (*self == *other),
    {
        self.w0 == other.w0 && self.w1 == other.w1 && self.w2 == other.w2 && self.w3 == other.w3
    }
}

/// Successor coherence at the insertion point: applying a block that
/// extends a chain points its predecessor's successor at the new block,
/// while the new head's own successor stays zero.
pub proof fn lemma_process_successor_coherence(l: Ledger, block: BlockEnum, now: u64)
    requires
        l.spec_validator(block, now).spec_first_error() is None,
        !block.spec_previous().spec_is_zero(),
    ensures
        ({
            let v = l.spec_validator(block, now);
            let ins = v.spec_instructions();
            let after = spec_blocks_after(l.blocks.view(), block, ins);
            &&& after.dom().contains(block.spec_previous())
            &&& after[block.spec_previous()].spec_sideband().successor == block.spec_hash()
            &&& block.spec_previous() != block.spec_hash() ==> after.dom().contains(
                block.spec_hash(),
            ) && after[block.spec_hash()].spec_sideband().successor == Hash256 {
                w0: 0,
                w1: 0,
                w2: 0,
                w3: 0,
            }
        }),
{
}

/// Frontier coherence at the insertion point: applying a legacy block moves
/// the account's frontier entry from the old head to the new block, and a
/// state block leaves no frontier entry at all for its hash.
pub proof fn lemma_process_frontier_coherence(l: Ledger, block: BlockEnum, now: u64)
    requires
        !l.frontiers.view().dom().contains(block.spec_hash()),
    ensures
        ({
            let v = l.spec_validator(block, now);
            let ins = v.spec_instructions();
            let after = spec_frontiers_after(l.frontiers.view(), block, ins);
            &&& block.spec_is_legacy() ==> after.dom().contains(block.spec_hash())
                && after[block.spec_hash()] == v.account
            &&& !block.spec_is_legacy() ==> !after.dom().contains(block.spec_hash())
            &&& ins.old_account_info.block_count > 0 && ins.old_account_info.head
                != block.spec_hash() ==> !after.dom().contains(ins.old_account_info.head)
        }),
{
}


/// Rolling back inverts processing, for a send at the head of its chain:
/// the table transformations `process` performs, followed by the table
/// transformations `roll_back_head` performs on the new head, give back the
/// original blocks, accounts and pending tables. `v` is the snapshot the
/// factory gathered for `block`; the other hypotheses are the coherence
/// facts a well-formed chain provides: the predecessor records the
/// account's balance, representative and epoch, and carries no successor
/// yet.
#[verifier::rlimit(100)]
pub proof fn lemma_rollback_inverts_process_send(
    l: Ledger,
    v: BlockValidator,
    block: BlockEnum,
    now: u64,
    rep: PublicKey,
)
    requires
        l.wf(),
        v.block == block,
        v.seconds_since_epoch == now,
        v.spec_is_send(),
        !block.spec_previous().spec_is_zero(),
        !l.blocks.view().dom().contains(block.spec_hash()),
        !l.pruned.view().dom().contains(block.spec_hash()),
        l.blocks.view().dom().contains(block.spec_previous()),
        l.accounts.view().dom().contains(v.account),
        v.old_account_info == Some(l.accounts.view()[v.account]),
        ({
            let info = l.accounts.view()[v.account];
            let pb = l.blocks.view()[block.spec_previous()];
            &&& info.head == block.spec_previous()
            &&& info.block_count < u64::MAX
            &&& pb.spec_has_sideband()
            &&& pb.spec_sideband().successor == Hash256 { w0: 0, w1: 0, w2: 0, w3: 0 }
            &&& pb.spec_representative_opt() == Some(rep)
            &&& info.representative == rep
            &&& pb.spec_sideband().details.epoch == info.epoch
            &&& info.modified == now
        }),
    ensures
        ({
            let ins = v.spec_instructions();
            let info = l.accounts.view()[v.account];
            let hash = block.spec_hash();
            let previous = block.spec_previous();
            let blocks1 = spec_blocks_after(l.blocks.view(), block, ins);
            let pb1 = blocks1[previous];
            let cleared = pb1.spec_with_sideband(
                BlockSideband {
                    successor: Hash256 { w0: 0, w1: 0, w2: 0, w3: 0 },
                    ..pb1.spec_sideband()
                },
            );
            let accounts1 = l.accounts.view().insert(ins.account, ins.set_account_info);
            let pending1 = spec_pending_after(l.pending.view(), ins);
            // the apply deltas, undone by the rollback deltas
            &&& (hash != previous ==> blocks1.remove(hash).insert(previous, cleared)
                == l.blocks.view())
            &&& accounts1.insert(
                ins.account,
                crate::rollback::spec_restored_account(
                    previous,
                    rep,
                    info.open_block,
                    info.balance,
                    now,
                    (ins.set_account_info.block_count - 1) as u64,
                    info.epoch,
                ),
            ) == l.accounts.view()
            &&& pending1.remove(ins.insert_pending->Some_0.key) == l.pending.view()
        }),
{
    let ins = v.spec_instructions();
    let info = l.accounts.view()[v.account];
    let hash = block.spec_hash();
    let previous = block.spec_previous();
    let pb = l.blocks.view()[previous];
    let blocks1 = spec_blocks_after(l.blocks.view(), block, ins);
    assert(!v.spec_is_receive());
    if hash != previous {
        let pb1 = blocks1[previous];
        assert(pb1 == pb.spec_with_sideband(
            BlockSideband { successor: hash, ..pb.spec_sideband() },
        ));
        let cleared = pb1.spec_with_sideband(
            BlockSideband {
                successor: Hash256 { w0: 0, w1: 0, w2: 0, w3: 0 },
                ..pb1.spec_sideband()
            },
        );
        assert(cleared == pb);
        assert(blocks1.remove(hash).insert(previous, cleared) =~= l.blocks.view());
    }
    // the restored account record is the one process replaced
    assert(ins.set_account_info.block_count == info.block_count + 1);
    assert(crate::rollback::spec_restored_account(
        previous,
        rep,
        info.open_block,
        info.balance,
        now,
        (ins.set_account_info.block_count - 1) as u64,
        info.epoch,
    ) == info);
    assert(l.accounts.view().insert(ins.account, ins.set_account_info).insert(
        ins.account,
        info,
    ) =~= l.accounts.view());
    // the pending entry the send created leaves again
    let key = ins.insert_pending->Some_0.key;
    assert(key.send_block_hash == hash);
    assert forall|j: int| 0 <= j < l.pending.entries@.len() implies (#[trigger] l.pending.entries@[j]).0
        != key by {
        assert(l.spec_pending_backed());
    }
    crate::kvmap::lemma_assoc_absent(l.pending.entries@, key);
    assert(spec_pending_after(l.pending.view(), ins).remove(key) =~= l.pending.view());
}

} // verus!
