//! Block constructors and builders: signed single blocks, and whole account
//! chains with their sidebands linked up, as tests and tools create them.

use vstd::prelude::*;
use vstd::pervasive::VecAdditionalExecFns;
use crate::amount::Amount;
use crate::auth::{sign_hash, spec_public_of, spec_signature_for, PrivateKey};
use crate::blocks::{
    BlockDetails, BlockEnum, BlockSideband, ChangeBlock, OpenBlock, ReceiveBlock, SendBlock,
    StateBlock,
};
use crate::epoch::Epoch;
use crate::hashes::{Account, BlockHash, Hash256, PublicKey};
use crate::work::generate_work;

verus! {

/// A signed legacy send block.
pub fn new_send_block(
    previous: BlockHash,
    destination: Account,
    balance: Amount,
    key: &PrivateKey,
    work: u64,
) -> (r: BlockEnum)
    ensures
        r matches BlockEnum::LegacySend(b) && b.previous == previous && b.destination == destination
            && b.balance == balance && b.work == work && !b.has_sideband
            && b.sideband == BlockSideband::spec_unset()
            && b.signature == spec_signature_for(spec_public_of(key.raw), r.spec_hash()),
{
    let mut block = SendBlock {
        previous,
        destination,
        balance,
        signature: crate::hashes::Signature::zero(),
        work,
        has_sideband: false,
        sideband: BlockSideband::unset(),
    };
    let hash = BlockEnum::LegacySend(block).hash();
    block.signature = sign_hash(key, &hash);
    let r = BlockEnum::LegacySend(block);
    proof {
        assert(r.spec_hash_words() =~= BlockEnum::LegacySend(
            SendBlock { signature: crate::hashes::Signature { hi: Hash256 { w0: 0, w1: 0, w2: 0, w3: 0 }, lo: Hash256 { w0: 0, w1: 0, w2: 0, w3: 0 } }, ..block },
        ).spec_hash_words());
    }
    r
}

/// A signed legacy receive block.
pub fn new_receive_block(
    previous: BlockHash,
    source: BlockHash,
    key: &PrivateKey,
    work: u64,
) -> (r: BlockEnum)
    ensures
        r matches BlockEnum::LegacyReceive(b) && b.previous == previous && b.source == source
            && b.work == work && !b.has_sideband && b.sideband == BlockSideband::spec_unset()
            && b.signature == spec_signature_for(spec_public_of(key.raw), r.spec_hash()),
{
    let mut block = ReceiveBlock {
        previous,
        source,
        signature: crate::hashes::Signature::zero(),
        work,
        has_sideband: false,
        sideband: BlockSideband::unset(),
    };
    let hash = BlockEnum::LegacyReceive(block).hash();
    block.signature = sign_hash(key, &hash);
    BlockEnum::LegacyReceive(block)
}

/// A signed legacy open block.
pub fn new_open_block(
    source: BlockHash,
    representative: PublicKey,
    account: Account,
    key: &PrivateKey,
    work: u64,
) -> (r: BlockEnum)
    ensures
        r matches BlockEnum::LegacyOpen(b) && b.source == source
            && b.representative == representative && b.account == account && b.work == work
            && !b.has_sideband && b.sideband == BlockSideband::spec_unset()
            && b.signature == spec_signature_for(spec_public_of(key.raw), r.spec_hash()),
{
    let mut block = OpenBlock {
        source,
        representative,
        account,
        signature: crate::hashes::Signature::zero(),
        work,
        has_sideband: false,
        sideband: BlockSideband::unset(),
    };
    let hash = BlockEnum::LegacyOpen(block).hash();
    block.signature = sign_hash(key, &hash);
    BlockEnum::LegacyOpen(block)
}

/// A signed legacy change block.
pub fn new_change_block(
    previous: BlockHash,
    representative: PublicKey,
    key: &PrivateKey,
    work: u64,
) -> (r: BlockEnum)
    ensures
        r matches BlockEnum::LegacyChange(b) && b.previous == previous
            && b.representative == representative && b.work == work && !b.has_sideband
            && b.sideband == BlockSideband::spec_unset()
            && b.signature == spec_signature_for(spec_public_of(key.raw), r.spec_hash()),
{
    let mut block = ChangeBlock {
        previous,
        representative,
        signature: crate::hashes::Signature::zero(),
        work,
        has_sideband: false,
        sideband: BlockSideband::unset(),
    };
    let hash = BlockEnum::LegacyChange(block).hash();
    block.signature = sign_hash(key, &hash);
    BlockEnum::LegacyChange(block)
}

/// A signed state block.
pub fn new_state_block(
    account: Account,
    previous: BlockHash,
    representative: PublicKey,
    balance: Amount,
    link: Hash256,
    key: &PrivateKey,
    work: u64,
) -> (r: BlockEnum)
    ensures
        r matches BlockEnum::State(b) && b.account == account && b.previous == previous
            && b.representative == representative && b.balance == balance && b.link == link
            && b.work == work && !b.has_sideband && b.sideband == BlockSideband::spec_unset()
            && b.signature == spec_signature_for(spec_public_of(key.raw), r.spec_hash()),
{
    let mut block = StateBlock {
        account,
        previous,
        representative,
        balance,
        link,
        signature: crate::hashes::Signature::zero(),
        work,
        has_sideband: false,
        sideband: BlockSideband::unset(),
    };
    let hash = BlockEnum::State(block).hash();
    block.signature = sign_hash(key, &hash);
    BlockEnum::State(block)
}

/// Builds a legacy change block field by field; unset fields get the stock
/// values.
pub struct LegacyChangeBlockBuilder {
    pub account_value: Option<Account>,
    pub representative_value: Option<PublicKey>,
    pub previous_value: Option<BlockHash>,
    pub keypair: Option<PrivateKey>,
    pub work_value: Option<u64>,
    pub build_sideband: bool,
}

impl LegacyChangeBlockBuilder {
    pub fn new() -> (r: LegacyChangeBlockBuilder)
        ensures
            r.account_value is None,
            r.representative_value is None,
            r.previous_value is None,
            r.keypair is None,
            r.work_value is None,
            !r.build_sideband,
    {
        LegacyChangeBlockBuilder {
            account_value: None,
            representative_value: None,
            previous_value: None,
            keypair: None,
            work_value: None,
            build_sideband: false,
        }
    }

    pub fn previous(self, previous: BlockHash) -> (r: LegacyChangeBlockBuilder)
        ensures
            r == (LegacyChangeBlockBuilder { previous_value: Some(previous), ..self }),
    {
        LegacyChangeBlockBuilder { previous_value: Some(previous), ..self }
    }

    pub fn account(self, account: Account) -> (r: LegacyChangeBlockBuilder)
        ensures
            r == (LegacyChangeBlockBuilder { account_value: Some(account), ..self }),
    {
        LegacyChangeBlockBuilder { account_value: Some(account), ..self }
    }

    pub fn representative(self, representative: PublicKey) -> (r: LegacyChangeBlockBuilder)
        ensures
            r == (LegacyChangeBlockBuilder { representative_value: Some(representative), ..self }),
    {
        LegacyChangeBlockBuilder { representative_value: Some(representative), ..self }
    }

    pub fn sign(self, keypair: &PrivateKey) -> (r: LegacyChangeBlockBuilder)
        ensures
            r == (LegacyChangeBlockBuilder { keypair: Some(*keypair), ..self }),
    {
        LegacyChangeBlockBuilder { keypair: Some(*keypair), ..self }
    }

    pub fn work(self, work: u64) -> (r: LegacyChangeBlockBuilder)
        ensures
            r == (LegacyChangeBlockBuilder { work_value: Some(work), ..self }),
    {
        LegacyChangeBlockBuilder { work_value: Some(work), ..self }
    }

    pub fn with_sideband(self) -> (r: LegacyChangeBlockBuilder)
        ensures
            r == (LegacyChangeBlockBuilder { build_sideband: true, ..self }),
    {
        LegacyChangeBlockBuilder { build_sideband: true, ..self }
    }

    /// Builds the change block: previous falls back to 1, the representative
    /// to 2, the key to the stock key, and the work to generated work over
    /// `previous`; with `with_sideband` a fixed test sideband is attached.
    pub fn build(self) -> (r: BlockEnum)
        ensures
            r is LegacyChange,
            r.spec_has_sideband() == self.build_sideband,
            r matches BlockEnum::LegacyChange(b) && ({
                let previous = match self.previous_value {
                    Some(p) => p,
                    None => Hash256::spec_from_u64(1),
                };
                let representative = match self.representative_value {
                    Some(rep) => rep,
                    None => Hash256::spec_from_u64(2),
                };
                let key = match self.keypair {
                    Some(k) => k,
                    None => PrivateKey { raw: Hash256::spec_from_u64(1) },
                };
                &&& b.previous == previous
                &&& b.representative == representative
                &&& (self.work_value matches Some(w) ==> b.work == w)
                &&& (self.work_value is None ==> crate::work::spec_work_value(previous, b.work)
                    == u64::MAX)
                &&& b.signature == spec_signature_for(spec_public_of(key.raw), r.spec_hash())
                &&& (self.build_sideband ==> b.sideband == BlockSideband {
                    height: 1,
                    timestamp: 2,
                    successor: Hash256 { w0: 0, w1: 0, w2: 0, w3: 0 },
                    account: Hash256::spec_from_u64(42),
                    balance: Amount { raw: 5 },
                    details: BlockDetails {
                        epoch: Epoch::Epoch0,
                        is_send: false,
                        is_receive: true,
                        is_epoch: false,
                    },
                    source_epoch: Epoch::Epoch0,
                })
            }),
    {
        let previous = match self.previous_value {
            Some(p) => p,
            None => Hash256::from_u64(1),
        };
        let key_pair = match self.keypair {
            Some(k) => k,
            None => PrivateKey::new(Hash256::from_u64(1)),
        };
        let representative = match self.representative_value {
            Some(rep) => rep,
            None => Hash256::from_u64(2),
        };
        let work = match self.work_value {
            Some(w) => w,
            None => generate_work(&previous, 0),
        };
        let mut block = new_change_block(previous, representative, &key_pair, work);
        if self.build_sideband {
            let details = BlockDetails {
                epoch: Epoch::Epoch0,
                is_send: false,
                is_receive: true,
                is_epoch: false,
            };
            let ghost before = block;
            block.set_sideband(BlockSideband::new(
                Hash256::from_u64(42),
                Hash256::zero(),
                Amount::raw(5),
                1,
                2,
                details,
                Epoch::Epoch0,
            ));
            proof {
                // the sideband does not enter the content hash
                assert(block.spec_hash_words() =~= before.spec_hash_words());
            }
        }
        block
    }
}

impl Default for LegacyChangeBlockBuilder {
    fn default() -> (r: LegacyChangeBlockBuilder)
        ensures
            r.account_value is None,
            r.representative_value is None,
            r.previous_value is None,
            r.keypair is None,
            r.work_value is None,
            !r.build_sideband,
    {
        LegacyChangeBlockBuilder::new()
    }
}

/// Builds a legacy open block; unset fields get the stock values.
pub struct LegacyOpenBlockBuilder {
    pub account_value: Option<Account>,
    pub source_value: Option<BlockHash>,
    pub representative_value: Option<PublicKey>,
    pub keypair: Option<PrivateKey>,
    pub work_value: Option<u64>,
}

impl LegacyOpenBlockBuilder {
    pub fn new() -> (r: LegacyOpenBlockBuilder)
        ensures
            r.account_value is None,
            r.source_value is None,
            r.representative_value is None,
            r.keypair is None,
            r.work_value is None,
    {
        LegacyOpenBlockBuilder {
            account_value: None,
            source_value: None,
            representative_value: None,
            keypair: None,
            work_value: None,
        }
    }

    pub fn account(self, account: Account) -> (r: LegacyOpenBlockBuilder)
        ensures
            r == (LegacyOpenBlockBuilder { account_value: Some(account), ..self }),
    {
        LegacyOpenBlockBuilder { account_value: Some(account), ..self }
    }

    pub fn source(self, source: BlockHash) -> (r: LegacyOpenBlockBuilder)
        ensures
            r == (LegacyOpenBlockBuilder { source_value: Some(source), ..self }),
    {
        LegacyOpenBlockBuilder { source_value: Some(source), ..self }
    }

    pub fn representative(self, representative: PublicKey) -> (r: LegacyOpenBlockBuilder)
        ensures
            r == (LegacyOpenBlockBuilder { representative_value: Some(representative), ..self }),
    {
        LegacyOpenBlockBuilder { representative_value: Some(representative), ..self }
    }

    pub fn sign(self, keypair: &PrivateKey) -> (r: LegacyOpenBlockBuilder)
        ensures
            r == (LegacyOpenBlockBuilder { keypair: Some(*keypair), ..self }),
    {
        LegacyOpenBlockBuilder { keypair: Some(*keypair), ..self }
    }

    pub fn work(self, work: u64) -> (r: LegacyOpenBlockBuilder)
        ensures
            r == (LegacyOpenBlockBuilder { work_value: Some(work), ..self }),
    {
        LegacyOpenBlockBuilder { work_value: Some(work), ..self }
    }

    /// Builds the open block. The account falls back to 42, the source to 1,
    /// the representative to the account.
    pub fn build(self) -> (r: BlockEnum)
        ensures
            r is LegacyOpen,
            !r.spec_has_sideband(),
            self.account_value matches Some(a) ==> r.spec_account_field() == Some(a),
            self.source_value matches Some(s) ==> r.spec_source_or_link() == s,
    {
        let account = match self.account_value {
            Some(a) => a,
            None => Hash256::from_u64(42),
        };
        let source = match self.source_value {
            Some(s) => s,
            None => Hash256::from_u64(1),
        };
        let representative = match self.representative_value {
            Some(rep) => rep,
            None => account,
        };
        let key_pair = match self.keypair {
            Some(k) => k,
            None => PrivateKey::new(Hash256::from_u64(1)),
        };
        let work = match self.work_value {
            Some(w) => w,
            None => generate_work(&account, 0),
        };
        new_open_block(source, representative, account, &key_pair, work)
    }
}

/// Builds a legacy send block; unset fields get the stock values.
pub struct LegacySendBlockBuilder {
    pub account_value: Option<Account>,
    pub previous_value: Option<BlockHash>,
    pub destination_value: Option<Account>,
    pub balance_value: Option<Amount>,
    pub keypair: Option<PrivateKey>,
    pub work_value: Option<u64>,
}

impl LegacySendBlockBuilder {
    pub fn new() -> (r: LegacySendBlockBuilder)
        ensures
            r.account_value is None,
            r.previous_value is None,
            r.destination_value is None,
            r.balance_value is None,
            r.keypair is None,
            r.work_value is None,
    {
        LegacySendBlockBuilder {
            account_value: None,
            previous_value: None,
            destination_value: None,
            balance_value: None,
            keypair: None,
            work_value: None,
        }
    }

    pub fn account(self, account: Account) -> (r: LegacySendBlockBuilder)
        ensures
            r == (LegacySendBlockBuilder { account_value: Some(account), ..self }),
    {
        LegacySendBlockBuilder { account_value: Some(account), ..self }
    }

    pub fn previous(self, previous: BlockHash) -> (r: LegacySendBlockBuilder)
        ensures
            r == (LegacySendBlockBuilder { previous_value: Some(previous), ..self }),
    {
        LegacySendBlockBuilder { previous_value: Some(previous), ..self }
    }

    pub fn destination(self, destination: Account) -> (r: LegacySendBlockBuilder)
        ensures
            r == (LegacySendBlockBuilder { destination_value: Some(destination), ..self }),
    {
        LegacySendBlockBuilder { destination_value: Some(destination), ..self }
    }

    pub fn balance(self, balance: Amount) -> (r: LegacySendBlockBuilder)
        ensures
            r == (LegacySendBlockBuilder { balance_value: Some(balance), ..self }),
    {
        LegacySendBlockBuilder { balance_value: Some(balance), ..self }
    }

    pub fn sign(self, keypair: &PrivateKey) -> (r: LegacySendBlockBuilder)
        ensures
            r == (LegacySendBlockBuilder { keypair: Some(*keypair), ..self }),
    {
        LegacySendBlockBuilder { keypair: Some(*keypair), ..self }
    }

    pub fn work(self, work: u64) -> (r: LegacySendBlockBuilder)
        ensures
            r == (LegacySendBlockBuilder { work_value: Some(work), ..self }),
    {
        LegacySendBlockBuilder { work_value: Some(work), ..self }
    }

    /// Builds the send block. Previous falls back to 1, the destination to
    /// 2, the balance to zero.
    pub fn build(self) -> (r: BlockEnum)
        ensures
            r is LegacySend,
            !r.spec_has_sideband(),
            self.previous_value matches Some(p) ==> r.spec_previous() == p,
            self.destination_value matches Some(d) ==> r.spec_destination_opt() == Some(d),
            self.balance_value matches Some(b) ==> r.spec_balance_opt() == Some(b),
    {
        let previous = match self.previous_value {
            Some(p) => p,
            None => Hash256::from_u64(1),
        };
        let destination = match self.destination_value {
            Some(d) => d,
            None => Hash256::from_u64(2),
        };
        let balance = match self.balance_value {
            Some(b) => b,
            None => Amount::zero(),
        };
        let key_pair = match self.keypair {
            Some(k) => k,
            None => PrivateKey::new(Hash256::from_u64(1)),
        };
        let work = match self.work_value {
            Some(w) => w,
            None => generate_work(&previous, 0),
        };
        new_send_block(previous, destination, balance, &key_pair, work)
    }
}

/// The entry point the block builders are reached through.
pub struct BlockBuilder {}

impl BlockBuilder {
    pub fn legacy_open() -> (r: LegacyOpenBlockBuilder)
        ensures
            r.account_value is None,
            r.source_value is None,
            r.representative_value is None,
            r.keypair is None,
            r.work_value is None,
    {
        LegacyOpenBlockBuilder::new()
    }

    pub fn legacy_send() -> (r: LegacySendBlockBuilder)
        ensures
            r.account_value is None,
            r.previous_value is None,
            r.destination_value is None,
            r.balance_value is None,
            r.keypair is None,
            r.work_value is None,
    {
        LegacySendBlockBuilder::new()
    }

    pub fn legacy_change() -> (r: LegacyChangeBlockBuilder)
        ensures
            r.account_value is None,
            r.representative_value is None,
            r.previous_value is None,
            r.keypair is None,
            r.work_value is None,
            !r.build_sideband,
    {
        LegacyChangeBlockBuilder::new()
    }
}

/// Builds a whole legacy account chain, wiring each block's sideband height
/// and its predecessor's successor pointer.
pub struct BlockChainBuilder {
    pub account_value: Account,
    pub blocks_list: Vec<BlockEnum>,
    pub height_value: u64,
    pub frontier_value: BlockHash,
}

impl BlockChainBuilder {
    /// The chain of the stock account 42.
    pub fn new() -> (r: BlockChainBuilder)
        ensures
            r.account_value == Hash256::spec_from_u64(42),
            r.blocks_list@.len() == 0,
            r.height_value == 0,
            r.frontier_value.spec_is_zero(),
    {
        BlockChainBuilder::for_account(Hash256::from_u64(42))
    }

    pub fn for_account(account: Account) -> (r: BlockChainBuilder)
        ensures
            r.account_value == account,
            r.blocks_list@.len() == 0,
            r.height_value == 0,
            r.frontier_value.spec_is_zero(),
    {
        BlockChainBuilder {
            account_value: account,
            blocks_list: Vec::new(),
            height_value: 0,
            frontier_value: Hash256::zero(),
        }
    }

    /// A chain for the destination of `block`, opened from that send.
    pub fn from_send_block(block: &BlockEnum) -> (r: BlockChainBuilder)
        requires
            block is LegacySend,
        ensures
            r.blocks_list@.len() == 1,
            r.height_value == 1,
            r.account_value == block.spec_destination_or_link(),
            r.blocks_list@.last() is LegacyOpen,
            r.blocks_list@.last().spec_source_or_link() == block.spec_hash(),
            r.frontier_value == r.blocks_list@.last().spec_hash(),
    {
        let destination = block.destination_or_link();
        BlockChainBuilder::for_account(destination).legacy_open_from(block)
    }

    pub fn height(&self) -> (r: u64)
        ensures
            r == self.height_value,
    {
        self.height_value
    }

    pub fn frontier(&self) -> (r: BlockHash)
        ensures
            r == self.frontier_value,
    {
        self.frontier_value
    }

    pub fn account(&self) -> (r: Account)
        ensures
            r == self.account_value,
    {
        self.account_value
    }

    pub fn blocks(&self) -> (r: &Vec<BlockEnum>)
        ensures
            r@ == self.blocks_list@,
    {
        &self.blocks_list
    }

    pub fn latest_block(&self) -> (r: &BlockEnum)
        requires
            self.blocks_list@.len() > 0,
        ensures
            *r == self.blocks_list@.last(),
    {
        &self.blocks_list[self.blocks_list.len() - 1]
    }

    /// Appends `block`: attaches a sideband at the next height, points the
    /// previous head's successor at it, and advances the frontier.
    fn add_block(&mut self, block: BlockEnum)
        requires
            old(self).height_value < u64::MAX,
        ensures
            final(self).account_value == old(self).account_value,
            final(self).height_value == old(self).height_value + 1,
            final(self).blocks_list@.len() == old(self).blocks_list@.len() + 1,
            final(self).blocks_list@.last().spec_has_sideband(),
            final(self).blocks_list@.last().spec_sideband().height == final(self).height_value,
            final(self).blocks_list@.last().spec_sideband().account == final(self).account_value,
            final(self).frontier_value == final(self).blocks_list@.last().spec_hash(),
            final(self).blocks_list@.last() == block.spec_with_sideband(
                BlockSideband {
                    height: (old(self).height_value + 1) as u64,
                    timestamp: 1,
                    successor: Hash256 { w0: 0, w1: 0, w2: 0, w3: 0 },
                    account: old(self).account_value,
                    balance: Amount { raw: 0 },
                    details: BlockDetails {
                        epoch: Epoch::Unspecified,
                        is_send: false,
                        is_receive: false,
                        is_epoch: false,
                    },
                    source_epoch: Epoch::Unspecified,
                },
            ),
            old(self).blocks_list@.len() > 0 && old(self).blocks_list@.last().spec_has_sideband()
                ==> ({
                let prev = old(self).blocks_list@.last();
                final(self).blocks_list@[old(self).blocks_list@.len() - 1]
                    == prev.spec_with_sideband(
                    BlockSideband {
                        successor: final(self).blocks_list@.last().spec_hash(),
                        ..prev.spec_sideband()
                    },
                )
            }),
            forall|k: int|
                0 <= k < old(self).blocks_list@.len() - 1 ==> final(self).blocks_list@[k] == old(
                    self,
                ).blocks_list@[k],
    {
        let mut block = block;
        block.set_sideband(BlockSideband {
            height: self.height_value + 1,
            timestamp: 1,
            successor: Hash256::zero(),
            account: self.account_value,
            balance: Amount::zero(),
            details: BlockDetails {
                epoch: Epoch::Unspecified,
                is_send: false,
                is_receive: false,
                is_epoch: false,
            },
            source_epoch: Epoch::Unspecified,
        });
        let block_hash = block.hash();
        if self.blocks_list.len() > 0 {
            let last_index = self.blocks_list.len() - 1;
            let mut previous = self.blocks_list[last_index];
            let mut sideband = match previous.sideband() {
                Some(sb) => sb,
                None => BlockSideband::unset(),
            };
            sideband.successor = block_hash;
            previous.set_sideband(sideband);
            self.blocks_list.set(last_index, previous);
        }
        self.height_value = self.height_value + 1;
        self.frontier_value = block_hash;
        self.blocks_list.push(block);
    }

    /// Extends the chain with an open block for this account.
    pub fn legacy_open(self) -> (r: BlockChainBuilder)
        requires
            self.height_value < u64::MAX,
        ensures
            r.account_value == self.account_value,
            r.height_value == self.height_value + 1,
            r.blocks_list@.len() == self.blocks_list@.len() + 1,
            r.blocks_list@.last() is LegacyOpen,
            r.blocks_list@.last().spec_account_field() == Some(self.account_value),
            r.blocks_list@.last().spec_sideband().height == r.height_value,
            r.frontier_value == r.blocks_list@.last().spec_hash(),
            forall|k: int|
                0 <= k < self.blocks_list@.len() - 1 ==> r.blocks_list@[k]
                    == self.blocks_list@[k],
    {
        let mut this = self;
        let block = BlockBuilder::legacy_open().account(this.account_value).build();
        this.add_block(block);
        this
    }

    /// Extends the chain with an open block receiving `send`.
    pub fn legacy_open_from(self, send: &BlockEnum) -> (r: BlockChainBuilder)
        requires
            self.height_value < u64::MAX,
        ensures
            r.account_value == self.account_value,
            r.height_value == self.height_value + 1,
            r.blocks_list@.len() == self.blocks_list@.len() + 1,
            r.blocks_list@.last() is LegacyOpen,
            r.blocks_list@.last().spec_account_field() == Some(self.account_value),
            r.blocks_list@.last().spec_source_or_link() == send.spec_hash(),
            r.frontier_value == r.blocks_list@.last().spec_hash(),
    {
        let mut this = self;
        let block = BlockBuilder::legacy_open()
            .account(this.account_value)
            .source(send.hash())
            .build();
        this.add_block(block);
        this
    }

    /// Extends the chain with a stock send block.
    pub fn legacy_send(self) -> (r: BlockChainBuilder)
        requires
            self.height_value < u64::MAX,
        ensures
            r.account_value == self.account_value,
            r.height_value == self.height_value + 1,
            r.blocks_list@.len() == self.blocks_list@.len() + 1,
            r.blocks_list@.last() is LegacySend,
            r.blocks_list@.last().spec_previous() == self.frontier_value,
            r.blocks_list@.last().spec_sideband().height == r.height_value,
            r.blocks_list@.last().spec_sideband().account == r.account_value,
            r.frontier_value == r.blocks_list@.last().spec_hash(),
            self.blocks_list@.len() > 0 && self.blocks_list@.last().spec_has_sideband() ==> ({
                let prev = self.blocks_list@.last();
                r.blocks_list@[self.blocks_list@.len() - 1] == prev.spec_with_sideband(
                    BlockSideband {
                        successor: r.blocks_list@.last().spec_hash(),
                        ..prev.spec_sideband()
                    },
                )
            }),
    {
        let mut this = self;
        let block = BlockBuilder::legacy_send()
            .account(this.account_value)
            .previous(this.frontier_value)
            .build();
        this.add_block(block);
        this
    }

    /// Extends the chain with a send block shaped by `adjust`.
    pub fn legacy_send_with<F: Fn(LegacySendBlockBuilder) -> LegacySendBlockBuilder>(
        self,
        adjust: F,
    ) -> (r: BlockChainBuilder)
        requires
            self.height_value < u64::MAX,
            forall|b: LegacySendBlockBuilder| #[trigger] call_requires(adjust, (b,)),
        ensures
            r.account_value == self.account_value,
            r.height_value == self.height_value + 1,
            r.blocks_list@.len() == self.blocks_list@.len() + 1,
            r.frontier_value == r.blocks_list@.last().spec_hash(),
    {
        let mut this = self;
        let builder = BlockBuilder::legacy_send()
            .account(this.account_value)
            .previous(this.frontier_value);
        let block = adjust(builder).build();
        this.add_block(block);
        this
    }

    /// Hands the accumulated blocks out, leaving the builder's cursor where
    /// it is.
    pub fn take_blocks(&mut self) -> (r: Vec<BlockEnum>)
        ensures
            r@ == old(self).blocks_list@,
            final(self).blocks_list@.len() == 0,
            final(self).account_value == old(self).account_value,
            final(self).height_value == old(self).height_value,
            final(self).frontier_value == old(self).frontier_value,
    {
        let mut blocks: Vec<BlockEnum> = Vec::new();
        core::mem::swap(&mut blocks, &mut self.blocks_list);
        blocks
    }
}

} // verus!
