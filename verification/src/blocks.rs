//! The five block variants of the lattice, their metadata sideband, their
//! content hash and their deterministic binary encoding.

use vstd::prelude::*;
use crate::amount::Amount;
use crate::epoch::Epoch;
use crate::hashes::{Account, BlockHash, Hash256, Link, PublicKey, Signature};
use crate::stream::{
    lemma_be128_inj, lemma_be64_inj, lemma_concat_split, lemma_hash_bytes_inj, lemma_sig_bytes_inj,
    spec_be128, spec_be64, spec_hash_bytes, spec_sig_bytes, MemoryStream,
};

verus! {

broadcast use crate::stream::group_codec_lens;

/// The wire code of a block type.
#[derive(Clone, Copy, Debug, PartialEq, Eq, Hash, Structural)]
pub enum BlockType {
    Invalid,
    NotABlock,
    LegacySend,
    LegacyReceive,
    LegacyOpen,
    LegacyChange,
    State,
}

impl BlockType {
    pub open spec fn spec_code(self) -> u8 {
        match self {
            BlockType::Invalid => 0,
            BlockType::NotABlock => 1,
            BlockType::LegacySend => 2,
            BlockType::LegacyReceive => 3,
            BlockType::LegacyOpen => 4,
            BlockType::LegacyChange => 5,
            BlockType::State => 6,
        }
    }

    pub fn code(&self) -> (r: u8)
        ensures
            r == self.spec_code(),
    {
        match self {
            BlockType::Invalid => 0,
            BlockType::NotABlock => 1,
            BlockType::LegacySend => 2,
            BlockType::LegacyReceive => 3,
            BlockType::LegacyOpen => 4,
            BlockType::LegacyChange => 5,
            BlockType::State => 6,
        }
    }

    pub open spec fn spec_from_code(code: u8) -> Option<BlockType> {
        if code == 0 {
            Some(BlockType::Invalid)
        } else if code == 1 {
            Some(BlockType::NotABlock)
        } else if code == 2 {
            Some(BlockType::LegacySend)
        } else if code == 3 {
            Some(BlockType::LegacyReceive)
        } else if code == 4 {
            Some(BlockType::LegacyOpen)
        } else if code == 5 {
            Some(BlockType::LegacyChange)
        } else if code == 6 {
            Some(BlockType::State)
        } else {
            None
        }
    }

    pub fn from_code(code: u8) -> (r: Option<BlockType>)
        ensures
            r == BlockType::spec_from_code(code),
    {
        if code == 0 {
            Some(BlockType::Invalid)
        } else if code == 1 {
            Some(BlockType::NotABlock)
        } else if code == 2 {
            Some(BlockType::LegacySend)
        } else if code == 3 {
            Some(BlockType::LegacyReceive)
        } else if code == 4 {
            Some(BlockType::LegacyOpen)
        } else if code == 5 {
            Some(BlockType::LegacyChange)
        } else if code == 6 {
            Some(BlockType::State)
        } else {
            None
        }
    }
}

/// The exact serialized size of a block body of the given type, without the
/// leading type byte.
pub open spec fn spec_serialized_block_size(block_type: BlockType) -> int {
    match block_type {
        BlockType::Invalid => 0,
        BlockType::NotABlock => 0,
        BlockType::LegacySend => 152,
        BlockType::LegacyReceive => 136,
        BlockType::LegacyOpen => 168,
        BlockType::LegacyChange => 136,
        BlockType::State => 216,
    }
}

pub fn serialized_block_size(block_type: BlockType) -> (r: usize)
    ensures
        r as int == spec_serialized_block_size(block_type),
{
    match block_type {
        BlockType::Invalid => 0,
        BlockType::NotABlock => 0,
        BlockType::LegacySend => 152,
        BlockType::LegacyReceive => 136,
        BlockType::LegacyOpen => 168,
        BlockType::LegacyChange => 136,
        BlockType::State => 216,
    }
}

/// Flags describing how a persisted block changed its account.
#[derive(Clone, Copy, Debug, PartialEq, Eq, Structural)]
pub struct BlockDetails {
    pub epoch: Epoch,
    pub is_send: bool,
    pub is_receive: bool,
    pub is_epoch: bool,
}

impl BlockDetails {
    pub fn new(epoch: Epoch, is_send: bool, is_receive: bool, is_epoch: bool) -> (r: BlockDetails)
        ensures
            r == (BlockDetails { epoch, is_send, is_receive, is_epoch }),
    {
        BlockDetails { epoch, is_send, is_receive, is_epoch }
    }
}

/// Metadata attached to a block when it is persisted. The sideband is
/// authoritative for properties that cannot be recovered from the block
/// alone: the balance of legacy blocks, the successor pointer, the height.
#[derive(Clone, Copy, Debug, PartialEq, Eq, Structural)]
pub struct BlockSideband {
    pub height: u64,
    pub timestamp: u64,
    pub successor: BlockHash,
    pub account: Account,
    pub balance: Amount,
    pub details: BlockDetails,
    pub source_epoch: Epoch,
}

impl BlockSideband {
    pub fn new(
        account: Account,
        successor: BlockHash,
        balance: Amount,
        height: u64,
        timestamp: u64,
        details: BlockDetails,
        source_epoch: Epoch,
    ) -> (r: BlockSideband)
        ensures
            r == (BlockSideband { height, timestamp, successor, account, balance, details, source_epoch }),
    {
        BlockSideband { height, timestamp, successor, account, balance, details, source_epoch }
    }

    /// The all-zero sideband carried by a block whose sideband has not been
    /// set yet.
    pub open spec fn spec_unset() -> BlockSideband {
        BlockSideband {
            height: 0,
            timestamp: 0,
            successor: Hash256 { w0: 0, w1: 0, w2: 0, w3: 0 },
            account: Hash256 { w0: 0, w1: 0, w2: 0, w3: 0 },
            balance: Amount { raw: 0 },
            details: BlockDetails {
                epoch: Epoch::Unspecified,
                is_send: false,
                is_receive: false,
                is_epoch: false,
            },
            source_epoch: Epoch::Unspecified,
        }
    }

    pub fn unset() -> (r: BlockSideband)
        ensures
            r == BlockSideband::spec_unset(),
    {
        BlockSideband {
            height: 0,
            timestamp: 0,
            successor: Hash256::zero(),
            account: Hash256::zero(),
            balance: Amount::zero(),
            details: BlockDetails {
                epoch: Epoch::Unspecified,
                is_send: false,
                is_receive: false,
                is_epoch: false,
            },
            source_epoch: Epoch::Unspecified,
        }
    }
}

/// A legacy send: debits the author's chain in favour of `destination`.
#[derive(Clone, Copy, Debug, PartialEq, Eq, Structural)]
pub struct SendBlock {
    pub previous: BlockHash,
    pub destination: Account,
    pub balance: Amount,
    pub signature: Signature,
    pub work: u64,
    pub has_sideband: bool,
    pub sideband: BlockSideband,
}

/// A legacy receive: credits a pending send into the author's chain.
#[derive(Clone, Copy, Debug, PartialEq, Eq, Structural)]
pub struct ReceiveBlock {
    pub previous: BlockHash,
    pub source: BlockHash,
    pub signature: Signature,
    pub work: u64,
    pub has_sideband: bool,
    pub sideband: BlockSideband,
}

/// A legacy open: the first block of a chain, receiving `source`.
#[derive(Clone, Copy, Debug, PartialEq, Eq, Structural)]
pub struct OpenBlock {
    pub source: BlockHash,
    pub representative: PublicKey,
    pub account: Account,
    pub signature: Signature,
    pub work: u64,
    pub has_sideband: bool,
    pub sideband: BlockSideband,
}

/// A legacy change: re-delegates the chain's weight to `representative`.
#[derive(Clone, Copy, Debug, PartialEq, Eq, Structural)]
pub struct ChangeBlock {
    pub previous: BlockHash,
    pub representative: PublicKey,
    pub signature: Signature,
    pub work: u64,
    pub has_sideband: bool,
    pub sideband: BlockSideband,
}

/// A self-contained state block: carries account, previous, representative,
/// the post-application balance and a link.
#[derive(Clone, Copy, Debug, PartialEq, Eq, Structural)]
pub struct StateBlock {
    pub account: Account,
    pub previous: BlockHash,
    pub representative: PublicKey,
    pub balance: Amount,
    pub link: Link,
    pub signature: Signature,
    pub work: u64,
    pub has_sideband: bool,
    pub sideband: BlockSideband,
}

/// A block of any of the five variants.
#[derive(Clone, Copy, Debug, PartialEq, Eq, Structural)]
pub enum BlockEnum {
    LegacySend(SendBlock),
    LegacyReceive(ReceiveBlock),
    LegacyOpen(OpenBlock),
    LegacyChange(ChangeBlock),
    State(StateBlock),
}

impl BlockEnum {
    pub open spec fn spec_block_type(self) -> BlockType {
        match self {
            BlockEnum::LegacySend(_) => BlockType::LegacySend,
            BlockEnum::LegacyReceive(_) => BlockType::LegacyReceive,
            BlockEnum::LegacyOpen(_) => BlockType::LegacyOpen,
            BlockEnum::LegacyChange(_) => BlockType::LegacyChange,
            BlockEnum::State(_) => BlockType::State,
        }
    }

    pub fn block_type(&self) -> (r: BlockType)
        ensures
            r == self.spec_block_type(),
    {
        match self {
            BlockEnum::LegacySend(_) => BlockType::LegacySend,
            BlockEnum::LegacyReceive(_) => BlockType::LegacyReceive,
            BlockEnum::LegacyOpen(_) => BlockType::LegacyOpen,
            BlockEnum::LegacyChange(_) => BlockType::LegacyChange,
            BlockEnum::State(_) => BlockType::State,
        }
    }

    pub open spec fn spec_is_legacy(self) -> bool {
        !(self is State)
    }

    pub fn is_legacy(&self) -> (r: bool)
        ensures
            r == self.spec_is_legacy(),
    {
        !matches!(self, BlockEnum::State(_))
    }

    pub open spec fn spec_is_open(self) -> bool {
        match self {
            BlockEnum::LegacyOpen(_) => true,
            BlockEnum::State(b) => b.previous.spec_is_zero(),
            _ => false,
        }
    }

    pub fn is_open(&self) -> (r: bool)
        ensures
            r == self.spec_is_open(),
    {
        match self {
            BlockEnum::LegacyOpen(_) => true,
            BlockEnum::State(b) => b.previous.is_zero(),
            _ => false,
        }
    }

    /// The previous block in the author's chain; zero for an open.
    pub open spec fn spec_previous(self) -> BlockHash {
        match self {
            BlockEnum::LegacySend(b) => b.previous,
            BlockEnum::LegacyReceive(b) => b.previous,
            BlockEnum::LegacyOpen(_) => Hash256 { w0: 0, w1: 0, w2: 0, w3: 0 },
            BlockEnum::LegacyChange(b) => b.previous,
            BlockEnum::State(b) => b.previous,
        }
    }

    pub fn previous(&self) -> (r: BlockHash)
        ensures
            r == self.spec_previous(),
    {
        match self {
            BlockEnum::LegacySend(b) => b.previous,
            BlockEnum::LegacyReceive(b) => b.previous,
            BlockEnum::LegacyOpen(_) => Hash256::zero(),
            BlockEnum::LegacyChange(b) => b.previous,
            BlockEnum::State(b) => b.previous,
        }
    }

    /// The author, when the block itself states it: state and open blocks.
    pub open spec fn spec_account_field(self) -> Option<Account> {
        match self {
            BlockEnum::LegacyOpen(b) => Some(b.account),
            BlockEnum::State(b) => Some(b.account),
            _ => None,
        }
    }

    pub fn account_field(&self) -> (r: Option<Account>)
        ensures
            r == self.spec_account_field(),
    {
        match self {
            BlockEnum::LegacyOpen(b) => Some(b.account),
            BlockEnum::State(b) => Some(b.account),
            _ => None,
        }
    }

    /// The representative, when the block carries one.
    pub open spec fn spec_representative_opt(self) -> Option<PublicKey> {
        match self {
            BlockEnum::LegacyOpen(b) => Some(b.representative),
            BlockEnum::LegacyChange(b) => Some(b.representative),
            BlockEnum::State(b) => Some(b.representative),
            _ => None,
        }
    }

    pub fn representative_opt(&self) -> (r: Option<PublicKey>)
        ensures
            r == self.spec_representative_opt(),
    {
        match self {
            BlockEnum::LegacyOpen(b) => Some(b.representative),
            BlockEnum::LegacyChange(b) => Some(b.representative),
            BlockEnum::State(b) => Some(b.representative),
            _ => None,
        }
    }

    /// The balance, when the block itself states it: sends and state blocks.
    pub open spec fn spec_balance_opt(self) -> Option<Amount> {
        match self {
            BlockEnum::LegacySend(b) => Some(b.balance),
            BlockEnum::State(b) => Some(b.balance),
            _ => None,
        }
    }

    pub fn balance_opt(&self) -> (r: Option<Amount>)
        ensures
            r == self.spec_balance_opt(),
    {
        match self {
            BlockEnum::LegacySend(b) => Some(b.balance),
            BlockEnum::State(b) => Some(b.balance),
            _ => None,
        }
    }

    /// The source send for receive-like legacy blocks.
    pub open spec fn spec_source_opt(self) -> Option<BlockHash> {
        match self {
            BlockEnum::LegacyReceive(b) => Some(b.source),
            BlockEnum::LegacyOpen(b) => Some(b.source),
            _ => None,
        }
    }

    pub fn source_opt(&self) -> (r: Option<BlockHash>)
        ensures
            r == self.spec_source_opt(),
    {
        match self {
            BlockEnum::LegacyReceive(b) => Some(b.source),
            BlockEnum::LegacyOpen(b) => Some(b.source),
            _ => None,
        }
    }

    /// The destination account of a legacy send.
    pub open spec fn spec_destination_opt(self) -> Option<Account> {
        match self {
            BlockEnum::LegacySend(b) => Some(b.destination),
            _ => None,
        }
    }

    pub fn destination_opt(&self) -> (r: Option<Account>)
        ensures
            r == self.spec_destination_opt(),
    {
        match self {
            BlockEnum::LegacySend(b) => Some(b.destination),
            _ => None,
        }
    }

    /// The link of a state block, zero otherwise.
    pub open spec fn spec_link(self) -> Link {
        match self {
            BlockEnum::State(b) => b.link,
            _ => Hash256 { w0: 0, w1: 0, w2: 0, w3: 0 },
        }
    }

    pub fn link(&self) -> (r: Link)
        ensures
            r == self.spec_link(),
    {
        match self {
            BlockEnum::State(b) => b.link,
            _ => Hash256::zero(),
        }
    }

    /// The source a receive-like block references: the legacy source field,
    /// or the link of a state block.
    pub open spec fn spec_source_or_link(self) -> BlockHash {
        match self {
            BlockEnum::LegacyReceive(b) => b.source,
            BlockEnum::LegacyOpen(b) => b.source,
            BlockEnum::State(b) => b.link,
            _ => Hash256 { w0: 0, w1: 0, w2: 0, w3: 0 },
        }
    }

    pub fn source_or_link(&self) -> (r: BlockHash)
        ensures
            r == self.spec_source_or_link(),
    {
        match self {
            BlockEnum::LegacyReceive(b) => b.source,
            BlockEnum::LegacyOpen(b) => b.source,
            BlockEnum::State(b) => b.link,
            _ => Hash256::zero(),
        }
    }

    /// The destination a send credits: the legacy destination field, or the
    /// link of a state block.
    pub open spec fn spec_destination_or_link(self) -> Account {
        match self {
            BlockEnum::LegacySend(b) => b.destination,
            BlockEnum::State(b) => b.link,
            _ => Hash256 { w0: 0, w1: 0, w2: 0, w3: 0 },
        }
    }

    pub fn destination_or_link(&self) -> (r: Account)
        ensures
            r == self.spec_destination_or_link(),
    {
        match self {
            BlockEnum::LegacySend(b) => b.destination,
            BlockEnum::State(b) => b.link,
            _ => Hash256::zero(),
        }
    }

    /// The root the proof-of-work must cover: `previous`, or the account for
    /// an open.
    pub open spec fn spec_root(self) -> Hash256 {
        if self.spec_is_open() {
            match self {
                BlockEnum::LegacyOpen(b) => b.account,
                BlockEnum::State(b) => b.account,
                _ => Hash256 { w0: 0, w1: 0, w2: 0, w3: 0 },
            }
        } else {
            self.spec_previous()
        }
    }

    pub fn root(&self) -> (r: Hash256)
        ensures
            r == self.spec_root(),
    {
        if self.is_open() {
            match self {
                BlockEnum::LegacyOpen(b) => b.account,
                BlockEnum::State(b) => b.account,
                _ => Hash256::zero(),
            }
        } else {
            self.previous()
        }
    }

    pub open spec fn spec_work(self) -> u64 {
        match self {
            BlockEnum::LegacySend(b) => b.work,
            BlockEnum::LegacyReceive(b) => b.work,
            BlockEnum::LegacyOpen(b) => b.work,
            BlockEnum::LegacyChange(b) => b.work,
            BlockEnum::State(b) => b.work,
        }
    }

    pub fn work(&self) -> (r: u64)
        ensures
            r == self.spec_work(),
    {
        match self {
            BlockEnum::LegacySend(b) => b.work,
            BlockEnum::LegacyReceive(b) => b.work,
            BlockEnum::LegacyOpen(b) => b.work,
            BlockEnum::LegacyChange(b) => b.work,
            BlockEnum::State(b) => b.work,
        }
    }

    pub open spec fn spec_signature(self) -> Signature {
        match self {
            BlockEnum::LegacySend(b) => b.signature,
            BlockEnum::LegacyReceive(b) => b.signature,
            BlockEnum::LegacyOpen(b) => b.signature,
            BlockEnum::LegacyChange(b) => b.signature,
            BlockEnum::State(b) => b.signature,
        }
    }

    pub fn signature(&self) -> (r: Signature)
        ensures
            r == self.spec_signature(),
    {
        match self {
            BlockEnum::LegacySend(b) => b.signature,
            BlockEnum::LegacyReceive(b) => b.signature,
            BlockEnum::LegacyOpen(b) => b.signature,
            BlockEnum::LegacyChange(b) => b.signature,
            BlockEnum::State(b) => b.signature,
        }
    }

    pub open spec fn spec_has_sideband(self) -> bool {
        match self {
            BlockEnum::LegacySend(b) => b.has_sideband,
            BlockEnum::LegacyReceive(b) => b.has_sideband,
            BlockEnum::LegacyOpen(b) => b.has_sideband,
            BlockEnum::LegacyChange(b) => b.has_sideband,
            BlockEnum::State(b) => b.has_sideband,
        }
    }

    pub open spec fn spec_sideband(self) -> BlockSideband {
        match self {
            BlockEnum::LegacySend(b) => b.sideband,
            BlockEnum::LegacyReceive(b) => b.sideband,
            BlockEnum::LegacyOpen(b) => b.sideband,
            BlockEnum::LegacyChange(b) => b.sideband,
            BlockEnum::State(b) => b.sideband,
        }
    }

    /// The sideband field as stored, whether or not one was attached.
    pub fn sideband_field(&self) -> (r: BlockSideband)
        ensures
            r == self.spec_sideband(),
    {
        match self {
            BlockEnum::LegacySend(b) => b.sideband,
            BlockEnum::LegacyReceive(b) => b.sideband,
            BlockEnum::LegacyOpen(b) => b.sideband,
            BlockEnum::LegacyChange(b) => b.sideband,
            BlockEnum::State(b) => b.sideband,
        }
    }

    /// The sideband, if one has been attached.
    pub fn sideband(&self) -> (r: Option<BlockSideband>)
        ensures
            self.spec_has_sideband() ==> r == Some(self.spec_sideband()),
            !self.spec_has_sideband() ==> r is None,
    {
        match self {
            BlockEnum::LegacySend(b) => if b.has_sideband { Some(b.sideband) } else { None },
            BlockEnum::LegacyReceive(b) => if b.has_sideband { Some(b.sideband) } else { None },
            BlockEnum::LegacyOpen(b) => if b.has_sideband { Some(b.sideband) } else { None },
            BlockEnum::LegacyChange(b) => if b.has_sideband { Some(b.sideband) } else { None },
            BlockEnum::State(b) => if b.has_sideband { Some(b.sideband) } else { None },
        }
    }

    /// The block with its sideband replaced; every other field is kept.
    pub open spec fn spec_with_sideband(self, sb: BlockSideband) -> BlockEnum {
        match self {
            BlockEnum::LegacySend(b) => BlockEnum::LegacySend(
                SendBlock { has_sideband: true, sideband: sb, ..b },
            ),
            BlockEnum::LegacyReceive(b) => BlockEnum::LegacyReceive(
                ReceiveBlock { has_sideband: true, sideband: sb, ..b },
            ),
            BlockEnum::LegacyOpen(b) => BlockEnum::LegacyOpen(
                OpenBlock { has_sideband: true, sideband: sb, ..b },
            ),
            BlockEnum::LegacyChange(b) => BlockEnum::LegacyChange(
                ChangeBlock { has_sideband: true, sideband: sb, ..b },
            ),
            BlockEnum::State(b) => BlockEnum::State(
                StateBlock { has_sideband: true, sideband: sb, ..b },
            ),
        }
    }

    pub fn set_sideband(&mut self, sb: BlockSideband)
        ensures
            *final(self) == old(self).spec_with_sideband(sb),
    {
        match self {
            BlockEnum::LegacySend(b) => {
                b.has_sideband = true;
                b.sideband = sb;
            }
            BlockEnum::LegacyReceive(b) => {
                b.has_sideband = true;
                b.sideband = sb;
            }
            BlockEnum::LegacyOpen(b) => {
                b.has_sideband = true;
                b.sideband = sb;
            }
            BlockEnum::LegacyChange(b) => {
                b.has_sideband = true;
                b.sideband = sb;
            }
            BlockEnum::State(b) => {
                b.has_sideband = true;
                b.sideband = sb;
            }
        }
    }

    /// The author of the block: the account field where the block states it,
    /// else the sideband's account.
    pub fn account_calculated(&self) -> (r: Account)
        ensures
            self.spec_account_field() is Some ==> r == self.spec_account_field()->Some_0,
            self.spec_account_field() is None ==> r == self.spec_sideband().account,
    {
        match self.account_field() {
            Some(a) => a,
            None => match self {
                BlockEnum::LegacySend(b) => b.sideband.account,
                BlockEnum::LegacyReceive(b) => b.sideband.account,
                BlockEnum::LegacyChange(b) => b.sideband.account,
                BlockEnum::LegacyOpen(b) => b.account,
                BlockEnum::State(b) => b.account,
            },
        }
    }

    /// The author at spec level: the stated account, else the sideband's.
    pub open spec fn spec_account_calculated(self) -> Account {
        match self.spec_account_field() {
            Some(a) => a,
            None => self.spec_sideband().account,
        }
    }

    /// The post-application balance at spec level: the stated balance, else
    /// the sideband's.
    pub open spec fn spec_balance_calculated(self) -> Amount {
        match self.spec_balance_opt() {
            Some(b) => b,
            None => self.spec_sideband().balance,
        }
    }

    /// The author of the block, as `account_calculated` gives it.
    pub fn account(&self) -> (r: Account)
        ensures
            self.spec_account_field() is Some ==> r == self.spec_account_field()->Some_0,
            self.spec_account_field() is None ==> r == self.spec_sideband().account,
    {
        self.account_calculated()
    }

    /// The balance after this block: the stated balance where the block
    /// carries one, else the sideband's balance.
    pub fn balance_calculated(&self) -> (r: Amount)
        ensures
            self.spec_balance_opt() is Some ==> r == self.spec_balance_opt()->Some_0,
            self.spec_balance_opt() is None ==> r == self.spec_sideband().balance,
    {
        match self.balance_opt() {
            Some(b) => b,
            None => match self {
                BlockEnum::LegacySend(b) => b.sideband.balance,
                BlockEnum::LegacyReceive(b) => b.sideband.balance,
                BlockEnum::LegacyChange(b) => b.sideband.balance,
                BlockEnum::LegacyOpen(b) => b.sideband.balance,
                BlockEnum::State(b) => b.sideband.balance,
            },
        }
    }
}

/// The four 64-bit words of a 256-bit value, in digest order.
pub open spec fn spec_words_of_hash(h: Hash256) -> Seq<u64> {
    seq![h.w0, h.w1, h.w2, h.w3]
}

/// The two 64-bit words of an amount, in digest order.
pub open spec fn spec_words_of_amount(a: Amount) -> Seq<u64> {
    seq![(a.raw >> 64) as u64, a.raw as u64]
}

/// Appends the words of `h` to a word buffer.
fn push_hash_words(ws: &mut Vec<u64>, h: &Hash256)
    ensures
        final(ws)@ == old(ws)@ + spec_words_of_hash(*h),
{
    ws.push(h.w0);
    ws.push(h.w1);
    ws.push(h.w2);
    ws.push(h.w3);
    proof {
        assert(ws@ =~= old(ws)@ + spec_words_of_hash(*h));
    }
}

/// Appends the words of `a` to a word buffer.
fn push_amount_words(ws: &mut Vec<u64>, a: &Amount)
    ensures
        final(ws)@ == old(ws)@ + spec_words_of_amount(*a),
{
    ws.push(#[verifier::truncate] ((a.raw >> 64) as u64));
    ws.push(#[verifier::truncate] (a.raw as u64));
    proof {
        assert(ws@ =~= old(ws)@ + spec_words_of_amount(*a));
    }
}

impl BlockEnum {
    /// The words fed to the content digest: a variant tag followed by the
    /// hashable fields. The signature, work and sideband are not hashed.
    pub open spec fn spec_hash_words(self) -> Seq<u64> {
        match self {
            BlockEnum::LegacySend(b) => seq![2u64] + spec_words_of_hash(b.previous)
                + spec_words_of_hash(b.destination) + spec_words_of_amount(b.balance),
            BlockEnum::LegacyReceive(b) => seq![3u64] + spec_words_of_hash(b.previous)
                + spec_words_of_hash(b.source),
            BlockEnum::LegacyOpen(b) => seq![4u64] + spec_words_of_hash(b.source)
                + spec_words_of_hash(b.representative) + spec_words_of_hash(b.account),
            BlockEnum::LegacyChange(b) => seq![5u64] + spec_words_of_hash(b.previous)
                + spec_words_of_hash(b.representative),
            BlockEnum::State(b) => seq![6u64] + spec_words_of_hash(b.account)
                + spec_words_of_hash(b.previous) + spec_words_of_hash(b.representative)
                + spec_words_of_amount(b.balance) + spec_words_of_hash(b.link),
        }
    }

    /// The content hash identifying this block.
    pub open spec fn spec_hash(self) -> BlockHash {
        crate::hashes::spec_digest(self.spec_hash_words())
    }

    pub fn hash(&self) -> (r: BlockHash)
        ensures
            r == self.spec_hash(),
    {
        let mut ws: Vec<u64> = Vec::new();
        match self {
            BlockEnum::LegacySend(b) => {
                ws.push(2u64);
                push_hash_words(&mut ws, &b.previous);
                push_hash_words(&mut ws, &b.destination);
                push_amount_words(&mut ws, &b.balance);
            }
            BlockEnum::LegacyReceive(b) => {
                ws.push(3u64);
                push_hash_words(&mut ws, &b.previous);
                push_hash_words(&mut ws, &b.source);
            }
            BlockEnum::LegacyOpen(b) => {
                ws.push(4u64);
                push_hash_words(&mut ws, &b.source);
                push_hash_words(&mut ws, &b.representative);
                push_hash_words(&mut ws, &b.account);
            }
            BlockEnum::LegacyChange(b) => {
                ws.push(5u64);
                push_hash_words(&mut ws, &b.previous);
                push_hash_words(&mut ws, &b.representative);
            }
            BlockEnum::State(b) => {
                ws.push(6u64);
                push_hash_words(&mut ws, &b.account);
                push_hash_words(&mut ws, &b.previous);
                push_hash_words(&mut ws, &b.representative);
                push_amount_words(&mut ws, &b.balance);
                push_hash_words(&mut ws, &b.link);
            }
        }
        proof {
            assert(ws@ =~= self.spec_hash_words());
        }
        crate::hashes::digest_words(&ws)
    }

    /// The serialized body of a block: its wire fields in order, without the
    /// leading type byte.
    pub open spec fn spec_body_bytes(self) -> Seq<u8> {
        match self {
            BlockEnum::LegacySend(b) => spec_hash_bytes(b.previous)
                + spec_hash_bytes(b.destination) + spec_be128(b.balance.raw)
                + spec_sig_bytes(b.signature) + spec_be64(b.work),
            BlockEnum::LegacyReceive(b) => spec_hash_bytes(b.previous)
                + spec_hash_bytes(b.source) + spec_sig_bytes(b.signature) + spec_be64(b.work),
            BlockEnum::LegacyOpen(b) => spec_hash_bytes(b.source)
                + spec_hash_bytes(b.representative) + spec_hash_bytes(b.account)
                + spec_sig_bytes(b.signature) + spec_be64(b.work),
            BlockEnum::LegacyChange(b) => spec_hash_bytes(b.previous)
                + spec_hash_bytes(b.representative) + spec_sig_bytes(b.signature)
                + spec_be64(b.work),
            BlockEnum::State(b) => spec_hash_bytes(b.account) + spec_hash_bytes(b.previous)
                + spec_hash_bytes(b.representative) + spec_be128(b.balance.raw)
                + spec_hash_bytes(b.link) + spec_sig_bytes(b.signature) + spec_be64(b.work),
        }
    }

    /// The full wire form: the type byte followed by the body.
    pub open spec fn spec_block_bytes(self) -> Seq<u8> {
        seq![self.spec_block_type().spec_code()] + self.spec_body_bytes()
    }

    /// A block as carried on the wire: no sideband attached.
    pub open spec fn spec_no_sideband(self) -> bool {
        !self.spec_has_sideband() && self.spec_sideband() == BlockSideband::spec_unset()
    }

    /// Serializes the body, without the type byte.
    pub fn serialize_body(&self, stream: &mut MemoryStream)
        requires
            old(stream).wf(),
        ensures
            final(stream).wf(),
            final(stream).bytes() == old(stream).bytes() + self.spec_body_bytes(),
            final(stream).pos() == old(stream).pos(),
    {
        match self {
            BlockEnum::LegacySend(b) => {
                stream.write_hash(&b.previous);
                stream.write_hash(&b.destination);
                stream.write_u128_be(b.balance.raw);
                stream.write_sig(&b.signature);
                stream.write_u64_be(b.work);
            }
            BlockEnum::LegacyReceive(b) => {
                stream.write_hash(&b.previous);
                stream.write_hash(&b.source);
                stream.write_sig(&b.signature);
                stream.write_u64_be(b.work);
            }
            BlockEnum::LegacyOpen(b) => {
                stream.write_hash(&b.source);
                stream.write_hash(&b.representative);
                stream.write_hash(&b.account);
                stream.write_sig(&b.signature);
                stream.write_u64_be(b.work);
            }
            BlockEnum::LegacyChange(b) => {
                stream.write_hash(&b.previous);
                stream.write_hash(&b.representative);
                stream.write_sig(&b.signature);
                stream.write_u64_be(b.work);
            }
            BlockEnum::State(b) => {
                stream.write_hash(&b.account);
                stream.write_hash(&b.previous);
                stream.write_hash(&b.representative);
                stream.write_u128_be(b.balance.raw);
                stream.write_hash(&b.link);
                stream.write_sig(&b.signature);
                stream.write_u64_be(b.work);
            }
        }
        proof {
            assert(stream.bytes() =~= old(stream).bytes() + self.spec_body_bytes());
        }
    }

    /// Serializes the block with its leading type byte.
    pub fn serialize(&self, stream: &mut MemoryStream)
        requires
            old(stream).wf(),
        ensures
            final(stream).wf(),
            final(stream).bytes() == old(stream).bytes() + self.spec_block_bytes(),
            final(stream).pos() == old(stream).pos(),
    {
        stream.write_u8(self.block_type().code());
        self.serialize_body(stream);
        proof {
            assert(stream.bytes() =~= old(stream).bytes() + self.spec_block_bytes());
        }
    }

    /// Reads the body of a block of the given type. Returns `None`, leaving
    /// the cursor where it was, when fewer bytes remain than the type's body
    /// size, or when the type carries no body.
    pub fn deserialize_body(block_type: BlockType, stream: &mut MemoryStream) -> (r: Option<
        BlockEnum,
    >)
        requires
            old(stream).wf(),
        ensures
            final(stream).wf(),
            final(stream).bytes() == old(stream).bytes(),
            r is Some ==> {
                let b = r->Some_0;
                &&& b.spec_block_type() == block_type
                &&& b.spec_no_sideband()
                &&& final(stream).pos() == old(stream).pos() + spec_serialized_block_size(block_type)
                &&& old(stream).bytes().subrange(old(stream).pos(), final(stream).pos())
                    == b.spec_body_bytes()
            },
            r is None ==> final(stream).pos() == old(stream).pos() && (block_type == BlockType::Invalid
                || block_type == BlockType::NotABlock
                || old(stream).pos() + spec_serialized_block_size(block_type) > old(stream).bytes().len()),
    {
        let size = serialized_block_size(block_type);
        if size == 0 || stream.remaining() < size {
            return None;
        }
        match block_type {
            BlockType::LegacySend => Some(read_send_body(stream)),
            BlockType::LegacyReceive => Some(read_receive_body(stream)),
            BlockType::LegacyOpen => Some(read_open_body(stream)),
            BlockType::LegacyChange => Some(read_change_body(stream)),
            BlockType::State => Some(read_state_body(stream)),
            BlockType::Invalid => None,
            BlockType::NotABlock => None,
        }
    }
}

fn read_send_body(stream: &mut MemoryStream) -> (b: BlockEnum)
    requires
        old(stream).wf(),
        old(stream).pos() + 152 <= old(stream).bytes().len(),
    ensures
        final(stream).wf(),
        final(stream).bytes() == old(stream).bytes(),
        b.spec_block_type() == BlockType::LegacySend,
        b.spec_no_sideband(),
        final(stream).pos() == old(stream).pos() + 152,
        old(stream).bytes().subrange(old(stream).pos(), final(stream).pos()) == b.spec_body_bytes(),
{
    let ghost p0 = stream.pos();
    let previous = stream.read_hash().unwrap();
    let ghost p1 = stream.pos();
    let destination = stream.read_hash().unwrap();
    let ghost p2 = stream.pos();
    let balance = stream.read_u128_be().unwrap();
    let ghost p3 = stream.pos();
    let signature = stream.read_sig().unwrap();
    let ghost p4 = stream.pos();
    let work = stream.read_u64_be().unwrap();
    let b = BlockEnum::LegacySend(SendBlock {
        previous,
        destination,
        balance: Amount { raw: balance },
        signature,
        work,
        has_sideband: false,
        sideband: BlockSideband::unset(),
    });
    proof {
        let bs = old(stream).bytes();
        assert(bs.subrange(p0, stream.pos()) =~= bs.subrange(p0, p1) + bs.subrange(p1, p2)
            + bs.subrange(p2, p3) + bs.subrange(p3, p4) + bs.subrange(p4, stream.pos()));
    }
    b
}

fn read_receive_body(stream: &mut MemoryStream) -> (b: BlockEnum)
    requires
        old(stream).wf(),
        old(stream).pos() + 136 <= old(stream).bytes().len(),
    ensures
        final(stream).wf(),
        final(stream).bytes() == old(stream).bytes(),
        b.spec_block_type() == BlockType::LegacyReceive,
        b.spec_no_sideband(),
        final(stream).pos() == old(stream).pos() + 136,
        old(stream).bytes().subrange(old(stream).pos(), final(stream).pos()) == b.spec_body_bytes(),
{
    let ghost p0 = stream.pos();
    let previous = stream.read_hash().unwrap();
    let ghost p1 = stream.pos();
    let source = stream.read_hash().unwrap();
    let ghost p2 = stream.pos();
    let signature = stream.read_sig().unwrap();
    let ghost p3 = stream.pos();
    let work = stream.read_u64_be().unwrap();
    let b = BlockEnum::LegacyReceive(ReceiveBlock {
        previous,
        source,
        signature,
        work,
        has_sideband: false,
        sideband: BlockSideband::unset(),
    });
    proof {
        let bs = old(stream).bytes();
        assert(bs.subrange(p0, stream.pos()) =~= bs.subrange(p0, p1) + bs.subrange(p1, p2)
            + bs.subrange(p2, p3) + bs.subrange(p3, stream.pos()));
    }
    b
}

fn read_open_body(stream: &mut MemoryStream) -> (b: BlockEnum)
    requires
        old(stream).wf(),
        old(stream).pos() + 168 <= old(stream).bytes().len(),
    ensures
        final(stream).wf(),
        final(stream).bytes() == old(stream).bytes(),
        b.spec_block_type() == BlockType::LegacyOpen,
        b.spec_no_sideband(),
        final(stream).pos() == old(stream).pos() + 168,
        old(stream).bytes().subrange(old(stream).pos(), final(stream).pos()) == b.spec_body_bytes(),
{
    let ghost p0 = stream.pos();
    let source = stream.read_hash().unwrap();
    let ghost p1 = stream.pos();
    let representative = stream.read_hash().unwrap();
    let ghost p2 = stream.pos();
    let account = stream.read_hash().unwrap();
    let ghost p3 = stream.pos();
    let signature = stream.read_sig().unwrap();
    let ghost p4 = stream.pos();
    let work = stream.read_u64_be().unwrap();
    let b = BlockEnum::LegacyOpen(OpenBlock {
        source,
        representative,
        account,
        signature,
        work,
        has_sideband: false,
        sideband: BlockSideband::unset(),
    });
    proof {
        let bs = old(stream).bytes();
        assert(bs.subrange(p0, stream.pos()) =~= bs.subrange(p0, p1) + bs.subrange(p1, p2)
            + bs.subrange(p2, p3) + bs.subrange(p3, p4) + bs.subrange(p4, stream.pos()));
    }
    b
}

fn read_change_body(stream: &mut MemoryStream) -> (b: BlockEnum)
    requires
        old(stream).wf(),
        old(stream).pos() + 136 <= old(stream).bytes().len(),
    ensures
        final(stream).wf(),
        final(stream).bytes() == old(stream).bytes(),
        b.spec_block_type() == BlockType::LegacyChange,
        b.spec_no_sideband(),
        final(stream).pos() == old(stream).pos() + 136,
        old(stream).bytes().subrange(old(stream).pos(), final(stream).pos()) == b.spec_body_bytes(),
{
    let ghost p0 = stream.pos();
    let previous = stream.read_hash().unwrap();
    let ghost p1 = stream.pos();
    let representative = stream.read_hash().unwrap();
    let ghost p2 = stream.pos();
    let signature = stream.read_sig().unwrap();
    let ghost p3 = stream.pos();
    let work = stream.read_u64_be().unwrap();
    let b = BlockEnum::LegacyChange(ChangeBlock {
        previous,
        representative,
        signature,
        work,
        has_sideband: false,
        sideband: BlockSideband::unset(),
    });
    proof {
        let bs = old(stream).bytes();
        assert(bs.subrange(p0, stream.pos()) =~= bs.subrange(p0, p1) + bs.subrange(p1, p2)
            + bs.subrange(p2, p3) + bs.subrange(p3, stream.pos()));
    }
    b
}

fn read_state_body(stream: &mut MemoryStream) -> (b: BlockEnum)
    requires
        old(stream).wf(),
        old(stream).pos() + 216 <= old(stream).bytes().len(),
    ensures
        final(stream).wf(),
        final(stream).bytes() == old(stream).bytes(),
        b.spec_block_type() == BlockType::State,
        b.spec_no_sideband(),
        final(stream).pos() == old(stream).pos() + 216,
        old(stream).bytes().subrange(old(stream).pos(), final(stream).pos()) == b.spec_body_bytes(),
{
    let ghost p0 = stream.pos();
    let account = stream.read_hash().unwrap();
    let ghost p1 = stream.pos();
    let previous = stream.read_hash().unwrap();
    let ghost p2 = stream.pos();
    let representative = stream.read_hash().unwrap();
    let ghost p3 = stream.pos();
    let balance = stream.read_u128_be().unwrap();
    let ghost p4 = stream.pos();
    let link = stream.read_hash().unwrap();
    let ghost p5 = stream.pos();
    let signature = stream.read_sig().unwrap();
    let ghost p6 = stream.pos();
    let work = stream.read_u64_be().unwrap();
    let b = BlockEnum::State(StateBlock {
        account,
        previous,
        representative,
        balance: Amount { raw: balance },
        link,
        signature,
        work,
        has_sideband: false,
        sideband: BlockSideband::unset(),
    });
    proof {
        let bs = old(stream).bytes();
        assert(bs.subrange(p0, stream.pos()) =~= bs.subrange(p0, p1) + bs.subrange(p1, p2)
            + bs.subrange(p2, p3) + bs.subrange(p3, p4) + bs.subrange(p4, p5)
            + bs.subrange(p5, p6) + bs.subrange(p6, stream.pos()));
    }
    b
}

proof fn lemma_send_body_inj(x: SendBlock, y: SendBlock)
    requires
        BlockEnum::LegacySend(x).spec_body_bytes() == BlockEnum::LegacySend(y).spec_body_bytes(),
    ensures
        x.previous == y.previous,
        x.destination == y.destination,
        x.balance == y.balance,
        x.signature == y.signature,
        x.work == y.work,
{
    let s2x = spec_hash_bytes(x.destination) + (spec_be128(x.balance.raw) + (spec_sig_bytes(
        x.signature,
    ) + spec_be64(x.work)));
    let s2y = spec_hash_bytes(y.destination) + (spec_be128(y.balance.raw) + (spec_sig_bytes(
        y.signature,
    ) + spec_be64(y.work)));
    assert(BlockEnum::LegacySend(x).spec_body_bytes() =~= spec_hash_bytes(x.previous) + s2x);
    assert(BlockEnum::LegacySend(y).spec_body_bytes() =~= spec_hash_bytes(y.previous) + s2y);
    lemma_concat_split(spec_hash_bytes(x.previous), s2x, spec_hash_bytes(y.previous), s2y);
    lemma_concat_split(
        spec_hash_bytes(x.destination),
        spec_be128(x.balance.raw) + (spec_sig_bytes(x.signature) + spec_be64(x.work)),
        spec_hash_bytes(y.destination),
        spec_be128(y.balance.raw) + (spec_sig_bytes(y.signature) + spec_be64(y.work)),
    );
    lemma_concat_split(
        spec_be128(x.balance.raw),
        spec_sig_bytes(x.signature) + spec_be64(x.work),
        spec_be128(y.balance.raw),
        spec_sig_bytes(y.signature) + spec_be64(y.work),
    );
    lemma_concat_split(
        spec_sig_bytes(x.signature),
        spec_be64(x.work),
        spec_sig_bytes(y.signature),
        spec_be64(y.work),
    );
    lemma_hash_bytes_inj(x.previous, y.previous);
    lemma_hash_bytes_inj(x.destination, y.destination);
    lemma_be128_inj(x.balance.raw, y.balance.raw);
    lemma_sig_bytes_inj(x.signature, y.signature);
    lemma_be64_inj(x.work, y.work);
}

proof fn lemma_receive_body_inj(x: ReceiveBlock, y: ReceiveBlock)
    requires
        BlockEnum::LegacyReceive(x).spec_body_bytes() == BlockEnum::LegacyReceive(y).spec_body_bytes(),
    ensures
        x.previous == y.previous,
        x.source == y.source,
        x.signature == y.signature,
        x.work == y.work,
{
    let s2x = spec_hash_bytes(x.source) + (spec_sig_bytes(x.signature) + spec_be64(x.work));
    let s2y = spec_hash_bytes(y.source) + (spec_sig_bytes(y.signature) + spec_be64(y.work));
    assert(BlockEnum::LegacyReceive(x).spec_body_bytes() =~= spec_hash_bytes(x.previous) + s2x);
    assert(BlockEnum::LegacyReceive(y).spec_body_bytes() =~= spec_hash_bytes(y.previous) + s2y);
    lemma_concat_split(spec_hash_bytes(x.previous), s2x, spec_hash_bytes(y.previous), s2y);
    lemma_concat_split(
        spec_hash_bytes(x.source),
        spec_sig_bytes(x.signature) + spec_be64(x.work),
        spec_hash_bytes(y.source),
        spec_sig_bytes(y.signature) + spec_be64(y.work),
    );
    lemma_concat_split(
        spec_sig_bytes(x.signature),
        spec_be64(x.work),
        spec_sig_bytes(y.signature),
        spec_be64(y.work),
    );
    lemma_hash_bytes_inj(x.previous, y.previous);
    lemma_hash_bytes_inj(x.source, y.source);
    lemma_sig_bytes_inj(x.signature, y.signature);
    lemma_be64_inj(x.work, y.work);
}

proof fn lemma_open_body_inj(x: OpenBlock, y: OpenBlock)
    requires
        BlockEnum::LegacyOpen(x).spec_body_bytes() == BlockEnum::LegacyOpen(y).spec_body_bytes(),
    ensures
        x.source == y.source,
        x.representative == y.representative,
        x.account == y.account,
        x.signature == y.signature,
        x.work == y.work,
{
    let s2x = spec_hash_bytes(x.representative) + (spec_hash_bytes(x.account) + (spec_sig_bytes(
        x.signature,
    ) + spec_be64(x.work)));
    let s2y = spec_hash_bytes(y.representative) + (spec_hash_bytes(y.account) + (spec_sig_bytes(
        y.signature,
    ) + spec_be64(y.work)));
    assert(BlockEnum::LegacyOpen(x).spec_body_bytes() =~= spec_hash_bytes(x.source) + s2x);
    assert(BlockEnum::LegacyOpen(y).spec_body_bytes() =~= spec_hash_bytes(y.source) + s2y);
    lemma_concat_split(spec_hash_bytes(x.source), s2x, spec_hash_bytes(y.source), s2y);
    lemma_concat_split(
        spec_hash_bytes(x.representative),
        spec_hash_bytes(x.account) + (spec_sig_bytes(x.signature) + spec_be64(x.work)),
        spec_hash_bytes(y.representative),
        spec_hash_bytes(y.account) + (spec_sig_bytes(y.signature) + spec_be64(y.work)),
    );
    lemma_concat_split(
        spec_hash_bytes(x.account),
        spec_sig_bytes(x.signature) + spec_be64(x.work),
        spec_hash_bytes(y.account),
        spec_sig_bytes(y.signature) + spec_be64(y.work),
    );
    lemma_concat_split(
        spec_sig_bytes(x.signature),
        spec_be64(x.work),
        spec_sig_bytes(y.signature),
        spec_be64(y.work),
    );
    lemma_hash_bytes_inj(x.source, y.source);
    lemma_hash_bytes_inj(x.representative, y.representative);
    lemma_hash_bytes_inj(x.account, y.account);
    lemma_sig_bytes_inj(x.signature, y.signature);
    lemma_be64_inj(x.work, y.work);
}

proof fn lemma_change_body_inj(x: ChangeBlock, y: ChangeBlock)
    requires
        BlockEnum::LegacyChange(x).spec_body_bytes() == BlockEnum::LegacyChange(y).spec_body_bytes(),
    ensures
        x.previous == y.previous,
        x.representative == y.representative,
        x.signature == y.signature,
        x.work == y.work,
{
    let s2x = spec_hash_bytes(x.representative) + (spec_sig_bytes(x.signature) + spec_be64(x.work));
    let s2y = spec_hash_bytes(y.representative) + (spec_sig_bytes(y.signature) + spec_be64(y.work));
    assert(BlockEnum::LegacyChange(x).spec_body_bytes() =~= spec_hash_bytes(x.previous) + s2x);
    assert(BlockEnum::LegacyChange(y).spec_body_bytes() =~= spec_hash_bytes(y.previous) + s2y);
    lemma_concat_split(spec_hash_bytes(x.previous), s2x, spec_hash_bytes(y.previous), s2y);
    lemma_concat_split(
        spec_hash_bytes(x.representative),
        spec_sig_bytes(x.signature) + spec_be64(x.work),
        spec_hash_bytes(y.representative),
        spec_sig_bytes(y.signature) + spec_be64(y.work),
    );
    lemma_concat_split(
        spec_sig_bytes(x.signature),
        spec_be64(x.work),
        spec_sig_bytes(y.signature),
        spec_be64(y.work),
    );
    lemma_hash_bytes_inj(x.previous, y.previous);
    lemma_hash_bytes_inj(x.representative, y.representative);
    lemma_sig_bytes_inj(x.signature, y.signature);
    lemma_be64_inj(x.work, y.work);
}

#[verifier::rlimit(30)]
proof fn lemma_state_body_inj(x: StateBlock, y: StateBlock)
    requires
        BlockEnum::State(x).spec_body_bytes() == BlockEnum::State(y).spec_body_bytes(),
    ensures
        x.account == y.account,
        x.previous == y.previous,
        x.representative == y.representative,
        x.balance == y.balance,
        x.link == y.link,
        x.signature == y.signature,
        x.work == y.work,
{
    let s2x = spec_hash_bytes(x.previous) + (spec_hash_bytes(x.representative) + (spec_be128(
        x.balance.raw,
    ) + (spec_hash_bytes(x.link) + (spec_sig_bytes(x.signature) + spec_be64(x.work)))));
    let s2y = spec_hash_bytes(y.previous) + (spec_hash_bytes(y.representative) + (spec_be128(
        y.balance.raw,
    ) + (spec_hash_bytes(y.link) + (spec_sig_bytes(y.signature) + spec_be64(y.work)))));
    assert(BlockEnum::State(x).spec_body_bytes() =~= spec_hash_bytes(x.account) + s2x);
    assert(BlockEnum::State(y).spec_body_bytes() =~= spec_hash_bytes(y.account) + s2y);
    lemma_concat_split(spec_hash_bytes(x.account), s2x, spec_hash_bytes(y.account), s2y);
    lemma_concat_split(
        spec_hash_bytes(x.previous),
        spec_hash_bytes(x.representative) + (spec_be128(x.balance.raw) + (spec_hash_bytes(x.link)
            + (spec_sig_bytes(x.signature) + spec_be64(x.work)))),
        spec_hash_bytes(y.previous),
        spec_hash_bytes(y.representative) + (spec_be128(y.balance.raw) + (spec_hash_bytes(y.link)
            + (spec_sig_bytes(y.signature) + spec_be64(y.work)))),
    );
    lemma_concat_split(
        spec_hash_bytes(x.representative),
        spec_be128(x.balance.raw) + (spec_hash_bytes(x.link) + (spec_sig_bytes(x.signature)
            + spec_be64(x.work))),
        spec_hash_bytes(y.representative),
        spec_be128(y.balance.raw) + (spec_hash_bytes(y.link) + (spec_sig_bytes(y.signature)
            + spec_be64(y.work))),
    );
    lemma_concat_split(
        spec_be128(x.balance.raw),
        spec_hash_bytes(x.link) + (spec_sig_bytes(x.signature) + spec_be64(x.work)),
        spec_be128(y.balance.raw),
        spec_hash_bytes(y.link) + (spec_sig_bytes(y.signature) + spec_be64(y.work)),
    );
    lemma_concat_split(
        spec_hash_bytes(x.link),
        spec_sig_bytes(x.signature) + spec_be64(x.work),
        spec_hash_bytes(y.link),
        spec_sig_bytes(y.signature) + spec_be64(y.work),
    );
    lemma_concat_split(
        spec_sig_bytes(x.signature),
        spec_be64(x.work),
        spec_sig_bytes(y.signature),
        spec_be64(y.work),
    );
    lemma_hash_bytes_inj(x.account, y.account);
    lemma_hash_bytes_inj(x.previous, y.previous);
    lemma_hash_bytes_inj(x.representative, y.representative);
    lemma_be128_inj(x.balance.raw, y.balance.raw);
    lemma_hash_bytes_inj(x.link, y.link);
    lemma_sig_bytes_inj(x.signature, y.signature);
    lemma_be64_inj(x.work, y.work);
}

/// A body's byte length is its type's fixed size.
pub proof fn lemma_body_bytes_len(b: BlockEnum)
    ensures
        b.spec_body_bytes().len() == spec_serialized_block_size(b.spec_block_type()),
{
}

/// Equal bodies of equal type are the same wire block: the body encoding is
/// injective for blocks without sideband.
pub proof fn lemma_block_body_inj(a: BlockEnum, b: BlockEnum)
    requires
        a.spec_block_type() == b.spec_block_type(),
        a.spec_body_bytes() == b.spec_body_bytes(),
        a.spec_no_sideband(),
        b.spec_no_sideband(),
    ensures
        a == b,
{
    match (a, b) {
        (BlockEnum::LegacySend(x), BlockEnum::LegacySend(y)) => {
            lemma_send_body_inj(x, y);
        }
        (BlockEnum::LegacyReceive(x), BlockEnum::LegacyReceive(y)) => {
            lemma_receive_body_inj(x, y);
        }
        (BlockEnum::LegacyOpen(x), BlockEnum::LegacyOpen(y)) => {
            lemma_open_body_inj(x, y);
        }
        (BlockEnum::LegacyChange(x), BlockEnum::LegacyChange(y)) => {
            lemma_change_body_inj(x, y);
        }
        (BlockEnum::State(x), BlockEnum::State(y)) => {
            lemma_state_body_inj(x, y);
        }
        _ => {}
    }
}

} // verus!
