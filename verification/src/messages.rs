//! The framed wire messages: the fixed header with its extensions bitfield,
//! and each payload's deterministic binary encoding. Serialising a
//! well-formed message and reading it back yields the same value; the
//! injectivity lemmas at the end carry that round trip.

use vstd::prelude::*;
use crate::amount::Amount;
use crate::blocks::{
    lemma_block_body_inj, spec_serialized_block_size, BlockEnum, BlockType,
};
use crate::channel::EndpointV6;
use crate::hashes::{Account, BlockHash, Hash256, PublicKey, Root, Signature};
use crate::stream::{
    lemma_be16_inj, lemma_be32_inj, lemma_be64_inj, lemma_be128_inj, lemma_concat_split,
    lemma_hash_bytes_inj, lemma_le16_inj, lemma_sig_bytes_inj, spec_be16, spec_be32, spec_be64,
    spec_be128, spec_hash_bytes, spec_le16, spec_sig_bytes, MemoryStream,
};

verus! {

broadcast use crate::stream::group_codec_lens;

/// The wire code of a message type.
#[derive(Clone, Copy, Debug, PartialEq, Eq, Hash, Structural)]
pub enum MessageType {
    Invalid,
    NotAType,
    Keepalive,
    Publish,
    ConfirmReq,
    ConfirmAck,
    BulkPull,
    BulkPush,
    FrontierReq,
    NodeIdHandshake,
    BulkPullAccount,
    TelemetryReq,
    TelemetryAck,
    AscPullReq,
    AscPullAck,
}

impl MessageType {
    pub open spec fn spec_code(self) -> u8 {
        match self {
            MessageType::Invalid => 0,
            MessageType::NotAType => 1,
            MessageType::Keepalive => 2,
            MessageType::Publish => 3,
            MessageType::ConfirmReq => 4,
            MessageType::ConfirmAck => 5,
            MessageType::BulkPull => 6,
            MessageType::BulkPush => 7,
            MessageType::FrontierReq => 8,
            MessageType::NodeIdHandshake => 10,
            MessageType::BulkPullAccount => 11,
            MessageType::TelemetryReq => 12,
            MessageType::TelemetryAck => 13,
            MessageType::AscPullReq => 14,
            MessageType::AscPullAck => 15,
        }
    }

    pub fn code(&self) -> (r: u8)
        ensures
            r == self.spec_code(),
    {
        match self {
            MessageType::Invalid => 0,
            MessageType::NotAType => 1,
            MessageType::Keepalive => 2,
            MessageType::Publish => 3,
            MessageType::ConfirmReq => 4,
            MessageType::ConfirmAck => 5,
            MessageType::BulkPull => 6,
            MessageType::BulkPush => 7,
            MessageType::FrontierReq => 8,
            MessageType::NodeIdHandshake => 10,
            MessageType::BulkPullAccount => 11,
            MessageType::TelemetryReq => 12,
            MessageType::TelemetryAck => 13,
            MessageType::AscPullReq => 14,
            MessageType::AscPullAck => 15,
        }
    }

    pub open spec fn spec_from_code(code: u8) -> Option<MessageType> {
        if code == 0 {
            Some(MessageType::Invalid)
        } else if code == 1 {
            Some(MessageType::NotAType)
        } else if code == 2 {
            Some(MessageType::Keepalive)
        } else if code == 3 {
            Some(MessageType::Publish)
        } else if code == 4 {
            Some(MessageType::ConfirmReq)
        } else if code == 5 {
            Some(MessageType::ConfirmAck)
        } else if code == 6 {
            Some(MessageType::BulkPull)
        } else if code == 7 {
            Some(MessageType::BulkPush)
        } else if code == 8 {
            Some(MessageType::FrontierReq)
        } else if code == 10 {
            Some(MessageType::NodeIdHandshake)
        } else if code == 11 {
            Some(MessageType::BulkPullAccount)
        } else if code == 12 {
            Some(MessageType::TelemetryReq)
        } else if code == 13 {
            Some(MessageType::TelemetryAck)
        } else if code == 14 {
            Some(MessageType::AscPullReq)
        } else if code == 15 {
            Some(MessageType::AscPullAck)
        } else {
            None
        }
    }

    pub fn from_code(code: u8) -> (r: Option<MessageType>)
        ensures
            r == MessageType::spec_from_code(code),
    {
        if code == 0 {
            Some(MessageType::Invalid)
        } else if code == 1 {
            Some(MessageType::NotAType)
        } else if code == 2 {
            Some(MessageType::Keepalive)
        } else if code == 3 {
            Some(MessageType::Publish)
        } else if code == 4 {
            Some(MessageType::ConfirmReq)
        } else if code == 5 {
            Some(MessageType::ConfirmAck)
        } else if code == 6 {
            Some(MessageType::BulkPull)
        } else if code == 7 {
            Some(MessageType::BulkPush)
        } else if code == 8 {
            Some(MessageType::FrontierReq)
        } else if code == 10 {
            Some(MessageType::NodeIdHandshake)
        } else if code == 11 {
            Some(MessageType::BulkPullAccount)
        } else if code == 12 {
            Some(MessageType::TelemetryReq)
        } else if code == 13 {
            Some(MessageType::TelemetryAck)
        } else if code == 14 {
            Some(MessageType::AscPullReq)
        } else if code == 15 {
            Some(MessageType::AscPullAck)
        } else {
            None
        }
    }
}

/// A code maps back to the type it came from.
pub proof fn lemma_message_type_code_round(t: MessageType)
    ensures
        MessageType::spec_from_code(t.spec_code()) == Some(t),
{
}

/// The protocol versions and network this node speaks.
#[derive(Clone, Copy, Debug, PartialEq, Eq, Structural)]
pub struct ProtocolInfo {
    pub version_using: u8,
    pub version_max: u8,
    pub version_min: u8,
    pub network: u16,
}

impl ProtocolInfo {
    /// The development network's identity and versions.
    pub fn dev_network() -> (r: ProtocolInfo)
        ensures
            r == (ProtocolInfo { version_using: 19, version_max: 19, version_min: 18, network: 0x5241 }),
    {
        ProtocolInfo { version_using: 19, version_max: 19, version_min: 18, network: 0x5241 }
    }
}

impl Default for ProtocolInfo {
    fn default() -> (r: ProtocolInfo)
        ensures
            r == (ProtocolInfo { version_using: 19, version_max: 19, version_min: 18, network: 0x5241 }),
    {
        ProtocolInfo::dev_network()
    }
}

/// The eight-byte frame every message starts with. The extensions bitfield
/// is the one little-endian integer on the wire; its meaning depends on the
/// message type.
#[derive(Clone, Copy, Debug, PartialEq, Eq, Structural)]
pub struct MessageHeader {
    pub network_id: u16,
    pub version_max: u8,
    pub version_using: u8,
    pub version_min: u8,
    pub message_type: MessageType,
    pub extensions: u16,
}

pub open spec fn spec_header_bytes(h: MessageHeader) -> Seq<u8> {
    spec_be16(h.network_id) + seq![h.version_max] + seq![h.version_using] + seq![h.version_min]
        + seq![h.message_type.spec_code()] + spec_le16(h.extensions)
}

pub proof fn lemma_header_bytes_len(h: MessageHeader)
    ensures
        spec_header_bytes(h).len() == 8,
{
}

pub proof fn lemma_header_bytes_inj(a: MessageHeader, b: MessageHeader)
    requires
        spec_header_bytes(a) == spec_header_bytes(b),
    ensures
        a == b,
{
    let a1 = spec_be16(a.network_id) + seq![a.version_max] + seq![a.version_using] + seq![
        a.version_min,
    ] + seq![a.message_type.spec_code()];
    let b1 = spec_be16(b.network_id) + seq![b.version_max] + seq![b.version_using] + seq![
        b.version_min,
    ] + seq![b.message_type.spec_code()];
    lemma_concat_split(a1, spec_le16(a.extensions), b1, spec_le16(b.extensions));
    lemma_le16_inj(a.extensions, b.extensions);
    assert(a1[0] == b1[0]);
    assert(a1[1] == b1[1]);
    assert(a1[2] == b1[2]);
    assert(a1[3] == b1[3]);
    assert(a1[4] == b1[4]);
    assert(a1[5] == b1[5]);
    assert(a1[6] == b1[6]);
    assert(spec_be16(a.network_id) =~= seq![a1[0], a1[1]]);
    assert(spec_be16(b.network_id) =~= seq![b1[0], b1[1]]);
    lemma_be16_inj(a.network_id, b.network_id);
    assert(a.message_type.spec_code() == b.message_type.spec_code());
    lemma_message_type_code_round(a.message_type);
    lemma_message_type_code_round(b.message_type);
}

impl MessageHeader {
    pub fn new(message_type: MessageType, protocol: &ProtocolInfo) -> (r: MessageHeader)
        ensures
            r == (MessageHeader {
                network_id: protocol.network,
                version_max: protocol.version_max,
                version_using: protocol.version_using,
                version_min: protocol.version_min,
                message_type,
                extensions: 0,
            }),
    {
        MessageHeader {
            network_id: protocol.network,
            version_max: protocol.version_max,
            version_using: protocol.version_using,
            version_min: protocol.version_min,
            message_type,
            extensions: 0,
        }
    }

    /// The block type the extensions carry, for publish and confirm-req.
    pub open spec fn spec_block_type_bits(self) -> u8 {
        ((self.extensions >> 8) & 0x0f) as u8
    }

    pub fn block_type_bits(&self) -> (r: u8)
        ensures
            r == self.spec_block_type_bits(),
    {
        #[verifier::truncate] (((self.extensions >> 8) & 0x0f) as u8)
    }

    /// Stores a block type in the extensions.
    pub fn set_block_type(&mut self, code: u8)
        requires
            code < 16,
        ensures
            final(self).spec_block_type_bits() == code,
            final(self).extensions & 0xf0ff == old(self).extensions & 0xf0ff,
            *final(self) == (MessageHeader {
                extensions: (old(self).extensions & 0xf0ff) | ((code as u16) << 8),
                ..*old(self)
            }),
    {
        let e = (self.extensions & 0xf0ff) | ((code as u16) << 8);
        proof {
            let old_e = self.extensions;
            assert(((((old_e & 0xf0ff) | ((code as u16) << 8)) >> 8) & 0x0f) as u8 == code
                && (((old_e & 0xf0ff) | ((code as u16) << 8)) & 0xf0ff) == (old_e & 0xf0ff))
                by (bit_vector)
                requires
                    code < 16,
            ;
        }
        self.extensions = e;
    }

    /// The item count the extensions carry, for confirm-req hash lists.
    pub open spec fn spec_count_bits(self) -> u8 {
        ((self.extensions >> 12) & 0x0f) as u8
    }

    pub fn count_bits(&self) -> (r: u8)
        ensures
            r == self.spec_count_bits(),
    {
        #[verifier::truncate] (((self.extensions >> 12) & 0x0f) as u8)
    }

    /// Stores an item count in the extensions.
    pub fn set_count(&mut self, count: u8)
        requires
            count < 16,
        ensures
            final(self).spec_count_bits() == count,
            final(self).spec_block_type_bits() == old(self).spec_block_type_bits(),
            *final(self) == (MessageHeader {
                extensions: (old(self).extensions & 0x0fff) | ((count as u16) << 12),
                ..*old(self)
            }),
    {
        let e = (self.extensions & 0x0fff) | ((count as u16) << 12);
        proof {
            let old_e = self.extensions;
            assert(((((old_e & 0x0fff) | ((count as u16) << 12)) >> 12) & 0x0f) as u8 == count
                && ((((old_e & 0x0fff) | ((count as u16) << 12)) >> 8) & 0x0f) as u8 == ((old_e
                >> 8) & 0x0f) as u8) by (bit_vector)
                requires
                    count < 16,
            ;
        }
        self.extensions = e;
    }

    /// The handshake query flag.
    pub open spec fn spec_query_flag(self) -> bool {
        self.extensions & 1 == 1
    }

    /// The handshake response flag.
    pub open spec fn spec_response_flag(self) -> bool {
        self.extensions & 2 == 2
    }

    pub fn serialize(&self, stream: &mut MemoryStream)
        requires
            old(stream).wf(),
        ensures
            final(stream).wf(),
            final(stream).bytes() == old(stream).bytes() + spec_header_bytes(*self),
            final(stream).pos() == old(stream).pos(),
    {
        stream.write_u16_be(self.network_id);
        stream.write_u8(self.version_max);
        stream.write_u8(self.version_using);
        stream.write_u8(self.version_min);
        stream.write_u8(self.message_type.code());
        stream.write_u16_le(self.extensions);
        proof {
            assert(stream.bytes() =~= old(stream).bytes() + spec_header_bytes(*self));
        }
    }

    /// Reads a header. `None` when fewer than eight bytes remain or the
    /// type byte is unknown.
    pub fn deserialize(stream: &mut MemoryStream) -> (r: Option<MessageHeader>)
        requires
            old(stream).wf(),
        ensures
            final(stream).wf(),
            final(stream).bytes() == old(stream).bytes(),
            r matches Some(h) ==> final(stream).pos() == old(stream).pos() + 8 && old(stream).bytes().subrange(old(stream).pos(), final(stream).pos()) == spec_header_bytes(h),
            r is None ==> old(stream).pos() + 8 > old(stream).bytes().len()
                || MessageType::spec_from_code(
                old(stream).bytes()[old(stream).pos() + 5],
            ) is None,
    {
        if stream.remaining() < 8 {
            return None;
        }
        let ghost p0 = stream.pos();
        let network_id = stream.read_u16_be().unwrap();
        let version_max = stream.read_u8().unwrap();
        let version_using = stream.read_u8().unwrap();
        let version_min = stream.read_u8().unwrap();
        let type_code = stream.read_u8().unwrap();
        let extensions = stream.read_u16_le().unwrap();
        let message_type = match MessageType::from_code(type_code) {
            Some(t) => t,
            None => {
                return None;
            }
        };
        let h = MessageHeader {
            network_id,
            version_max,
            version_using,
            version_min,
            message_type,
            extensions,
        };
        proof {
            let bs = old(stream).bytes();
            assert(bs.subrange(p0, stream.pos()) =~= bs.subrange(p0, p0 + 2) + seq![
                bs[p0 + 2],
            ] + seq![bs[p0 + 3]] + seq![bs[p0 + 4]] + seq![bs[p0 + 5]] + bs.subrange(
                p0 + 6,
                p0 + 8,
            ));
            assert(bs.subrange(p0, stream.pos()) =~= spec_header_bytes(h));
        }
        Some(h)
    }
}

/// The bytes of a list of items, each encoded by `f`, from index `i` on.
pub open spec fn spec_list_bytes_from<T>(s: Seq<T>, i: int, f: spec_fn(T) -> Seq<u8>) -> Seq<u8>
    decreases s.len() - i,
{
    if i < 0 || i >= s.len() {
        Seq::empty()
    } else {
        f(s[i]) + spec_list_bytes_from(s, i + 1, f)
    }
}

/// The bytes of the first `i` items.
pub open spec fn spec_list_bytes_upto<T>(s: Seq<T>, i: int, f: spec_fn(T) -> Seq<u8>) -> Seq<u8>
    decreases i,
{
    if i <= 0 {
        Seq::empty()
    } else {
        spec_list_bytes_upto(s, i - 1, f) + f(s[i - 1])
    }
}

/// The first `i` items' bytes and the rest make the whole.
pub proof fn lemma_list_upto_from<T>(s: Seq<T>, i: int, f: spec_fn(T) -> Seq<u8>)
    requires
        0 <= i <= s.len(),
    ensures
        spec_list_bytes_upto(s, i, f) + spec_list_bytes_from(s, i, f) == spec_list_bytes_from(
            s,
            0,
            f,
        ),
    decreases i,
{
    if i == 0 {
        assert(spec_list_bytes_upto(s, 0, f) + spec_list_bytes_from(s, 0, f)
            =~= spec_list_bytes_from(s, 0, f));
    } else {
        lemma_list_upto_from(s, i - 1, f);
        assert(spec_list_bytes_from(s, i - 1, f) == f(s[i - 1]) + spec_list_bytes_from(s, i, f));
        assert(spec_list_bytes_upto(s, i, f) + spec_list_bytes_from(s, i, f)
            =~= spec_list_bytes_upto(s, i - 1, f) + (f(s[i - 1]) + spec_list_bytes_from(s, i, f)));
    }
}

/// The first `i` items' bytes read nothing past index `i`.
pub proof fn lemma_list_upto_stable<T>(s1: Seq<T>, s2: Seq<T>, i: int, f: spec_fn(T) -> Seq<u8>)
    requires
        0 <= i <= s1.len(),
        i <= s2.len(),
        forall|k: int| 0 <= k < i ==> s1[k] == s2[k],
    ensures
        spec_list_bytes_upto(s1, i, f) == spec_list_bytes_upto(s2, i, f),
    decreases i,
{
    if i > 0 {
        lemma_list_upto_stable(s1, s2, i - 1, f);
    }
}

/// The byte length of a fixed-width list.
pub proof fn lemma_list_from_len<T>(s: Seq<T>, i: int, f: spec_fn(T) -> Seq<u8>, len_each: int)
    requires
        0 <= i <= s.len(),
        forall|t: T| (#[trigger] f(t)).len() == len_each,
    ensures
        spec_list_bytes_from(s, i, f).len() == (s.len() - i) * len_each,
    decreases s.len() - i,
{
    if i < s.len() {
        lemma_list_from_len(s, i + 1, f, len_each);
        assert((s.len() - i) * len_each == len_each + (s.len() - i - 1) * len_each)
            by (nonlinear_arith);
    } else {
        assert((s.len() - i) * len_each == 0) by (nonlinear_arith)
            requires
                i == s.len(),
        ;
    }
}

/// Equal encodings of fixed-width injective items are equal lists.
pub proof fn lemma_fixed_list_inj<T>(
    s1: Seq<T>,
    s2: Seq<T>,
    f: spec_fn(T) -> Seq<u8>,
    len_each: int,
    i: int,
)
    requires
        len_each > 0,
        forall|t: T| (#[trigger] f(t)).len() == len_each,
        forall|a: T, b: T| #[trigger] f(a) == #[trigger] f(b) ==> a == b,
        s1.len() == s2.len(),
        0 <= i <= s1.len(),
        spec_list_bytes_from(s1, i, f) == spec_list_bytes_from(s2, i, f),
    ensures
        forall|k: int| i <= k < s1.len() ==> s1[k] == s2[k],
    decreases s1.len() - i,
{
    if i < s1.len() {
        lemma_concat_split(
            f(s1[i]),
            spec_list_bytes_from(s1, i + 1, f),
            f(s2[i]),
            spec_list_bytes_from(s2, i + 1, f),
        );
        assert(s1[i] == s2[i]);
        lemma_fixed_list_inj(s1, s2, f, len_each, i + 1);
    }
}

/// One keepalive endpoint on the wire: sixteen address bytes, then the port.
pub open spec fn spec_peer_bytes(e: EndpointV6) -> Seq<u8> {
    spec_be64(e.ip_hi) + spec_be64(e.ip_lo) + spec_be16(e.port)
}

/// The endpoint encoder as a function value.
pub open spec fn spec_peer_enc() -> spec_fn(EndpointV6) -> Seq<u8> {
    |e: EndpointV6| spec_peer_bytes(e)
}

pub proof fn lemma_peer_bytes_inj(a: EndpointV6, b: EndpointV6)
    requires
        spec_peer_bytes(a) == spec_peer_bytes(b),
    ensures
        a == b,
{
    assert(spec_peer_bytes(a) =~= spec_be64(a.ip_hi) + (spec_be64(a.ip_lo) + spec_be16(a.port)));
    assert(spec_peer_bytes(b) =~= spec_be64(b.ip_hi) + (spec_be64(b.ip_lo) + spec_be16(b.port)));
    lemma_concat_split(
        spec_be64(a.ip_hi),
        spec_be64(a.ip_lo) + spec_be16(a.port),
        spec_be64(b.ip_hi),
        spec_be64(b.ip_lo) + spec_be16(b.port),
    );
    lemma_concat_split(spec_be64(a.ip_lo), spec_be16(a.port), spec_be64(b.ip_lo), spec_be16(b.port));
    lemma_be64_inj(a.ip_hi, b.ip_hi);
    lemma_be64_inj(a.ip_lo, b.ip_lo);
    lemma_be16_inj(a.port, b.port);
}

/// A hash and its root, one entry of a confirm-req hash list.
#[derive(Clone, Copy, Debug, PartialEq, Eq, Structural)]
pub struct RootHashPair {
    pub hash: BlockHash,
    pub root: Root,
}

pub open spec fn spec_pair_bytes(p: RootHashPair) -> Seq<u8> {
    spec_hash_bytes(p.hash) + spec_hash_bytes(p.root)
}

pub open spec fn spec_pair_enc() -> spec_fn(RootHashPair) -> Seq<u8> {
    |p: RootHashPair| spec_pair_bytes(p)
}

pub proof fn lemma_pair_bytes_inj(a: RootHashPair, b: RootHashPair)
    requires
        spec_pair_bytes(a) == spec_pair_bytes(b),
    ensures
        a == b,
{
    lemma_concat_split(
        spec_hash_bytes(a.hash),
        spec_hash_bytes(a.root),
        spec_hash_bytes(b.hash),
        spec_hash_bytes(b.root),
    );
    lemma_hash_bytes_inj(a.hash, b.hash);
    lemma_hash_bytes_inj(a.root, b.root);
}

/// A block in a block list: its type byte, then its body.
pub open spec fn spec_listed_block_bytes(b: BlockEnum) -> Seq<u8> {
    b.spec_block_bytes()
}

pub open spec fn spec_block_enc() -> spec_fn(BlockEnum) -> Seq<u8> {
    |b: BlockEnum| spec_listed_block_bytes(b)
}

/// A block list on the wire: each block with its type byte, closed by the
/// not-a-block byte.
pub open spec fn spec_block_list_bytes(s: Seq<BlockEnum>) -> Seq<u8> {
    spec_list_bytes_from(s, 0, spec_block_enc()) + seq![1u8]
}

/// Every listed block starts with its type code, which is never the
/// terminator.
pub proof fn lemma_block_list_inj(s1: Seq<BlockEnum>, s2: Seq<BlockEnum>, i: int)
    requires
        forall|k: int| 0 <= k < s1.len() ==> (#[trigger] s1[k]).spec_no_sideband(),
        forall|k: int| 0 <= k < s2.len() ==> (#[trigger] s2[k]).spec_no_sideband(),
        0 <= i <= s1.len(),
        0 <= i <= s2.len(),
        spec_list_bytes_from(s1, i, spec_block_enc()) + seq![1u8] == spec_list_bytes_from(
            s2,
            i,
            spec_block_enc(),
        ) + seq![1u8],
        s1.len() - i <= s2.len() - i || s2.len() - i <= s1.len() - i,
    ensures
        s1.len() - i == s2.len() - i,
        forall|k: int| i <= k < s1.len() ==> s1[k] == s2[k],
    decreases (s1.len() - i) + (s2.len() - i),
{
    let f = spec_block_enc();
    let lhs = spec_list_bytes_from(s1, i, f) + seq![1u8];
    let rhs = spec_list_bytes_from(s2, i, f) + seq![1u8];
    if i >= s1.len() && i >= s2.len() {
    } else if i >= s1.len() {
        // left is the bare terminator; right starts with a block type code
        assert(lhs[0] == 1u8);
        let b = s2[i];
        assert(spec_list_bytes_from(s2, i, f) == f(b) + spec_list_bytes_from(s2, i + 1, f));
        assert(f(b) == b.spec_block_bytes());
        assert(b.spec_block_bytes()[0] == b.spec_block_type().spec_code());
        assert(rhs[0] == b.spec_block_type().spec_code());
        assert(b.spec_block_type().spec_code() != 1u8);
        assert(false);
    } else if i >= s2.len() {
        assert(rhs[0] == 1u8);
        let b = s1[i];
        assert(spec_list_bytes_from(s1, i, f) == f(b) + spec_list_bytes_from(s1, i + 1, f));
        assert(f(b) == b.spec_block_bytes());
        assert(b.spec_block_bytes()[0] == b.spec_block_type().spec_code());
        assert(lhs[0] == b.spec_block_type().spec_code());
        assert(b.spec_block_type().spec_code() != 1u8);
        assert(false);
    } else {
        let b1 = s1[i];
        let b2 = s2[i];
        assert(spec_list_bytes_from(s1, i, f) == f(b1) + spec_list_bytes_from(s1, i + 1, f));
        assert(spec_list_bytes_from(s2, i, f) == f(b2) + spec_list_bytes_from(s2, i + 1, f));
        assert(lhs =~= b1.spec_block_bytes() + (spec_list_bytes_from(s1, i + 1, f) + seq![1u8]));
        assert(rhs =~= b2.spec_block_bytes() + (spec_list_bytes_from(s2, i + 1, f) + seq![1u8]));
        assert(lhs[0] == b1.spec_block_type().spec_code());
        assert(rhs[0] == b2.spec_block_type().spec_code());
        assert(b1.spec_block_type().spec_code() == b2.spec_block_type().spec_code());
        assert(b1.spec_block_type() == b2.spec_block_type());
        assert(b1.spec_block_bytes().len() == 1 + spec_serialized_block_size(b1.spec_block_type()));
        assert(b2.spec_block_bytes().len() == 1 + spec_serialized_block_size(b2.spec_block_type()));
        lemma_concat_split(
            b1.spec_block_bytes(),
            spec_list_bytes_from(s1, i + 1, f) + seq![1u8],
            b2.spec_block_bytes(),
            spec_list_bytes_from(s2, i + 1, f) + seq![1u8],
        );
        lemma_concat_split(
            seq![b1.spec_block_type().spec_code()],
            b1.spec_body_bytes(),
            seq![b2.spec_block_type().spec_code()],
            b2.spec_body_bytes(),
        );
        lemma_block_body_inj(b1, b2);
        lemma_block_list_inj(s1, s2, i + 1);
    }
}


/// The eight peer endpoints of a keepalive.
#[derive(Clone, Debug)]
pub struct KeepalivePayload {
    pub peers: Vec<EndpointV6>,
}

/// One block, gossiped.
#[derive(Clone, Copy, Debug, PartialEq, Eq, Structural)]
pub struct PublishPayload {
    pub block: BlockEnum,
}

/// A vote request: one block, or a list of hash/root pairs. An all-zero
/// pair carries no request: the decoder refuses a list holding one, as it
/// refuses a zero pair count.
#[derive(Clone, Debug)]
pub struct ConfirmReqPayload {
    pub block: Option<BlockEnum>,
    pub roots_hashes: Vec<RootHashPair>,
}

/// The first handshake phase: a cookie to be signed.
#[derive(Clone, Copy, Debug, PartialEq, Eq, Structural)]
pub struct HandshakeQuery {
    pub cookie: Hash256,
}

/// The second handshake phase: the node id and its signature over the
/// cookie.
#[derive(Clone, Copy, Debug, PartialEq, Eq, Structural)]
pub struct HandshakeResponse {
    pub node_id: PublicKey,
    pub signature: Signature,
}

/// The two-phase node identity handshake.
#[derive(Clone, Copy, Debug, PartialEq, Eq, Structural)]
pub struct NodeIdHandshakePayload {
    pub query: Option<HandshakeQuery>,
    pub response: Option<HandshakeResponse>,
}

/// Which records a bulk-pull-account answer carries.
#[derive(Clone, Copy, Debug, PartialEq, Eq, Structural)]
pub enum BulkPullAccountFlags {
    PendingHashAndAmount,
    PendingAddressOnly,
    PendingHashAmountAndAddress,
}

impl BulkPullAccountFlags {
    pub open spec fn spec_code(self) -> u8 {
        match self {
            BulkPullAccountFlags::PendingHashAndAmount => 0,
            BulkPullAccountFlags::PendingAddressOnly => 1,
            BulkPullAccountFlags::PendingHashAmountAndAddress => 2,
        }
    }

    pub fn code(&self) -> (r: u8)
        ensures
            r == self.spec_code(),
    {
        match self {
            BulkPullAccountFlags::PendingHashAndAmount => 0,
            BulkPullAccountFlags::PendingAddressOnly => 1,
            BulkPullAccountFlags::PendingHashAmountAndAddress => 2,
        }
    }

    pub open spec fn spec_from_code(code: u8) -> Option<BulkPullAccountFlags> {
        if code == 0 {
            Some(BulkPullAccountFlags::PendingHashAndAmount)
        } else if code == 1 {
            Some(BulkPullAccountFlags::PendingAddressOnly)
        } else if code == 2 {
            Some(BulkPullAccountFlags::PendingHashAmountAndAddress)
        } else {
            None
        }
    }

    pub fn from_code(code: u8) -> (r: Option<BulkPullAccountFlags>)
        ensures
            r == BulkPullAccountFlags::spec_from_code(code),
    {
        if code == 0 {
            Some(BulkPullAccountFlags::PendingHashAndAmount)
        } else if code == 1 {
            Some(BulkPullAccountFlags::PendingAddressOnly)
        } else if code == 2 {
            Some(BulkPullAccountFlags::PendingHashAmountAndAddress)
        } else {
            None
        }
    }
}

/// A request for an account's receivable entries above a minimum.
#[derive(Clone, Copy, Debug, PartialEq, Eq, Structural)]
pub struct BulkPullAccountPayload {
    pub account: Account,
    pub minimum_amount: Amount,
    pub flags: BulkPullAccountFlags,
}

/// A request for frontiers, newest first, from a start account.
#[derive(Clone, Copy, Debug, PartialEq, Eq, Structural)]
pub struct FrontierReqPayload {
    pub start: Account,
    pub age: u32,
    pub count: u32,
}

/// The account summary a bootstrap ascending pull answers with.
#[derive(Clone, Copy, Debug, PartialEq, Eq, Structural)]
pub struct AccountInfoAckPayload {
    pub account: Account,
    pub account_open: BlockHash,
    pub account_head: BlockHash,
    pub account_block_count: u64,
    pub account_conf_frontier: BlockHash,
    pub account_conf_height: u64,
}

/// The block list a bootstrap ascending pull answers with.
#[derive(Clone, Debug)]
pub struct BlocksAckPayload {
    pub blocks: Vec<BlockEnum>,
}

/// The most blocks one ascending-pull answer may carry.
pub const MAX_ASC_PULL_BLOCKS: usize = 128;

/// The two kinds of ascending-pull answer.
#[derive(Clone, Debug)]
pub enum AscPullAckType {
    Blocks(BlocksAckPayload),
    AccountInfo(AccountInfoAckPayload),
}

/// An ascending-pull answer: the request id and its payload.
#[derive(Clone, Debug)]
pub struct AscPullAckPayload {
    pub id: u64,
    pub pull_type: AscPullAckType,
}

/// A vote: the voter, its signature, a timestamp and the hashes voted on.
#[derive(Clone, Debug)]
pub struct VotePayload {
    pub account: Account,
    pub signature: Signature,
    pub timestamp: u64,
    pub hashes: Vec<BlockHash>,
}

/// A request for a range of historical blocks.
#[derive(Clone, Copy, Debug, PartialEq, Eq, Structural)]
pub struct BulkPullPayload {
    pub start: Hash256,
    pub end: Hash256,
    pub count: u32,
}

/// The two kinds of ascending-pull request.
#[derive(Clone, Copy, Debug, PartialEq, Eq, Structural)]
pub enum AscPullReqType {
    Blocks(AscPullReqBlocks),
    AccountInfo(AscPullReqAccountInfo),
}

/// An ascending pull of blocks from a start target.
#[derive(Clone, Copy, Debug, PartialEq, Eq, Structural)]
pub struct AscPullReqBlocks {
    pub start: Hash256,
    pub count: u8,
}

/// An ascending pull of one account's summary.
#[derive(Clone, Copy, Debug, PartialEq, Eq, Structural)]
pub struct AscPullReqAccountInfo {
    pub target: Hash256,
}

/// An ascending-pull request: the request id and its target.
#[derive(Clone, Copy, Debug, PartialEq, Eq, Structural)]
pub struct AscPullReqPayload {
    pub id: u64,
    pub req_type: AscPullReqType,
}


/// The node's self-description a telemetry answer carries.
#[derive(Clone, Copy, Debug, PartialEq, Eq, Structural)]
pub struct TelemetryAckPayload {
    pub node_id: PublicKey,
    pub signature: Signature,
    pub block_count: u64,
    pub cemented_count: u64,
    pub unchecked_count: u64,
    pub account_count: u64,
    pub bandwidth_cap: u64,
    pub uptime: u64,
    pub peer_count: u32,
    pub protocol_version: u8,
    pub genesis_block: BlockHash,
    pub major_version: u8,
    pub minor_version: u8,
    pub patch_version: u8,
    pub pre_release_version: u8,
    pub maker: u8,
    pub timestamp: u64,
    pub active_difficulty: u64,
}

/// The exact wire size of a telemetry answer body.
pub const TELEMETRY_ACK_SIZE: u16 = 202;

pub open spec fn spec_telemetry_ack_bytes(p: TelemetryAckPayload) -> Seq<u8> {
    spec_hash_bytes(p.node_id) + spec_sig_bytes(p.signature) + spec_be64(p.block_count) + spec_be64(p.cemented_count) + spec_be64(p.unchecked_count) + spec_be64(p.account_count) + spec_be64(p.bandwidth_cap) + spec_be64(p.uptime) + spec_be32(p.peer_count) + seq![p.protocol_version] + spec_hash_bytes(p.genesis_block) + seq![p.major_version] + seq![p.minor_version] + seq![p.patch_version] + seq![p.pre_release_version] + seq![p.maker] + spec_be64(p.timestamp) + spec_be64(p.active_difficulty)
}

/// Writes a telemetry answer body.
fn write_telemetry_ack(stream: &mut MemoryStream, p: &TelemetryAckPayload)
    requires
        old(stream).wf(),
    ensures
        final(stream).wf(),
        final(stream).bytes() == old(stream).bytes() + spec_telemetry_ack_bytes(*p),
        final(stream).pos() == old(stream).pos(),
{
    stream.write_hash(&p.node_id);
    stream.write_sig(&p.signature);
    stream.write_u64_be(p.block_count);
    stream.write_u64_be(p.cemented_count);
    stream.write_u64_be(p.unchecked_count);
    stream.write_u64_be(p.account_count);
    stream.write_u64_be(p.bandwidth_cap);
    stream.write_u64_be(p.uptime);
    stream.write_u32_be(p.peer_count);
    stream.write_u8(p.protocol_version);
    stream.write_hash(&p.genesis_block);
    stream.write_u8(p.major_version);
    stream.write_u8(p.minor_version);
    stream.write_u8(p.patch_version);
    stream.write_u8(p.pre_release_version);
    stream.write_u8(p.maker);
    stream.write_u64_be(p.timestamp);
    stream.write_u64_be(p.active_difficulty);
    proof {
        assert(stream.bytes() =~= old(stream).bytes() + spec_telemetry_ack_bytes(*p));
    }
}

/// Reads a telemetry answer body.
#[verifier::rlimit(50)]
fn read_telemetry_ack(stream: &mut MemoryStream) -> (r: Option<TelemetryAckPayload>)
    requires
        old(stream).wf(),
    ensures
        final(stream).wf(),
        final(stream).bytes() == old(stream).bytes(),
        r matches Some(p) ==> final(stream).pos() == old(stream).pos() + 202 && old(stream).bytes().subrange(
            old(stream).pos(),
            final(stream).pos(),
        ) == spec_telemetry_ack_bytes(p),
        r is None ==> old(stream).pos() + 202 > old(stream).bytes().len(),
{
    if stream.remaining() < 202 {
        return None;
    }
    let ghost p0 = stream.pos();
    let node_id = stream.read_hash().unwrap();
    let ghost q1 = stream.pos();
    let signature = stream.read_sig().unwrap();
    let ghost q2 = stream.pos();
    let block_count = stream.read_u64_be().unwrap();
    let ghost q3 = stream.pos();
    let cemented_count = stream.read_u64_be().unwrap();
    let ghost q4 = stream.pos();
    let unchecked_count = stream.read_u64_be().unwrap();
    let ghost q5 = stream.pos();
    let account_count = stream.read_u64_be().unwrap();
    let ghost q6 = stream.pos();
    let bandwidth_cap = stream.read_u64_be().unwrap();
    let ghost q7 = stream.pos();
    let uptime = stream.read_u64_be().unwrap();
    let ghost q8 = stream.pos();
    let peer_count = stream.read_u32_be().unwrap();
    let ghost q9 = stream.pos();
    let protocol_version = stream.read_u8().unwrap();
    let ghost q10 = stream.pos();
    let genesis_block = stream.read_hash().unwrap();
    let ghost q11 = stream.pos();
    let major_version = stream.read_u8().unwrap();
    let ghost q12 = stream.pos();
    let minor_version = stream.read_u8().unwrap();
    let ghost q13 = stream.pos();
    let patch_version = stream.read_u8().unwrap();
    let ghost q14 = stream.pos();
    let pre_release_version = stream.read_u8().unwrap();
    let ghost q15 = stream.pos();
    let maker = stream.read_u8().unwrap();
    let ghost q16 = stream.pos();
    let timestamp = stream.read_u64_be().unwrap();
    let ghost q17 = stream.pos();
    let active_difficulty = stream.read_u64_be().unwrap();
    let p = TelemetryAckPayload {
        node_id, signature, block_count, cemented_count, unchecked_count, account_count, bandwidth_cap, uptime, peer_count, protocol_version, genesis_block, major_version, minor_version, patch_version, pre_release_version, maker, timestamp, active_difficulty
    };
    proof {
        let bs = old(stream).bytes();
        assert(bs.subrange(q9, q10) =~= seq![protocol_version]);
        assert(bs.subrange(q11, q12) =~= seq![major_version]);
        assert(bs.subrange(q12, q13) =~= seq![minor_version]);
        assert(bs.subrange(q13, q14) =~= seq![patch_version]);
        assert(bs.subrange(q14, q15) =~= seq![pre_release_version]);
        assert(bs.subrange(q15, q16) =~= seq![maker]);
        assert(bs.subrange(p0, stream.pos()) =~= bs.subrange(p0, q1) + bs.subrange(q1, q2) + bs.subrange(q2, q3) + bs.subrange(q3, q4) + bs.subrange(q4, q5) + bs.subrange(q5, q6) + bs.subrange(q6, q7) + bs.subrange(q7, q8) + bs.subrange(q8, q9) + bs.subrange(q9, q10) + bs.subrange(q10, q11) + bs.subrange(q11, q12) + bs.subrange(q12, q13) + bs.subrange(q13, q14) + bs.subrange(q14, q15) + bs.subrange(q15, q16) + bs.subrange(q16, q17) + bs.subrange(q17, stream.pos()));
        assert(bs.subrange(p0, stream.pos()) =~= spec_telemetry_ack_bytes(p));
    }
    Some(p)
}

/// Equal telemetry bodies are the same record.
#[verifier::rlimit(50)]
pub proof fn lemma_telemetry_ack_bytes_inj(a: TelemetryAckPayload, b: TelemetryAckPayload)
    requires
        spec_telemetry_ack_bytes(a) == spec_telemetry_ack_bytes(b),
    ensures
        a == b,
{
    assert(spec_telemetry_ack_bytes(a) =~= spec_hash_bytes(a.node_id) + (spec_sig_bytes(a.signature) + (spec_be64(a.block_count) + (spec_be64(a.cemented_count) + (spec_be64(a.unchecked_count) + (spec_be64(a.account_count) + (spec_be64(a.bandwidth_cap) + (spec_be64(a.uptime) + (spec_be32(a.peer_count) + (seq![a.protocol_version] + (spec_hash_bytes(a.genesis_block) + (seq![a.major_version] + (seq![a.minor_version] + (seq![a.patch_version] + (seq![a.pre_release_version] + (seq![a.maker] + (spec_be64(a.timestamp) + (spec_be64(a.active_difficulty)))))))))))))))))));
    assert(spec_telemetry_ack_bytes(b) =~= spec_hash_bytes(b.node_id) + (spec_sig_bytes(b.signature) + (spec_be64(b.block_count) + (spec_be64(b.cemented_count) + (spec_be64(b.unchecked_count) + (spec_be64(b.account_count) + (spec_be64(b.bandwidth_cap) + (spec_be64(b.uptime) + (spec_be32(b.peer_count) + (seq![b.protocol_version] + (spec_hash_bytes(b.genesis_block) + (seq![b.major_version] + (seq![b.minor_version] + (seq![b.patch_version] + (seq![b.pre_release_version] + (seq![b.maker] + (spec_be64(b.timestamp) + (spec_be64(b.active_difficulty)))))))))))))))))));
    lemma_concat_split(spec_hash_bytes(a.node_id), spec_sig_bytes(a.signature) + (spec_be64(a.block_count) + (spec_be64(a.cemented_count) + (spec_be64(a.unchecked_count) + (spec_be64(a.account_count) + (spec_be64(a.bandwidth_cap) + (spec_be64(a.uptime) + (spec_be32(a.peer_count) + (seq![a.protocol_version] + (spec_hash_bytes(a.genesis_block) + (seq![a.major_version] + (seq![a.minor_version] + (seq![a.patch_version] + (seq![a.pre_release_version] + (seq![a.maker] + (spec_be64(a.timestamp) + (spec_be64(a.active_difficulty))))))))))))))))), spec_hash_bytes(b.node_id), spec_sig_bytes(b.signature) + (spec_be64(b.block_count) + (spec_be64(b.cemented_count) + (spec_be64(b.unchecked_count) + (spec_be64(b.account_count) + (spec_be64(b.bandwidth_cap) + (spec_be64(b.uptime) + (spec_be32(b.peer_count) + (seq![b.protocol_version] + (spec_hash_bytes(b.genesis_block) + (seq![b.major_version] + (seq![b.minor_version] + (seq![b.patch_version] + (seq![b.pre_release_version] + (seq![b.maker] + (spec_be64(b.timestamp) + (spec_be64(b.active_difficulty))))))))))))))))));
    lemma_concat_split(spec_sig_bytes(a.signature), spec_be64(a.block_count) + (spec_be64(a.cemented_count) + (spec_be64(a.unchecked_count) + (spec_be64(a.account_count) + (spec_be64(a.bandwidth_cap) + (spec_be64(a.uptime) + (spec_be32(a.peer_count) + (seq![a.protocol_version] + (spec_hash_bytes(a.genesis_block) + (seq![a.major_version] + (seq![a.minor_version] + (seq![a.patch_version] + (seq![a.pre_release_version] + (seq![a.maker] + (spec_be64(a.timestamp) + (spec_be64(a.active_difficulty)))))))))))))))), spec_sig_bytes(b.signature), spec_be64(b.block_count) + (spec_be64(b.cemented_count) + (spec_be64(b.unchecked_count) + (spec_be64(b.account_count) + (spec_be64(b.bandwidth_cap) + (spec_be64(b.uptime) + (spec_be32(b.peer_count) + (seq![b.protocol_version] + (spec_hash_bytes(b.genesis_block) + (seq![b.major_version] + (seq![b.minor_version] + (seq![b.patch_version] + (seq![b.pre_release_version] + (seq![b.maker] + (spec_be64(b.timestamp) + (spec_be64(b.active_difficulty)))))))))))))))));
    lemma_concat_split(spec_be64(a.block_count), spec_be64(a.cemented_count) + (spec_be64(a.unchecked_count) + (spec_be64(a.account_count) + (spec_be64(a.bandwidth_cap) + (spec_be64(a.uptime) + (spec_be32(a.peer_count) + (seq![a.protocol_version] + (spec_hash_bytes(a.genesis_block) + (seq![a.major_version] + (seq![a.minor_version] + (seq![a.patch_version] + (seq![a.pre_release_version] + (seq![a.maker] + (spec_be64(a.timestamp) + (spec_be64(a.active_difficulty))))))))))))))), spec_be64(b.block_count), spec_be64(b.cemented_count) + (spec_be64(b.unchecked_count) + (spec_be64(b.account_count) + (spec_be64(b.bandwidth_cap) + (spec_be64(b.uptime) + (spec_be32(b.peer_count) + (seq![b.protocol_version] + (spec_hash_bytes(b.genesis_block) + (seq![b.major_version] + (seq![b.minor_version] + (seq![b.patch_version] + (seq![b.pre_release_version] + (seq![b.maker] + (spec_be64(b.timestamp) + (spec_be64(b.active_difficulty))))))))))))))));
    lemma_concat_split(spec_be64(a.cemented_count), spec_be64(a.unchecked_count) + (spec_be64(a.account_count) + (spec_be64(a.bandwidth_cap) + (spec_be64(a.uptime) + (spec_be32(a.peer_count) + (seq![a.protocol_version] + (spec_hash_bytes(a.genesis_block) + (seq![a.major_version] + (seq![a.minor_version] + (seq![a.patch_version] + (seq![a.pre_release_version] + (seq![a.maker] + (spec_be64(a.timestamp) + (spec_be64(a.active_difficulty)))))))))))))), spec_be64(b.cemented_count), spec_be64(b.unchecked_count) + (spec_be64(b.account_count) + (spec_be64(b.bandwidth_cap) + (spec_be64(b.uptime) + (spec_be32(b.peer_count) + (seq![b.protocol_version] + (spec_hash_bytes(b.genesis_block) + (seq![b.major_version] + (seq![b.minor_version] + (seq![b.patch_version] + (seq![b.pre_release_version] + (seq![b.maker] + (spec_be64(b.timestamp) + (spec_be64(b.active_difficulty)))))))))))))));
    lemma_concat_split(spec_be64(a.unchecked_count), spec_be64(a.account_count) + (spec_be64(a.bandwidth_cap) + (spec_be64(a.uptime) + (spec_be32(a.peer_count) + (seq![a.protocol_version] + (spec_hash_bytes(a.genesis_block) + (seq![a.major_version] + (seq![a.minor_version] + (seq![a.patch_version] + (seq![a.pre_release_version] + (seq![a.maker] + (spec_be64(a.timestamp) + (spec_be64(a.active_difficulty))))))))))))), spec_be64(b.unchecked_count), spec_be64(b.account_count) + (spec_be64(b.bandwidth_cap) + (spec_be64(b.uptime) + (spec_be32(b.peer_count) + (seq![b.protocol_version] + (spec_hash_bytes(b.genesis_block) + (seq![b.major_version] + (seq![b.minor_version] + (seq![b.patch_version] + (seq![b.pre_release_version] + (seq![b.maker] + (spec_be64(b.timestamp) + (spec_be64(b.active_difficulty))))))))))))));
    lemma_concat_split(spec_be64(a.account_count), spec_be64(a.bandwidth_cap) + (spec_be64(a.uptime) + (spec_be32(a.peer_count) + (seq![a.protocol_version] + (spec_hash_bytes(a.genesis_block) + (seq![a.major_version] + (seq![a.minor_version] + (seq![a.patch_version] + (seq![a.pre_release_version] + (seq![a.maker] + (spec_be64(a.timestamp) + (spec_be64(a.active_difficulty)))))))))))), spec_be64(b.account_count), spec_be64(b.bandwidth_cap) + (spec_be64(b.uptime) + (spec_be32(b.peer_count) + (seq![b.protocol_version] + (spec_hash_bytes(b.genesis_block) + (seq![b.major_version] + (seq![b.minor_version] + (seq![b.patch_version] + (seq![b.pre_release_version] + (seq![b.maker] + (spec_be64(b.timestamp) + (spec_be64(b.active_difficulty)))))))))))));
    lemma_concat_split(spec_be64(a.bandwidth_cap), spec_be64(a.uptime) + (spec_be32(a.peer_count) + (seq![a.protocol_version] + (spec_hash_bytes(a.genesis_block) + (seq![a.major_version] + (seq![a.minor_version] + (seq![a.patch_version] + (seq![a.pre_release_version] + (seq![a.maker] + (spec_be64(a.timestamp) + (spec_be64(a.active_difficulty))))))))))), spec_be64(b.bandwidth_cap), spec_be64(b.uptime) + (spec_be32(b.peer_count) + (seq![b.protocol_version] + (spec_hash_bytes(b.genesis_block) + (seq![b.major_version] + (seq![b.minor_version] + (seq![b.patch_version] + (seq![b.pre_release_version] + (seq![b.maker] + (spec_be64(b.timestamp) + (spec_be64(b.active_difficulty))))))))))));
    lemma_concat_split(spec_be64(a.uptime), spec_be32(a.peer_count) + (seq![a.protocol_version] + (spec_hash_bytes(a.genesis_block) + (seq![a.major_version] + (seq![a.minor_version] + (seq![a.patch_version] + (seq![a.pre_release_version] + (seq![a.maker] + (spec_be64(a.timestamp) + (spec_be64(a.active_difficulty)))))))))), spec_be64(b.uptime), spec_be32(b.peer_count) + (seq![b.protocol_version] + (spec_hash_bytes(b.genesis_block) + (seq![b.major_version] + (seq![b.minor_version] + (seq![b.patch_version] + (seq![b.pre_release_version] + (seq![b.maker] + (spec_be64(b.timestamp) + (spec_be64(b.active_difficulty)))))))))));
    lemma_concat_split(spec_be32(a.peer_count), seq![a.protocol_version] + (spec_hash_bytes(a.genesis_block) + (seq![a.major_version] + (seq![a.minor_version] + (seq![a.patch_version] + (seq![a.pre_release_version] + (seq![a.maker] + (spec_be64(a.timestamp) + (spec_be64(a.active_difficulty))))))))), spec_be32(b.peer_count), seq![b.protocol_version] + (spec_hash_bytes(b.genesis_block) + (seq![b.major_version] + (seq![b.minor_version] + (seq![b.patch_version] + (seq![b.pre_release_version] + (seq![b.maker] + (spec_be64(b.timestamp) + (spec_be64(b.active_difficulty))))))))));
    lemma_concat_split(seq![a.protocol_version], spec_hash_bytes(a.genesis_block) + (seq![a.major_version] + (seq![a.minor_version] + (seq![a.patch_version] + (seq![a.pre_release_version] + (seq![a.maker] + (spec_be64(a.timestamp) + (spec_be64(a.active_difficulty)))))))), seq![b.protocol_version], spec_hash_bytes(b.genesis_block) + (seq![b.major_version] + (seq![b.minor_version] + (seq![b.patch_version] + (seq![b.pre_release_version] + (seq![b.maker] + (spec_be64(b.timestamp) + (spec_be64(b.active_difficulty)))))))));
    lemma_concat_split(spec_hash_bytes(a.genesis_block), seq![a.major_version] + (seq![a.minor_version] + (seq![a.patch_version] + (seq![a.pre_release_version] + (seq![a.maker] + (spec_be64(a.timestamp) + (spec_be64(a.active_difficulty))))))), spec_hash_bytes(b.genesis_block), seq![b.major_version] + (seq![b.minor_version] + (seq![b.patch_version] + (seq![b.pre_release_version] + (seq![b.maker] + (spec_be64(b.timestamp) + (spec_be64(b.active_difficulty))))))));
    lemma_concat_split(seq![a.major_version], seq![a.minor_version] + (seq![a.patch_version] + (seq![a.pre_release_version] + (seq![a.maker] + (spec_be64(a.timestamp) + (spec_be64(a.active_difficulty)))))), seq![b.major_version], seq![b.minor_version] + (seq![b.patch_version] + (seq![b.pre_release_version] + (seq![b.maker] + (spec_be64(b.timestamp) + (spec_be64(b.active_difficulty)))))));
    lemma_concat_split(seq![a.minor_version], seq![a.patch_version] + (seq![a.pre_release_version] + (seq![a.maker] + (spec_be64(a.timestamp) + (spec_be64(a.active_difficulty))))), seq![b.minor_version], seq![b.patch_version] + (seq![b.pre_release_version] + (seq![b.maker] + (spec_be64(b.timestamp) + (spec_be64(b.active_difficulty))))));
    lemma_concat_split(seq![a.patch_version], seq![a.pre_release_version] + (seq![a.maker] + (spec_be64(a.timestamp) + (spec_be64(a.active_difficulty)))), seq![b.patch_version], seq![b.pre_release_version] + (seq![b.maker] + (spec_be64(b.timestamp) + (spec_be64(b.active_difficulty)))));
    lemma_concat_split(seq![a.pre_release_version], seq![a.maker] + (spec_be64(a.timestamp) + (spec_be64(a.active_difficulty))), seq![b.pre_release_version], seq![b.maker] + (spec_be64(b.timestamp) + (spec_be64(b.active_difficulty))));
    lemma_concat_split(seq![a.maker], spec_be64(a.timestamp) + (spec_be64(a.active_difficulty)), seq![b.maker], spec_be64(b.timestamp) + (spec_be64(b.active_difficulty)));
    lemma_concat_split(spec_be64(a.timestamp), spec_be64(a.active_difficulty), spec_be64(b.timestamp), spec_be64(b.active_difficulty));
    lemma_hash_bytes_inj(a.node_id, b.node_id);
    lemma_sig_bytes_inj(a.signature, b.signature);
    lemma_be64_inj(a.block_count, b.block_count);
    lemma_be64_inj(a.cemented_count, b.cemented_count);
    lemma_be64_inj(a.unchecked_count, b.unchecked_count);
    lemma_be64_inj(a.account_count, b.account_count);
    lemma_be64_inj(a.bandwidth_cap, b.bandwidth_cap);
    lemma_be64_inj(a.uptime, b.uptime);
    lemma_be32_inj(a.peer_count, b.peer_count);
    assert(seq![a.protocol_version][0] == seq![b.protocol_version][0]);
    lemma_hash_bytes_inj(a.genesis_block, b.genesis_block);
    assert(seq![a.major_version][0] == seq![b.major_version][0]);
    assert(seq![a.minor_version][0] == seq![b.minor_version][0]);
    assert(seq![a.patch_version][0] == seq![b.patch_version][0]);
    assert(seq![a.pre_release_version][0] == seq![b.pre_release_version][0]);
    assert(seq![a.maker][0] == seq![b.maker][0]);
    lemma_be64_inj(a.timestamp, b.timestamp);
    lemma_be64_inj(a.active_difficulty, b.active_difficulty);
}

/// Every message payload this codec carries.
#[derive(Clone, Debug)]
pub enum Payload {
    Keepalive(KeepalivePayload),
    Publish(PublishPayload),
    ConfirmReq(ConfirmReqPayload),
    NodeIdHandshake(NodeIdHandshakePayload),
    BulkPullAccount(BulkPullAccountPayload),
    TelemetryReq,
    BulkPush,
    FrontierReq(FrontierReqPayload),
    ConfirmAck(VotePayload),
    TelemetryAck(TelemetryAckPayload),
    BulkPull(BulkPullPayload),
    AscPullReq(AscPullReqPayload),
    AscPullAck(AscPullAckPayload),
}

/// A framed message: the header and its payload.
#[derive(Clone, Debug)]
pub struct MessageEnum {
    pub header: MessageHeader,
    pub payload: Payload,
}

pub open spec fn spec_handshake_bytes(p: NodeIdHandshakePayload) -> Seq<u8> {
    (match p.query {
        Some(q) => spec_hash_bytes(q.cookie),
        None => Seq::<u8>::empty(),
    }) + (match p.response {
        Some(resp) => spec_hash_bytes(resp.node_id) + spec_sig_bytes(resp.signature),
        None => Seq::<u8>::empty(),
    })
}

pub open spec fn spec_bulk_pull_account_bytes(p: BulkPullAccountPayload) -> Seq<u8> {
    spec_hash_bytes(p.account) + spec_be128(p.minimum_amount.raw) + seq![p.flags.spec_code()]
}

pub open spec fn spec_frontier_req_bytes(p: FrontierReqPayload) -> Seq<u8> {
    spec_hash_bytes(p.start) + spec_be32(p.age) + spec_be32(p.count)
}

pub open spec fn spec_account_info_ack_bytes(p: AccountInfoAckPayload) -> Seq<u8> {
    spec_hash_bytes(p.account) + spec_hash_bytes(p.account_open) + spec_hash_bytes(p.account_head)
        + spec_be64(p.account_block_count) + spec_hash_bytes(p.account_conf_frontier) + spec_be64(
        p.account_conf_height,
    )
}

pub open spec fn spec_asc_ack_type_code(t: AscPullAckType) -> u8 {
    match t {
        AscPullAckType::Blocks(_) => 1,
        AscPullAckType::AccountInfo(_) => 2,
    }
}

pub open spec fn spec_asc_ack_inner_bytes(t: AscPullAckType) -> Seq<u8> {
    match t {
        AscPullAckType::Blocks(b) => spec_block_list_bytes(b.blocks@),
        AscPullAckType::AccountInfo(a) => spec_account_info_ack_bytes(a),
    }
}

pub open spec fn spec_asc_ack_bytes(p: AscPullAckPayload) -> Seq<u8> {
    seq![spec_asc_ack_type_code(p.pull_type)] + spec_be64(p.id) + spec_asc_ack_inner_bytes(
        p.pull_type,
    )
}

pub open spec fn spec_hash_enc() -> spec_fn(BlockHash) -> Seq<u8> {
    |h: BlockHash| spec_hash_bytes(h)
}

pub open spec fn spec_vote_bytes(p: VotePayload) -> Seq<u8> {
    spec_hash_bytes(p.account) + spec_sig_bytes(p.signature) + spec_be64(p.timestamp)
        + spec_list_bytes_from(p.hashes@, 0, spec_hash_enc())
}

pub open spec fn spec_bulk_pull_bytes(p: BulkPullPayload) -> Seq<u8> {
    spec_hash_bytes(p.start) + spec_hash_bytes(p.end) + spec_be32(p.count)
}

pub open spec fn spec_asc_req_type_code(t: AscPullReqType) -> u8 {
    match t {
        AscPullReqType::Blocks(_) => 1,
        AscPullReqType::AccountInfo(_) => 2,
    }
}

pub open spec fn spec_asc_req_inner_bytes(t: AscPullReqType) -> Seq<u8> {
    match t {
        AscPullReqType::Blocks(b) => spec_hash_bytes(b.start) + seq![b.count],
        AscPullReqType::AccountInfo(a) => spec_hash_bytes(a.target),
    }
}

pub open spec fn spec_asc_req_bytes(p: AscPullReqPayload) -> Seq<u8> {
    seq![spec_asc_req_type_code(p.req_type)] + spec_be64(p.id) + spec_asc_req_inner_bytes(
        p.req_type,
    )
}

pub open spec fn spec_payload_bytes(p: Payload) -> Seq<u8> {
    match p {
        Payload::Keepalive(k) => spec_list_bytes_from(k.peers@, 0, spec_peer_enc()),
        Payload::Publish(b) => b.block.spec_body_bytes(),
        Payload::ConfirmReq(c) => match c.block {
            Some(b) => b.spec_body_bytes(),
            None => spec_list_bytes_from(c.roots_hashes@, 0, spec_pair_enc()),
        },
        Payload::NodeIdHandshake(h) => spec_handshake_bytes(h),
        Payload::BulkPullAccount(b) => spec_bulk_pull_account_bytes(b),
        Payload::TelemetryReq => Seq::<u8>::empty(),
        Payload::BulkPush => Seq::<u8>::empty(),
        Payload::FrontierReq(f) => spec_frontier_req_bytes(f),
        Payload::ConfirmAck(v) => spec_vote_bytes(v),
        Payload::TelemetryAck(t) => spec_telemetry_ack_bytes(t),
        Payload::BulkPull(b) => spec_bulk_pull_bytes(b),
        Payload::AscPullReq(a) => spec_asc_req_bytes(a),
        Payload::AscPullAck(a) => spec_asc_ack_bytes(a),
    }
}

pub open spec fn spec_message_bytes(m: MessageEnum) -> Seq<u8> {
    spec_header_bytes(m.header) + spec_payload_bytes(m.payload)
}

/// The header agrees with the payload: the type tag matches the variant,
/// and the extension bits carry what the payload's wire form needs.
pub open spec fn spec_wf_message(m: MessageEnum) -> bool {
    match m.payload {
        Payload::Keepalive(k) => m.header.message_type == MessageType::Keepalive && k.peers@.len()
            == 8,
        Payload::Publish(p) => m.header.message_type == MessageType::Publish
            && p.block.spec_no_sideband() && m.header.spec_block_type_bits()
            == p.block.spec_block_type().spec_code(),
        Payload::ConfirmReq(c) => m.header.message_type == MessageType::ConfirmReq && match c.block {
            Some(b) => b.spec_no_sideband() && m.header.spec_block_type_bits()
                == b.spec_block_type().spec_code() && c.roots_hashes@.len() == 0,
            None => m.header.spec_block_type_bits() == 1 && 1 <= c.roots_hashes@.len() <= 15
                && m.header.spec_count_bits() == c.roots_hashes@.len() && (forall|k: int|
                0 <= k < c.roots_hashes@.len() ==> !((#[trigger] c.roots_hashes@[k]).hash.spec_is_zero()
                    && c.roots_hashes@[k].root.spec_is_zero())),
        },
        Payload::NodeIdHandshake(h) => m.header.message_type == MessageType::NodeIdHandshake
            && m.header.spec_query_flag() == (h.query is Some) && m.header.spec_response_flag() == (
        h.response is Some),
        Payload::BulkPullAccount(_) => m.header.message_type == MessageType::BulkPullAccount,
        Payload::TelemetryReq => m.header.message_type == MessageType::TelemetryReq,
        Payload::BulkPush => m.header.message_type == MessageType::BulkPush,
        Payload::FrontierReq(_) => m.header.message_type == MessageType::FrontierReq,
        Payload::ConfirmAck(v) => m.header.message_type == MessageType::ConfirmAck && 1
            <= v.hashes@.len() <= 12 && m.header.spec_count_bits() == v.hashes@.len(),
        Payload::TelemetryAck(_) => m.header.message_type == MessageType::TelemetryAck
            && m.header.extensions == TELEMETRY_ACK_SIZE,
        Payload::BulkPull(_) => m.header.message_type == MessageType::BulkPull,
        Payload::AscPullReq(a) => m.header.message_type == MessageType::AscPullReq
            && m.header.extensions as int == spec_asc_req_inner_bytes(a.req_type).len(),
        Payload::AscPullAck(a) => m.header.message_type == MessageType::AscPullAck && (match a.pull_type {
            AscPullAckType::Blocks(b) => b.blocks@.len() <= 128 && forall|k: int|
                0 <= k < b.blocks@.len() ==> (#[trigger] b.blocks@[k]).spec_no_sideband(),
            AscPullAckType::AccountInfo(_) => true,
        }) && m.header.extensions as int == spec_asc_ack_inner_bytes(a.pull_type).len(),
    }
}


/// Writes a peer endpoint.
fn write_peer(stream: &mut MemoryStream, e: &EndpointV6)
    requires
        old(stream).wf(),
    ensures
        final(stream).wf(),
        final(stream).bytes() == old(stream).bytes() + spec_peer_bytes(*e),
        final(stream).pos() == old(stream).pos(),
{
    stream.write_u64_be(e.ip_hi);
    stream.write_u64_be(e.ip_lo);
    stream.write_u16_be(e.port);
    proof {
        assert(stream.bytes() =~= old(stream).bytes() + spec_peer_bytes(*e));
    }
}

/// Reads a peer endpoint.
fn read_peer(stream: &mut MemoryStream) -> (r: Option<EndpointV6>)
    requires
        old(stream).wf(),
    ensures
        final(stream).wf(),
        final(stream).bytes() == old(stream).bytes(),
        r matches Some(e) ==> final(stream).pos() == old(stream).pos() + 18 && old(stream).bytes().subrange(old(stream).pos(), final(stream).pos()) == spec_peer_bytes(e),
        r is None ==> final(stream).pos() == old(stream).pos() && old(stream).pos() + 18 > old(stream).bytes().len(),
{
    if stream.remaining() < 18 {
        return None;
    }
    let ghost p0 = stream.pos();
    let ip_hi = stream.read_u64_be().unwrap();
    let ghost p1 = stream.pos();
    let ip_lo = stream.read_u64_be().unwrap();
    let ghost p2 = stream.pos();
    let port = stream.read_u16_be().unwrap();
    let e = EndpointV6 { ip_hi, ip_lo, port };
    proof {
        let bs = old(stream).bytes();
        assert(bs.subrange(p0, stream.pos()) =~= bs.subrange(p0, p1) + bs.subrange(p1, p2)
            + bs.subrange(p2, stream.pos()));
        assert(bs.subrange(p0, stream.pos()) =~= spec_peer_bytes(e));
    }
    Some(e)
}

/// Writes the eight keepalive peers.
fn write_peer_list(stream: &mut MemoryStream, peers: &Vec<EndpointV6>)
    requires
        old(stream).wf(),
    ensures
        final(stream).wf(),
        final(stream).bytes() == old(stream).bytes() + spec_list_bytes_from(
            peers@,
            0,
            spec_peer_enc(),
        ),
        final(stream).pos() == old(stream).pos(),
{
    let ghost f = spec_peer_enc();
    let mut i: usize = 0;
    while i < peers.len()
        invariant
            f == spec_peer_enc(),
            stream.wf(),
            i <= peers@.len(),
            stream.bytes() == old(stream).bytes() + spec_list_bytes_upto(peers@, i as int, f),
            stream.pos() == old(stream).pos(),
        decreases peers@.len() - i,
    {
        write_peer(stream, &peers[i]);
        i = i + 1;
        proof {
            assert(spec_list_bytes_upto(peers@, i as int, f) == spec_list_bytes_upto(
                peers@,
                i as int - 1,
                f,
            ) + f(peers@[i as int - 1]));
            assert(f(peers@[i as int - 1]) == spec_peer_bytes(peers@[i as int - 1]));
            assert(stream.bytes() =~= old(stream).bytes() + spec_list_bytes_upto(
                peers@,
                i as int,
                f,
            ));
        }
    }
    proof {
        lemma_list_upto_from(peers@, peers@.len() as int, f);
        assert(spec_list_bytes_upto(peers@, peers@.len() as int, f) =~= spec_list_bytes_upto(
            peers@,
            peers@.len() as int,
            f,
        ) + spec_list_bytes_from(peers@, peers@.len() as int, f));
    }
}

/// Reads `count` keepalive peers.
fn read_peer_list(stream: &mut MemoryStream, count: usize) -> (r: Option<Vec<EndpointV6>>)
    requires
        old(stream).wf(),
    ensures
        final(stream).wf(),
        final(stream).bytes() == old(stream).bytes(),
        r matches Some(v) ==> v@.len() == count && old(stream).bytes().subrange(
            old(stream).pos(),
            final(stream).pos(),
        ) == spec_list_bytes_from(v@, 0, spec_peer_enc()) && final(stream).pos() >= old(stream).pos(),
        r is None ==> old(stream).pos() + 18 * count > old(stream).bytes().len(),
{
    let ghost f = spec_peer_enc();
    let ghost p0 = stream.pos();
    let mut out: Vec<EndpointV6> = Vec::new();
    let mut i: usize = 0;
    while i < count
        invariant
            f == spec_peer_enc(),
            stream.wf(),
            stream.bytes() == old(stream).bytes(),
            i <= count,
            out@.len() == i,
            p0 == old(stream).pos(),
            0 <= p0,
            stream.pos() == p0 + 18 * i,
            old(stream).bytes().subrange(p0, stream.pos()) == spec_list_bytes_upto(
                out@,
                i as int,
                f,
            ),
        decreases count - i,
    {
        let ghost out0 = out@;
        let ghost pa = stream.pos();
        let e = match read_peer(stream) {
            Some(e) => e,
            None => {
                return None;
            }
        };
        out.push(e);
        i = i + 1;
        proof {
            lemma_list_upto_stable(out0, out@, i as int - 1, f);
            assert(spec_list_bytes_upto(out@, i as int, f) == spec_list_bytes_upto(
                out@,
                i as int - 1,
                f,
            ) + f(out@[i as int - 1]));
            let bs = old(stream).bytes();
            assert(bs.subrange(p0, stream.pos()) =~= bs.subrange(p0, pa) + bs.subrange(
                pa,
                stream.pos(),
            ));
        }
    }
    proof {
        lemma_list_upto_from(out@, out@.len() as int, f);
        assert(spec_list_bytes_upto(out@, out@.len() as int, f) =~= spec_list_bytes_from(
            out@,
            0,
            f,
        ));
    }
    Some(out)
}

/// Writes the hash/root pairs of a vote request.
fn write_pair_list(stream: &mut MemoryStream, pairs: &Vec<RootHashPair>)
    requires
        old(stream).wf(),
    ensures
        final(stream).wf(),
        final(stream).bytes() == old(stream).bytes() + spec_list_bytes_from(
            pairs@,
            0,
            spec_pair_enc(),
        ),
        final(stream).pos() == old(stream).pos(),
{
    let ghost f = spec_pair_enc();
    let mut i: usize = 0;
    while i < pairs.len()
        invariant
            f == spec_pair_enc(),
            stream.wf(),
            i <= pairs@.len(),
            stream.bytes() == old(stream).bytes() + spec_list_bytes_upto(pairs@, i as int, f),
            stream.pos() == old(stream).pos(),
        decreases pairs@.len() - i,
    {
        let p = pairs[i];
        stream.write_hash(&p.hash);
        stream.write_hash(&p.root);
        i = i + 1;
        proof {
            assert(spec_list_bytes_upto(pairs@, i as int, f) == spec_list_bytes_upto(
                pairs@,
                i as int - 1,
                f,
            ) + f(pairs@[i as int - 1]));
            assert(f(pairs@[i as int - 1]) == spec_pair_bytes(pairs@[i as int - 1]));
            assert(stream.bytes() =~= old(stream).bytes() + spec_list_bytes_upto(
                pairs@,
                i as int,
                f,
            ));
        }
    }
    proof {
        lemma_list_upto_from(pairs@, pairs@.len() as int, f);
        assert(spec_list_bytes_upto(pairs@, pairs@.len() as int, f) =~= spec_list_bytes_from(
            pairs@,
            0,
            f,
        ));
    }
}

/// Reads `count` hash/root pairs.
fn read_pair_list(stream: &mut MemoryStream, count: usize) -> (r: Option<Vec<RootHashPair>>)
    requires
        old(stream).wf(),
    ensures
        final(stream).wf(),
        final(stream).bytes() == old(stream).bytes(),
        r matches Some(v) ==> v@.len() == count && old(stream).bytes().subrange(
            old(stream).pos(),
            final(stream).pos(),
        ) == spec_list_bytes_from(v@, 0, spec_pair_enc()) && final(stream).pos() >= old(stream).pos(),
        r is None ==> old(stream).pos() + 64 * count > old(stream).bytes().len(),
{
    let ghost f = spec_pair_enc();
    let ghost p0 = stream.pos();
    let mut out: Vec<RootHashPair> = Vec::new();
    let mut i: usize = 0;
    while i < count
        invariant
            f == spec_pair_enc(),
            stream.wf(),
            stream.bytes() == old(stream).bytes(),
            i <= count,
            out@.len() == i,
            p0 == old(stream).pos(),
            0 <= p0,
            stream.pos() == p0 + 64 * i,
            old(stream).bytes().subrange(p0, stream.pos()) == spec_list_bytes_upto(
                out@,
                i as int,
                f,
            ),
        decreases count - i,
    {
        let ghost out0 = out@;
        let ghost pa = stream.pos();
        let hash = match stream.read_hash() {
            Some(h) => h,
            None => {
                return None;
            }
        };
        let ghost pb = stream.pos();
        let root = match stream.read_hash() {
            Some(h) => h,
            None => {
                return None;
            }
        };
        let pair = RootHashPair { hash, root };
        out.push(pair);
        i = i + 1;
        proof {
            lemma_list_upto_stable(out0, out@, i as int - 1, f);
            assert(spec_list_bytes_upto(out@, i as int, f) == spec_list_bytes_upto(
                out@,
                i as int - 1,
                f,
            ) + f(out@[i as int - 1]));
            let bs = old(stream).bytes();
            assert(bs.subrange(pa, stream.pos()) =~= bs.subrange(pa, pb) + bs.subrange(
                pb,
                stream.pos(),
            ));
            assert(bs.subrange(pa, stream.pos()) =~= spec_pair_bytes(pair));
            assert(bs.subrange(p0, stream.pos()) =~= bs.subrange(p0, pa) + bs.subrange(
                pa,
                stream.pos(),
            ));
        }
    }
    proof {
        lemma_list_upto_from(out@, out@.len() as int, f);
        assert(spec_list_bytes_upto(out@, out@.len() as int, f) =~= spec_list_bytes_from(
            out@,
            0,
            f,
        ));
    }
    Some(out)
}

/// Writes a block list with its terminator.
fn write_block_list(stream: &mut MemoryStream, blocks: &Vec<BlockEnum>)
    requires
        old(stream).wf(),
    ensures
        final(stream).wf(),
        final(stream).bytes() == old(stream).bytes() + spec_block_list_bytes(blocks@),
        final(stream).pos() == old(stream).pos(),
{
    let ghost f = spec_block_enc();
    let mut i: usize = 0;
    while i < blocks.len()
        invariant
            f == spec_block_enc(),
            stream.wf(),
            i <= blocks@.len(),
            stream.bytes() == old(stream).bytes() + spec_list_bytes_upto(blocks@, i as int, f),
            stream.pos() == old(stream).pos(),
        decreases blocks@.len() - i,
    {
        let b = blocks[i];
        b.serialize(stream);
        i = i + 1;
        proof {
            assert(spec_list_bytes_upto(blocks@, i as int, f) == spec_list_bytes_upto(
                blocks@,
                i as int - 1,
                f,
            ) + f(blocks@[i as int - 1]));
            assert(f(blocks@[i as int - 1]) == blocks@[i as int - 1].spec_block_bytes());
            assert(stream.bytes() =~= old(stream).bytes() + spec_list_bytes_upto(
                blocks@,
                i as int,
                f,
            ));
        }
    }
    stream.write_u8(1);
    proof {
        lemma_list_upto_from(blocks@, blocks@.len() as int, f);
        assert(spec_list_bytes_upto(blocks@, blocks@.len() as int, f) =~= spec_list_bytes_from(
            blocks@,
            0,
            f,
        ));
        assert(stream.bytes() =~= old(stream).bytes() + spec_block_list_bytes(blocks@));
    }
}

/// The bytes at `pos` are the wire form of the block list `bs`.
pub open spec fn spec_block_list_at(bytes: Seq<u8>, pos: int, bs: Seq<BlockEnum>) -> bool {
    &&& 0 <= pos
    &&& (forall|k: int| 0 <= k < bs.len() ==> (#[trigger] bs[k]).spec_no_sideband())
    &&& pos + spec_block_list_bytes(bs).len() <= bytes.len()
    &&& bytes.subrange(pos, pos + spec_block_list_bytes(bs).len()) == spec_block_list_bytes(bs)
}

/// Dropping a leading item shifts the list encoding by one position.
pub proof fn lemma_list_from_shift<T>(b: T, rest: Seq<T>, i: int, f: spec_fn(T) -> Seq<u8>)
    requires
        0 <= i <= rest.len(),
    ensures
        spec_list_bytes_from(seq![b] + rest, i + 1, f) == spec_list_bytes_from(rest, i, f),
    decreases rest.len() - i,
{
    let s = seq![b] + rest;
    if i < rest.len() {
        assert(s[i + 1] == rest[i]);
        lemma_list_from_shift(b, rest, i + 1, f);
    }
}

/// Reads a block list up to its terminator, at most `cap` blocks deep;
/// refuses an unknown type byte or a list over the cap. Whenever the bytes
/// at the cursor encode a block list within the cap, reading succeeds.
#[verifier::rlimit(100)]
fn read_block_list_rec(stream: &mut MemoryStream, cap: usize) -> (r: Option<Vec<BlockEnum>>)
    requires
        old(stream).wf(),
    ensures
        final(stream).wf(),
        final(stream).bytes() == old(stream).bytes(),
        r matches Some(v) ==> v@.len() <= cap && (forall|k: int|
            0 <= k < v@.len() ==> (#[trigger] v@[k]).spec_no_sideband()) && old(stream).bytes().subrange(old(stream).pos(), final(stream).pos()) == spec_block_list_bytes(v@)
            && final(stream).pos() >= old(stream).pos(),
        forall|bs: Seq<BlockEnum>|
            bs.len() <= cap && #[trigger] spec_block_list_at(
                old(stream).bytes(),
                old(stream).pos(),
                bs,
            ) ==> r is Some,
    decreases cap,
{
    let ghost p0 = stream.pos();
    let type_code = match stream.read_u8() {
        Some(c) => c,
        None => {
            proof {
                assert forall|bs: Seq<BlockEnum>|
                    bs.len() <= cap && #[trigger] spec_block_list_at(
                        old(stream).bytes(),
                        p0,
                        bs,
                    ) implies false by {
                    assert(spec_block_list_bytes(bs).len() >= 1);
                }
            }
            return None;
        }
    };
    if type_code == 1 {
        let out: Vec<BlockEnum> = Vec::new();
        proof {
            let bs = old(stream).bytes();
            assert(bs.subrange(p0, stream.pos()) =~= seq![1u8]);
            assert(bs.subrange(p0, stream.pos()) =~= spec_block_list_bytes(out@));
        }
        return Some(out);
    }
    if cap == 0 {
        proof {
            assert forall|bs: Seq<BlockEnum>|
                bs.len() <= cap && #[trigger] spec_block_list_at(
                    old(stream).bytes(),
                    p0,
                    bs,
                ) implies false by {
                assert(bs.len() == 0);
                assert(spec_block_list_bytes(bs) =~= seq![1u8]);
                assert(spec_block_list_bytes(bs).len() == 1);
                assert(old(stream).bytes().subrange(p0, p0 + 1)[0] == old(stream).bytes()[p0]);
                assert(old(stream).bytes()[p0] == 1u8);
            }
        }
        return None;
    }
    proof {
        // a candidate encoding here starts with a real block's type code
        assert forall|bs: Seq<BlockEnum>|
            bs.len() <= cap && #[trigger] spec_block_list_at(
                old(stream).bytes(),
                p0,
                bs,
            ) implies bs.len() > 0 && old(stream).bytes()[p0]
            == bs[0].spec_block_type().spec_code() by {
            if bs.len() == 0 {
                assert(spec_block_list_bytes(bs) =~= seq![1u8]);
                assert(spec_block_list_bytes(bs).len() == 1);
                assert(old(stream).bytes().subrange(p0, p0 + 1)[0] == old(stream).bytes()[p0]);
                assert(old(stream).bytes()[p0] == 1u8);
            } else {
                assert(spec_list_bytes_from(bs, 0, spec_block_enc()) == spec_block_enc()(bs[0])
                    + spec_list_bytes_from(bs, 1, spec_block_enc()));
                assert(spec_block_list_bytes(bs)[0] == bs[0].spec_block_bytes()[0]);
                assert(bs[0].spec_block_bytes()[0] == bs[0].spec_block_type().spec_code());
                assert(old(stream).bytes().subrange(
                    p0,
                    p0 + spec_block_list_bytes(bs).len() as int,
                )[0] == old(stream).bytes()[p0]);
            }
        }
    }
    let bt = match BlockType::from_code(type_code) {
        Some(t) => t,
        None => {
            return None;
        }
    };
    let ghost pb = stream.pos();
    let block = match BlockEnum::deserialize_body(bt, stream) {
        Some(b) => b,
        None => {
            proof {
                assert forall|bs: Seq<BlockEnum>|
                    bs.len() <= cap && #[trigger] spec_block_list_at(
                        old(stream).bytes(),
                        p0,
                        bs,
                    ) implies false by {
                    assert(old(stream).bytes()[p0] == bs[0].spec_block_type().spec_code());
                    assert(bt == bs[0].spec_block_type());
                    assert(spec_block_list_bytes(bs).len() == bs[0].spec_block_bytes().len()
                        + spec_list_bytes_from(bs, 1, spec_block_enc()).len() + 1);
                    assert(bs[0].spec_block_bytes().len() == 1 + spec_serialized_block_size(bt));
                    assert(pb + spec_serialized_block_size(bt) <= old(stream).bytes().len());
                }
            }
            return None;
        }
    };
    let ghost pc = stream.pos();
    let rest = match read_block_list_rec(stream, cap - 1) {
        Some(v) => v,
        None => {
            proof {
                assert forall|bs: Seq<BlockEnum>|
                    bs.len() <= cap && #[trigger] spec_block_list_at(
                        old(stream).bytes(),
                        p0,
                        bs,
                    ) implies false by {
                    let bytes = old(stream).bytes();
                    assert(bt == bs[0].spec_block_type());
                    // the parsed block covers exactly the encoding's first entry
                    assert(bytes.subrange(pb, pc) == block.spec_body_bytes());
                    assert(block.spec_block_type() == bt);
                    let total = spec_block_list_bytes(bs).len();
                    assert(spec_list_bytes_from(bs, 0, spec_block_enc()) == spec_block_enc()(
                        bs[0],
                    ) + spec_list_bytes_from(bs, 1, spec_block_enc()));
                    assert(bs[0].spec_block_bytes().len() == 1 + spec_serialized_block_size(bt));
                    assert(pc == pb + spec_serialized_block_size(bt));
                    // the remainder encodes the tail of the candidate list
                    let tail = bs.drop_first();
                    lemma_list_from_shift(bs[0], tail, 0, spec_block_enc());
                    assert(seq![bs[0]] + tail =~= bs);
                    assert(spec_list_bytes_from(bs, 1, spec_block_enc())
                        == spec_list_bytes_from(tail, 0, spec_block_enc()));
                    assert(spec_block_list_bytes(bs) =~= bs[0].spec_block_bytes()
                        + spec_block_list_bytes(tail));
                    assert(pb == p0 + 1);
                    assert(pc + spec_block_list_bytes(tail).len() == p0 + total);
                    assert forall|k: int|
                        0 <= k < spec_block_list_bytes(tail).len() implies bytes[pc + k]
                        == spec_block_list_bytes(tail)[k] by {
                        assert(bytes.subrange(p0, p0 + total)[pc - p0 + k] == bytes[pc + k]);
                        assert(spec_block_list_bytes(bs)[pc - p0 + k] == (
                        bs[0].spec_block_bytes() + spec_block_list_bytes(tail))[pc - p0 + k]);
                    }
                    assert(bytes.subrange(
                        pc,
                        pc + spec_block_list_bytes(tail).len(),
                    ) =~= spec_block_list_bytes(tail));
                    assert(spec_block_list_at(bytes, pc, tail));
                    assert(tail.len() <= cap - 1);
                }
            }
            return None;
        }
    };
    let mut out: Vec<BlockEnum> = Vec::new();
    out.push(block);
    let mut i: usize = 0;
    while i < rest.len()
        invariant
            i <= rest@.len(),
            out@ =~= seq![block] + rest@.subrange(0, i as int),
        decreases rest@.len() - i,
    {
        out.push(rest[i]);
        i = i + 1;
        proof {
            assert(out@ =~= seq![block] + rest@.subrange(0, i as int));
        }
    }
    proof {
        assert(rest@.subrange(0, rest@.len() as int) =~= rest@);
        assert(out@ =~= seq![block] + rest@);
        let bytes = old(stream).bytes();
        lemma_list_from_shift(block, rest@, 0, spec_block_enc());
        assert(spec_list_bytes_from(out@, 0, spec_block_enc()) == spec_block_enc()(block)
            + spec_list_bytes_from(out@, 1, spec_block_enc()));
        assert(spec_list_bytes_from(out@, 1, spec_block_enc()) == spec_list_bytes_from(
            rest@,
            0,
            spec_block_enc(),
        ));
        assert(bytes.subrange(p0, pb) =~= seq![type_code]);
        assert(bytes.subrange(p0, stream.pos()) =~= bytes.subrange(p0, pb) + bytes.subrange(
            pb,
            pb + spec_serialized_block_size(bt),
        ) + bytes.subrange(pb + spec_serialized_block_size(bt), stream.pos()));
        assert(bytes.subrange(p0, stream.pos()) =~= spec_block_list_bytes(out@));
    }
    Some(out)
}

/// Writes an account-info ascending-pull answer body.
fn write_account_info_ack(stream: &mut MemoryStream, p: &AccountInfoAckPayload)
    requires
        old(stream).wf(),
    ensures
        final(stream).wf(),
        final(stream).bytes() == old(stream).bytes() + spec_account_info_ack_bytes(*p),
        final(stream).pos() == old(stream).pos(),
{
    stream.write_hash(&p.account);
    stream.write_hash(&p.account_open);
    stream.write_hash(&p.account_head);
    stream.write_u64_be(p.account_block_count);
    stream.write_hash(&p.account_conf_frontier);
    stream.write_u64_be(p.account_conf_height);
    proof {
        assert(stream.bytes() =~= old(stream).bytes() + spec_account_info_ack_bytes(*p));
    }
}

/// Reads an account-info ascending-pull answer body.
fn read_account_info_ack(stream: &mut MemoryStream) -> (r: Option<AccountInfoAckPayload>)
    requires
        old(stream).wf(),
    ensures
        final(stream).wf(),
        final(stream).bytes() == old(stream).bytes(),
        r matches Some(p) ==> final(stream).pos() == old(stream).pos() + 144 && old(stream).bytes().subrange(old(stream).pos(), final(stream).pos()) == spec_account_info_ack_bytes(
            p,
        ),
        r is None ==> old(stream).pos() + 144 > old(stream).bytes().len(),
{
    if stream.remaining() < 144 {
        return None;
    }
    let ghost p0 = stream.pos();
    let account = stream.read_hash().unwrap();
    let ghost p1 = stream.pos();
    let account_open = stream.read_hash().unwrap();
    let ghost p2 = stream.pos();
    let account_head = stream.read_hash().unwrap();
    let ghost p3 = stream.pos();
    let account_block_count = stream.read_u64_be().unwrap();
    let ghost p4 = stream.pos();
    let account_conf_frontier = stream.read_hash().unwrap();
    let ghost p5 = stream.pos();
    let account_conf_height = stream.read_u64_be().unwrap();
    let p = AccountInfoAckPayload {
        account,
        account_open,
        account_head,
        account_block_count,
        account_conf_frontier,
        account_conf_height,
    };
    proof {
        let bs = old(stream).bytes();
        assert(bs.subrange(p0, stream.pos()) =~= bs.subrange(p0, p1) + bs.subrange(p1, p2)
            + bs.subrange(p2, p3) + bs.subrange(p3, p4) + bs.subrange(p4, p5) + bs.subrange(
            p5,
            stream.pos(),
        ));
        assert(bs.subrange(p0, stream.pos()) =~= spec_account_info_ack_bytes(p));
    }
    Some(p)
}


/// A block-type code read from the wire maps back to itself.
pub proof fn lemma_block_type_from_code_round(code: u8, t: BlockType)
    requires
        BlockType::spec_from_code(code) == Some(t),
    ensures
        t.spec_code() == code,
{
}

/// The byte length of a block list, for sizing the extensions field.
pub proof fn lemma_block_list_len_bound(s: Seq<BlockEnum>, i: int)
    requires
        0 <= i <= s.len(),
    ensures
        spec_list_bytes_from(s, i, spec_block_enc()).len() <= (s.len() - i) * 217,
    decreases s.len() - i,
{
    if i < s.len() {
        lemma_block_list_len_bound(s, i + 1);
        assert(spec_block_enc()(s[i]).len() <= 217);
        assert((s.len() - i) * 217 == 217 + (s.len() - i - 1) * 217) by (nonlinear_arith);
    } else {
        assert((s.len() - i) * 217 == 0) by (nonlinear_arith)
            requires
                i == s.len(),
        ;
    }
}

impl MessageEnum {
    /// A keepalive carrying eight peer endpoints.
    pub fn new_keepalive(protocol: &ProtocolInfo, peers: Vec<EndpointV6>) -> (r: MessageEnum)
        requires
            peers@.len() == 8,
        ensures
            spec_wf_message(r),
            r.header.message_type == MessageType::Keepalive,
            r.payload matches Payload::Keepalive(k) && k.peers@ == peers@,
    {
        let header = MessageHeader::new(MessageType::Keepalive, protocol);
        MessageEnum { header, payload: Payload::Keepalive(KeepalivePayload { peers }) }
    }

    /// A block gossip message; the header carries the block's type.
    pub fn new_publish(protocol: &ProtocolInfo, block: BlockEnum) -> (r: MessageEnum)
        requires
            block.spec_no_sideband(),
        ensures
            spec_wf_message(r),
            r.header.message_type == MessageType::Publish,
            r.payload matches Payload::Publish(p) && p.block == block,
    {
        let mut header = MessageHeader::new(MessageType::Publish, protocol);
        header.set_block_type(block.block_type().code());
        MessageEnum { header, payload: Payload::Publish(PublishPayload { block }) }
    }

    /// A vote request for one block.
    pub fn new_confirm_req_with_block(protocol: &ProtocolInfo, block: BlockEnum) -> (r:
        MessageEnum)
        requires
            block.spec_no_sideband(),
        ensures
            spec_wf_message(r),
            r.header.message_type == MessageType::ConfirmReq,
            r.payload matches Payload::ConfirmReq(c) && c.block == Some(block)
                && c.roots_hashes@.len() == 0,
    {
        let mut header = MessageHeader::new(MessageType::ConfirmReq, protocol);
        header.set_block_type(block.block_type().code());
        MessageEnum {
            header,
            payload: Payload::ConfirmReq(
                ConfirmReqPayload { block: Some(block), roots_hashes: Vec::new() },
            ),
        }
    }

    /// A vote request for a list of roots and hashes; the header carries
    /// the count and the not-a-block marker. A pair whose hash and root
    /// are both zero never belongs in a request: the decoder rejects it.
    pub fn new_confirm_req_with_roots_hashes(
        protocol: &ProtocolInfo,
        roots_hashes: Vec<RootHashPair>,
    ) -> (r: MessageEnum)
        requires
            1 <= roots_hashes@.len() <= 15,
            forall|k: int|
                0 <= k < roots_hashes@.len() ==> !((#[trigger] roots_hashes@[k]).hash.spec_is_zero()
                    && roots_hashes@[k].root.spec_is_zero()),
        ensures
            spec_wf_message(r),
            r.header.message_type == MessageType::ConfirmReq,
            r.payload matches Payload::ConfirmReq(c) && c.block is None && c.roots_hashes@
                == roots_hashes@,
    {
        let mut header = MessageHeader::new(MessageType::ConfirmReq, protocol);
        header.set_block_type(1);
        let count = roots_hashes.len() as u8;
        header.set_count(count);
        MessageEnum {
            header,
            payload: Payload::ConfirmReq(ConfirmReqPayload { block: None, roots_hashes }),
        }
    }

    /// A node identity handshake with the given phases.
    pub fn new_node_id_handshake(
        protocol: &ProtocolInfo,
        query: Option<HandshakeQuery>,
        response: Option<HandshakeResponse>,
    ) -> (r: MessageEnum)
        ensures
            spec_wf_message(r),
            r.header.message_type == MessageType::NodeIdHandshake,
            r.payload matches Payload::NodeIdHandshake(h) && h.query == query && h.response
                == response,
    {
        let mut header = MessageHeader::new(MessageType::NodeIdHandshake, protocol);
        let q = query.is_some();
        let resp = response.is_some();
        let ext: u16 = (if q {
            1u16
        } else {
            0u16
        }) | (if resp {
            2u16
        } else {
            0u16
        });
        proof {
            assert((0u16 | 0u16) & 1 != 1 && (0u16 | 0u16) & 2 != 2) by (bit_vector);
            assert((1u16 | 0u16) & 1 == 1 && (1u16 | 0u16) & 2 != 2) by (bit_vector);
            assert((0u16 | 2u16) & 1 != 1 && (0u16 | 2u16) & 2 == 2) by (bit_vector);
            assert((1u16 | 2u16) & 1 == 1 && (1u16 | 2u16) & 2 == 2) by (bit_vector);
        }
        header.extensions = ext;
        MessageEnum {
            header,
            payload: Payload::NodeIdHandshake(NodeIdHandshakePayload { query, response }),
        }
    }

    /// A receivables request.
    pub fn new_bulk_pull_account(protocol: &ProtocolInfo, payload: BulkPullAccountPayload) -> (r:
        MessageEnum)
        ensures
            spec_wf_message(r),
            r.header.message_type == MessageType::BulkPullAccount,
            r.payload matches Payload::BulkPullAccount(p) && p == payload,
    {
        let header = MessageHeader::new(MessageType::BulkPullAccount, protocol);
        MessageEnum { header, payload: Payload::BulkPullAccount(payload) }
    }

    /// A telemetry request; it has no body.
    pub fn new_telemetry_req(protocol: &ProtocolInfo) -> (r: MessageEnum)
        ensures
            spec_wf_message(r),
            r.header.message_type == MessageType::TelemetryReq,
            r.payload is TelemetryReq,
    {
        let header = MessageHeader::new(MessageType::TelemetryReq, protocol);
        MessageEnum { header, payload: Payload::TelemetryReq }
    }

    /// A bulk push announcement; it has no body.
    pub fn new_bulk_push(protocol: &ProtocolInfo) -> (r: MessageEnum)
        ensures
            spec_wf_message(r),
            r.header.message_type == MessageType::BulkPush,
            r.payload is BulkPush,
    {
        let header = MessageHeader::new(MessageType::BulkPush, protocol);
        MessageEnum { header, payload: Payload::BulkPush }
    }

    /// A frontier request.
    pub fn new_frontier_req(protocol: &ProtocolInfo, payload: FrontierReqPayload) -> (r:
        MessageEnum)
        ensures
            spec_wf_message(r),
            r.header.message_type == MessageType::FrontierReq,
            r.payload matches Payload::FrontierReq(p) && p == payload,
    {
        let header = MessageHeader::new(MessageType::FrontierReq, protocol);
        MessageEnum { header, payload: Payload::FrontierReq(payload) }
    }

    /// An ascending-pull answer carrying blocks; the header's extensions
    /// hold the body length.
    pub fn ack_blocks(protocol: &ProtocolInfo, id: u64, blocks: Vec<BlockEnum>) -> (r: MessageEnum)
        requires
            blocks@.len() <= 128,
            forall|k: int| 0 <= k < blocks@.len() ==> (#[trigger] blocks@[k]).spec_no_sideband(),
        ensures
            spec_wf_message(r),
            r.header.message_type == MessageType::AscPullAck,
            r.payload matches Payload::AscPullAck(a) && a.id == id && (a.pull_type matches
                AscPullAckType::Blocks(b) && b.blocks@ == blocks@),
            r.header.extensions as int == spec_block_list_bytes(blocks@).len(),
    {
        let mut header = MessageHeader::new(MessageType::AscPullAck, protocol);
        let mut scratch = MemoryStream::new();
        write_block_list(&mut scratch, &blocks);
        let payload_len = scratch.bytes_written();
        proof {
            lemma_block_list_len_bound(blocks@, 0);
            assert(blocks@.len() * 217 <= 128 * 217) by (nonlinear_arith)
                requires
                    blocks@.len() <= 128,
            ;
            assert(payload_len <= 27777);
            assert(payload_len as u16 == payload_len) by (bit_vector)
                requires
                    payload_len <= 27777,
            ;
        }
        header.extensions = #[verifier::truncate] (payload_len as u16);
        MessageEnum {
            header,
            payload: Payload::AscPullAck(
                AscPullAckPayload {
                    id,
                    pull_type: AscPullAckType::Blocks(BlocksAckPayload { blocks }),
                },
            ),
        }
    }

    /// An ascending-pull answer carrying an account summary.
    pub fn ack_accounts(protocol: &ProtocolInfo, id: u64, accounts: AccountInfoAckPayload) -> (r:
        MessageEnum)
        ensures
            spec_wf_message(r),
            r.header.message_type == MessageType::AscPullAck,
            r.payload matches Payload::AscPullAck(a) && a.id == id && (a.pull_type matches
                AscPullAckType::AccountInfo(p) && p == accounts),
            r.header.extensions as int == spec_account_info_ack_bytes(accounts).len(),
    {
        let mut header = MessageHeader::new(MessageType::AscPullAck, protocol);
        header.extensions = 144;
        MessageEnum {
            header,
            payload: Payload::AscPullAck(
                AscPullAckPayload { id, pull_type: AscPullAckType::AccountInfo(accounts) },
            ),
        }
    }

    /// A vote on up to twelve hashes; the header carries the hash count.
    pub fn new_confirm_ack(
        protocol: &ProtocolInfo,
        account: Account,
        signature: Signature,
        timestamp: u64,
        hashes: Vec<BlockHash>,
    ) -> (r: MessageEnum)
        requires
            1 <= hashes@.len() <= 12,
        ensures
            spec_wf_message(r),
            r.header.message_type == MessageType::ConfirmAck,
            r.payload matches Payload::ConfirmAck(v) && v.account == account && v.signature
                == signature && v.timestamp == timestamp && v.hashes@ == hashes@,
    {
        let mut header = MessageHeader::new(MessageType::ConfirmAck, protocol);
        header.set_count(hashes.len() as u8);
        MessageEnum {
            header,
            payload: Payload::ConfirmAck(VotePayload { account, signature, timestamp, hashes }),
        }
    }

    /// A request for a range of historical blocks.
    pub fn new_bulk_pull(protocol: &ProtocolInfo, payload: BulkPullPayload) -> (r: MessageEnum)
        ensures
            spec_wf_message(r),
            r.header.message_type == MessageType::BulkPull,
            r.payload matches Payload::BulkPull(p) && p == payload,
    {
        let header = MessageHeader::new(MessageType::BulkPull, protocol);
        MessageEnum { header, payload: Payload::BulkPull(payload) }
    }

    /// An ascending-pull request; the header's extensions hold the body
    /// length.
    pub fn new_asc_pull_req(protocol: &ProtocolInfo, id: u64, req_type: AscPullReqType) -> (r:
        MessageEnum)
        ensures
            spec_wf_message(r),
            r.header.message_type == MessageType::AscPullReq,
            r.payload matches Payload::AscPullReq(a) && a.id == id && a.req_type == req_type,
    {
        let mut header = MessageHeader::new(MessageType::AscPullReq, protocol);
        header.extensions = match &req_type {
            AscPullReqType::Blocks(_) => 33,
            AscPullReqType::AccountInfo(_) => 32,
        };
        MessageEnum { header, payload: Payload::AscPullReq(AscPullReqPayload { id, req_type }) }
    }

    /// A telemetry answer; the header's extensions hold the body size.
    pub fn new_telemetry_ack(protocol: &ProtocolInfo, payload: TelemetryAckPayload) -> (r:
        MessageEnum)
        ensures
            spec_wf_message(r),
            r.header.message_type == MessageType::TelemetryAck,
            r.payload matches Payload::TelemetryAck(t) && t == payload,
    {
        let mut header = MessageHeader::new(MessageType::TelemetryAck, protocol);
        header.extensions = TELEMETRY_ACK_SIZE;
        MessageEnum { header, payload: Payload::TelemetryAck(payload) }
    }

    /// Writes the message: header first, then the payload.
    pub fn serialize(&self, stream: &mut MemoryStream)
        requires
            old(stream).wf(),
        ensures
            final(stream).wf(),
            final(stream).bytes() == old(stream).bytes() + spec_message_bytes(*self),
            final(stream).pos() == old(stream).pos(),
    {
        self.header.serialize(stream);
        match &self.payload {
            Payload::Keepalive(k) => {
                write_peer_list(stream, &k.peers);
            }
            Payload::Publish(p) => {
                p.block.serialize_body(stream);
            }
            Payload::ConfirmReq(c) => {
                match &c.block {
                    Some(b) => {
                        b.serialize_body(stream);
                    }
                    None => {
                        write_pair_list(stream, &c.roots_hashes);
                    }
                }
            }
            Payload::NodeIdHandshake(h) => {
                match &h.query {
                    Some(q) => {
                        stream.write_hash(&q.cookie);
                    }
                    None => {}
                }
                match &h.response {
                    Some(resp) => {
                        stream.write_hash(&resp.node_id);
                        stream.write_sig(&resp.signature);
                    }
                    None => {}
                }
            }
            Payload::BulkPullAccount(b) => {
                stream.write_hash(&b.account);
                stream.write_u128_be(b.minimum_amount.raw);
                stream.write_u8(b.flags.code());
            }
            Payload::TelemetryReq => {}
            Payload::BulkPush => {}
            Payload::FrontierReq(fr) => {
                stream.write_hash(&fr.start);
                stream.write_u32_be(fr.age);
                stream.write_u32_be(fr.count);
            }
            Payload::ConfirmAck(v) => {
                stream.write_hash(&v.account);
                stream.write_sig(&v.signature);
                stream.write_u64_be(v.timestamp);
                let ghost f = spec_hash_enc();
                let mut i: usize = 0;
                while i < v.hashes.len()
                    invariant
                        f == spec_hash_enc(),
                        stream.wf(),
                        i <= v.hashes@.len(),
                        stream.bytes() == old(stream).bytes() + spec_header_bytes(self.header)
                            + spec_hash_bytes(v.account) + spec_sig_bytes(v.signature)
                            + spec_be64(v.timestamp) + spec_list_bytes_upto(
                            v.hashes@,
                            i as int,
                            f,
                        ),
                        stream.pos() == old(stream).pos(),
                    decreases v.hashes@.len() - i,
                {
                    stream.write_hash(&v.hashes[i]);
                    i = i + 1;
                    proof {
                        assert(spec_list_bytes_upto(v.hashes@, i as int, f)
                            == spec_list_bytes_upto(v.hashes@, i as int - 1, f) + f(
                            v.hashes@[i as int - 1],
                        ));
                        assert(stream.bytes() =~= old(stream).bytes() + spec_header_bytes(
                            self.header,
                        ) + spec_hash_bytes(v.account) + spec_sig_bytes(v.signature) + spec_be64(
                            v.timestamp,
                        ) + spec_list_bytes_upto(v.hashes@, i as int, f));
                    }
                }
                proof {
                    lemma_list_upto_from(v.hashes@, v.hashes@.len() as int, f);
                    assert(spec_list_bytes_upto(v.hashes@, v.hashes@.len() as int, f)
                        =~= spec_list_bytes_from(v.hashes@, 0, f));
                }
            }
            Payload::TelemetryAck(t) => {
                write_telemetry_ack(stream, t);
            }
            Payload::BulkPull(b) => {
                stream.write_hash(&b.start);
                stream.write_hash(&b.end);
                stream.write_u32_be(b.count);
            }
            Payload::AscPullReq(a) => {
                match &a.req_type {
                    AscPullReqType::Blocks(b) => {
                        stream.write_u8(1);
                        stream.write_u64_be(a.id);
                        stream.write_hash(&b.start);
                        stream.write_u8(b.count);
                    }
                    AscPullReqType::AccountInfo(t) => {
                        stream.write_u8(2);
                        stream.write_u64_be(a.id);
                        stream.write_hash(&t.target);
                    }
                }
            }
            Payload::AscPullAck(a) => {
                match &a.pull_type {
                    AscPullAckType::Blocks(b) => {
                        stream.write_u8(1);
                        stream.write_u64_be(a.id);
                        write_block_list(stream, &b.blocks);
                    }
                    AscPullAckType::AccountInfo(info) => {
                        stream.write_u8(2);
                        stream.write_u64_be(a.id);
                        write_account_info_ack(stream, info);
                    }
                }
            }
        }
        proof {
            assert(stream.bytes() =~= old(stream).bytes() + spec_message_bytes(*self));
        }
    }

    /// Reads one framed message. `None` covers every failure - a short
    /// read, an unknown message or block type, an over-long block list, or
    /// extension bits contradicting the body - without distinguishing
    /// them; a returned message is well formed and encodes exactly the
    /// bytes consumed, and whenever a well-formed message's encoding sits
    /// at the cursor the read succeeds with that message.
    #[verifier::rlimit(100)]
    pub fn deserialize(stream: &mut MemoryStream) -> (r: Option<MessageEnum>)
        requires
            old(stream).wf(),
        ensures
            final(stream).wf(),
            final(stream).bytes() == old(stream).bytes(),
            r matches Some(m) ==> spec_wf_message(m) && old(stream).bytes().subrange(
                old(stream).pos(),
                final(stream).pos(),
            ) == spec_message_bytes(m) && final(stream).pos() >= old(stream).pos(),
            forall|m: MessageEnum| #[trigger] spec_encoding_at(
                old(stream).bytes(),
                old(stream).pos(),
                m,
            ) ==> r is Some,
            r matches Some(out) ==> forall|m: MessageEnum| #[trigger] spec_encoding_at(
                old(stream).bytes(),
                old(stream).pos(),
                m,
            ) ==> out.header == m.header && spec_payload_eqv(out.payload, m.payload) && final(stream).pos() == old(stream).pos() + spec_message_bytes(m).len(),
    {
        let ghost p0 = stream.pos();
        let header = match MessageHeader::deserialize(stream) {
            Some(h) => h,
            None => {
                proof {
                    let bytes = old(stream).bytes();
                    assert forall|m: MessageEnum| !#[trigger] spec_encoding_at(bytes, p0, m) by {
                        if spec_encoding_at(bytes, p0, m) {
                            lemma_header_bytes_len(m.header);
                            assert(spec_message_bytes(m).len() >= 8);
                            let total = spec_message_bytes(m).len() as int;
                            assert(bytes.subrange(p0, p0 + total)[5] == bytes[p0 + 5]);
                            assert(spec_message_bytes(m)[5] == spec_header_bytes(m.header)[5]);
                            assert(spec_header_bytes(m.header)[5]
                                == m.header.message_type.spec_code());
                            lemma_message_type_code_round(m.header.message_type);
                        }
                    }
                }
                return None;
            }
        };
        let ghost p8 = stream.pos();
        let payload: Payload = match header.message_type {
            MessageType::Keepalive => {
                let peers = match read_peer_list(stream, 8) {
                    Some(v) => v,
                    None => {
                        proof {
                            lemma_exit_short(old(stream).bytes(), p0, header);
                        }
                        return None;
                    }
                };
                Payload::Keepalive(KeepalivePayload { peers })
            }
            MessageType::Publish => {
                let bt = match BlockType::from_code(header.block_type_bits()) {
                    Some(t) => t,
                    None => {
                        proof {
                            lemma_exit_short(old(stream).bytes(), p0, header);
                        }
                        return None;
                    }
                };
                let block = match BlockEnum::deserialize_body(bt, stream) {
                    Some(b) => b,
                    None => {
                        proof {
                            lemma_exit_short(old(stream).bytes(), p0, header);
                        }
                        return None;
                    }
                };
                proof {
                    lemma_block_type_from_code_round(header.spec_block_type_bits(), bt);
                }
                Payload::Publish(PublishPayload { block })
            }
            MessageType::ConfirmReq => {
                let bt_bits = header.block_type_bits();
                if bt_bits == 1 {
                    let count = header.count_bits();
                    if count == 0 {
                        proof {
                            lemma_exit_short(old(stream).bytes(), p0, header);
                        }
                        return None;
                    }
                    let ghost pp = stream.pos();
                    let pairs = match read_pair_list(stream, count as usize) {
                        Some(v) => v,
                        None => {
                            proof {
                                lemma_exit_short(old(stream).bytes(), p0, header);
                            }
                            return None;
                        }
                    };
                    proof {
                        lemma_list_from_len(pairs@, 0, spec_pair_enc(), 64);
                    }
                    // an all-zero pair carries no request
                    let mut pi: usize = 0;
                    while pi < pairs.len()
                        invariant
                            stream.wf(),
                            stream.bytes() == old(stream).bytes(),
                            pi <= pairs@.len(),
                            p0 == old(stream).pos(),
                            0 <= p0,
                            p0 + 8 <= old(stream).bytes().len(),
                            old(stream).bytes().subrange(p0, p0 + 8) == spec_header_bytes(header),
                            header.message_type == MessageType::ConfirmReq,
                            header.spec_block_type_bits() == 1,
                            count == header.spec_count_bits(),
                            1 <= count,
                            pairs@.len() == count as int,
                            pp == p0 + 8,
                            stream.pos() == pp + 64 * (count as int),
                            old(stream).bytes().subrange(pp, stream.pos())
                                == spec_list_bytes_from(pairs@, 0, spec_pair_enc()),
                            forall|k: int|
                                0 <= k < pi ==> !((#[trigger] pairs@[k]).hash.spec_is_zero()
                                    && pairs@[k].root.spec_is_zero()),
                        decreases pairs@.len() - pi,
                    {
                        let pair = pairs[pi];
                        if pair.hash.is_zero() && pair.root.is_zero() {
                            proof {
                                let bytes = old(stream).bytes();
                                assert forall|m: MessageEnum| !#[trigger] spec_encoding_at(
                                    bytes,
                                    p0,
                                    m,
                                ) by {
                                    if spec_encoding_at(bytes, p0, m) {
                                        lemma_encoding_header(bytes, p0, m, header);
                                        lemma_wf_payload_size(m);
                                        match m.payload {
                                            Payload::ConfirmReq(c) => {
                                                match c.block {
                                                    None => {
                                                        let enc = spec_list_bytes_from(
                                                            c.roots_hashes@,
                                                            0,
                                                            spec_pair_enc(),
                                                        );
                                                        assert forall|k: int|
                                                            0 <= k < enc.len() implies bytes[pp
                                                            + k] == enc[k] by {
                                                            lemma_encoding_payload_byte(
                                                                bytes,
                                                                p0,
                                                                m,
                                                                k,
                                                            );
                                                        }
                                                        lemma_list_from_len(
                                                            c.roots_hashes@,
                                                            0,
                                                            spec_pair_enc(),
                                                            64,
                                                        );
                                                        assert(spec_list_bytes_from(
                                                            pairs@,
                                                            0,
                                                            spec_pair_enc(),
                                                        ) =~= enc);
                                                        assert forall|
                                                            a: RootHashPair,
                                                            b: RootHashPair,
                                                        |
                                                            #[trigger] spec_pair_enc()(a)
                                                                == #[trigger] spec_pair_enc()(
                                                                b,
                                                            ) implies a == b by {
                                                            lemma_pair_bytes_inj(a, b);
                                                        }
                                                        lemma_fixed_list_inj(
                                                            pairs@,
                                                            c.roots_hashes@,
                                                            spec_pair_enc(),
                                                            64,
                                                            0,
                                                        );
                                                        assert(pairs@[pi as int]
                                                            == c.roots_hashes@[pi as int]);
                                                        assert(c.roots_hashes@[pi as int].hash.spec_is_zero()
                                                            && c.roots_hashes@[pi as int].root.spec_is_zero());
                                                        assert(false);
                                                    }
                                                    Some(b) => {
                                                        assert(b.spec_block_type().spec_code()
                                                            != 1);
                                                        assert(m.header.spec_block_type_bits()
                                                            == 1);
                                                        assert(false);
                                                    }
                                                }
                                            }
                                            _ => {}
                                        }
                                    }
                                }
                            }
                            return None;
                        }
                        pi = pi + 1;
                    }
                    proof {
                        let e = header.extensions;
                        assert(((e >> 12) & 0x0f) as u8 <= 15) by (bit_vector);
                    }
                    Payload::ConfirmReq(ConfirmReqPayload { block: None, roots_hashes: pairs })
                } else {
                    let bt = match BlockType::from_code(bt_bits) {
                        Some(t) => t,
                        None => {
                            proof {
                                lemma_exit_short(old(stream).bytes(), p0, header);
                            }
                            return None;
                        }
                    };
                    let block = match BlockEnum::deserialize_body(bt, stream) {
                        Some(b) => b,
                        None => {
                            proof {
                                lemma_exit_short(old(stream).bytes(), p0, header);
                            }
                            return None;
                        }
                    };
                    proof {
                        lemma_block_type_from_code_round(header.spec_block_type_bits(), bt);
                    }
                    Payload::ConfirmReq(
                        ConfirmReqPayload { block: Some(block), roots_hashes: Vec::new() },
                    )
                }
            }
            MessageType::NodeIdHandshake => {
                let has_query = header.extensions & 1 == 1;
                let has_response = header.extensions & 2 == 2;
                let query = if has_query {
                    match stream.read_hash() {
                        Some(cookie) => Some(HandshakeQuery { cookie }),
                        None => {
                            proof {
                                lemma_exit_short(old(stream).bytes(), p0, header);
                            }
                            return None;
                        }
                    }
                } else {
                    None
                };
                let ghost pq = stream.pos();
                let response = if has_response {
                    let node_id = match stream.read_hash() {
                        Some(h) => h,
                        None => {
                            proof {
                                lemma_exit_short(old(stream).bytes(), p0, header);
                            }
                            return None;
                        }
                    };
                    let signature = match stream.read_sig() {
                        Some(sg) => sg,
                        None => {
                            proof {
                                lemma_exit_short(old(stream).bytes(), p0, header);
                            }
                            return None;
                        }
                    };
                    proof {
                        let bs = old(stream).bytes();
                        assert(bs.subrange(pq, stream.pos()) =~= bs.subrange(pq, pq + 32)
                            + bs.subrange(pq + 32, stream.pos()));
                    }
                    Some(HandshakeResponse { node_id, signature })
                } else {
                    None
                };
                proof {
                    let bs = old(stream).bytes();
                    assert(bs.subrange(p8, stream.pos()) =~= bs.subrange(p8, pq) + bs.subrange(
                        pq,
                        stream.pos(),
                    ));
                }
                Payload::NodeIdHandshake(NodeIdHandshakePayload { query, response })
            }
            MessageType::BulkPullAccount => {
                match parse_bulk_pull_account(stream, header, Ghost(p0)) {
                    Some(pl) => pl,
                    None => {
                        return None;
                    }
                }
            }
            MessageType::TelemetryReq => Payload::TelemetryReq,
            MessageType::BulkPush => Payload::BulkPush,
            MessageType::FrontierReq => {
                let start = match stream.read_hash() {
                    Some(h) => h,
                    None => {
                        proof {
                            lemma_exit_short(old(stream).bytes(), p0, header);
                        }
                        return None;
                    }
                };
                let ghost pa = stream.pos();
                let age = match stream.read_u32_be() {
                    Some(v) => v,
                    None => {
                        proof {
                            lemma_exit_short(old(stream).bytes(), p0, header);
                        }
                        return None;
                    }
                };
                let ghost pb = stream.pos();
                let count = match stream.read_u32_be() {
                    Some(v) => v,
                    None => {
                        proof {
                            lemma_exit_short(old(stream).bytes(), p0, header);
                        }
                        return None;
                    }
                };
                proof {
                    let bs = old(stream).bytes();
                    assert(bs.subrange(p8, stream.pos()) =~= bs.subrange(p8, pa) + bs.subrange(
                        pa,
                        pb,
                    ) + bs.subrange(pb, stream.pos()));
                }
                Payload::FrontierReq(FrontierReqPayload { start, age, count })
            }
            MessageType::ConfirmAck => {
                match parse_confirm_ack(stream, header, Ghost(p0)) {
                    Some(pl) => pl,
                    None => {
                        return None;
                    }
                }
            }
            MessageType::TelemetryAck => {
                if header.extensions != TELEMETRY_ACK_SIZE {
                    proof {
                        lemma_exit_short(old(stream).bytes(), p0, header);
                    }
                    return None;
                }
                let t = match read_telemetry_ack(stream) {
                    Some(t) => t,
                    None => {
                        proof {
                            lemma_exit_short(old(stream).bytes(), p0, header);
                        }
                        return None;
                    }
                };
                Payload::TelemetryAck(t)
            }
            MessageType::BulkPull => {
                let start = match stream.read_hash() {
                    Some(h) => h,
                    None => {
                        proof {
                            lemma_exit_short(old(stream).bytes(), p0, header);
                        }
                        return None;
                    }
                };
                let ghost pa = stream.pos();
                let end = match stream.read_hash() {
                    Some(h) => h,
                    None => {
                        proof {
                            lemma_exit_short(old(stream).bytes(), p0, header);
                        }
                        return None;
                    }
                };
                let ghost pb = stream.pos();
                let count = match stream.read_u32_be() {
                    Some(v) => v,
                    None => {
                        proof {
                            lemma_exit_short(old(stream).bytes(), p0, header);
                        }
                        return None;
                    }
                };
                proof {
                    let bs = old(stream).bytes();
                    assert(bs.subrange(p8, stream.pos()) =~= bs.subrange(p8, pa) + bs.subrange(
                        pa,
                        pb,
                    ) + bs.subrange(pb, stream.pos()));
                }
                Payload::BulkPull(BulkPullPayload { start, end, count })
            }
            MessageType::AscPullReq => {
                match parse_asc_pull_req(stream, header, Ghost(p0)) {
                    Some(pl) => pl,
                    None => {
                        return None;
                    }
                }
            }
            MessageType::AscPullAck => {
                match parse_asc_pull_ack(stream, header, Ghost(p0)) {
                    Some(pl) => pl,
                    None => {
                        return None;
                    }
                }
            }
            _ => {
                proof {
                    lemma_exit_short(old(stream).bytes(), p0, header);
                }
                return None;
            }
        };
        let m = MessageEnum { header, payload };
        proof {
            let bs = old(stream).bytes();
            assert(bs.subrange(p0, stream.pos()) =~= bs.subrange(p0, p8) + bs.subrange(
                p8,
                stream.pos(),
            ));
            assert(bs.subrange(p8, stream.pos()) =~= spec_payload_bytes(m.payload));
            assert(bs.subrange(p0, stream.pos()) =~= spec_message_bytes(m));
            // an encoded message here can only be this one
            assert forall|m2: MessageEnum| #[trigger] spec_encoding_at(
                bs,
                p0,
                m2,
            ) implies m.header == m2.header && spec_payload_eqv(m.payload, m2.payload)
                && stream.pos() == p0 + spec_message_bytes(m2).len() by {
                lemma_encoding_header(bs, p0, m2, header);
                lemma_wf_payload_size(m2);
                lemma_wf_payload_size(m);
                assert(spec_message_bytes(m2).len() == spec_message_bytes(m).len());
                assert(stream.pos() == p0 + spec_message_bytes(m).len());
                assert(bs.subrange(p0, p0 + spec_message_bytes(m2).len() as int)
                    == spec_message_bytes(m2));
                assert(spec_message_bytes(m) == spec_message_bytes(m2));
                lemma_message_bytes_inj(m, m2);
            }
        }
        Some(m)
    }
}


/// Block-type codes identify the type.
pub proof fn lemma_block_type_code_inj(a: BlockType, b: BlockType)
    requires
        a.spec_code() == b.spec_code(),
    ensures
        a == b,
{
}

/// Payload equivalence: equal contents, comparing lists by their elements.
pub open spec fn spec_payload_eqv(a: Payload, b: Payload) -> bool {
    match (a, b) {
        (Payload::Keepalive(x), Payload::Keepalive(y)) => x.peers@ == y.peers@,
        (Payload::Publish(x), Payload::Publish(y)) => x == y,
        (Payload::ConfirmReq(x), Payload::ConfirmReq(y)) => x.block == y.block && x.roots_hashes@
            == y.roots_hashes@,
        (Payload::NodeIdHandshake(x), Payload::NodeIdHandshake(y)) => x == y,
        (Payload::BulkPullAccount(x), Payload::BulkPullAccount(y)) => x == y,
        (Payload::TelemetryReq, Payload::TelemetryReq) => true,
        (Payload::BulkPush, Payload::BulkPush) => true,
        (Payload::FrontierReq(x), Payload::FrontierReq(y)) => x == y,
        (Payload::ConfirmAck(x), Payload::ConfirmAck(y)) => x.account == y.account && x.signature
            == y.signature && x.timestamp == y.timestamp && x.hashes@ == y.hashes@,
        (Payload::TelemetryAck(x), Payload::TelemetryAck(y)) => x == y,
        (Payload::BulkPull(x), Payload::BulkPull(y)) => x == y,
        (Payload::AscPullReq(x), Payload::AscPullReq(y)) => x == y,
        (Payload::AscPullAck(x), Payload::AscPullAck(y)) => x.id == y.id && (match (
            x.pull_type,
            y.pull_type,
        ) {
            (AscPullAckType::Blocks(bx), AscPullAckType::Blocks(by)) => bx.blocks@ == by.blocks@,
            (AscPullAckType::AccountInfo(ax), AscPullAckType::AccountInfo(ay)) => ax == ay,
            _ => false,
        }),
        _ => false,
    }
}

/// The codec round trip: two well-formed messages with the same wire bytes
/// are the same message. With `serialize` writing exactly
/// `spec_message_bytes` and `deserialize` consuming exactly the bytes of
/// what it returns, decoding an encoded message yields the message back.
#[verifier::rlimit(100)]
pub proof fn lemma_message_bytes_inj(a: MessageEnum, b: MessageEnum)
    requires
        spec_wf_message(a),
        spec_wf_message(b),
        spec_message_bytes(a) == spec_message_bytes(b),
    ensures
        a.header == b.header,
        spec_payload_eqv(a.payload, b.payload),
{
    lemma_concat_split(
        spec_header_bytes(a.header),
        spec_payload_bytes(a.payload),
        spec_header_bytes(b.header),
        spec_payload_bytes(b.payload),
    );
    lemma_header_bytes_inj(a.header, b.header);
    match (a.payload, b.payload) {
        (Payload::Keepalive(x), Payload::Keepalive(y)) => {
            assert forall|s: EndpointV6, t: EndpointV6| #[trigger] spec_peer_enc()(s)
                == #[trigger] spec_peer_enc()(t) implies s == t by {
                lemma_peer_bytes_inj(s, t);
            }
            lemma_fixed_list_inj(x.peers@, y.peers@, spec_peer_enc(), 18, 0);
            assert(x.peers@ =~= y.peers@);
        }
        (Payload::Publish(x), Payload::Publish(y)) => {
            lemma_block_type_code_inj(x.block.spec_block_type(), y.block.spec_block_type());
            lemma_block_body_inj(x.block, y.block);
        }
        (Payload::ConfirmReq(x), Payload::ConfirmReq(y)) => {
            match (x.block, y.block) {
                (Some(bx), Some(by)) => {
                    lemma_block_type_code_inj(bx.spec_block_type(), by.spec_block_type());
                    lemma_block_body_inj(bx, by);
                    assert(x.roots_hashes@ =~= y.roots_hashes@);
                }
                (None, None) => {
                    assert forall|s: RootHashPair, t: RootHashPair| #[trigger] spec_pair_enc()(s)
                        == #[trigger] spec_pair_enc()(t) implies s == t by {
                        lemma_pair_bytes_inj(s, t);
                    }
                    lemma_fixed_list_inj(x.roots_hashes@, y.roots_hashes@, spec_pair_enc(), 64, 0);
                    assert(x.roots_hashes@ =~= y.roots_hashes@);
                }
                (Some(bx), None) => {
                    assert(bx.spec_block_type().spec_code() != 1);
                    assert(false);
                }
                (None, Some(by)) => {
                    assert(by.spec_block_type().spec_code() != 1);
                    assert(false);
                }
            }
        }
        (Payload::NodeIdHandshake(x), Payload::NodeIdHandshake(y)) => {
            let xq = match x.query {
                Some(q) => spec_hash_bytes(q.cookie),
                None => Seq::<u8>::empty(),
            };
            let yq = match y.query {
                Some(q) => spec_hash_bytes(q.cookie),
                None => Seq::<u8>::empty(),
            };
            let xr = match x.response {
                Some(resp) => spec_hash_bytes(resp.node_id) + spec_sig_bytes(resp.signature),
                None => Seq::<u8>::empty(),
            };
            let yr = match y.response {
                Some(resp) => spec_hash_bytes(resp.node_id) + spec_sig_bytes(resp.signature),
                None => Seq::<u8>::empty(),
            };
            assert(xq.len() == yq.len());
            lemma_concat_split(xq, xr, yq, yr);
            match (x.query, y.query) {
                (Some(qx), Some(qy)) => {
                    lemma_hash_bytes_inj(qx.cookie, qy.cookie);
                }
                _ => {}
            }
            match (x.response, y.response) {
                (Some(rx), Some(ry)) => {
                    lemma_concat_split(
                        spec_hash_bytes(rx.node_id),
                        spec_sig_bytes(rx.signature),
                        spec_hash_bytes(ry.node_id),
                        spec_sig_bytes(ry.signature),
                    );
                    lemma_hash_bytes_inj(rx.node_id, ry.node_id);
                    lemma_sig_bytes_inj(rx.signature, ry.signature);
                }
                _ => {}
            }
        }
        (Payload::BulkPullAccount(x), Payload::BulkPullAccount(y)) => {
            assert(spec_bulk_pull_account_bytes(x) =~= spec_hash_bytes(x.account) + (spec_be128(
                x.minimum_amount.raw,
            ) + seq![x.flags.spec_code()]));
            assert(spec_bulk_pull_account_bytes(y) =~= spec_hash_bytes(y.account) + (spec_be128(
                y.minimum_amount.raw,
            ) + seq![y.flags.spec_code()]));
            lemma_concat_split(
                spec_hash_bytes(x.account),
                spec_be128(x.minimum_amount.raw) + seq![x.flags.spec_code()],
                spec_hash_bytes(y.account),
                spec_be128(y.minimum_amount.raw) + seq![y.flags.spec_code()],
            );
            lemma_concat_split(
                spec_be128(x.minimum_amount.raw),
                seq![x.flags.spec_code()],
                spec_be128(y.minimum_amount.raw),
                seq![y.flags.spec_code()],
            );
            lemma_hash_bytes_inj(x.account, y.account);
            lemma_be128_inj(x.minimum_amount.raw, y.minimum_amount.raw);
            assert(seq![x.flags.spec_code()][0] == seq![y.flags.spec_code()][0]);
            assert(x.flags.spec_code() == y.flags.spec_code());
        }
        (Payload::TelemetryReq, Payload::TelemetryReq) => {}
        (Payload::BulkPush, Payload::BulkPush) => {}
        (Payload::FrontierReq(x), Payload::FrontierReq(y)) => {
            assert(spec_frontier_req_bytes(x) =~= spec_hash_bytes(x.start) + (spec_be32(x.age)
                + spec_be32(x.count)));
            assert(spec_frontier_req_bytes(y) =~= spec_hash_bytes(y.start) + (spec_be32(y.age)
                + spec_be32(y.count)));
            lemma_concat_split(
                spec_hash_bytes(x.start),
                spec_be32(x.age) + spec_be32(x.count),
                spec_hash_bytes(y.start),
                spec_be32(y.age) + spec_be32(y.count),
            );
            lemma_concat_split(
                spec_be32(x.age),
                spec_be32(x.count),
                spec_be32(y.age),
                spec_be32(y.count),
            );
            lemma_hash_bytes_inj(x.start, y.start);
            lemma_be32_inj(x.age, y.age);
            lemma_be32_inj(x.count, y.count);
        }
        (Payload::ConfirmAck(x), Payload::ConfirmAck(y)) => {
            assert(spec_vote_bytes(x) =~= spec_hash_bytes(x.account) + (spec_sig_bytes(x.signature)
                + (spec_be64(x.timestamp) + spec_list_bytes_from(x.hashes@, 0, spec_hash_enc()))));
            assert(spec_vote_bytes(y) =~= spec_hash_bytes(y.account) + (spec_sig_bytes(y.signature)
                + (spec_be64(y.timestamp) + spec_list_bytes_from(y.hashes@, 0, spec_hash_enc()))));
            lemma_concat_split(
                spec_hash_bytes(x.account),
                spec_sig_bytes(x.signature) + (spec_be64(x.timestamp) + spec_list_bytes_from(
                    x.hashes@,
                    0,
                    spec_hash_enc(),
                )),
                spec_hash_bytes(y.account),
                spec_sig_bytes(y.signature) + (spec_be64(y.timestamp) + spec_list_bytes_from(
                    y.hashes@,
                    0,
                    spec_hash_enc(),
                )),
            );
            lemma_concat_split(
                spec_sig_bytes(x.signature),
                spec_be64(x.timestamp) + spec_list_bytes_from(x.hashes@, 0, spec_hash_enc()),
                spec_sig_bytes(y.signature),
                spec_be64(y.timestamp) + spec_list_bytes_from(y.hashes@, 0, spec_hash_enc()),
            );
            lemma_concat_split(
                spec_be64(x.timestamp),
                spec_list_bytes_from(x.hashes@, 0, spec_hash_enc()),
                spec_be64(y.timestamp),
                spec_list_bytes_from(y.hashes@, 0, spec_hash_enc()),
            );
            lemma_hash_bytes_inj(x.account, y.account);
            lemma_sig_bytes_inj(x.signature, y.signature);
            lemma_be64_inj(x.timestamp, y.timestamp);
            assert forall|a: Hash256, b: Hash256| #[trigger] spec_hash_enc()(a)
                == #[trigger] spec_hash_enc()(b) implies a == b by {
                lemma_hash_bytes_inj(a, b);
            }
            lemma_fixed_list_inj(x.hashes@, y.hashes@, spec_hash_enc(), 32, 0);
            assert(x.hashes@ =~= y.hashes@);
        }
        (Payload::TelemetryAck(x), Payload::TelemetryAck(y)) => {
            lemma_telemetry_ack_bytes_inj(x, y);
        }
        (Payload::BulkPull(x), Payload::BulkPull(y)) => {
            assert(spec_bulk_pull_bytes(x) =~= spec_hash_bytes(x.start) + (spec_hash_bytes(x.end)
                + spec_be32(x.count)));
            assert(spec_bulk_pull_bytes(y) =~= spec_hash_bytes(y.start) + (spec_hash_bytes(y.end)
                + spec_be32(y.count)));
            lemma_concat_split(
                spec_hash_bytes(x.start),
                spec_hash_bytes(x.end) + spec_be32(x.count),
                spec_hash_bytes(y.start),
                spec_hash_bytes(y.end) + spec_be32(y.count),
            );
            lemma_concat_split(
                spec_hash_bytes(x.end),
                spec_be32(x.count),
                spec_hash_bytes(y.end),
                spec_be32(y.count),
            );
            lemma_hash_bytes_inj(x.start, y.start);
            lemma_hash_bytes_inj(x.end, y.end);
            lemma_be32_inj(x.count, y.count);
        }
        (Payload::AscPullReq(x), Payload::AscPullReq(y)) => {
            assert(spec_asc_req_bytes(x)[0] == spec_asc_req_type_code(x.req_type));
            assert(spec_asc_req_bytes(y)[0] == spec_asc_req_type_code(y.req_type));
            assert(spec_asc_req_bytes(x) =~= (seq![spec_asc_req_type_code(x.req_type)]
                + spec_be64(x.id)) + spec_asc_req_inner_bytes(x.req_type));
            assert(spec_asc_req_bytes(y) =~= (seq![spec_asc_req_type_code(y.req_type)]
                + spec_be64(y.id)) + spec_asc_req_inner_bytes(y.req_type));
            lemma_concat_split(
                seq![spec_asc_req_type_code(x.req_type)] + spec_be64(x.id),
                spec_asc_req_inner_bytes(x.req_type),
                seq![spec_asc_req_type_code(y.req_type)] + spec_be64(y.id),
                spec_asc_req_inner_bytes(y.req_type),
            );
            lemma_concat_split(
                seq![spec_asc_req_type_code(x.req_type)],
                spec_be64(x.id),
                seq![spec_asc_req_type_code(y.req_type)],
                spec_be64(y.id),
            );
            lemma_be64_inj(x.id, y.id);
            match (x.req_type, y.req_type) {
                (AscPullReqType::Blocks(bx), AscPullReqType::Blocks(by)) => {
                    lemma_concat_split(
                        spec_hash_bytes(bx.start),
                        seq![bx.count],
                        spec_hash_bytes(by.start),
                        seq![by.count],
                    );
                    lemma_hash_bytes_inj(bx.start, by.start);
                    assert(seq![bx.count][0] == seq![by.count][0]);
                }
                (AscPullReqType::AccountInfo(ax), AscPullReqType::AccountInfo(ay)) => {
                    lemma_hash_bytes_inj(ax.target, ay.target);
                }
                (AscPullReqType::Blocks(_), AscPullReqType::AccountInfo(_)) => {
                    assert(false);
                }
                (AscPullReqType::AccountInfo(_), AscPullReqType::Blocks(_)) => {
                    assert(false);
                }
            }
        }
        (Payload::AscPullAck(x), Payload::AscPullAck(y)) => {
            assert(spec_asc_ack_bytes(x)[0] == spec_asc_ack_type_code(x.pull_type));
            assert(spec_asc_ack_bytes(y)[0] == spec_asc_ack_type_code(y.pull_type));
            lemma_concat_split(
                seq![spec_asc_ack_type_code(x.pull_type)] + spec_be64(x.id),
                spec_asc_ack_inner_bytes(x.pull_type),
                seq![spec_asc_ack_type_code(y.pull_type)] + spec_be64(y.id),
                spec_asc_ack_inner_bytes(y.pull_type),
            );
            assert(spec_asc_ack_bytes(x) =~= (seq![spec_asc_ack_type_code(x.pull_type)]
                + spec_be64(x.id)) + spec_asc_ack_inner_bytes(x.pull_type));
            assert(spec_asc_ack_bytes(y) =~= (seq![spec_asc_ack_type_code(y.pull_type)]
                + spec_be64(y.id)) + spec_asc_ack_inner_bytes(y.pull_type));
            lemma_concat_split(
                seq![spec_asc_ack_type_code(x.pull_type)],
                spec_be64(x.id),
                seq![spec_asc_ack_type_code(y.pull_type)],
                spec_be64(y.id),
            );
            lemma_be64_inj(x.id, y.id);
            match (x.pull_type, y.pull_type) {
                (AscPullAckType::Blocks(bx), AscPullAckType::Blocks(by)) => {
                    lemma_block_list_inj(bx.blocks@, by.blocks@, 0);
                    assert(bx.blocks@ =~= by.blocks@);
                }
                (AscPullAckType::AccountInfo(ax), AscPullAckType::AccountInfo(ay)) => {
                    let x1 = spec_hash_bytes(ax.account);
                    let x2 = spec_hash_bytes(ax.account_open);
                    let x3 = spec_hash_bytes(ax.account_head);
                    let x4 = spec_be64(ax.account_block_count);
                    let x5 = spec_hash_bytes(ax.account_conf_frontier);
                    let x6 = spec_be64(ax.account_conf_height);
                    let y1 = spec_hash_bytes(ay.account);
                    let y2 = spec_hash_bytes(ay.account_open);
                    let y3 = spec_hash_bytes(ay.account_head);
                    let y4 = spec_be64(ay.account_block_count);
                    let y5 = spec_hash_bytes(ay.account_conf_frontier);
                    let y6 = spec_be64(ay.account_conf_height);
                    assert(spec_account_info_ack_bytes(ax) =~= x1 + (x2 + (x3 + (x4 + (x5
                        + x6)))));
                    assert(spec_account_info_ack_bytes(ay) =~= y1 + (y2 + (y3 + (y4 + (y5
                        + y6)))));
                    lemma_concat_split(x1, x2 + (x3 + (x4 + (x5 + x6))), y1, y2 + (y3 + (y4 + (y5
                        + y6))));
                    lemma_concat_split(x2, x3 + (x4 + (x5 + x6)), y2, y3 + (y4 + (y5 + y6)));
                    lemma_concat_split(x3, x4 + (x5 + x6), y3, y4 + (y5 + y6));
                    lemma_concat_split(x4, x5 + x6, y4, y5 + y6);
                    lemma_concat_split(x5, x6, y5, y6);
                    lemma_hash_bytes_inj(ax.account, ay.account);
                    lemma_hash_bytes_inj(ax.account_open, ay.account_open);
                    lemma_hash_bytes_inj(ax.account_head, ay.account_head);
                    lemma_be64_inj(ax.account_block_count, ay.account_block_count);
                    lemma_hash_bytes_inj(ax.account_conf_frontier, ay.account_conf_frontier);
                    lemma_be64_inj(ax.account_conf_height, ay.account_conf_height);
                }
                (AscPullAckType::Blocks(_), AscPullAckType::AccountInfo(_)) => {
                    assert(false);
                }
                (AscPullAckType::AccountInfo(_), AscPullAckType::Blocks(_)) => {
                    assert(false);
                }
            }
        }
        _ => {
            assert(false);
        }
    }
}



/// Parses an ascending-pull answer body; on failure no message is encoded
/// at the frame that starts at `p0`.
#[verifier::rlimit(100)]
fn parse_asc_pull_ack(stream: &mut MemoryStream, header: MessageHeader, Ghost(p0): Ghost<int>) -> (r:
    Option<Payload>)
    requires
        old(stream).wf(),
        header.message_type == MessageType::AscPullAck,
        0 <= p0,
        p0 + 8 <= old(stream).bytes().len(),
        old(stream).bytes().subrange(p0, p0 + 8) == spec_header_bytes(header),
        old(stream).pos() == p0 + 8,
    ensures
        final(stream).wf(),
        final(stream).bytes() == old(stream).bytes(),
        r matches Some(pl) ==> old(stream).bytes().subrange(old(stream).pos(), final(stream).pos())
            == spec_payload_bytes(pl) && final(stream).pos() >= old(stream).pos()
            && spec_wf_message(MessageEnum { header, payload: pl }),
        r is None ==> forall|m: MessageEnum| !#[trigger] spec_encoding_at(
            old(stream).bytes(),
            p0,
            m,
        ),
{
    let ghost p8 = stream.pos();

                let type_code = match stream.read_u8() {
                    Some(c) => c,
                    None => {
                        proof {
                            let bytes = old(stream).bytes();
                            assert forall|m: MessageEnum| !#[trigger] spec_encoding_at(
                                bytes,
                                p0,
                                m,
                            ) by {
                                if spec_encoding_at(bytes, p0, m) {
                                    lemma_encoding_header(bytes, p0, m, header);
                                    lemma_wf_payload_size(m);
                                    match m.payload {
                                        Payload::AscPullAck(a) => {
                                            lemma_encoding_payload_byte(bytes, p0, m, 0);
                                            assert(spec_asc_ack_bytes(a)[0]
                                                == spec_asc_ack_type_code(a.pull_type));
                                        }
                                        _ => {}
                                    }
                                }
                            }
                        }
                        return None;
                    }
                };
                let ghost pa = stream.pos();
                let id = match stream.read_u64_be() {
                    Some(v) => v,
                    None => {
                        proof {
                            let bytes = old(stream).bytes();
                            assert forall|m: MessageEnum| !#[trigger] spec_encoding_at(
                                bytes,
                                p0,
                                m,
                            ) by {
                                if spec_encoding_at(bytes, p0, m) {
                                    lemma_encoding_header(bytes, p0, m, header);
                                    lemma_wf_payload_size(m);
                                    match m.payload {
                                        Payload::AscPullAck(a) => {
                                            lemma_encoding_payload_byte(bytes, p0, m, 0);
                                            assert(spec_asc_ack_bytes(a)[0]
                                                == spec_asc_ack_type_code(a.pull_type));
                                        }
                                        _ => {}
                                    }
                                }
                            }
                        }
                        return None;
                    }
                };
                let ghost pb = stream.pos();
                let inner_start = stream.position();
                let pull_type = if type_code == 1 {
                    let blocks = match read_block_list_rec(stream, 128) {
                        Some(v) => v,
                        None => {
                            proof {
                                let bytes = old(stream).bytes();
                                assert forall|m: MessageEnum| !#[trigger] spec_encoding_at(
                                    bytes,
                                    p0,
                                    m,
                                ) by {
                                    if spec_encoding_at(bytes, p0, m) {
                                        lemma_encoding_header(bytes, p0, m, header);
                                        lemma_wf_payload_size(m);
                                        match m.payload {
                                            Payload::AscPullAck(a) => {
                                                lemma_encoding_payload_byte(bytes, p0, m, 0);
                                                assert(spec_asc_ack_bytes(a)[0]
                                                    == spec_asc_ack_type_code(a.pull_type));
                                                match a.pull_type {
                                                    AscPullAckType::Blocks(bl) => {
                                                        let inner = spec_block_list_bytes(
                                                            bl.blocks@,
                                                        );
                                                        assert forall|k: int|
                                                            0 <= k < inner.len() implies bytes[pb
                                                            + k] == inner[k] by {
                                                            lemma_encoding_payload_byte(
                                                                bytes,
                                                                p0,
                                                                m,
                                                                9 + k,
                                                            );
                                                            assert(spec_asc_ack_bytes(a)[9 + k]
                                                                == inner[k]);
                                                        }
                                                        assert(bytes.subrange(
                                                            pb,
                                                            pb + inner.len() as int,
                                                        ) =~= inner);
                                                        assert(spec_block_list_at(
                                                            bytes,
                                                            pb,
                                                            bl.blocks@,
                                                        ));
                                                    }
                                                    AscPullAckType::AccountInfo(_) => {}
                                                }
                                            }
                                            _ => {}
                                        }
                                    }
                                }
                            }
                            return None;
                        }
                    };
                    AscPullAckType::Blocks(BlocksAckPayload { blocks })
                } else if type_code == 2 {
                    let info = match read_account_info_ack(stream) {
                        Some(p) => p,
                        None => {
                            proof {
                                let bytes = old(stream).bytes();
                            assert forall|m: MessageEnum| !#[trigger] spec_encoding_at(
                                bytes,
                                p0,
                                m,
                            ) by {
                                if spec_encoding_at(bytes, p0, m) {
                                    lemma_encoding_header(bytes, p0, m, header);
                                    lemma_wf_payload_size(m);
                                    match m.payload {
                                        Payload::AscPullAck(a) => {
                                            lemma_encoding_payload_byte(bytes, p0, m, 0);
                                            assert(spec_asc_ack_bytes(a)[0]
                                                == spec_asc_ack_type_code(a.pull_type));
                                        }
                                        _ => {}
                                    }
                                }
                            }
                            }
                            return None;
                        }
                    };
                    AscPullAckType::AccountInfo(info)
                } else {
                    proof {
                        let bytes = old(stream).bytes();
                        assert forall|m: MessageEnum| !#[trigger] spec_encoding_at(
                            bytes,
                            p0,
                            m,
                        ) by {
                            if spec_encoding_at(bytes, p0, m) {
                                lemma_encoding_header(bytes, p0, m, header);
                                lemma_wf_payload_size(m);
                                match m.payload {
                                    Payload::AscPullAck(a) => {
                                        lemma_encoding_payload_byte(bytes, p0, m, 0);
                                        assert(spec_asc_ack_bytes(a)[0]
                                            == spec_asc_ack_type_code(a.pull_type));
                                    }
                                    _ => {}
                                }
                            }
                        }
                    }
                    return None;
                };
                let inner_end = stream.position();
                let inner_len = inner_end - inner_start;
                if inner_len != header.extensions as usize {
                    proof {
                        let bytes = old(stream).bytes();
                        assert forall|m: MessageEnum| !#[trigger] spec_encoding_at(
                            bytes,
                            p0,
                            m,
                        ) by {
                            if spec_encoding_at(bytes, p0, m) {
                                lemma_encoding_header(bytes, p0, m, header);
                                lemma_wf_payload_size(m);
                                match m.payload {
                                    Payload::AscPullAck(a) => {
                                        lemma_encoding_payload_byte(bytes, p0, m, 0);
                                        assert(spec_asc_ack_bytes(a)[0]
                                            == spec_asc_ack_type_code(a.pull_type));
                                        match a.pull_type {
                                            AscPullAckType::Blocks(bl) => {
                                                let inner = spec_block_list_bytes(bl.blocks@);
                                                assert forall|k: int|
                                                    0 <= k < inner.len() implies bytes[pb + k]
                                                    == inner[k] by {
                                                    lemma_encoding_payload_byte(
                                                        bytes,
                                                        p0,
                                                        m,
                                                        9 + k,
                                                    );
                                                    assert(spec_asc_ack_bytes(a)[9 + k]
                                                        == inner[k]);
                                                }
                                                assert(bytes.subrange(
                                                    pb,
                                                    pb + inner.len() as int,
                                                ) =~= inner);
                                                assert(spec_block_list_at(bytes, pb, bl.blocks@));
                                                match pull_type {
                                                    AscPullAckType::Blocks(parsed) => {
                                                        assert(bytes.subrange(
                                                            pb,
                                                            inner_end as int,
                                                        ) == spec_block_list_bytes(
                                                            parsed.blocks@,
                                                        ));
                                                        assert(spec_block_list_at(
                                                            bytes,
                                                            pb,
                                                            parsed.blocks@,
                                                        ));
                                                        lemma_block_list_unique(
                                                            bytes,
                                                            pb,
                                                            parsed.blocks@,
                                                            bl.blocks@,
                                                        );
                                                    }
                                                    AscPullAckType::AccountInfo(_) => {}
                                                }
                                            }
                                            AscPullAckType::AccountInfo(_) => {}
                                        }
                                    }
                                    _ => {}
                                }
                            }
                        }
                    }
                    return None;
                }
                proof {
                    let bs = old(stream).bytes();
                    assert(bs.subrange(p8, pa) =~= seq![type_code]);
                    assert(bs.subrange(p8, stream.pos()) =~= bs.subrange(p8, pa) + bs.subrange(
                        pa,
                        pb,
                    ) + bs.subrange(pb, stream.pos()));
                }

    let pl = Payload::AscPullAck(AscPullAckPayload { id, pull_type });
    proof {
        assert(old(stream).bytes().subrange(p8, stream.pos()) =~= spec_payload_bytes(pl));
    }
    Some(pl)
}


/// Parses an ascending-pull request body; on failure no message is encoded
/// at the frame that starts at `p0`.
#[verifier::rlimit(100)]
fn parse_asc_pull_req(stream: &mut MemoryStream, header: MessageHeader, Ghost(p0): Ghost<int>) -> (r:
    Option<Payload>)
    requires
        old(stream).wf(),
        header.message_type == MessageType::AscPullReq,
        0 <= p0,
        p0 + 8 <= old(stream).bytes().len(),
        old(stream).bytes().subrange(p0, p0 + 8) == spec_header_bytes(header),
        old(stream).pos() == p0 + 8,
    ensures
        final(stream).wf(),
        final(stream).bytes() == old(stream).bytes(),
        r matches Some(pl) ==> old(stream).bytes().subrange(old(stream).pos(), final(stream).pos())
            == spec_payload_bytes(pl) && final(stream).pos() >= old(stream).pos()
            && spec_wf_message(MessageEnum { header, payload: pl }),
        r is None ==> forall|m: MessageEnum| !#[trigger] spec_encoding_at(
            old(stream).bytes(),
            p0,
            m,
        ),
{
    let ghost p8 = stream.pos();

                let type_code = match stream.read_u8() {
                    Some(c) => c,
                    None => {
                        proof {
                            let bytes = old(stream).bytes();
                            assert forall|m: MessageEnum| !#[trigger] spec_encoding_at(
                                bytes,
                                p0,
                                m,
                            ) by {
                                if spec_encoding_at(bytes, p0, m) {
                                    lemma_encoding_header(bytes, p0, m, header);
                                    lemma_wf_payload_size(m);
                                    match m.payload {
                                        Payload::AscPullReq(a) => {
                                            lemma_encoding_payload_byte(bytes, p0, m, 0);
                                            assert(spec_asc_req_bytes(a)[0]
                                                == spec_asc_req_type_code(a.req_type));
                                        }
                                        _ => {}
                                    }
                                }
                            }
                        }
                        return None;
                    }
                };
                let ghost pa = stream.pos();
                let id = match stream.read_u64_be() {
                    Some(v) => v,
                    None => {
                        proof {
                            let bytes = old(stream).bytes();
                            assert forall|m: MessageEnum| !#[trigger] spec_encoding_at(
                                bytes,
                                p0,
                                m,
                            ) by {
                                if spec_encoding_at(bytes, p0, m) {
                                    lemma_encoding_header(bytes, p0, m, header);
                                    lemma_wf_payload_size(m);
                                    match m.payload {
                                        Payload::AscPullReq(a) => {
                                            lemma_encoding_payload_byte(bytes, p0, m, 0);
                                            assert(spec_asc_req_bytes(a)[0]
                                                == spec_asc_req_type_code(a.req_type));
                                        }
                                        _ => {}
                                    }
                                }
                            }
                        }
                        return None;
                    }
                };
                let ghost pb = stream.pos();
                let req_type = if type_code == 1 {
                    let start = match stream.read_hash() {
                        Some(h) => h,
                        None => {
                            proof {
                            let bytes = old(stream).bytes();
                            assert forall|m: MessageEnum| !#[trigger] spec_encoding_at(
                                bytes,
                                p0,
                                m,
                            ) by {
                                if spec_encoding_at(bytes, p0, m) {
                                    lemma_encoding_header(bytes, p0, m, header);
                                    lemma_wf_payload_size(m);
                                    match m.payload {
                                        Payload::AscPullReq(a) => {
                                            lemma_encoding_payload_byte(bytes, p0, m, 0);
                                            assert(spec_asc_req_bytes(a)[0]
                                                == spec_asc_req_type_code(a.req_type));
                                        }
                                        _ => {}
                                    }
                                }
                            }
                        }
                        return None;
                        }
                    };
                    let ghost pc = stream.pos();
                    let count = match stream.read_u8() {
                        Some(c) => c,
                        None => {
                            proof {
                            let bytes = old(stream).bytes();
                            assert forall|m: MessageEnum| !#[trigger] spec_encoding_at(
                                bytes,
                                p0,
                                m,
                            ) by {
                                if spec_encoding_at(bytes, p0, m) {
                                    lemma_encoding_header(bytes, p0, m, header);
                                    lemma_wf_payload_size(m);
                                    match m.payload {
                                        Payload::AscPullReq(a) => {
                                            lemma_encoding_payload_byte(bytes, p0, m, 0);
                                            assert(spec_asc_req_bytes(a)[0]
                                                == spec_asc_req_type_code(a.req_type));
                                        }
                                        _ => {}
                                    }
                                }
                            }
                        }
                        return None;
                        }
                    };
                    proof {
                        let bs = old(stream).bytes();
                        assert(bs.subrange(pb, stream.pos()) =~= bs.subrange(pb, pc) + bs.subrange(
                            pc,
                            stream.pos(),
                        ));
                    }
                    AscPullReqType::Blocks(AscPullReqBlocks { start, count })
                } else if type_code == 2 {
                    let target = match stream.read_hash() {
                        Some(h) => h,
                        None => {
                            proof {
                            let bytes = old(stream).bytes();
                            assert forall|m: MessageEnum| !#[trigger] spec_encoding_at(
                                bytes,
                                p0,
                                m,
                            ) by {
                                if spec_encoding_at(bytes, p0, m) {
                                    lemma_encoding_header(bytes, p0, m, header);
                                    lemma_wf_payload_size(m);
                                    match m.payload {
                                        Payload::AscPullReq(a) => {
                                            lemma_encoding_payload_byte(bytes, p0, m, 0);
                                            assert(spec_asc_req_bytes(a)[0]
                                                == spec_asc_req_type_code(a.req_type));
                                        }
                                        _ => {}
                                    }
                                }
                            }
                        }
                        return None;
                        }
                    };
                    AscPullReqType::AccountInfo(AscPullReqAccountInfo { target })
                } else {
                    proof {
                            let bytes = old(stream).bytes();
                            assert forall|m: MessageEnum| !#[trigger] spec_encoding_at(
                                bytes,
                                p0,
                                m,
                            ) by {
                                if spec_encoding_at(bytes, p0, m) {
                                    lemma_encoding_header(bytes, p0, m, header);
                                    lemma_wf_payload_size(m);
                                    match m.payload {
                                        Payload::AscPullReq(a) => {
                                            lemma_encoding_payload_byte(bytes, p0, m, 0);
                                            assert(spec_asc_req_bytes(a)[0]
                                                == spec_asc_req_type_code(a.req_type));
                                        }
                                        _ => {}
                                    }
                                }
                            }
                        }
                        return None;
                };
                let expected: u16 = match &req_type {
                    AscPullReqType::Blocks(_) => 33,
                    AscPullReqType::AccountInfo(_) => 32,
                };
                if header.extensions != expected {
                    proof {
                            let bytes = old(stream).bytes();
                            assert forall|m: MessageEnum| !#[trigger] spec_encoding_at(
                                bytes,
                                p0,
                                m,
                            ) by {
                                if spec_encoding_at(bytes, p0, m) {
                                    lemma_encoding_header(bytes, p0, m, header);
                                    lemma_wf_payload_size(m);
                                    match m.payload {
                                        Payload::AscPullReq(a) => {
                                            lemma_encoding_payload_byte(bytes, p0, m, 0);
                                            assert(spec_asc_req_bytes(a)[0]
                                                == spec_asc_req_type_code(a.req_type));
                                        }
                                        _ => {}
                                    }
                                }
                            }
                        }
                        return None;
                }
                proof {
                    let bs = old(stream).bytes();
                    assert(bs.subrange(p8, pa) =~= seq![type_code]);
                    assert(bs.subrange(p8, stream.pos()) =~= bs.subrange(p8, pa) + bs.subrange(
                        pa,
                        pb,
                    ) + bs.subrange(pb, stream.pos()));
                }

    let pl = Payload::AscPullReq(AscPullReqPayload { id, req_type });
    proof {
        assert(old(stream).bytes().subrange(p8, stream.pos()) =~= spec_payload_bytes(pl));
    }
    Some(pl)
}


/// Parses a vote body; on failure no message is encoded at the frame that
/// starts at `p0`.
#[verifier::rlimit(100)]
fn parse_confirm_ack(stream: &mut MemoryStream, header: MessageHeader, Ghost(p0): Ghost<int>) -> (r:
    Option<Payload>)
    requires
        old(stream).wf(),
        header.message_type == MessageType::ConfirmAck,
        0 <= p0,
        p0 + 8 <= old(stream).bytes().len(),
        old(stream).bytes().subrange(p0, p0 + 8) == spec_header_bytes(header),
        old(stream).pos() == p0 + 8,
    ensures
        final(stream).wf(),
        final(stream).bytes() == old(stream).bytes(),
        r matches Some(pl) ==> old(stream).bytes().subrange(old(stream).pos(), final(stream).pos())
            == spec_payload_bytes(pl) && final(stream).pos() >= old(stream).pos()
            && spec_wf_message(MessageEnum { header, payload: pl }),
        r is None ==> forall|m: MessageEnum| !#[trigger] spec_encoding_at(
            old(stream).bytes(),
            p0,
            m,
        ),
{
    let ghost p8 = stream.pos();

                let count = header.count_bits();
                if count == 0 || count > 12 {
                    proof {
                        lemma_exit_short(old(stream).bytes(), p0, header);
                    }
                    return None;
                }
                let account = match stream.read_hash() {
                    Some(h) => h,
                    None => {
                        proof {
                            lemma_exit_short(old(stream).bytes(), p0, header);
                        }
                        return None;
                    }
                };
                let ghost pa = stream.pos();
                let signature = match stream.read_sig() {
                    Some(sg) => sg,
                    None => {
                        proof {
                            lemma_exit_short(old(stream).bytes(), p0, header);
                        }
                        return None;
                    }
                };
                let ghost pb = stream.pos();
                let timestamp = match stream.read_u64_be() {
                    Some(v) => v,
                    None => {
                        proof {
                            lemma_exit_short(old(stream).bytes(), p0, header);
                        }
                        return None;
                    }
                };
                let ghost pc = stream.pos();
                let ghost f = spec_hash_enc();
                let mut hashes: Vec<BlockHash> = Vec::new();
                let mut i: usize = 0;
                let count_usize = count as usize;
                while i < count_usize
                    invariant
                        f == spec_hash_enc(),
                        stream.wf(),
                        stream.bytes() == old(stream).bytes(),
                        i <= count_usize,
                        hashes@.len() == i,
                        p0 + 8 == old(stream).pos(),
                        0 <= p0,
                        p0 + 8 <= old(stream).bytes().len(),
                        old(stream).bytes().subrange(p0, p0 + 8) == spec_header_bytes(header),
                        header.message_type == MessageType::ConfirmAck,
                        count == header.spec_count_bits(),
                        1 <= count_usize <= 12,
                        count_usize == count,
                        pc == p0 + 112,
                        stream.pos() == pc + 32 * i,
                        old(stream).bytes().subrange(pc, stream.pos()) == spec_list_bytes_upto(
                            hashes@,
                            i as int,
                            f,
                        ),
                    decreases count_usize - i,
                {
                    let ghost hashes0 = hashes@;
                    let ghost pd = stream.pos();
                    let h = match stream.read_hash() {
                        Some(h) => h,
                        None => {
                            proof {
                                assert(p0 + 8 + (104 + 32 * (count as int)) > old(stream).bytes().len());
                                lemma_exit_short(old(stream).bytes(), p0, header);
                            }
                            return None;
                        }
                    };
                    hashes.push(h);
                    i = i + 1;
                    proof {
                        lemma_list_upto_stable(hashes0, hashes@, i as int - 1, f);
                        assert(spec_list_bytes_upto(hashes@, i as int, f) == spec_list_bytes_upto(
                            hashes@,
                            i as int - 1,
                            f,
                        ) + f(hashes@[i as int - 1]));
                        let bs = old(stream).bytes();
                        assert(bs.subrange(pc, stream.pos()) =~= bs.subrange(pc, pd) + bs.subrange(
                            pd,
                            stream.pos(),
                        ));
                    }
                }
                proof {
                    lemma_list_upto_from(hashes@, hashes@.len() as int, f);
                    assert(spec_list_bytes_upto(hashes@, hashes@.len() as int, f)
                        =~= spec_list_bytes_from(hashes@, 0, f));
                    let bs = old(stream).bytes();
                    assert(bs.subrange(p8, stream.pos()) =~= bs.subrange(p8, pa) + bs.subrange(
                        pa,
                        pb,
                    ) + bs.subrange(pb, pc) + bs.subrange(pc, stream.pos()));
                    let e = header.extensions;
                    assert(((e >> 12) & 0x0f) as u8 <= 15) by (bit_vector);
                }

    let pl = Payload::ConfirmAck(VotePayload { account, signature, timestamp, hashes });
    proof {
        assert(old(stream).bytes().subrange(p8, stream.pos()) =~= spec_payload_bytes(pl));
    }
    Some(pl)
}


/// Parses a receivables-request body; on failure no message is encoded at
/// the frame that starts at `p0`.
#[verifier::rlimit(100)]
fn parse_bulk_pull_account(
    stream: &mut MemoryStream,
    header: MessageHeader,
    Ghost(p0): Ghost<int>,
) -> (r: Option<Payload>)
    requires
        old(stream).wf(),
        header.message_type == MessageType::BulkPullAccount,
        0 <= p0,
        p0 + 8 <= old(stream).bytes().len(),
        old(stream).bytes().subrange(p0, p0 + 8) == spec_header_bytes(header),
        old(stream).pos() == p0 + 8,
    ensures
        final(stream).wf(),
        final(stream).bytes() == old(stream).bytes(),
        r matches Some(pl) ==> old(stream).bytes().subrange(old(stream).pos(), final(stream).pos())
            == spec_payload_bytes(pl) && final(stream).pos() >= old(stream).pos()
            && spec_wf_message(MessageEnum { header, payload: pl }),
        r is None ==> forall|m: MessageEnum| !#[trigger] spec_encoding_at(
            old(stream).bytes(),
            p0,
            m,
        ),
{
    let ghost p8 = stream.pos();

                let account = match stream.read_hash() {
                    Some(h) => h,
                    None => {
                        proof {
                            lemma_exit_short(old(stream).bytes(), p0, header);
                        }
                        return None;
                    }
                };
                let ghost pa = stream.pos();
                let amount = match stream.read_u128_be() {
                    Some(a) => a,
                    None => {
                        proof {
                            lemma_exit_short(old(stream).bytes(), p0, header);
                        }
                        return None;
                    }
                };
                let ghost pb = stream.pos();
                let flag_byte = match stream.read_u8() {
                    Some(b) => b,
                    None => {
                        proof {
                            lemma_exit_short(old(stream).bytes(), p0, header);
                        }
                        return None;
                    }
                };
                let flags = match BulkPullAccountFlags::from_code(flag_byte) {
                    Some(fv) => fv,
                    None => {
                        proof {
                            let bytes = old(stream).bytes();
                            assert forall|m: MessageEnum| !#[trigger] spec_encoding_at(
                                bytes,
                                p0,
                                m,
                            ) by {
                                if spec_encoding_at(bytes, p0, m) {
                                    lemma_encoding_header(bytes, p0, m, header);
                                    lemma_wf_payload_size(m);
                                    lemma_encoding_payload_byte(bytes, p0, m, 48);
                                    match m.payload {
                                        Payload::BulkPullAccount(bp) => {
                                            assert(spec_bulk_pull_account_bytes(bp)[48]
                                                == bp.flags.spec_code());
                                            assert(flag_byte == bp.flags.spec_code());
                                        }
                                        _ => {}
                                    }
                                }
                            }
                        }
                        return None;
                    }
                };
                proof {
                    let bs = old(stream).bytes();
                    assert(bs.subrange(p8, stream.pos()) =~= bs.subrange(p8, pa) + bs.subrange(
                        pa,
                        pb,
                    ) + bs.subrange(pb, stream.pos()));
                }
                let pl = Payload::BulkPullAccount(
                    BulkPullAccountPayload {
                        account,
                        minimum_amount: Amount { raw: amount },
                        flags,
                    },
                );
                proof {
                    assert(old(stream).bytes().subrange(p8, stream.pos())
                        =~= spec_payload_bytes(pl));
                }
                Some(pl)
}

/// Element-wise equality of peer lists.
fn peers_vec_eq(a: &Vec<EndpointV6>, b: &Vec<EndpointV6>) -> (r: bool)
    ensures
        r == (a@ == b@),
{
    if a.len() != b.len() {
        return false;
    }
    let mut i: usize = 0;
    while i < a.len()
        invariant
            a@.len() == b@.len(),
            i <= a@.len(),
            forall|j: int| 0 <= j < i ==> a@[j] == b@[j],
        decreases a@.len() - i,
    {
        if !(a[i] == b[i]) {
            return false;
        }
        i = i + 1;
    }
    proof {
        assert(a@ =~= b@);
    }
    true
}

/// Element-wise equality of hash/root pair lists.
fn pairs_vec_eq(a: &Vec<RootHashPair>, b: &Vec<RootHashPair>) -> (r: bool)
    ensures
        r == (a@ == b@),
{
    if a.len() != b.len() {
        return false;
    }
    let mut i: usize = 0;
    while i < a.len()
        invariant
            a@.len() == b@.len(),
            i <= a@.len(),
            forall|j: int| 0 <= j < i ==> a@[j] == b@[j],
        decreases a@.len() - i,
    {
        if !(a[i] == b[i]) {
            return false;
        }
        i = i + 1;
    }
    proof {
        assert(a@ =~= b@);
    }
    true
}

/// Element-wise equality of block lists.
fn blocks_vec_eq(a: &Vec<BlockEnum>, b: &Vec<BlockEnum>) -> (r: bool)
    ensures
        r == (a@ == b@),
{
    if a.len() != b.len() {
        return false;
    }
    let mut i: usize = 0;
    while i < a.len()
        invariant
            a@.len() == b@.len(),
            i <= a@.len(),
            forall|j: int| 0 <= j < i ==> a@[j] == b@[j],
        decreases a@.len() - i,
    {
        if !(a[i] == b[i]) {
            return false;
        }
        i = i + 1;
    }
    proof {
        assert(a@ =~= b@);
    }
    true
}

impl PartialEq for KeepalivePayload {
    fn eq(&self, other: &KeepalivePayload) -> (r: bool) {
        peers_vec_eq(&self.peers, &other.peers)
    }
}

impl vstd::std_specs::cmp::PartialEqSpecImpl for KeepalivePayload {
    open spec fn obeys_eq_spec() -> bool {
        true
    }

    open spec fn eq_spec(&self, other: &KeepalivePayload) -> bool {
        self.peers@ == other.peers@
    }
}

impl PartialEq for ConfirmReqPayload {
    fn eq(&self, other: &ConfirmReqPayload) -> (r: bool) {
        let blocks_match = match (&self.block, &other.block) {
            (Some(a), Some(b)) => a == b,
            (None, None) => true,
            _ => false,
        };
        blocks_match && pairs_vec_eq(&self.roots_hashes, &other.roots_hashes)
    }
}

impl vstd::std_specs::cmp::PartialEqSpecImpl for ConfirmReqPayload {
    open spec fn obeys_eq_spec() -> bool {
        true
    }

    open spec fn eq_spec(&self, other: &ConfirmReqPayload) -> bool {
        self.block == other.block && self.roots_hashes@ == other.roots_hashes@
    }
}

impl PartialEq for BlocksAckPayload {
    fn eq(&self, other: &BlocksAckPayload) -> (r: bool) {
        blocks_vec_eq(&self.blocks, &other.blocks)
    }
}

impl vstd::std_specs::cmp::PartialEqSpecImpl for BlocksAckPayload {
    open spec fn obeys_eq_spec() -> bool {
        true
    }

    open spec fn eq_spec(&self, other: &BlocksAckPayload) -> bool {
        self.blocks@ == other.blocks@
    }
}

impl PartialEq for AscPullAckType {
    fn eq(&self, other: &AscPullAckType) -> (r: bool) {
        match (self, other) {
            (AscPullAckType::Blocks(a), AscPullAckType::Blocks(b)) => a == b,
            (AscPullAckType::AccountInfo(a), AscPullAckType::AccountInfo(b)) => a == b,
            _ => false,
        }
    }
}

impl vstd::std_specs::cmp::PartialEqSpecImpl for AscPullAckType {
    open spec fn obeys_eq_spec() -> bool {
        true
    }

    open spec fn eq_spec(&self, other: &AscPullAckType) -> bool {
        match (self, other) {
            (AscPullAckType::Blocks(a), AscPullAckType::Blocks(b)) => a.blocks@ == b.blocks@,
            (AscPullAckType::AccountInfo(a), AscPullAckType::AccountInfo(b)) => a == b,
            _ => false,
        }
    }
}

impl PartialEq for AscPullAckPayload {
    fn eq(&self, other: &AscPullAckPayload) -> (r: bool) {
        self.id == other.id && self.pull_type == other.pull_type
    }
}

impl vstd::std_specs::cmp::PartialEqSpecImpl for AscPullAckPayload {
    open spec fn obeys_eq_spec() -> bool {
        true
    }

    open spec fn eq_spec(&self, other: &AscPullAckPayload) -> bool {
        self.id == other.id && (match (self.pull_type, other.pull_type) {
            (AscPullAckType::Blocks(a), AscPullAckType::Blocks(b)) => a.blocks@ == b.blocks@,
            (AscPullAckType::AccountInfo(a), AscPullAckType::AccountInfo(b)) => a == b,
            _ => false,
        })
    }
}

/// Element-wise equality of hash lists.
fn hashes_vec_eq(a: &Vec<BlockHash>, b: &Vec<BlockHash>) -> (r: bool)
    ensures
        r == (a@ == b@),
{
    if a.len() != b.len() {
        return false;
    }
    let mut i: usize = 0;
    while i < a.len()
        invariant
            a@.len() == b@.len(),
            i <= a@.len(),
            forall|j: int| 0 <= j < i ==> a@[j] == b@[j],
        decreases a@.len() - i,
    {
        if !(a[i] == b[i]) {
            return false;
        }
        i = i + 1;
    }
    proof {
        assert(a@ =~= b@);
    }
    true
}

impl PartialEq for VotePayload {
    fn eq(&self, other: &VotePayload) -> (r: bool) {
        self.account == other.account && self.signature == other.signature && self.timestamp
            == other.timestamp && hashes_vec_eq(&self.hashes, &other.hashes)
    }
}

impl vstd::std_specs::cmp::PartialEqSpecImpl for VotePayload {
    open spec fn obeys_eq_spec() -> bool {
        true
    }

    open spec fn eq_spec(&self, other: &VotePayload) -> bool {
        self.account == other.account && self.signature == other.signature && self.timestamp
            == other.timestamp && self.hashes@ == other.hashes@
    }
}

impl PartialEq for Payload {
    fn eq(&self, other: &Payload) -> (r: bool) {
        match (self, other) {
            (Payload::Keepalive(a), Payload::Keepalive(b)) => a == b,
            (Payload::Publish(a), Payload::Publish(b)) => a == b,
            (Payload::ConfirmReq(a), Payload::ConfirmReq(b)) => a == b,
            (Payload::NodeIdHandshake(a), Payload::NodeIdHandshake(b)) => a == b,
            (Payload::BulkPullAccount(a), Payload::BulkPullAccount(b)) => a == b,
            (Payload::TelemetryReq, Payload::TelemetryReq) => true,
            (Payload::BulkPush, Payload::BulkPush) => true,
            (Payload::FrontierReq(a), Payload::FrontierReq(b)) => a == b,
            (Payload::ConfirmAck(a), Payload::ConfirmAck(b)) => a == b,
            (Payload::TelemetryAck(a), Payload::TelemetryAck(b)) => a == b,
            (Payload::BulkPull(a), Payload::BulkPull(b)) => a == b,
            (Payload::AscPullReq(a), Payload::AscPullReq(b)) => a == b,
            (Payload::AscPullAck(a), Payload::AscPullAck(b)) => a == b,
            _ => false,
        }
    }
}

impl vstd::std_specs::cmp::PartialEqSpecImpl for Payload {
    open spec fn obeys_eq_spec() -> bool {
        true
    }

    open spec fn eq_spec(&self, other: &Payload) -> bool {
        spec_payload_eqv(*self, *other)
    }
}

impl PartialEq for MessageEnum {
    fn eq(&self, other: &MessageEnum) -> (r: bool) {
        self.header == other.header && self.payload == other.payload
    }
}

impl vstd::std_specs::cmp::PartialEqSpecImpl for MessageEnum {
    open spec fn obeys_eq_spec() -> bool {
        true
    }

    open spec fn eq_spec(&self, other: &MessageEnum) -> bool {
        self.header == other.header && spec_payload_eqv(self.payload, other.payload)
    }
}


/// The bytes at `pos` are the wire form of the well-formed message `m`.
pub open spec fn spec_encoding_at(bytes: Seq<u8>, pos: int, m: MessageEnum) -> bool {
    &&& 0 <= pos
    &&& spec_wf_message(m)
    &&& pos + spec_message_bytes(m).len() <= bytes.len()
    &&& bytes.subrange(pos, pos + spec_message_bytes(m).len()) == spec_message_bytes(m)
}

/// The payload length a header commits to, when it can head a well-formed
/// message at all.
pub open spec fn spec_payload_size(h: MessageHeader) -> Option<int> {
    match h.message_type {
        MessageType::Keepalive => Some(144int),
        MessageType::Publish => match BlockType::spec_from_code(h.spec_block_type_bits()) {
            Some(t) => if spec_serialized_block_size(t) > 0 {
                Some(spec_serialized_block_size(t))
            } else {
                None
            },
            None => None,
        },
        MessageType::ConfirmReq => if h.spec_block_type_bits() == 1 {
            if 1 <= h.spec_count_bits() {
                Some(64 * h.spec_count_bits() as int)
            } else {
                None
            }
        } else {
            match BlockType::spec_from_code(h.spec_block_type_bits()) {
                Some(t) => if spec_serialized_block_size(t) > 0 {
                    Some(spec_serialized_block_size(t))
                } else {
                    None
                },
                None => None,
            }
        },
        MessageType::ConfirmAck => if 1 <= h.spec_count_bits() <= 12 {
            Some(104 + 32 * h.spec_count_bits() as int)
        } else {
            None
        },
        MessageType::NodeIdHandshake => Some(
            (if h.spec_query_flag() {
                32int
            } else {
                0int
            }) + (if h.spec_response_flag() {
                96int
            } else {
                0int
            }),
        ),
        MessageType::BulkPullAccount => Some(49int),
        MessageType::TelemetryReq => Some(0int),
        MessageType::BulkPush => Some(0int),
        MessageType::FrontierReq => Some(40int),
        MessageType::BulkPull => Some(68int),
        MessageType::TelemetryAck => if h.extensions == TELEMETRY_ACK_SIZE {
            Some(202int)
        } else {
            None
        },
        MessageType::AscPullReq => Some(9 + h.extensions as int),
        MessageType::AscPullAck => Some(9 + h.extensions as int),
        MessageType::Invalid => None,
        MessageType::NotAType => None,
    }
}

/// A well-formed message's payload has exactly the length its header
/// commits to: the wire size of every message is header-determined.
pub proof fn lemma_wf_payload_size(m: MessageEnum)
    requires
        spec_wf_message(m),
    ensures
        spec_payload_size(m.header) == Some(spec_payload_bytes(m.payload).len() as int),
{
    match m.payload {
        Payload::Keepalive(k) => {
            lemma_list_from_len(k.peers@, 0, spec_peer_enc(), 18);
        }
        Payload::Publish(p) => {
            crate::blocks::lemma_body_bytes_len(p.block);
        }
        Payload::ConfirmReq(c) => {
            match c.block {
                Some(b) => {
                    crate::blocks::lemma_body_bytes_len(b);
                }
                None => {
                    lemma_list_from_len(c.roots_hashes@, 0, spec_pair_enc(), 64);
                }
            }
        }
        Payload::ConfirmAck(v) => {
            lemma_list_from_len(v.hashes@, 0, spec_hash_enc(), 32);
        }
        Payload::NodeIdHandshake(_) => {}
        Payload::BulkPullAccount(_) => {}
        Payload::TelemetryReq => {}
        Payload::BulkPush => {}
        Payload::FrontierReq(_) => {}
        Payload::BulkPull(_) => {}
        Payload::TelemetryAck(_) => {}
        Payload::AscPullReq(_) => {}
        Payload::AscPullAck(_) => {}
    }
}

/// The frame at `pos` carries the header `h`; an encoded message there must
/// head with the same header.
pub proof fn lemma_encoding_header(bytes: Seq<u8>, pos: int, m: MessageEnum, h: MessageHeader)
    requires
        spec_encoding_at(bytes, pos, m),
        pos + 8 <= bytes.len(),
        bytes.subrange(pos, pos + 8) == spec_header_bytes(h),
    ensures
        m.header == h,
{
    let total = spec_message_bytes(m).len() as int;
    assert(spec_message_bytes(m).len() >= 8);
    assert forall|k: int| 0 <= k < 8 implies spec_header_bytes(m.header)[k]
        == spec_header_bytes(h)[k] by {
        assert(bytes.subrange(pos, pos + total)[k] == bytes[pos + k]);
        assert(spec_message_bytes(m)[k] == spec_header_bytes(m.header)[k]);
        assert(bytes.subrange(pos, pos + 8)[k] == bytes[pos + k]);
    }
    assert(spec_header_bytes(m.header) =~= spec_header_bytes(h));
    lemma_header_bytes_inj(m.header, h);
}

/// A payload byte of an encoded message, read off the frame.
pub proof fn lemma_encoding_payload_byte(bytes: Seq<u8>, pos: int, m: MessageEnum, k: int)
    requires
        spec_encoding_at(bytes, pos, m),
        0 <= k < spec_payload_bytes(m.payload).len(),
    ensures
        bytes[pos + 8 + k] == spec_payload_bytes(m.payload)[k],
{
    let total = spec_message_bytes(m).len() as int;
    assert(bytes.subrange(pos, pos + total)[8 + k] == bytes[pos + 8 + k]);
    assert(spec_message_bytes(m)[8 + k] == spec_payload_bytes(m.payload)[k]);
}

/// No message can be encoded at a frame whose header cannot head one, or
/// whose committed length overruns the buffer.
pub proof fn lemma_exit_short(bytes: Seq<u8>, pos: int, h: MessageHeader)
    requires
        0 <= pos,
        pos + 8 <= bytes.len(),
        bytes.subrange(pos, pos + 8) == spec_header_bytes(h),
        match spec_payload_size(h) {
            Some(n) => pos + 8 + n > bytes.len(),
            None => true,
        },
    ensures
        forall|m: MessageEnum| !#[trigger] spec_encoding_at(bytes, pos, m),
{
    assert forall|m: MessageEnum| !#[trigger] spec_encoding_at(bytes, pos, m) by {
        if spec_encoding_at(bytes, pos, m) {
            lemma_encoding_header(bytes, pos, m, h);
            lemma_wf_payload_size(m);
        }
    }
}

/// The one block list a byte range encodes: block-list encodings starting
/// at the same place are the same list.
pub proof fn lemma_block_list_unique(bytes: Seq<u8>, pos: int, bs1: Seq<BlockEnum>, bs2: Seq<
    BlockEnum,
>)
    requires
        spec_block_list_at(bytes, pos, bs1),
        spec_block_list_at(bytes, pos, bs2),
    ensures
        bs1 =~= bs2,
    decreases bs1.len(),
{
    let f = spec_block_enc();
    let first_of = |bs: Seq<BlockEnum>|
        if bs.len() == 0 {
            1u8
        } else {
            bs[0].spec_block_type().spec_code()
        };
    assert forall|bs: Seq<BlockEnum>| #[trigger] spec_block_list_at(bytes, pos, bs) implies bytes[pos]
        == (if bs.len() == 0 {
        1u8
    } else {
        bs[0].spec_block_type().spec_code()
    }) by {
        if bs.len() == 0 {
            assert(spec_block_list_bytes(bs) =~= seq![1u8]);
            assert(bytes.subrange(pos, pos + 1)[0] == bytes[pos]);
        } else {
            assert(spec_list_bytes_from(bs, 0, f) == f(bs[0]) + spec_list_bytes_from(bs, 1, f));
            assert(spec_block_list_bytes(bs)[0] == bs[0].spec_block_bytes()[0]);
            assert(bs[0].spec_block_bytes()[0] == bs[0].spec_block_type().spec_code());
            assert(bytes.subrange(pos, pos + spec_block_list_bytes(bs).len() as int)[0]
                == bytes[pos]);
        }
    }
    if bs1.len() == 0 {
        if bs2.len() != 0 {
            assert(bytes[pos] == 1u8);
            assert(bytes[pos] == bs2[0].spec_block_type().spec_code());
            assert(false);
        }
    } else {
        if bs2.len() == 0 {
            assert(bytes[pos] == 1u8);
            assert(bytes[pos] == bs1[0].spec_block_type().spec_code());
            assert(false);
        } else {
            let b1 = bs1[0];
            let b2 = bs2[0];
            assert(b1.spec_block_type().spec_code() == b2.spec_block_type().spec_code());
            assert(b1.spec_block_type() == b2.spec_block_type());
            crate::blocks::lemma_body_bytes_len(b1);
            crate::blocks::lemma_body_bytes_len(b2);
            let size = spec_serialized_block_size(b1.spec_block_type());
            // the two first blocks cover the same bytes
            let t1 = bs1.drop_first();
            let t2 = bs2.drop_first();
            lemma_list_from_shift(b1, t1, 0, f);
            lemma_list_from_shift(b2, t2, 0, f);
            assert(seq![b1] + t1 =~= bs1);
            assert(seq![b2] + t2 =~= bs2);
            assert(spec_block_list_bytes(bs1) =~= b1.spec_block_bytes() + spec_block_list_bytes(
                t1,
            ));
            assert(spec_block_list_bytes(bs2) =~= b2.spec_block_bytes() + spec_block_list_bytes(
                t2,
            ));
            let l1 = spec_block_list_bytes(bs1).len() as int;
            let l2 = spec_block_list_bytes(bs2).len() as int;
            assert forall|k: int| 0 <= k < 1 + size implies bytes[pos + k]
                == b1.spec_block_bytes()[k] by {
                assert(bytes.subrange(pos, pos + l1)[k] == bytes[pos + k]);
            }
            assert forall|k: int| 0 <= k < 1 + size implies bytes[pos + k]
                == b2.spec_block_bytes()[k] by {
                assert(bytes.subrange(pos, pos + l2)[k] == bytes[pos + k]);
            }
            assert(b1.spec_block_bytes() =~= b2.spec_block_bytes());
            lemma_concat_split(
                seq![b1.spec_block_type().spec_code()],
                b1.spec_body_bytes(),
                seq![b2.spec_block_type().spec_code()],
                b2.spec_body_bytes(),
            );
            lemma_block_body_inj(b1, b2);
            // the tails encode at the shared continuation
            assert forall|k: int| 0 <= k < spec_block_list_bytes(t1).len() implies bytes[pos + 1
                + size + k] == spec_block_list_bytes(t1)[k] by {
                assert(bytes.subrange(pos, pos + l1)[1 + size + k] == bytes[pos + 1 + size + k]);
            }
            assert(bytes.subrange(
                pos + 1 + size,
                pos + 1 + size + spec_block_list_bytes(t1).len() as int,
            ) =~= spec_block_list_bytes(t1));
            assert forall|k: int| 0 <= k < spec_block_list_bytes(t2).len() implies bytes[pos + 1
                + size + k] == spec_block_list_bytes(t2)[k] by {
                assert(bytes.subrange(pos, pos + l2)[1 + size + k] == bytes[pos + 1 + size + k]);
            }
            assert(bytes.subrange(
                pos + 1 + size,
                pos + 1 + size + spec_block_list_bytes(t2).len() as int,
            ) =~= spec_block_list_bytes(t2));
            assert(spec_block_list_at(bytes, pos + 1 + size, t1));
            assert(spec_block_list_at(bytes, pos + 1 + size, t2));
            lemma_block_list_unique(bytes, pos + 1 + size, t1, t2);
            assert(bs1 =~= bs2);
        }
    }
}


} // verus!
