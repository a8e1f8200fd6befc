//! The channel table and its policies: admission control, realtime listing,
//! gossip fanout sampling, keepalive selection and purging.

use vstd::prelude::*;
use rand::seq::SliceRandom;
use crate::channel::{
    AcceptResult, ChannelDirection, ChannelInfo, ChannelMode, EndpointV6,
};
use crate::hashes::PublicKey;

verus! {

/// How long a misbehaving peer stays excluded, in seconds.
pub const PEER_EXCLUSION_SECONDS: u64 = 3600;

/// One excluded remote address: banned until a deadline, or permanently.
#[derive(Clone, Copy, Debug, PartialEq, Eq, Structural)]
pub struct ExcludedPeer {
    pub ip_hi: u64,
    pub ip_lo: u64,
    pub until: u64,
    pub perma: bool,
}


/// The rolling duplicate-publish filter: remembers the digests of recently
/// seen message bodies, bounded in size; a digest seen again within the
/// window is a duplicate.
pub struct NetworkFilter {
    pub entries: Vec<crate::hashes::Hash256>,
    pub capacity: usize,
}

impl NetworkFilter {
    pub fn new(capacity: usize) -> (r: NetworkFilter)
        ensures
            r.entries@.len() == 0,
            r.capacity == capacity,
    {
        NetworkFilter { entries: Vec::new(), capacity }
    }

    pub open spec fn spec_contains(self, digest: crate::hashes::Hash256) -> bool {
        exists|i: int| 0 <= i < self.entries@.len() && self.entries@[i] == digest
    }

    /// Whether `digest` was seen within the window; an unseen digest is
    /// recorded, evicting the oldest entry once the filter is full.
    pub fn apply(&mut self, digest: crate::hashes::Hash256) -> (existed: bool)
        ensures
            existed == old(self).spec_contains(digest),
            final(self).capacity == old(self).capacity,
            existed ==> *final(self) == *old(self),
            !existed && old(self).entries@.len() < old(self).capacity ==> final(self).entries@
                == old(self).entries@.push(digest),
            !existed && old(self).entries@.len() >= old(self).capacity && old(
                self,
            ).entries@.len() > 0 ==> final(self).entries@ == old(self).entries@.subrange(
                1,
                old(self).entries@.len() as int,
            ).push(digest),
            !existed ==> final(self).spec_contains(digest),
    {
        let mut i: usize = 0;
        while i < self.entries.len()
            invariant
                *self == *old(self),
                i <= self.entries@.len(),
                forall|j: int| 0 <= j < i ==> self.entries@[j] != digest,
            decreases self.entries@.len() - i,
        {
            let e = self.entries[i];
            if e.w0 == digest.w0 && e.w1 == digest.w1 && e.w2 == digest.w2 && e.w3 == digest.w3 {
                return true;
            }
            i = i + 1;
        }
        if self.entries.len() >= self.capacity && self.entries.len() > 0 {
            self.entries.remove(0);
            proof {
                assert(self.entries@ =~= old(self).entries@.subrange(
                    1,
                    old(self).entries@.len() as int,
                ));
            }
        }
        self.entries.push(digest);
        proof {
            assert(self.entries@.last() == digest);
        }
        false
    }

    /// Forgets everything seen.
    pub fn clear(&mut self)
        ensures
            final(self).entries@.len() == 0,
            final(self).capacity == old(self).capacity,
    {
        self.entries.clear();
    }
}

/// The sliding-window misbehaviour bans.
pub struct ExcludedPeers {
    pub entries: Vec<ExcludedPeer>,
}

impl ExcludedPeers {
    pub fn new() -> (r: ExcludedPeers)
        ensures
            r.entries@.len() == 0,
    {
        ExcludedPeers { entries: Vec::new() }
    }

    pub open spec fn spec_is_excluded(self, peer: EndpointV6, now: u64) -> bool {
        exists|i: int|
            0 <= i < self.entries@.len() && (#[trigger] self.entries@[i]).ip_hi == peer.ip_hi
                && self.entries@[i].ip_lo == peer.ip_lo && (self.entries@[i].perma
                || self.entries@[i].until > now)
    }

    pub fn is_excluded(&self, peer: &EndpointV6, now: u64) -> (r: bool)
        ensures
            r == self.spec_is_excluded(*peer, now),
    {
        let mut i: usize = 0;
        while i < self.entries.len()
            invariant
                i <= self.entries@.len(),
                forall|j: int|
                    0 <= j < i ==> !((#[trigger] self.entries@[j]).ip_hi == peer.ip_hi
                        && self.entries@[j].ip_lo == peer.ip_lo && (self.entries@[j].perma
                        || self.entries@[j].until > now)),
            decreases self.entries@.len() - i,
        {
            let e = self.entries[i];
            if e.ip_hi == peer.ip_hi && e.ip_lo == peer.ip_lo && (e.perma || e.until > now) {
                return true;
            }
            i = i + 1;
        }
        false
    }

    /// Records misbehaviour: the peer is excluded for the sliding window.
    pub fn peer_misbehaved(&mut self, peer: &EndpointV6, now: u64)
        requires
            now + PEER_EXCLUSION_SECONDS <= u64::MAX,
        ensures
            final(self).entries@ == old(self).entries@.push(
                ExcludedPeer {
                    ip_hi: peer.ip_hi,
                    ip_lo: peer.ip_lo,
                    until: (now + PEER_EXCLUSION_SECONDS) as u64,
                    perma: false,
                },
            ),
    {
        self.entries.push(
            ExcludedPeer {
                ip_hi: peer.ip_hi,
                ip_lo: peer.ip_lo,
                until: now + PEER_EXCLUSION_SECONDS,
                perma: false,
            },
        );
    }

    /// Bans the peer permanently.
    pub fn perma_ban(&mut self, peer: &EndpointV6)
        ensures
            final(self).entries@ == old(self).entries@.push(
                ExcludedPeer { ip_hi: peer.ip_hi, ip_lo: peer.ip_lo, until: 0, perma: true },
            ),
    {
        self.entries.push(ExcludedPeer { ip_hi: peer.ip_hi, ip_lo: peer.ip_lo, until: 0, perma: true });
    }
}

/// The table's limits and switches.
#[derive(Clone, Copy, Debug, PartialEq, Eq, Structural)]
pub struct NetworkConfig {
    pub max_peers_per_ip: usize,
    pub max_peers_per_subnetwork: usize,
    pub max_inbound_connections: usize,
    pub disable_max_peers_per_ip: bool,
    pub disable_max_peers_per_subnetwork: bool,
    pub disable_tcp_realtime: bool,
    pub allow_local_peers: bool,
}

impl NetworkConfig {
    /// The development-network limits.
    pub fn dev_default() -> (r: NetworkConfig)
        ensures
            r.max_peers_per_ip == 5,
            r.max_peers_per_subnetwork == 16,
            r.max_inbound_connections == 128,
            !r.disable_max_peers_per_ip,
            !r.disable_max_peers_per_subnetwork,
            !r.disable_tcp_realtime,
            r.allow_local_peers,
    {
        NetworkConfig {
            max_peers_per_ip: 5,
            max_peers_per_subnetwork: 16,
            max_inbound_connections: 128,
            disable_max_peers_per_ip: false,
            disable_max_peers_per_subnetwork: false,
            disable_tcp_realtime: false,
            allow_local_peers: true,
        }
    }
}

/// How many alive channels share `ip_key` with the given key.
pub open spec fn spec_count_by_ip(s: Seq<ChannelInfo>, key: (u64, u64)) -> int
    decreases s.len(),
{
    if s.len() == 0 {
        0
    } else {
        spec_count_by_ip(s.drop_last(), key) + if s.last().peer_addr.spec_ip_key() == key
            && s.last().spec_is_alive() {
            1int
        } else {
            0int
        }
    }
}

/// How many alive channels share `subnet_key` with the given key.
pub open spec fn spec_count_by_subnet(s: Seq<ChannelInfo>, key: (u64, u64)) -> int
    decreases s.len(),
{
    if s.len() == 0 {
        0
    } else {
        spec_count_by_subnet(s.drop_last(), key) + if s.last().peer_addr.spec_subnet_key() == key
            && s.last().spec_is_alive() {
            1int
        } else {
            0int
        }
    }
}

/// How many channels run in the given mode.
pub open spec fn spec_count_by_mode(s: Seq<ChannelInfo>, mode: ChannelMode) -> int
    decreases s.len(),
{
    if s.len() == 0 {
        0
    } else {
        spec_count_by_mode(s.drop_last(), mode) + if s.last().mode == mode
            && s.last().spec_is_alive() {
            1int
        } else {
            0int
        }
    }
}

/// How many channels run in the given direction.
pub open spec fn spec_count_by_direction(s: Seq<ChannelInfo>, direction: ChannelDirection) -> int
    decreases s.len(),
{
    if s.len() == 0 {
        0
    } else {
        spec_count_by_direction(s.drop_last(), direction) + if s.last().direction == direction
            && s.last().spec_is_alive() {
            1int
        } else {
            0int
        }
    }
}

/// Some channel with this id is stale: no receive since `cutoff`.
pub open spec fn spec_stale_channel_id(s: Seq<ChannelInfo>, id: u64, cutoff: u64) -> bool {
    exists|i: int|
        0 <= i < s.len() && (#[trigger] s[i]).channel_id == id && s[i].last_packet_received
            < cutoff
}

/// Some channel with this id is realtime and has not sent since `cutoff`.
pub open spec fn spec_stale_realtime_id(s: Seq<ChannelInfo>, id: u64, cutoff: u64) -> bool {
    exists|i: int|
        0 <= i < s.len() && (#[trigger] s[i]).channel_id == id && s[i].mode
            == ChannelMode::Realtime && s[i].last_packet_sent < cutoff
}

/// A channel in the realtime gossip set: alive, realtime, recent enough.
pub open spec fn spec_is_realtime(c: ChannelInfo, min_version: u8) -> bool {
    c.protocol_version >= min_version && c.spec_is_alive() && c.mode == ChannelMode::Realtime
}

/// An alive realtime channel that advertises a peering address.
pub open spec fn spec_is_peered_realtime(c: ChannelInfo) -> bool {
    c.spec_is_alive() && c.mode == ChannelMode::Realtime && c.peering_addr is Some
}

/// How many channels can appear in a keepalive body.
pub open spec fn spec_count_peered_realtime(s: Seq<ChannelInfo>) -> int
    decreases s.len(),
{
    if s.len() == 0 {
        0
    } else {
        spec_count_peered_realtime(s.drop_last()) + if spec_is_peered_realtime(s.last()) {
            1int
        } else {
            0int
        }
    }
}

/// The channel table, keyed by channel id, with the listener state.
pub struct NetworkInfo {
    pub next_channel_id: u64,
    pub channels: Vec<ChannelInfo>,
    pub listening_port: u16,
    pub stopped: bool,
    pub excluded_peers: ExcludedPeers,
}

impl NetworkInfo {
    /// Ids are unique and below the next id to hand out.
    pub open spec fn wf(self) -> bool {
        &&& forall|i: int, j: int|
            0 <= i < j < self.channels@.len() ==> (#[trigger] self.channels@[i]).channel_id != (
            #[trigger] self.channels@[j]).channel_id
        &&& forall|i: int|
            0 <= i < self.channels@.len() ==> (#[trigger] self.channels@[i]).channel_id
                < self.next_channel_id
    }

    pub fn new(listening_port: u16) -> (r: NetworkInfo)
        ensures
            r.wf(),
            r.channels@.len() == 0,
            r.listening_port == listening_port,
            !r.stopped,
            r.next_channel_id == 1,
            r.excluded_peers.entries@.len() == 0,
    {
        NetworkInfo {
            next_channel_id: 1,
            channels: Vec::new(),
            listening_port,
            stopped: false,
            excluded_peers: ExcludedPeers::new(),
        }
    }

    pub fn listening_port(&self) -> (r: u16)
        ensures
            r == self.listening_port,
    {
        self.listening_port
    }

    pub fn set_listening_port(&mut self, port: u16)
        ensures
            *final(self) == (NetworkInfo { listening_port: port, ..*old(self) }),
    {
        self.listening_port = port;
    }

    pub fn is_stopped(&self) -> (r: bool)
        ensures
            r == self.stopped,
    {
        self.stopped
    }

    /// Stops the table; says whether this call was the one that stopped it.
    pub fn stop(&mut self) -> (r: bool)
        ensures
            final(self).stopped,
            r == !old(self).stopped,
            *final(self) == (NetworkInfo { stopped: true, ..*old(self) }),
    {
        if self.stopped {
            false
        } else {
            self.stopped = true;
            true
        }
    }

    /// Adds a channel for an accepted or initiated connection and hands it
    /// a fresh id.
    pub fn add(
        &mut self,
        local_addr: EndpointV6,
        peer_addr: EndpointV6,
        direction: ChannelDirection,
        now: u64,
    ) -> (r: ChannelInfo)
        requires
            old(self).wf(),
            old(self).next_channel_id < u64::MAX,
        ensures
            final(self).wf(),
            final(self).channels@ == old(self).channels@.push(r),
            r.channel_id == old(self).next_channel_id,
            r.peer_addr == peer_addr,
            r.local_addr == local_addr,
            r.direction == direction,
            r.mode == ChannelMode::Undefined,
            final(self).stopped == old(self).stopped,
    {
        let id = self.next_channel_id;
        self.next_channel_id = self.next_channel_id + 1;
        let info = ChannelInfo::new(id, local_addr, peer_addr, direction, now);
        self.channels.push(info);
        info
    }

    /// The index of a channel id, if present.
    fn find_index(&self, channel_id: u64) -> (r: Option<usize>)
        ensures
            r matches Some(i) ==> i < self.channels@.len() && self.channels@[i as int].channel_id
                == channel_id,
            r is None ==> forall|j: int|
                0 <= j < self.channels@.len() ==> (#[trigger] self.channels@[j]).channel_id
                    != channel_id,
    {
        let mut i: usize = 0;
        while i < self.channels.len()
            invariant
                i <= self.channels@.len(),
                forall|j: int|
                    0 <= j < i ==> (#[trigger] self.channels@[j]).channel_id != channel_id,
            decreases self.channels@.len() - i,
        {
            if self.channels[i].channel_id == channel_id {
                return Some(i);
            }
            i = i + 1;
        }
        None
    }

    pub fn get(&self, channel_id: u64) -> (r: Option<ChannelInfo>)
        ensures
            r matches Some(c) ==> c.channel_id == channel_id && exists|i: int|
                0 <= i < self.channels@.len() && self.channels@[i] == c,
            r is None ==> forall|j: int|
                0 <= j < self.channels@.len() ==> (#[trigger] self.channels@[j]).channel_id
                    != channel_id,
    {
        match self.find_index(channel_id) {
            Some(i) => {
                let c = self.channels[i];
                proof {
                    assert(self.channels@[i as int] == c);
                }
                Some(c)
            }
            None => None,
        }
    }

    pub fn remove(&mut self, channel_id: u64)
        requires
            old(self).wf(),
        ensures
            final(self).wf(),
            forall|j: int|
                0 <= j < final(self).channels@.len() ==> (#[trigger] final(self).channels@[j]).channel_id != channel_id,
    {
        match self.find_index(channel_id) {
            Some(i) => {
                self.channels.remove(i);
                proof {
                    assert forall|j: int|
                        0 <= j < self.channels@.len() implies (#[trigger] self.channels@[j]).channel_id
                        != channel_id by {
                        if j < i {
                        } else {
                            assert(self.channels@[j] == old(self).channels@[j + 1]);
                        }
                    }
                }
            }
            None => {}
        }
    }

    /// Records the peer's node identity on its channel.
    pub fn set_node_id(&mut self, channel_id: u64, node_id: PublicKey)
        requires
            old(self).wf(),
        ensures
            final(self).wf(),
            final(self).channels@.len() == old(self).channels@.len(),
    {
        match self.find_index(channel_id) {
            Some(i) => {
                let mut c = self.channels[i];
                c.node_id = Some(node_id);
                proof {
                    assert(c.channel_id == old(self).channels@[i as int].channel_id);
                }
                vstd::pervasive::VecAdditionalExecFns::set(&mut self.channels, i, c);
            }
            None => {}
        }
    }

    pub fn find_node_id(&self, node_id: &PublicKey) -> (r: Option<ChannelInfo>)
        ensures
            r matches Some(c) ==> c.node_id == Some(*node_id) && exists|i: int|
                0 <= i < self.channels@.len() && self.channels@[i] == c,
    {
        let mut i: usize = 0;
        while i < self.channels.len()
            invariant
                i <= self.channels@.len(),
            decreases self.channels@.len() - i,
        {
            let c = self.channels[i];
            match &c.node_id {
                Some(nid) => {
                    if nid.w0 == node_id.w0 && nid.w1 == node_id.w1 && nid.w2 == node_id.w2
                        && nid.w3 == node_id.w3 {
                        proof {
                            assert(self.channels@[i as int] == c);
                        }
                        return Some(c);
                    }
                }
                None => {}
            }
            i = i + 1;
        }
        None
    }

    pub fn count_by_ip(&self, key: (u64, u64)) -> (r: usize)
        ensures
            r == spec_count_by_ip(self.channels@, key),
    {
        let mut i: usize = 0;
        let mut count: usize = 0;
        while i < self.channels.len()
            invariant
                i <= self.channels@.len(),
                count == spec_count_by_ip(self.channels@.subrange(0, i as int), key),
                count <= i,
            decreases self.channels@.len() - i,
        {
            let c = self.channels[i];
            let k = c.peer_addr.ip_key();
            if k.0 == key.0 && k.1 == key.1 && c.is_alive() {
                count = count + 1;
            }
            i = i + 1;
            proof {
                assert(self.channels@.subrange(0, i as int).drop_last() =~= self.channels@.subrange(
                    0,
                    i as int - 1,
                ));
            }
        }
        proof {
            assert(self.channels@.subrange(0, self.channels@.len() as int) =~= self.channels@);
        }
        count
    }

    pub fn count_by_subnet(&self, key: (u64, u64)) -> (r: usize)
        ensures
            r == spec_count_by_subnet(self.channels@, key),
    {
        let mut i: usize = 0;
        let mut count: usize = 0;
        while i < self.channels.len()
            invariant
                i <= self.channels@.len(),
                count == spec_count_by_subnet(self.channels@.subrange(0, i as int), key),
                count <= i,
            decreases self.channels@.len() - i,
        {
            let c = self.channels[i];
            let k = c.peer_addr.subnet_key();
            if k.0 == key.0 && k.1 == key.1 && c.is_alive() {
                count = count + 1;
            }
            i = i + 1;
            proof {
                assert(self.channels@.subrange(0, i as int).drop_last() =~= self.channels@.subrange(
                    0,
                    i as int - 1,
                ));
            }
        }
        proof {
            assert(self.channels@.subrange(0, self.channels@.len() as int) =~= self.channels@);
        }
        count
    }

    pub fn count_by_mode(&self, mode: ChannelMode) -> (r: usize)
        ensures
            r == spec_count_by_mode(self.channels@, mode),
    {
        let mut i: usize = 0;
        let mut count: usize = 0;
        while i < self.channels.len()
            invariant
                i <= self.channels@.len(),
                count == spec_count_by_mode(self.channels@.subrange(0, i as int), mode),
                count <= i,
            decreases self.channels@.len() - i,
        {
            let c = self.channels[i];
            if c.mode == mode && c.is_alive() {
                count = count + 1;
            }
            i = i + 1;
            proof {
                assert(self.channels@.subrange(0, i as int).drop_last() =~= self.channels@.subrange(
                    0,
                    i as int - 1,
                ));
            }
        }
        proof {
            assert(self.channels@.subrange(0, self.channels@.len() as int) =~= self.channels@);
        }
        count
    }

    pub fn count_by_direction(&self, direction: ChannelDirection) -> (r: usize)
        ensures
            r == spec_count_by_direction(self.channels@, direction),
    {
        let mut i: usize = 0;
        let mut count: usize = 0;
        while i < self.channels.len()
            invariant
                i <= self.channels@.len(),
                count == spec_count_by_direction(self.channels@.subrange(0, i as int), direction),
                count <= i,
            decreases self.channels@.len() - i,
        {
            let c = self.channels[i];
            if matches!(c.direction, ChannelDirection::Inbound) == matches!(
                direction,
                ChannelDirection::Inbound,
            ) && c.is_alive() {
                count = count + 1;
            }
            i = i + 1;
            proof {
                assert(self.channels@.subrange(0, i as int).drop_last() =~= self.channels@.subrange(
                    0,
                    i as int - 1,
                ));
            }
        }
        proof {
            assert(self.channels@.subrange(0, self.channels@.len() as int) =~= self.channels@);
        }
        count
    }
}


/// Channels with realtime mode, version at least `min_version`, alive.
pub open spec fn spec_count_realtime(s: Seq<ChannelInfo>, min_version: u8) -> int
    decreases s.len(),
{
    if s.len() == 0 {
        0
    } else {
        spec_count_realtime(s.drop_last(), min_version) + if spec_is_realtime(
            s.last(),
            min_version,
        ) {
            1int
        } else {
            0int
        }
    }
}

/// With no version floor, the realtime count is the count of channels in
/// realtime mode.
pub proof fn lemma_count_realtime_is_mode_count(s: Seq<ChannelInfo>)
    ensures
        spec_count_realtime(s, 0) == spec_count_by_mode(s, ChannelMode::Realtime),
    decreases s.len(),
{
    if s.len() > 0 {
        lemma_count_realtime_is_mode_count(s.drop_last());
    }
}

/// Relies on rand's `SliceRandom::shuffle`: it permutes the slice in place.
/// Handed the identity order `0..n`, the result holds each index below `n`
/// exactly once.
#[verifier::external_body]
fn shuffle_indices(v: &mut Vec<usize>)
    requires
        forall|k: int| 0 <= k < old(v)@.len() ==> old(v)@[k] == k,
    ensures
        final(v)@.len() == old(v)@.len(),
        forall|k: int| 0 <= k < final(v)@.len() ==> final(v)@[k] < final(v)@.len(),
        forall|a: int, b: int| 0 <= a < b < final(v)@.len() ==> final(v)@[a] != final(v)@[b],
{
    let mut rng = rand::thread_rng();
    v.shuffle(&mut rng);
}

/// The least `r` with `r * r >= n`: the ceiling of the square root.
pub fn ceil_sqrt(n: usize) -> (r: usize)
    ensures
        r * r >= n,
        r > 0 ==> (r - 1) * (r - 1) < n,
        r <= n,
{
    if n == 0 {
        return 0;
    }
    let mut r: usize = 1;
    let mut rr: u128 = 1;
    proof {
        assert((1usize as u128) * (1usize as u128) == 1u128) by (nonlinear_arith);
    }
    while rr < (n as u128)
        invariant
            1 <= r <= n,
            rr == (r as u128) * (r as u128),
            (r - 1) * (r - 1) < n,
        decreases n - r,
    {
        proof {
            assert(r * r < n);
            assert(r + 1 <= n) by (nonlinear_arith)
                requires
                    r >= 1,
                    r * r < n,
            ;
            assert(rr + 2 * (r as u128) + 1 == ((r + 1) as u128) * ((r + 1) as u128))
                by (nonlinear_arith)
                requires
                    rr == (r as u128) * (r as u128),
                    r as u128 <= 0xFFFF_FFFF_FFFF_FFFFu128,
            ;
        }
        rr = rr + 2 * (r as u128) + 1;
        r = r + 1;
    }
    proof {
        assert((r as u128) * (r as u128) >= n as u128);
        assert(r * r >= n) by (nonlinear_arith)
            requires
                (r as u128) * (r as u128) >= n as u128,
        ;
    }
    r
}

/// Whether `peer` is no address to connect to: unspecified, portless, or
/// the local host when local peers are refused.
pub open spec fn spec_not_a_peer(peer: EndpointV6, allow_local: bool) -> bool {
    ||| peer.spec_is_unspecified()
    ||| peer.port == 0
    ||| (!allow_local && peer.ip_hi == 0 && peer.ip_lo == 1)
}

impl NetworkInfo {
    fn not_a_peer(&self, peer: &EndpointV6, allow_local: bool) -> (r: bool)
        ensures
            r == spec_not_a_peer(*peer, allow_local),
    {
        peer.is_unspecified() || peer.port == 0 || (!allow_local && peer.ip_hi == 0 && peer.ip_lo
            == 1)
    }

    /// An alive channel already bound to this remote address in the planned
    /// mode, or still undefined.
    pub open spec fn spec_double_connect(self, peer: EndpointV6, planned_mode: ChannelMode) -> bool {
        exists|i: int|
            0 <= i < self.channels@.len() && {
                let c = #[trigger] self.channels@[i];
                &&& c.spec_is_alive()
                &&& (c.peer_addr == peer || c.peering_addr == Some(peer))
                &&& (c.mode == planned_mode || c.mode == ChannelMode::Undefined)
            }
    }

    fn has_double_connect(&self, peer: &EndpointV6, planned_mode: ChannelMode) -> (r: bool)
        ensures
            r == self.spec_double_connect(*peer, planned_mode),
    {
        let mut i: usize = 0;
        while i < self.channels.len()
            invariant
                i <= self.channels@.len(),
                forall|j: int|
                    0 <= j < i ==> !{
                        let c = #[trigger] self.channels@[j];
                        &&& c.spec_is_alive()
                        &&& (c.peer_addr == *peer || c.peering_addr == Some(*peer))
                        &&& (c.mode == planned_mode || c.mode == ChannelMode::Undefined)
                    },
            decreases self.channels@.len() - i,
        {
            let c = self.channels[i];
            let addr_match = c.peer_addr.same_endpoint(peer) || (match &c.peering_addr {
                Some(p) => p.same_endpoint(peer),
                None => false,
            });
            let mode_match = c.mode == planned_mode || c.mode == ChannelMode::Undefined;
            if c.is_alive() && addr_match && mode_match {
                return true;
            }
            i = i + 1;
        }
        false
    }

    /// The inbound limit checks: per-IP cap, per-subnet cap, inbound total.
    pub open spec fn spec_check_limits(self, config: NetworkConfig, peer: EndpointV6) -> AcceptResult {
        if !config.disable_max_peers_per_ip && spec_count_by_ip(self.channels@, peer.spec_ip_key())
            >= config.max_peers_per_ip {
            AcceptResult::Rejected
        } else if !config.disable_max_peers_per_subnetwork && spec_count_by_subnet(
            self.channels@,
            peer.spec_subnet_key(),
        ) >= config.max_peers_per_subnetwork {
            AcceptResult::Rejected
        } else if spec_count_by_direction(self.channels@, ChannelDirection::Inbound)
            >= config.max_inbound_connections {
            AcceptResult::Rejected
        } else {
            AcceptResult::Accepted
        }
    }

    fn check_limits(&self, config: &NetworkConfig, peer: &EndpointV6) -> (r: AcceptResult)
        ensures
            r == self.spec_check_limits(*config, *peer),
    {
        if !config.disable_max_peers_per_ip && self.count_by_ip(peer.ip_key())
            >= config.max_peers_per_ip {
            AcceptResult::Rejected
        } else if !config.disable_max_peers_per_subnetwork && self.count_by_subnet(
            peer.subnet_key(),
        ) >= config.max_peers_per_subnetwork {
            AcceptResult::Rejected
        } else if self.count_by_direction(ChannelDirection::Inbound)
            >= config.max_inbound_connections {
            AcceptResult::Rejected
        } else {
            AcceptResult::Accepted
        }
    }

    /// The admission decision for a peer, before accept or connect. The
    /// ban list is consulted first, for every direction; then address
    /// validity and the double-connect rule for outbound connections, and
    /// the per-IP, per-subnet and inbound-total caps.
    pub open spec fn spec_can_add_connection(
        self,
        config: NetworkConfig,
        peer: EndpointV6,
        direction: ChannelDirection,
        planned_mode: ChannelMode,
        now: u64,
    ) -> AcceptResult {
        if self.stopped {
            AcceptResult::Rejected
        } else if self.excluded_peers.spec_is_excluded(peer, now) {
            AcceptResult::Rejected
        } else if direction == ChannelDirection::Outbound {
            if config.disable_tcp_realtime {
                AcceptResult::Rejected
            } else if spec_not_a_peer(peer, config.allow_local_peers) {
                AcceptResult::Invalid
            } else if self.spec_double_connect(peer, planned_mode) {
                AcceptResult::Rejected
            } else {
                self.spec_check_limits(config, peer)
            }
        } else {
            self.spec_check_limits(config, peer)
        }
    }

    pub fn can_add_connection(
        &self,
        config: &NetworkConfig,
        peer: &EndpointV6,
        direction: ChannelDirection,
        planned_mode: ChannelMode,
        now: u64,
    ) -> (r: AcceptResult)
        ensures
            r == self.spec_can_add_connection(*config, *peer, direction, planned_mode, now),
    {
        if self.stopped {
            return AcceptResult::Rejected;
        }
        if self.excluded_peers.is_excluded(peer, now) {
            return AcceptResult::Rejected;
        }
        if direction == ChannelDirection::Outbound {
            if config.disable_tcp_realtime {
                return AcceptResult::Rejected;
            }
            if self.not_a_peer(peer, config.allow_local_peers) {
                return AcceptResult::Invalid;
            }
            if self.has_double_connect(peer, planned_mode) {
                return AcceptResult::Rejected;
            }
            return self.check_limits(config, peer);
        }
        self.check_limits(config, peer)
    }

    /// Alive realtime channels at or above `min_version`, in table order.
    pub fn list_realtime(&self, min_version: u8) -> (r: Vec<ChannelInfo>)
        requires
            self.wf(),
        ensures
            r@.len() == spec_count_realtime(self.channels@, min_version),
            forall|k: int| 0 <= k < r@.len() ==> spec_is_realtime(#[trigger] r@[k], min_version),
            forall|a: int, b: int|
                0 <= a < b < r@.len() ==> (#[trigger] r@[a]).channel_id != (#[trigger] r@[b]).channel_id,
            forall|k: int|
                0 <= k < r@.len() ==> exists|i: int|
                    0 <= i < self.channels@.len() && #[trigger] r@[k] == self.channels@[i],
    {
        let mut out: Vec<ChannelInfo> = Vec::new();
        let ghost mut idxs: Seq<int> = Seq::empty();
        let mut i: usize = 0;
        while i < self.channels.len()
            invariant
                self.wf(),
                i <= self.channels@.len(),
                out@.len() == spec_count_realtime(self.channels@.subrange(0, i as int), min_version),
                idxs.len() == out@.len(),
                forall|k: int| 0 <= k < idxs.len() ==> 0 <= #[trigger] idxs[k] < i,
                forall|a: int, b: int| 0 <= a < b < idxs.len() ==> idxs[a] < idxs[b],
                forall|k: int|
                    0 <= k < out@.len() ==> #[trigger] out@[k] == self.channels@[idxs[k]],
                forall|k: int|
                    0 <= k < out@.len() ==> spec_is_realtime(#[trigger] out@[k], min_version),
            decreases self.channels@.len() - i,
        {
            let c = self.channels[i];
            if c.protocol_version >= min_version && c.is_alive() && c.mode == ChannelMode::Realtime {
                out.push(c);
                proof {
                    idxs = idxs.push(i as int);
                }
            }
            i = i + 1;
            proof {
                assert(self.channels@.subrange(0, i as int).drop_last() =~= self.channels@.subrange(
                    0,
                    i as int - 1,
                ));
            }
        }
        proof {
            assert(self.channels@.subrange(0, self.channels@.len() as int) =~= self.channels@);
            assert forall|a: int, b: int| 0 <= a < b < out@.len() implies (#[trigger] out@[a]).channel_id
                != (#[trigger] out@[b]).channel_id by {
                assert(out@[a] == self.channels@[idxs[a]]);
                assert(out@[b] == self.channels@[idxs[b]]);
                assert(idxs[a] < idxs[b]);
            }
        }
        out
    }

    /// The desired gossip fanout: the ceiling of the square root of the
    /// realtime channel count.
    pub fn fanout(&self) -> (r: usize)
        ensures
            ({
                let n = spec_count_by_mode(self.channels@, ChannelMode::Realtime);
                &&& r * r >= n
                &&& r > 0 ==> (r - 1) * (r - 1) < n
                &&& r <= n
            }),
    {
        let n = self.count_by_mode(ChannelMode::Realtime);
        ceil_sqrt(n)
    }

    /// A uniform sample, without replacement, of `ceil(sqrt(n))` of the `n`
    /// realtime channels: the set a gossip publish goes to.
    pub fn random_fanout_realtime(&self) -> (r: Vec<ChannelInfo>)
        requires
            self.wf(),
        ensures
            ({
                let n = spec_count_by_mode(self.channels@, ChannelMode::Realtime);
                &&& r@.len() * r@.len() >= n
                &&& r@.len() > 0 ==> (r@.len() - 1) * (r@.len() - 1) < n
                &&& n == 0 ==> r@.len() == 0
            }),
            forall|k: int| 0 <= k < r@.len() ==> spec_is_realtime(#[trigger] r@[k], 0),
            forall|a: int, b: int|
                0 <= a < b < r@.len() ==> (#[trigger] r@[a]).channel_id != (#[trigger] r@[b]).channel_id,
    {
        let list = self.list_realtime(0);
        proof {
            lemma_count_realtime_is_mode_count(self.channels@);
        }
        let k = ceil_sqrt(list.len());
        let mut order: Vec<usize> = Vec::new();
        let mut i: usize = 0;
        while i < list.len()
            invariant
                i <= list@.len(),
                order@.len() == i,
                forall|m: int| 0 <= m < i ==> order@[m] == m,
            decreases list@.len() - i,
        {
            order.push(i);
            i = i + 1;
        }
        shuffle_indices(&mut order);
        let mut out: Vec<ChannelInfo> = Vec::new();
        let mut m: usize = 0;
        while m < k
            invariant
                k <= list@.len(),
                order@.len() == list@.len(),
                forall|t: int| 0 <= t < order@.len() ==> order@[t] < order@.len(),
                forall|a: int, b: int| 0 <= a < b < order@.len() ==> order@[a] != order@[b],
                m <= k,
                out@.len() == m,
                forall|t: int| 0 <= t < m ==> #[trigger] out@[t] == list@[order@[t] as int],
                forall|t: int| 0 <= t < list@.len() ==> spec_is_realtime(#[trigger] list@[t], 0),
                forall|a: int, b: int|
                    0 <= a < b < list@.len() ==> (#[trigger] list@[a]).channel_id != (
                    #[trigger] list@[b]).channel_id,
            decreases k - m,
        {
            let idx = order[m];
            out.push(list[idx]);
            m = m + 1;
        }
        proof {
            assert forall|a: int, b: int| 0 <= a < b < out@.len() implies (#[trigger] out@[a]).channel_id
                != (#[trigger] out@[b]).channel_id by {
                assert(out@[a] == list@[order@[a] as int]);
                assert(out@[b] == list@[order@[b] as int]);
                assert(order@[a] != order@[b]);
            }
        }
        out
    }

    /// Up to `count` peering addresses of random realtime channels, padded
    /// with the unspecified endpoint: the body of a keepalive. Every slot
    /// below the number of peered realtime channels holds the peering
    /// address of one such channel, no channel twice; the slots after them
    /// are the unspecified endpoint.
    pub fn random_peering_endpoints(&self, count: usize) -> (r: Vec<EndpointV6>)
        requires
            self.wf(),
        ensures
            r@.len() == count,
            exists|src: Seq<int>|
                {
                    let available = spec_count_peered_realtime(self.channels@);
                    &&& #[trigger] src.len() == count
                    &&& (forall|t: int|
                        0 <= t < count && t < available ==> 0 <= #[trigger] src[t]
                            < self.channels@.len() && spec_is_peered_realtime(
                            self.channels@[src[t]],
                        ) && self.channels@[src[t]].peering_addr == Some(r@[t]))
                    &&& (forall|t: int|
                        0 <= t < count && t >= available ==> #[trigger] r@[t].spec_is_unspecified())
                    &&& (forall|t1: int, t2: int|
                        0 <= t1 < t2 < count && t2 < available ==> #[trigger] src[t1]
                            != #[trigger] src[t2])
                },
    {
        // collect the peered realtime channels, remembering where each came from
        let mut with_peering: Vec<EndpointV6> = Vec::new();
        let ghost mut idxs: Seq<int> = Seq::empty();
        let mut i: usize = 0;
        while i < self.channels.len()
            invariant
                self.wf(),
                i <= self.channels@.len(),
                with_peering@.len() == spec_count_peered_realtime(
                    self.channels@.subrange(0, i as int),
                ),
                idxs.len() == with_peering@.len(),
                forall|k: int| 0 <= k < idxs.len() ==> 0 <= #[trigger] idxs[k] < i,
                forall|a: int, b: int| 0 <= a < b < idxs.len() ==> idxs[a] < idxs[b],
                forall|k: int|
                    0 <= k < idxs.len() ==> spec_is_peered_realtime(
                        self.channels@[#[trigger] idxs[k]],
                    ) && self.channels@[idxs[k]].peering_addr == Some(with_peering@[k]),
            decreases self.channels@.len() - i,
        {
            let c = self.channels[i];
            if c.is_alive() && c.mode == ChannelMode::Realtime {
                match &c.peering_addr {
                    Some(p) => {
                        with_peering.push(*p);
                        proof {
                            idxs = idxs.push(i as int);
                        }
                    }
                    None => {}
                }
            }
            i = i + 1;
            proof {
                assert(self.channels@.subrange(0, i as int).drop_last() =~= self.channels@.subrange(
                    0,
                    i as int - 1,
                ));
            }
        }
        proof {
            assert(self.channels@.subrange(0, self.channels@.len() as int) =~= self.channels@);
        }
        let available = with_peering.len();

        // a random order over the collected channels
        let mut order: Vec<usize> = Vec::new();
        let mut j: usize = 0;
        while j < available
            invariant
                j <= available,
                order@.len() == j,
                forall|m: int| 0 <= m < j ==> order@[m] == m,
            decreases available - j,
        {
            order.push(j);
            j = j + 1;
        }
        shuffle_indices(&mut order);

        let mut out: Vec<EndpointV6> = Vec::new();
        let ghost mut src: Seq<int> = Seq::empty();
        let mut m: usize = 0;
        while m < count
            invariant
                m <= count,
                out@.len() == m,
                src.len() == m,
                available == with_peering@.len(),
                order@.len() == available,
                forall|t: int| 0 <= t < order@.len() ==> order@[t] < order@.len(),
                forall|a: int, b: int| 0 <= a < b < order@.len() ==> order@[a] != order@[b],
                idxs.len() == available,
                forall|a: int, b: int| 0 <= a < b < idxs.len() ==> idxs[a] < idxs[b],
                forall|k: int|
                    0 <= k < idxs.len() ==> 0 <= #[trigger] idxs[k] < self.channels@.len()
                        && spec_is_peered_realtime(self.channels@[idxs[k]])
                        && self.channels@[idxs[k]].peering_addr == Some(with_peering@[k]),
                forall|t: int|
                    0 <= t < m && t < available ==> #[trigger] src[t] == idxs[order@[t] as int]
                        && self.channels@[src[t]].peering_addr == Some(out@[t]),
                forall|t: int|
                    0 <= t < m && t >= available ==> #[trigger] out@[t].spec_is_unspecified(),
            decreases count - m,
        {
            if m < available {
                let idx = order[m];
                out.push(with_peering[idx]);
                proof {
                    src = src.push(idxs[order@[m as int] as int]);
                }
            } else {
                out.push(EndpointV6::unspecified());
                proof {
                    src = src.push(-1);
                }
            }
            m = m + 1;
        }
        proof {
            assert forall|t1: int, t2: int|
                0 <= t1 < t2 < count && t2 < with_peering@.len() implies #[trigger] src[t1]
                != #[trigger] src[t2] by {
                assert(src[t1] == idxs[order@[t1] as int]);
                assert(src[t2] == idxs[order@[t2] as int]);
                assert(order@[t1] != order@[t2]);
            }
        }
        out
    }


    /// The peer to bootstrap from: among the alive realtime channels with a
    /// peering address, the one least recently asked; asking stamps it with
    /// `now`. The unspecified endpoint, and no change, when none qualifies.
    pub fn bootstrap_peer(&mut self, now: u64) -> (r: EndpointV6)
        requires
            old(self).wf(),
        ensures
            final(self).wf(),
            final(self).next_channel_id == old(self).next_channel_id,
            (forall|i: int|
                0 <= i < old(self).channels@.len() ==> !spec_is_peered_realtime(
                    #[trigger] old(self).channels@[i],
                )) ==> r.spec_is_unspecified() && *final(self) == *old(self),
            (exists|i: int|
                0 <= i < old(self).channels@.len() && spec_is_peered_realtime(
                    #[trigger] old(self).channels@[i],
                )) ==> exists|i: int|
                0 <= i < old(self).channels@.len() && spec_is_peered_realtime(
                    #[trigger] old(self).channels@[i],
                ) && old(self).channels@[i].peering_addr == Some(r) && (forall|j: int|
                    0 <= j < old(self).channels@.len() && spec_is_peered_realtime(
                        #[trigger] old(self).channels@[j],
                    ) ==> old(self).channels@[i].last_bootstrap_attempt
                        <= old(self).channels@[j].last_bootstrap_attempt) && final(self).channels@
                    == old(self).channels@.update(
                    i,
                    ChannelInfo { last_bootstrap_attempt: now, ..old(self).channels@[i] },
                ),
    {
        let mut best: usize = 0;
        let mut found = false;
        let mut i: usize = 0;
        while i < self.channels.len()
            invariant
                *self == *old(self),
                old(self).wf(),
                i <= self.channels@.len(),
                !found ==> forall|j: int|
                    0 <= j < i ==> !spec_is_peered_realtime(#[trigger] self.channels@[j]),
                found ==> best < i && spec_is_peered_realtime(self.channels@[best as int])
                    && forall|j: int|
                    0 <= j < i && spec_is_peered_realtime(#[trigger] self.channels@[j])
                        ==> self.channels@[best as int].last_bootstrap_attempt
                        <= self.channels@[j].last_bootstrap_attempt,
            decreases self.channels@.len() - i,
        {
            let c = self.channels[i];
            if c.is_alive() && c.mode == ChannelMode::Realtime && c.peering_addr.is_some() {
                if !found
                    || c.last_bootstrap_attempt < self.channels[best].last_bootstrap_attempt {
                    best = i;
                }
                found = true;
            }
            i = i + 1;
        }
        if !found {
            return EndpointV6::unspecified();
        }
        let chosen = self.channels[best];
        let peering = match chosen.peering_addr {
            Some(p) => p,
            None => EndpointV6::unspecified(),
        };
        let mut updated = chosen;
        updated.last_bootstrap_attempt = now;
        proof {
            assert(updated.channel_id == old(self).channels@[best as int].channel_id);
        }
        vstd::pervasive::VecAdditionalExecFns::set(&mut self.channels, best, updated);
        proof {
            assert(final(self).channels@ =~= old(self).channels@.update(
                best as int,
                ChannelInfo { last_bootstrap_attempt: now, ..old(self).channels@[best as int] },
            ));
        }
        peering
    }

    /// The realtime channels whose last send is older than `cutoff`: the
    /// ones due a keepalive.
    pub fn keepalive_list(&self, cutoff: u64) -> (r: Vec<u64>)
        requires
            self.wf(),
        ensures
            forall|k: int|
                0 <= k < r@.len() ==> spec_stale_realtime_id(self.channels@, #[trigger] r@[k], cutoff),
            forall|i: int|
                0 <= i < self.channels@.len() && (#[trigger] self.channels@[i]).mode
                    == ChannelMode::Realtime && self.channels@[i].last_packet_sent < cutoff
                    ==> r@.contains(self.channels@[i].channel_id),
            forall|a: int, b: int| 0 <= a < b < r@.len() ==> #[trigger] r@[a] != #[trigger] r@[b],
    {
        let mut out: Vec<u64> = Vec::new();
        let ghost mut idxs: Seq<int> = Seq::empty();
        let mut i: usize = 0;
        while i < self.channels.len()
            invariant
                i <= self.channels@.len(),
                idxs.len() == out@.len(),
                forall|k: int| 0 <= k < idxs.len() ==> 0 <= #[trigger] idxs[k] < i,
                forall|a: int, b: int| 0 <= a < b < idxs.len() ==> idxs[a] < idxs[b],
                forall|k: int|
                    0 <= k < idxs.len() ==> {
                        let c = self.channels@[#[trigger] idxs[k]];
                        &&& c.channel_id == out@[k]
                        &&& c.mode == ChannelMode::Realtime
                        &&& c.last_packet_sent < cutoff
                    },
                forall|t: int|
                    0 <= t < i && (#[trigger] self.channels@[t]).mode == ChannelMode::Realtime
                        && self.channels@[t].last_packet_sent < cutoff ==> out@.contains(
                        self.channels@[t].channel_id,
                    ),
            decreases self.channels@.len() - i,
        {
            let ghost out0 = out@;
            let c = self.channels[i];
            if c.mode == ChannelMode::Realtime && c.last_packet_sent < cutoff {
                out.push(c.channel_id);
                proof {
                    idxs = idxs.push(i as int);
                    assert(out@[out@.len() - 1] == c.channel_id);
                }
            }
            i = i + 1;
            proof {
                assert forall|t: int|
                    0 <= t < i && (#[trigger] self.channels@[t]).mode == ChannelMode::Realtime
                        && self.channels@[t].last_packet_sent < cutoff implies out@.contains(
                    self.channels@[t].channel_id,
                ) by {
                    if t < i - 1 {
                        let k = choose|k: int| 0 <= k < out0.len() && out0[k] == self.channels@[t].channel_id;
                        assert(out@[k] == self.channels@[t].channel_id);
                    } else {
                        assert(out@[out@.len() - 1] == self.channels@[t].channel_id);
                    }
                }
            }
        }
        proof {
            assert forall|a: int, b: int| 0 <= a < b < out@.len() implies #[trigger] out@[a]
                != #[trigger] out@[b] by {
                assert(out@[a] == self.channels@[idxs[a]].channel_id);
                assert(out@[b] == self.channels@[idxs[b]].channel_id);
                assert(idxs[a] < idxs[b]);
            }
            assert forall|k: int| 0 <= k < out@.len() implies spec_stale_realtime_id(
                self.channels@,
                #[trigger] out@[k],
                cutoff,
            ) by {
                let t0 = idxs[k];
                assert(0 <= t0 < self.channels@.len() && self.channels@[t0].channel_id == out@[k]
                    && self.channels@[t0].mode == ChannelMode::Realtime
                    && self.channels@[t0].last_packet_sent < cutoff);
            }
        }
        out
    }

    /// Drops channels whose last receive is older than `cutoff`; the
    /// removed ids are returned so callers can clean associated state.
    pub fn purge(&mut self, cutoff: u64) -> (r: Vec<u64>)
        requires
            old(self).wf(),
        ensures
            final(self).wf(),
            forall|i: int|
                0 <= i < final(self).channels@.len() ==> (#[trigger] final(self).channels@[i]).last_packet_received
                    >= cutoff,
            forall|i: int|
                0 <= i < old(self).channels@.len() ==> {
                    let c = #[trigger] old(self).channels@[i];
                    if c.last_packet_received < cutoff {
                        r@.contains(c.channel_id)
                    } else {
                        final(self).channels@.contains(c)
                    }
                },
            forall|k: int|
                0 <= k < r@.len() ==> spec_stale_channel_id(
                    old(self).channels@,
                    #[trigger] r@[k],
                    cutoff,
                ),
            forall|a: int, b: int| 0 <= a < b < r@.len() ==> #[trigger] r@[a] != #[trigger] r@[b],
            forall|k: int|
                0 <= k < final(self).channels@.len() ==> old(self).channels@.contains(
                    #[trigger] final(self).channels@[k],
                ),
            final(self).next_channel_id == old(self).next_channel_id,
            final(self).stopped == old(self).stopped,
    {
        let mut kept: Vec<ChannelInfo> = Vec::new();
        let mut removed: Vec<u64> = Vec::new();
        let ghost mut kept_idxs: Seq<int> = Seq::empty();
        let ghost mut removed_idxs: Seq<int> = Seq::empty();
        let mut i: usize = 0;
        while i < self.channels.len()
            invariant
                old(self).wf(),
                *self == *old(self),
                i <= self.channels@.len(),
                kept_idxs.len() == kept@.len(),
                forall|k: int| 0 <= k < kept_idxs.len() ==> 0 <= #[trigger] kept_idxs[k] < i,
                forall|a: int, b: int| 0 <= a < b < kept_idxs.len() ==> kept_idxs[a] < kept_idxs[b],
                forall|k: int|
                    0 <= k < kept@.len() ==> #[trigger] kept@[k] == self.channels@[kept_idxs[k]],
                forall|k: int|
                    0 <= k < kept@.len() ==> (#[trigger] kept@[k]).last_packet_received >= cutoff,
                removed_idxs.len() == removed@.len(),
                forall|k: int| 0 <= k < removed_idxs.len() ==> 0 <= #[trigger] removed_idxs[k] < i,
                forall|a: int, b: int|
                    0 <= a < b < removed_idxs.len() ==> removed_idxs[a] < removed_idxs[b],
                forall|k: int|
                    0 <= k < removed@.len() ==> {
                        let c = self.channels@[#[trigger] removed_idxs[k]];
                        &&& c.channel_id == removed@[k]
                        &&& c.last_packet_received < cutoff
                    },
                forall|t: int|
                    0 <= t < i ==> {
                        let c = #[trigger] self.channels@[t];
                        if c.last_packet_received < cutoff {
                            removed@.contains(c.channel_id)
                        } else {
                            kept@.contains(c)
                        }
                    },
            decreases self.channels@.len() - i,
        {
            let ghost kept0 = kept@;
            let ghost removed0 = removed@;
            let c = self.channels[i];
            if c.last_packet_received < cutoff {
                removed.push(c.channel_id);
                proof {
                    removed_idxs = removed_idxs.push(i as int);
                    assert(removed@[removed@.len() - 1] == c.channel_id);
                }
            } else {
                kept.push(c);
                proof {
                    kept_idxs = kept_idxs.push(i as int);
                    assert(kept@[kept@.len() - 1] == c);
                }
            }
            i = i + 1;
            proof {
                assert forall|t: int| 0 <= t < i implies {
                    let cc = #[trigger] self.channels@[t];
                    if cc.last_packet_received < cutoff {
                        removed@.contains(cc.channel_id)
                    } else {
                        kept@.contains(cc)
                    }
                } by {
                    let cc = self.channels@[t];
                    if t < i - 1 {
                        if cc.last_packet_received < cutoff {
                            let k = choose|k: int|
                                0 <= k < removed0.len() && removed0[k] == cc.channel_id;
                            assert(removed@[k] == cc.channel_id);
                        } else {
                            let k = choose|k: int| 0 <= k < kept0.len() && kept0[k] == cc;
                            assert(kept@[k] == cc);
                        }
                    } else {
                        if cc.last_packet_received < cutoff {
                            assert(removed@[removed@.len() - 1] == cc.channel_id);
                        } else {
                            assert(kept@[kept@.len() - 1] == cc);
                        }
                    }
                }
            }
        }
        proof {
            assert forall|a: int, b: int| 0 <= a < b < kept@.len() implies (#[trigger] kept@[a]).channel_id
                != (#[trigger] kept@[b]).channel_id by {
                assert(kept@[a] == self.channels@[kept_idxs[a]]);
                assert(kept@[b] == self.channels@[kept_idxs[b]]);
            }
            assert forall|a: int, b: int| 0 <= a < b < removed@.len() implies #[trigger] removed@[a]
                != #[trigger] removed@[b] by {
                assert(removed@[a] == self.channels@[removed_idxs[a]].channel_id);
                assert(removed@[b] == self.channels@[removed_idxs[b]].channel_id);
                assert(removed_idxs[a] < removed_idxs[b]);
            }
            assert forall|k: int| 0 <= k < kept@.len() implies self.channels@.contains(
                #[trigger] kept@[k],
            ) by {
                assert(kept@[k] == self.channels@[kept_idxs[k]]);
            }
            assert forall|k: int| 0 <= k < removed@.len() implies spec_stale_channel_id(
                old(self).channels@,
                #[trigger] removed@[k],
                cutoff,
            ) by {
                let i0 = removed_idxs[k];
                assert(0 <= i0 < old(self).channels@.len() && old(self).channels@[i0].channel_id
                    == removed@[k] && old(self).channels@[i0].last_packet_received < cutoff);
            }
        }
        self.channels = kept;
        removed
    }

    /// Whether another channel than the one at `i` already carries
    /// `node_id` from the same subnetwork; such an upgrade is refused.
    pub open spec fn spec_duplicate_node_id(s: Seq<ChannelInfo>, i: int, node_id: PublicKey) -> bool {
        exists|j: int|
            0 <= j < s.len() && j != i && (#[trigger] s[j]).node_id == Some(node_id)
                && s[j].peer_addr.spec_subnet_key() == s[i].peer_addr.spec_subnet_key()
    }

    /// Promotes a channel to realtime once its peer's node id is learned
    /// from a handshake. It succeeds exactly when the table is running, the
    /// channel exists, and no other channel carries the same node id from
    /// the same subnetwork; on success only that channel changes, taking
    /// the node id and realtime mode.
    pub fn upgrade_to_realtime_connection(&mut self, channel_id: u64, node_id: PublicKey) -> (r:
        bool)
        requires
            old(self).wf(),
        ensures
            final(self).wf(),
            final(self).next_channel_id == old(self).next_channel_id,
            r == (!old(self).stopped && exists|i: int|
                0 <= i < old(self).channels@.len() && (#[trigger] old(self).channels@[i]).channel_id
                    == channel_id && !NetworkInfo::spec_duplicate_node_id(
                    old(self).channels@,
                    i,
                    node_id,
                )),
            r ==> exists|i: int|
                0 <= i < old(self).channels@.len() && (#[trigger] old(self).channels@[i]).channel_id
                    == channel_id && final(self).channels@ == old(self).channels@.update(
                    i,
                    ChannelInfo {
                        node_id: Some(node_id),
                        mode: ChannelMode::Realtime,
                        ..old(self).channels@[i]
                    },
                ),
            !r ==> *final(self) == *old(self),
    {
        if self.stopped {
            return false;
        }
        let i = match self.find_index(channel_id) {
            Some(i) => i,
            None => {
                proof {
                    assert forall|t: int|
                        0 <= t < old(self).channels@.len() implies (#[trigger] old(
                        self,
                    ).channels@[t]).channel_id != channel_id by {}
                }
                return false;
            }
        };
        let channel = self.channels[i];
        // refuse a duplicate node id from the same subnetwork
        let mut j: usize = 0;
        while j < self.channels.len()
            invariant
                *self == *old(self),
                old(self).wf(),
                i < self.channels@.len(),
                j <= self.channels@.len(),
                channel == self.channels@[i as int],
                channel.channel_id == channel_id,
                forall|t: int|
                    0 <= t < j && t != i ==> !((#[trigger] self.channels@[t]).node_id
                        == Some(node_id) && self.channels@[t].peer_addr.spec_subnet_key()
                        == self.channels@[i as int].peer_addr.spec_subnet_key()),
            decreases self.channels@.len() - j,
        {
            if j != i {
                let other = self.channels[j];
                match &other.node_id {
                    Some(nid) => {
                        let same_id = nid.w0 == node_id.w0 && nid.w1 == node_id.w1 && nid.w2
                            == node_id.w2 && nid.w3 == node_id.w3;
                        let ks = other.peer_addr.subnet_key();
                        let kc = channel.peer_addr.subnet_key();
                        if same_id && ks.0 == kc.0 && ks.1 == kc.1 {
                            proof {
                                assert(NetworkInfo::spec_duplicate_node_id(
                                    old(self).channels@,
                                    i as int,
                                    node_id,
                                ));
                                assert forall|t: int|
                                    0 <= t < old(self).channels@.len() && (#[trigger] old(
                                    self,
                                ).channels@[t]).channel_id == channel_id implies NetworkInfo::spec_duplicate_node_id(
                                    old(self).channels@,
                                    t,
                                    node_id,
                                ) by {
                                    assert(t == i as int);
                                }
                            }
                            return false;
                        }
                    }
                    None => {}
                }
            }
            j = j + 1;
        }
        let mut updated = channel;
        updated.node_id = Some(node_id);
        updated.mode = ChannelMode::Realtime;
        proof {
            assert(updated.channel_id == old(self).channels@[i as int].channel_id);
            assert(!NetworkInfo::spec_duplicate_node_id(old(self).channels@, i as int, node_id));
        }
        vstd::pervasive::VecAdditionalExecFns::set(&mut self.channels, i, updated);
        proof {
            assert(final(self).channels@ == old(self).channels@.update(
                i as int,
                ChannelInfo {
                    node_id: Some(node_id),
                    mode: ChannelMode::Realtime,
                    ..old(self).channels@[i as int]
                },
            ));
        }
        true
    }
}

/// Admission is monotone in the per-IP cap: once an address holds as many
/// alive connections as allowed, an inbound connection from it is rejected,
/// whatever mode it plans.
pub proof fn lemma_admission_per_ip_cap(
    net: NetworkInfo,
    config: NetworkConfig,
    peer: EndpointV6,
    planned_mode: ChannelMode,
    now: u64,
)
    requires
        !config.disable_max_peers_per_ip,
        spec_count_by_ip(net.channels@, peer.spec_ip_key()) >= config.max_peers_per_ip,
    ensures
        net.spec_can_add_connection(config, peer, ChannelDirection::Inbound, planned_mode, now)
            == AcceptResult::Rejected,
{
}

} // verus!

