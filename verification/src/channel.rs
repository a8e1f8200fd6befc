//! Per-peer channel state: addresses, mode, direction, activity clocks.

use vstd::prelude::*;
use crate::hashes::PublicKey;

verus! {

/// Whether we accepted the connection or initiated it.
#[derive(Clone, Copy, Debug, PartialEq, Eq, Structural)]
pub enum ChannelDirection {
    Inbound,
    Outbound,
}

/// What a connection is used for.
#[derive(Clone, Copy, Debug, PartialEq, Eq, Structural)]
pub enum ChannelMode {
    Undefined,
    Bootstrap,
    Realtime,
}

/// The class of traffic a send belongs to.
#[derive(Clone, Copy, Debug, PartialEq, Eq, Structural)]
pub enum TrafficType {
    Generic,
    Bootstrap,
}

/// What to do when the bandwidth limiter refuses a buffer.
#[derive(Clone, Copy, Debug, PartialEq, Eq, Structural)]
pub enum DropPolicy {
    /// Drop the message when the limiter refuses it.
    Limiter,
    /// Enqueue regardless.
    NoLimiterDrop,
}

/// The outcome of admission control.
#[derive(Clone, Copy, Debug, PartialEq, Eq, Structural)]
pub enum AcceptResult {
    Invalid,
    Accepted,
    Rejected,
    Error,
}

/// A v6 socket address as plain words: sixteen address bytes as two 64-bit
/// halves, most significant first, and the port.
#[derive(Clone, Copy, Debug, PartialEq, Eq, Hash, Structural)]
pub struct EndpointV6 {
    pub ip_hi: u64,
    pub ip_lo: u64,
    pub port: u16,
}

impl EndpointV6 {
    pub open spec fn spec_is_unspecified(self) -> bool {
        self.ip_hi == 0 && self.ip_lo == 0 && self.port == 0
    }

    pub fn unspecified() -> (r: EndpointV6)
        ensures
            r.spec_is_unspecified(),
    {
        EndpointV6 { ip_hi: 0, ip_lo: 0, port: 0 }
    }

    pub fn is_unspecified(&self) -> (r: bool)
        ensures
            r == self.spec_is_unspecified(),
    {
        self.ip_hi == 0 && self.ip_lo == 0 && self.port == 0
    }

    /// Whether the address embeds a v4 address.
    pub open spec fn spec_is_v4_mapped(self) -> bool {
        self.ip_hi == 0 && (self.ip_lo >> 32) == 0xFFFF
    }

    /// The key connections from one remote address share: the embedded v4
    /// address, or the full v6 address.
    pub open spec fn spec_ip_key(self) -> (u64, u64) {
        if self.spec_is_v4_mapped() {
            (0xFFFF_0000_0000u64, self.ip_lo & 0xFFFF_FFFFu64)
        } else {
            (self.ip_hi, self.ip_lo)
        }
    }

    pub fn ip_key(&self) -> (r: (u64, u64))
        ensures
            r == self.spec_ip_key(),
    {
        if self.ip_hi == 0 && (self.ip_lo >> 32) == 0xFFFF {
            (0xFFFF_0000_0000u64, self.ip_lo & 0xFFFF_FFFFu64)
        } else {
            (self.ip_hi, self.ip_lo)
        }
    }

    /// The key connections from one subnetwork share: the embedded v4
    /// address, or the upper 64 bits of the v6 address.
    pub open spec fn spec_subnet_key(self) -> (u64, u64) {
        if self.spec_is_v4_mapped() {
            (0xFFFF_0000_0000u64, self.ip_lo & 0xFFFF_FFFFu64)
        } else {
            (self.ip_hi, 0)
        }
    }

    pub fn subnet_key(&self) -> (r: (u64, u64))
        ensures
            r == self.spec_subnet_key(),
    {
        if self.ip_hi == 0 && (self.ip_lo >> 32) == 0xFFFF {
            (0xFFFF_0000_0000u64, self.ip_lo & 0xFFFF_FFFFu64)
        } else {
            (self.ip_hi, 0)
        }
    }

    /// Address equality by fields.
    pub fn same_endpoint(&self, other: &EndpointV6) -> (r: bool)
        ensures
            r == (*self == *other),
    {
        self.ip_hi == other.ip_hi && self.ip_lo == other.ip_lo && self.port == other.port
    }
}

/// Everything the node tracks about one peer connection.
#[derive(Clone, Copy, Debug, PartialEq, Eq, Structural)]
pub struct ChannelInfo {
    pub channel_id: u64,
    pub local_addr: EndpointV6,
    pub peer_addr: EndpointV6,
    pub peering_addr: Option<EndpointV6>,
    pub node_id: Option<PublicKey>,
    pub direction: ChannelDirection,
    pub mode: ChannelMode,
    pub protocol_version: u8,
    pub last_activity: u64,
    pub last_packet_sent: u64,
    pub last_packet_received: u64,
    pub last_bootstrap_attempt: u64,
    pub timeout_seconds: u64,
    pub timed_out: bool,
    pub closed: bool,
}

/// Default timeout in seconds of inactivity before a socket is closed.
pub const DEFAULT_TIMEOUT: u64 = 120;

impl ChannelInfo {
    /// A fresh channel: undefined mode, current activity stamps, and for an
    /// outbound connection the peer's address doubling as its peering
    /// address.
    pub fn new(
        channel_id: u64,
        local_addr: EndpointV6,
        peer_addr: EndpointV6,
        direction: ChannelDirection,
        now: u64,
    ) -> (r: ChannelInfo)
        ensures
            r.channel_id == channel_id,
            r.local_addr == local_addr,
            r.peer_addr == peer_addr,
            r.direction == direction,
            r.mode == ChannelMode::Undefined,
            r.node_id is None,
            !r.closed,
            !r.timed_out,
            r.last_packet_sent == now,
            r.last_packet_received == now,
            r.last_activity == now,
            r.timeout_seconds == DEFAULT_TIMEOUT,
            r.protocol_version == 19,
            direction == ChannelDirection::Outbound ==> r.peering_addr == Some(peer_addr),
            direction == ChannelDirection::Inbound ==> r.peering_addr is None,
    {
        ChannelInfo {
            channel_id,
            local_addr,
            peer_addr,
            peering_addr: if matches!(direction, ChannelDirection::Outbound) {
                Some(peer_addr)
            } else {
                None
            },
            node_id: None,
            direction,
            mode: ChannelMode::Undefined,
            protocol_version: 19,
            last_activity: now,
            last_packet_sent: now,
            last_packet_received: now,
            last_bootstrap_attempt: 0,
            timeout_seconds: DEFAULT_TIMEOUT,
            timed_out: false,
            closed: false,
        }
    }

    pub open spec fn spec_is_alive(self) -> bool {
        !self.closed
    }

    pub fn is_alive(&self) -> (r: bool)
        ensures
            r == self.spec_is_alive(),
    {
        !self.closed
    }

    /// Marks the channel closed; its timeout is cleared so readers unblock.
    pub fn close(&mut self)
        ensures
            *final(self) == (ChannelInfo { closed: true, timeout_seconds: 0, ..*old(self) }),
    {
        self.closed = true;
        self.timeout_seconds = 0;
    }

    /// The port the peer accepts connections on, falling back to the
    /// connection's own remote address.
    pub fn peering_addr_or_peer_addr(&self) -> (r: EndpointV6)
        ensures
            self.peering_addr matches Some(p) ==> r == p,
            self.peering_addr is None ==> r == self.peer_addr,
    {
        match self.peering_addr {
            Some(p) => p,
            None => self.peer_addr,
        }
    }
}

} // verus!
