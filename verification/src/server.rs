//! The per-connection response server: a state machine that classifies a
//! connection as handshake, realtime or bootstrap and says what to do with
//! each message; and the bootstrap attempt bookkeeping.

use vstd::prelude::*;
use crate::channel::ChannelMode;
use crate::hashes::{Hash256, PublicKey};

verus! {

/// What kind of message arrived, as the visitors classify it.
#[derive(Clone, Copy, Debug, PartialEq, Eq, Structural)]
pub enum InboundMessageKind {
    /// A node identity handshake that validated.
    HandshakeOk,
    /// A handshake that did not validate.
    HandshakeBad,
    /// A historical-data request: bulk pull, frontier request and kin.
    BootstrapRequest,
    /// A gossip message: publish, votes, keepalives.
    RealtimeMessage,
    /// Anything else.
    Other,
}

/// What the server does with one message.
#[derive(Clone, Copy, Debug, PartialEq, Eq, Structural)]
pub struct ServerDecision {
    /// Hand the message to the realtime queue.
    pub queue_realtime: bool,
    /// Keep reading from the socket; a bootstrap serve taking over stops
    /// the read loop until it hands control back.
    pub continue_receiving: bool,
    /// The message was counted as dropped.
    pub dropped: bool,
}

/// One connection's server state.
pub struct ResponseServer {
    pub mode: ChannelMode,
    pub remote_node_id: PublicKey,
    pub disable_bootstrap_listener: bool,
    pub disable_tcp_realtime: bool,
    pub connections_max: u64,
    pub bootstrap_count: u64,
    pub handshake_query_received: bool,
    pub stopped: bool,
    pub unique_id: u64,
    pub last_telemetry_req: Option<u64>,
}

impl ResponseServer {
    /// A fresh connection starts undefined.
    pub fn new(unique_id: u64) -> (r: ResponseServer)
        ensures
            r.mode == ChannelMode::Undefined,
            r.unique_id == unique_id,
            !r.stopped,
            r.bootstrap_count == 0,
            r.connections_max == 64,
            !r.disable_bootstrap_listener,
            !r.disable_tcp_realtime,
            r.last_telemetry_req is None,
    {
        ResponseServer {
            mode: ChannelMode::Undefined,
            remote_node_id: Hash256::zero(),
            disable_bootstrap_listener: false,
            disable_tcp_realtime: false,
            connections_max: 64,
            bootstrap_count: 0,
            handshake_query_received: false,
            stopped: false,
            unique_id,
            last_telemetry_req: None,
        }
    }

    pub fn is_undefined_connection(&self) -> (r: bool)
        ensures
            r == (self.mode == ChannelMode::Undefined),
    {
        self.mode == ChannelMode::Undefined
    }

    pub fn is_bootstrap_connection(&self) -> (r: bool)
        ensures
            r == (self.mode == ChannelMode::Bootstrap),
    {
        self.mode == ChannelMode::Bootstrap
    }

    pub fn is_realtime_connection(&self) -> (r: bool)
        ensures
            r == (self.mode == ChannelMode::Realtime),
    {
        self.mode == ChannelMode::Realtime
    }

    /// Switches an undefined connection to bootstrap mode, when the
    /// listener allows it and the cap is not reached; says whether the
    /// connection is in bootstrap mode afterwards.
    pub fn to_bootstrap_connection(&mut self) -> (r: bool)
        ensures
            r == (final(self).mode == ChannelMode::Bootstrap),
            old(self).mode == ChannelMode::Undefined && !old(self).disable_bootstrap_listener && old(
                self,
            ).bootstrap_count < old(self).connections_max ==> final(self).mode
                == ChannelMode::Bootstrap && final(self).bootstrap_count == old(
                self,
            ).bootstrap_count + 1,
            !(old(self).mode == ChannelMode::Undefined && !old(self).disable_bootstrap_listener
                && old(self).bootstrap_count < old(self).connections_max) ==> *final(self) == *old(
                self,
            ),
    {
        if self.mode == ChannelMode::Undefined && !self.disable_bootstrap_listener
            && self.bootstrap_count < self.connections_max {
            self.bootstrap_count = self.bootstrap_count + 1;
            self.mode = ChannelMode::Bootstrap;
        }
        self.mode == ChannelMode::Bootstrap
    }

    /// Switches an undefined connection to realtime mode once the peer's
    /// node id is learned from a valid handshake.
    pub fn to_realtime_connection(&mut self, node_id: &PublicKey) -> (r: bool)
        ensures
            old(self).mode == ChannelMode::Undefined && !old(self).disable_tcp_realtime ==> r
                && final(self).mode == ChannelMode::Realtime && final(self).remote_node_id
                == *node_id,
            !(old(self).mode == ChannelMode::Undefined && !old(self).disable_tcp_realtime) ==> !r
                && *final(self) == *old(self),
    {
        if self.mode == ChannelMode::Undefined && !self.disable_tcp_realtime {
            self.remote_node_id = *node_id;
            self.mode = ChannelMode::Realtime;
            true
        } else {
            false
        }
    }

    /// Whether a telemetry request is allowed now: the first one always,
    /// later ones only once `cutoff_seconds` have passed.
    pub fn is_telemetry_cutoff_exceeded(&self, now: u64, cutoff_seconds: u64) -> (r: bool)
        ensures
            self.last_telemetry_req is None ==> r,
            self.last_telemetry_req matches Some(last) ==> r == (now >= last + cutoff_seconds),
    {
        match self.last_telemetry_req {
            None => true,
            Some(last) => now >= last && now - last >= cutoff_seconds,
        }
    }

    pub fn set_last_telemetry_req(&mut self, now: u64)
        ensures
            *final(self) == (ResponseServer { last_telemetry_req: Some(now), ..*old(self) }),
    {
        self.last_telemetry_req = Some(now);
    }

    pub fn unique_id(&self) -> (r: u64)
        ensures
            r == self.unique_id,
    {
        self.unique_id
    }

    pub fn is_stopped(&self) -> (r: bool)
        ensures
            r == self.stopped,
    {
        self.stopped
    }

    pub fn stop(&mut self)
        ensures
            *final(self) == (ResponseServer { stopped: true, ..*old(self) }),
    {
        self.stopped = true;
    }

    /// One step of the connection's read loop: undefined connections accept
    /// a handshake into realtime mode or a bootstrap request into bootstrap
    /// mode; realtime connections queue gossip and drop bootstrap requests;
    /// bootstrap connections hand ownership to the serve and ignore gossip.
    pub fn process_message(&mut self, node_id: &PublicKey, kind: InboundMessageKind) -> (r:
        ServerDecision)
        ensures
            old(self).mode == ChannelMode::Undefined && kind == InboundMessageKind::HandshakeOk
                && !old(self).disable_tcp_realtime ==> final(self).mode == ChannelMode::Realtime
                && r.queue_realtime && r.continue_receiving && !r.dropped,
            old(self).mode == ChannelMode::Undefined && kind
                == InboundMessageKind::BootstrapRequest && !old(self).disable_bootstrap_listener
                && old(self).bootstrap_count < old(self).connections_max ==> final(self).mode
                == ChannelMode::Bootstrap && !r.queue_realtime && !r.continue_receiving,
            old(self).mode == ChannelMode::Realtime ==> final(self).mode == ChannelMode::Realtime
                && r.continue_receiving && (kind == InboundMessageKind::RealtimeMessage
                ==> r.queue_realtime) && (kind == InboundMessageKind::BootstrapRequest
                ==> !r.queue_realtime && r.dropped),
            old(self).mode == ChannelMode::Bootstrap ==> final(self).mode == ChannelMode::Bootstrap
                && !r.queue_realtime && (kind == InboundMessageKind::BootstrapRequest
                ==> !r.continue_receiving) && (kind != InboundMessageKind::BootstrapRequest
                ==> r.continue_receiving && r.dropped),
            old(self).mode == ChannelMode::Undefined && (kind == InboundMessageKind::HandshakeBad
                || kind == InboundMessageKind::RealtimeMessage || kind
                == InboundMessageKind::Other) ==> *final(self) == *old(self) && !r.queue_realtime
                && r.continue_receiving,
    {
        if self.is_undefined_connection() {
            match kind {
                InboundMessageKind::HandshakeOk => {
                    if self.to_realtime_connection(node_id) {
                        return ServerDecision {
                            queue_realtime: true,
                            continue_receiving: true,
                            dropped: false,
                        };
                    }
                    return ServerDecision {
                        queue_realtime: false,
                        continue_receiving: true,
                        dropped: true,
                    };
                }
                InboundMessageKind::BootstrapRequest => {
                    if self.to_bootstrap_connection() {
                        // the bootstrap serve takes the socket over
                        return ServerDecision {
                            queue_realtime: false,
                            continue_receiving: false,
                            dropped: false,
                        };
                    }
                    return ServerDecision {
                        queue_realtime: false,
                        continue_receiving: true,
                        dropped: true,
                    };
                }
                _ => {
                    return ServerDecision {
                        queue_realtime: false,
                        continue_receiving: true,
                        dropped: false,
                    };
                }
            }
        }
        if self.is_realtime_connection() {
            match kind {
                InboundMessageKind::RealtimeMessage => {
                    return ServerDecision {
                        queue_realtime: true,
                        continue_receiving: true,
                        dropped: false,
                    };
                }
                _ => {
                    return ServerDecision {
                        queue_realtime: false,
                        continue_receiving: true,
                        dropped: true,
                    };
                }
            }
        }
        // bootstrap mode
        match kind {
            InboundMessageKind::BootstrapRequest => {
                ServerDecision { queue_realtime: false, continue_receiving: false, dropped: false }
            }
            _ => {
                ServerDecision { queue_realtime: false, continue_receiving: true, dropped: true }
            }
        }
    }
}

/// The pace a bootstrap attempt advances in.
#[derive(Clone, Copy, Debug, PartialEq, Eq, Structural)]
pub enum BootstrapMode {
    Legacy,
    Lazy,
    WalletLazy,
}

/// Seconds between two progress log lines of one attempt.
pub const BOOTSTRAP_LOG_INTERVAL_SECONDS: u64 = 15;

/// One bootstrap run's bookkeeping.
pub struct BootstrapAttempt {
    pub id: u64,
    pub mode: BootstrapMode,
    pub total_blocks: u64,
    pub next_log: u64,
    pub attempt_start: u64,
}

impl BootstrapAttempt {
    pub fn new(id: u64, mode: BootstrapMode, now: u64) -> (r: BootstrapAttempt)
        ensures
            r.id == id,
            r.mode == mode,
            r.total_blocks == 0,
            r.next_log == now,
            r.attempt_start == now,
    {
        BootstrapAttempt { id, mode, total_blocks: 0, next_log: now, attempt_start: now }
    }

    /// Whether a progress line is due; asking moves the next due time
    /// forward by the log interval.
    pub fn should_log(&mut self, now: u64) -> (r: bool)
        requires
            now + BOOTSTRAP_LOG_INTERVAL_SECONDS <= u64::MAX,
        ensures
            r == (old(self).next_log < now),
            r ==> final(self).next_log == now + BOOTSTRAP_LOG_INTERVAL_SECONDS,
            !r ==> *final(self) == *old(self),
    {
        if self.next_log < now {
            self.next_log = now + BOOTSTRAP_LOG_INTERVAL_SECONDS;
            true
        } else {
            false
        }
    }

    /// The attempt's pace as text.
    pub fn mode_text(&self) -> (r: &'static str)
        ensures
            self.mode == BootstrapMode::Legacy ==> r@ == "legacy"@,
            self.mode == BootstrapMode::Lazy ==> r@ == "lazy"@,
            self.mode == BootstrapMode::WalletLazy ==> r@ == "wallet_lazy"@,
    {
        match self.mode {
            BootstrapMode::Legacy => "legacy",
            BootstrapMode::Lazy => "lazy",
            BootstrapMode::WalletLazy => "wallet_lazy",
        }
    }
}

} // verus!
