//! Session health status and traffic counters.
//!
//! One `CoreState` value tracks a session: a four-state health status, the
//! monotonically non-decreasing traffic counters, and the local proxy port of
//! the current session. A health snapshot is a plain copy of those fields.

use vstd::prelude::*;
use crate::classify::PacketTag;

verus! {

/// Health status of the tunnel session.
///
/// `Stopped` is the initial and the normal terminal state, `Error` the
/// terminal state of a failed setup; `Starting` and `Running` only ever hold
/// while a loop is driving the session.
#[derive(Clone, Copy, PartialEq, Eq, Structural, Debug)]
pub enum CoreStatus {
    Stopped,
    Starting,
    Running,
    Error,
}

/// Traffic counters. Each is only ever increased (saturating at the type
/// bound), and only reset by building a fresh state.
#[derive(Clone, Copy, PartialEq, Eq, Structural, Debug)]
pub struct Counters {
    pub tcp_count: u64,
    pub udp_count: u64,
    pub other_count: u64,
    pub bytes_processed: u64,
}

/// Proxy port reported before any session bound one.
pub const DEFAULT_PROXY_PORT: u16 = 10808;

impl Counters {
    /// All counters zero.
    pub open spec fn spec_zero() -> Counters {
        Counters { tcp_count: 0, udp_count: 0, other_count: 0, bytes_processed: 0 }
    }

    /// Counters after accounting one packet of tag `tag` and `len` bytes:
    /// the matching packet counter and the byte counter each grow
    /// (saturating), the others stay.
    pub open spec fn spec_after_packet(self, tag: PacketTag, len: u64) -> Counters {
        Counters {
            tcp_count: if tag is Tcp {
                self.tcp_count.saturating_add(1)
            } else {
                self.tcp_count
            },
            udp_count: if tag is Udp {
                self.udp_count.saturating_add(1)
            } else {
                self.udp_count
            },
            other_count: if tag is Other {
                self.other_count.saturating_add(1)
            } else {
                self.other_count
            },
            bytes_processed: self.bytes_processed.saturating_add(len),
        }
    }

    /// Total of the three packet counters, saturating.
    pub open spec fn spec_blocked_count(self) -> u64 {
        self.tcp_count.saturating_add(self.udp_count).saturating_add(self.other_count)
    }

    pub fn new() -> (c: Counters)
        ensures
            c == Counters::spec_zero(),
    {
        Counters { tcp_count: 0, udp_count: 0, other_count: 0, bytes_processed: 0 }
    }

    /// Account one packet.
    pub fn record_packet(&mut self, tag: PacketTag, len: u64)
        ensures
            *final(self) == old(self).spec_after_packet(tag, len),
    {
        match tag {
            PacketTag::Tcp => {
                self.tcp_count = self.tcp_count.saturating_add(1);
            },
            PacketTag::Udp => {
                self.udp_count = self.udp_count.saturating_add(1);
            },
            PacketTag::Other => {
                self.other_count = self.other_count.saturating_add(1);
            },
        }
        self.bytes_processed = self.bytes_processed.saturating_add(len);
    }
}

/// The state a loop drives: health status, counters, and the proxy port of
/// the current session.
#[derive(Clone, Copy, PartialEq, Eq, Structural, Debug)]
pub struct CoreState {
    pub status: CoreStatus,
    pub counters: Counters,
    pub proxy_port: u16,
}

/// A side-effect-free copy of everything a caller may ask about a session.
#[derive(Clone, Copy, PartialEq, Eq, Structural, Debug)]
pub struct HealthSnapshot {
    pub status: CoreStatus,
    pub tcp_count: u64,
    pub udp_count: u64,
    pub other_count: u64,
    pub bytes_processed: u64,
    pub proxy_port: u16,
}

impl CoreState {
    /// Fresh state: stopped, zero counters, default proxy port.
    pub open spec fn spec_initial() -> CoreState {
        CoreState {
            status: CoreStatus::Stopped,
            counters: Counters::spec_zero(),
            proxy_port: DEFAULT_PROXY_PORT,
        }
    }

    pub fn new() -> (s: CoreState)
        ensures
            s == CoreState::spec_initial(),
    {
        CoreState {
            status: CoreStatus::Stopped,
            counters: Counters::new(),
            proxy_port: DEFAULT_PROXY_PORT,
        }
    }

    /// Replace only the status.
    pub fn set_status(&mut self, status: CoreStatus)
        ensures
            *final(self) == (CoreState { status, ..*old(self) }),
    {
        self.status = status;
    }

    /// Replace only the proxy port.
    pub fn set_proxy_port(&mut self, port: u16)
        ensures
            *final(self) == (CoreState { proxy_port: port, ..*old(self) }),
    {
        self.proxy_port = port;
    }

    /// Account one packet in the counters; status and port stay.
    pub fn record_packet(&mut self, tag: PacketTag, len: u64)
        ensures
            *final(self) == (CoreState {
                counters: old(self).counters.spec_after_packet(tag, len),
                ..*old(self)
            }),
    {
        self.counters.record_packet(tag, len);
    }

    /// Report the current state without changing it.
    pub fn health_snapshot(&self) -> (h: HealthSnapshot)
        ensures
            h.status == self.status,
            h.tcp_count == self.counters.tcp_count,
            h.udp_count == self.counters.udp_count,
            h.other_count == self.counters.other_count,
            h.bytes_processed == self.counters.bytes_processed,
            h.proxy_port == self.proxy_port,
    {
        HealthSnapshot {
            status: self.status,
            tcp_count: self.counters.tcp_count,
            udp_count: self.counters.udp_count,
            other_count: self.counters.other_count,
            bytes_processed: self.counters.bytes_processed,
            proxy_port: self.proxy_port,
        }
    }

    /// Total of the three packet counters, saturating at the type bound.
    pub fn blocked_count(&self) -> (n: u64)
        ensures
            n == self.counters.spec_blocked_count(),
    {
        self.counters.tcp_count
            .saturating_add(self.counters.udp_count)
            .saturating_add(self.counters.other_count)
    }
}

} // verus!
