//! Transport-header parsing for the access-control filters.
//!
//! The filters need three facts about a packet: whether it carries TCP or
//! UDP, the source port, and where the transport payload starts. Anything
//! that does not parse up to that point yields `None`, which the policies
//! treat as "not filterable" (fail open).

use vstd::prelude::*;
use crate::classify::{PROTO_TCP, PROTO_UDP};

verus! {

/// What the filters read out of one packet.
#[derive(Clone, Copy, PartialEq, Eq, Structural, Debug)]
pub struct TransportInfo {
    /// `true` for UDP, `false` for TCP.
    pub is_udp: bool,
    /// Transport source port, big endian on the wire.
    pub src_port: u16,
    /// Index of the first transport payload byte within the packet.
    pub payload_start: usize,
}

/// Big-endian 16-bit value at `off`.
pub open spec fn spec_port(b: Seq<u8>, off: int) -> u16
    recommends
        0 <= off,
        off + 2 <= b.len(),
{
    (b[off] * 256 + b[off + 1]) as u16
}

/// Transport header at offset `off`, for IP protocol number `proto`.
/// TCP needs its 20 fixed header bytes and an in-bounds data offset; UDP has
/// a fixed 8-byte header. Any other protocol has no transport info here.
pub open spec fn spec_transport_at(b: Seq<u8>, off: int, proto: u8) -> Option<TransportInfo> {
    if proto == PROTO_TCP && off + 20 <= b.len() {
        let doff = (b[off + 12] >> 4) * 4;
        if doff >= 20 && off + doff <= b.len() {
            Some(TransportInfo {
                is_udp: false,
                src_port: spec_port(b, off),
                payload_start: (off + doff) as usize,
            })
        } else {
            None
        }
    } else if proto == PROTO_UDP && off + 8 <= b.len() {
        Some(TransportInfo {
            is_udp: true,
            src_port: spec_port(b, off),
            payload_start: (off + 8) as usize,
        })
    } else {
        None
    }
}

/// Transport info of a raw IP packet: IPv4 headers are skipped by their
/// header-length field, IPv6 packets are read at the fixed 40-byte header
/// (extension headers are not chased; such packets count as not filterable).
pub open spec fn spec_transport(b: Seq<u8>) -> Option<TransportInfo> {
    if b.len() >= 20 && b[0] >> 4 == 4 {
        if b[0] & 0x0f >= 5 && (b[0] & 0x0f) * 4 <= b.len() {
            spec_transport_at(b, (b[0] & 0x0f) * 4, b[9])
        } else {
            None
        }
    } else if b.len() >= 40 && b[0] >> 4 == 6 {
        spec_transport_at(b, 40, b[6])
    } else {
        None
    }
}

fn read_port(packet: &Vec<u8>, off: usize) -> (p: u16)
    requires
        off <= 62,
        off + 2 <= packet@.len(),
    ensures
        p == spec_port(packet@, off as int),
{
    (packet[off] as u16) * 256 + (packet[off + 1] as u16)
}

fn transport_at(packet: &Vec<u8>, off: usize, proto: u8) -> (r: Option<TransportInfo>)
    requires
        off <= 60,
    ensures
        r == spec_transport_at(packet@, off as int, proto),
{
    if proto == PROTO_TCP {
        if off + 20 <= packet.len() {
            let doff = ((packet[off + 12] >> 4) as usize) * 4;
            if doff >= 20 && doff <= packet.len() && off <= packet.len() - doff {
                Some(TransportInfo {
                    is_udp: false,
                    src_port: read_port(packet, off),
                    payload_start: off + doff,
                })
            } else {
                None
            }
        } else {
            None
        }
    } else if proto == PROTO_UDP {
        if off + 8 <= packet.len() {
            Some(TransportInfo {
                is_udp: true,
                src_port: read_port(packet, off),
                payload_start: off + 8,
            })
        } else {
            None
        }
    } else {
        None
    }
}

/// Parse the transport header of one raw packet. Total: malformed input
/// yields `None`.
pub fn parse_transport(packet: &Vec<u8>) -> (r: Option<TransportInfo>)
    ensures
        r == spec_transport(packet@),
{
    if packet.len() >= 20 && packet[0] >> 4 == 4 {
        let b0 = packet[0];
        let ihl = b0 & 0x0f;
        assert(b0 & 0x0f <= 15) by (bit_vector);
        let hl = (ihl as usize) * 4;
        if ihl >= 5 && hl <= packet.len() {
            transport_at(packet, hl, packet[9])
        } else {
            None
        }
    } else if packet.len() >= 40 && packet[0] >> 4 == 6 {
        transport_at(packet, 40, packet[6])
    } else {
        None
    }
}

} // verus!
