//! Packet classification: one raw packet in, one protocol tag out.
//!
//! Only the IP version nibble and the single protocol / next-header byte are
//! read; anything short or malformed is tagged `Other`.

use vstd::prelude::*;

verus! {

/// Protocol tag assigned to one packet, used to drive the traffic counters.
#[derive(Clone, Copy, PartialEq, Eq, Structural, Debug)]
pub enum PacketTag {
    Tcp,
    Udp,
    Other,
}

/// Shortest buffer that can carry an IPv4 header.
pub const IPV4_MIN_LEN: usize = 20;

/// Shortest buffer that can carry the fixed IPv6 header.
pub const IPV6_MIN_LEN: usize = 40;

/// IP protocol number of TCP.
pub const PROTO_TCP: u8 = 6;

/// IP protocol number of UDP.
pub const PROTO_UDP: u8 = 17;

/// Tag that a protocol / next-header byte maps to.
pub open spec fn spec_tag_of_protocol(p: u8) -> PacketTag {
    if p == PROTO_TCP {
        PacketTag::Tcp
    } else if p == PROTO_UDP {
        PacketTag::Udp
    } else {
        PacketTag::Other
    }
}

/// The classification of a raw packet: the high nibble of byte 0 selects the
/// IP version; IPv4 reads the protocol byte at offset 9, IPv6 the next-header
/// byte at offset 6; everything else is `Other`.
pub open spec fn spec_classify(b: Seq<u8>) -> PacketTag {
    if b.len() >= IPV4_MIN_LEN && b[0] >> 4 == 4 {
        spec_tag_of_protocol(b[9])
    } else if b.len() >= IPV6_MIN_LEN && b[0] >> 4 == 6 {
        spec_tag_of_protocol(b[6])
    } else {
        PacketTag::Other
    }
}

fn tag_of_protocol(p: u8) -> (tag: PacketTag)
    ensures
        tag == spec_tag_of_protocol(p),
{
    if p == PROTO_TCP {
        PacketTag::Tcp
    } else if p == PROTO_UDP {
        PacketTag::Udp
    } else {
        PacketTag::Other
    }
}

/// Classify one packet. Total: never fails, and tags any buffer that is too
/// short for its IP version as `Other`.
pub fn classify(packet: &Vec<u8>) -> (tag: PacketTag)
    ensures
        tag == spec_classify(packet@),
        packet@.len() < IPV4_MIN_LEN ==> tag == PacketTag::Other,
{
    if packet.len() >= IPV4_MIN_LEN {
        let version = packet[0] >> 4;
        if version == 4 {
            tag_of_protocol(packet[9])
        } else if version == 6 && packet.len() >= IPV6_MIN_LEN {
            tag_of_protocol(packet[6])
        } else {
            PacketTag::Other
        }
    } else {
        PacketTag::Other
    }
}

/// Law: the classification of a buffer of at least 20 bytes depends only on
/// the version nibble of byte 0, on byte 9 for version 4, and, for version 6,
/// on whether the buffer reaches 40 bytes and on byte 6 when it does. Two
/// buffers that agree on those agree on their tag.
pub proof fn lemma_classify_reads_only_header_bytes(a: Seq<u8>, b: Seq<u8>)
    requires
        a.len() >= IPV4_MIN_LEN,
        b.len() >= IPV4_MIN_LEN,
        a[0] >> 4 == b[0] >> 4,
        a[0] >> 4 == 4 ==> a[9] == b[9],
        a[0] >> 4 == 6 ==> (a.len() >= IPV6_MIN_LEN <==> b.len() >= IPV6_MIN_LEN),
        a[0] >> 4 == 6 && a.len() >= IPV6_MIN_LEN ==> a[6] == b[6],
    ensures
        spec_classify(a) == spec_classify(b),
{
}

} // verus!
