//! Classification of a raw Ethernet frame as the XDP program sees it: an
//! IPv4/UDP datagram to the configured port whose payload starts with a
//! pshred header, or anything else.

use vstd::prelude::*;
use network_types::eth::EthHdr;
use network_types::ip::Ipv4Hdr;
use network_types::udp::UdpHdr;
use crate::bytes::{
    be_u16_at, le_u32_at, lemma_u16_from_be_value, lemma_u32_from_le_value, read_u16_be,
    read_u32_le,
};
use crate::protocol::{PshredHeader, RouterConfig};
use crate::sender::{lemma_built_packet_proposer_index, pshred_packet_bytes};

verus! {

/// EtherType of IPv4.
pub const ETH_P_IP: u16 = 0x0800;

/// IP protocol number of UDP.
pub const IPPROTO_UDP: u8 = 17;

/// Offset of the EtherType field inside the Ethernet header.
pub const ETHER_TYPE_OFFSET: usize = 12;

/// Offset of the protocol field inside the IPv4 header.
pub const IPV4_PROTO_OFFSET: usize = 9;

/// Size of the Ethernet header.
pub open spec fn eth_len() -> int {
    14
}

/// Size of the option-less IPv4 header.
pub open spec fn ipv4_len() -> int {
    20
}

/// Size of the UDP header.
pub open spec fn udp_len() -> int {
    8
}

/// Offset of the UDP header in a frame.
pub open spec fn udp_offset() -> int {
    eth_len() + ipv4_len()
}

/// Offset of the UDP payload (the pshred header) in a frame.
pub open spec fn payload_offset() -> int {
    udp_offset() + udp_len()
}

/// `network_types::eth::EthHdr::LEN`, the size of the packed Ethernet header
/// (two 6-byte addresses and the 2-byte EtherType).
#[verifier::external_body]
fn eth_hdr_len() -> (n: usize)
    ensures
        n == eth_len(),
{
    EthHdr::LEN
}

/// `network_types::ip::Ipv4Hdr::LEN`, the size of the IPv4 header without options.
#[verifier::external_body]
fn ipv4_hdr_len() -> (n: usize)
    ensures
        n == ipv4_len(),
{
    Ipv4Hdr::LEN
}

/// `size_of::<network_types::udp::UdpHdr>()`: four 2-byte fields.
#[verifier::external_body]
fn udp_hdr_len() -> (n: usize)
    ensures
        n == udp_len(),
{
    core::mem::size_of::<UdpHdr>()
}

/// `network_types::udp::UdpHdr::dst_port` on the UDP header that starts at
/// `udp_off`: the destination port field (bytes 2 and 3) read in network byte order.
#[verifier::external_body]
fn udp_dst_port(packet: &[u8], udp_off: usize) -> (port: u16)
    requires
        udp_off + udp_len() <= packet@.len(),
    ensures
        port == be_u16_at(packet@, udp_off + 2),
{
    let o = udp_off;
    let header = UdpHdr {
        src: [packet[o], packet[o + 1]],
        dst: [packet[o + 2], packet[o + 3]],
        len: [packet[o + 4], packet[o + 5]],
        check: [packet[o + 6], packet[o + 7]],
    };
    header.dst_port()
}

/// What the router makes of one frame.
#[derive(Clone, Copy, Debug, PartialEq, Eq, Structural)]
pub enum PacketOutcome {
    /// Not an IPv4/UDP datagram for the configured, enabled port: left to the kernel.
    Ignored,
    /// The frame ends inside a header or inside the proposer index; `port_matched`
    /// tells whether the UDP destination port had already matched.
    Truncated { port_matched: bool },
    /// A pshred packet for the configured port.
    Pshred { proposer_index: u32, packet_len: u64 },
}

/// Whether `size` bytes starting at `offset` lie inside a packet of `len` bytes.
pub open spec fn in_bounds(len: nat, offset: int, size: int) -> bool {
    offset + size <= len
}

/// The classification of frame `p` under configuration `config`.
pub open spec fn classify_packet(p: Seq<u8>, config: Option<RouterConfig>) -> PacketOutcome {
    if !in_bounds(p.len(), 0, eth_len()) {
        PacketOutcome::Truncated { port_matched: false }
    } else if be_u16_at(p, ETHER_TYPE_OFFSET as int) != ETH_P_IP {
        PacketOutcome::Ignored
    } else if !in_bounds(p.len(), eth_len(), ipv4_len()) {
        PacketOutcome::Truncated { port_matched: false }
    } else if p[eth_len() + IPV4_PROTO_OFFSET] != IPPROTO_UDP {
        PacketOutcome::Ignored
    } else if !in_bounds(p.len(), udp_offset(), udp_len()) {
        PacketOutcome::Truncated { port_matched: false }
    } else {
        match config {
            None => PacketOutcome::Ignored,
            Some(c) => if !c.accepts(be_u16_at(p, udp_offset() + 2)) {
                PacketOutcome::Ignored
            } else if !in_bounds(
                p.len(),
                payload_offset() + PshredHeader::PROPOSER_INDEX_OFFSET,
                4,
            ) {
                PacketOutcome::Truncated { port_matched: true }
            } else {
                PacketOutcome::Pshred {
                    proposer_index: le_u32_at(
                        p,
                        payload_offset() + PshredHeader::PROPOSER_INDEX_OFFSET,
                    ),
                    packet_len: p.len() as u64,
                }
            },
        }
    }
}

/// Bounds check before reading `size` bytes at `offset`: `Ok(offset)` when
/// they lie inside the packet.
pub fn ptr_at(packet: &[u8], offset: usize, size: usize) -> (r: Result<usize, ()>)
    ensures
        r == (if in_bounds(packet@.len(), offset as int, size as int) {
            Ok::<usize, ()>(offset)
        } else {
            Err::<usize, ()>(())
        }),
{
    if offset > packet.len() || size > packet.len() - offset {
        return Err(());
    }
    Ok(offset)
}

/// Reads the little-endian proposer index of the pshred header that starts at
/// `payload_offset`.
pub fn read_proposer_index(packet: &[u8], payload_offset: usize) -> (r: Result<u32, ()>)
    requires
        payload_offset + PshredHeader::PROPOSER_INDEX_OFFSET <= usize::MAX,
    ensures
        r == (if in_bounds(
            packet@.len(),
            payload_offset + PshredHeader::PROPOSER_INDEX_OFFSET,
            4,
        ) {
            Ok::<u32, ()>(le_u32_at(packet@, payload_offset + PshredHeader::PROPOSER_INDEX_OFFSET))
        } else {
            Err::<u32, ()>(())
        }),
{
    let proposer_offset = payload_offset + PshredHeader::PROPOSER_INDEX_OFFSET;
    let at = ptr_at(packet, proposer_offset, 4)?;
    Ok(read_u32_le(packet, at))
}

/// Classifies one frame.
#[verifier::spinoff_prover]
#[verifier::rlimit(40)]
pub fn process_packet(packet: &[u8], config: Option<RouterConfig>) -> (o: PacketOutcome)
    ensures
        o == classify_packet(packet@, config),
{
    let eth = match ptr_at(packet, 0, eth_hdr_len()) {
        Ok(at) => at,
        Err(_) => return PacketOutcome::Truncated { port_matched: false },
    };
    let ether_type = read_u16_be(packet, eth + ETHER_TYPE_OFFSET);
    if ether_type != ETH_P_IP {
        return PacketOutcome::Ignored;
    }
    let ip = match ptr_at(packet, eth_hdr_len(), ipv4_hdr_len()) {
        Ok(at) => at,
        Err(_) => return PacketOutcome::Truncated { port_matched: false },
    };
    let proto = packet[ip + IPV4_PROTO_OFFSET];
    if proto != IPPROTO_UDP {
        return PacketOutcome::Ignored;
    }
    let udp_off = eth_hdr_len() + ipv4_hdr_len();
    let udp = match ptr_at(packet, udp_off, udp_hdr_len()) {
        Ok(at) => at,
        Err(_) => return PacketOutcome::Truncated { port_matched: false },
    };
    let dest_port = udp_dst_port(packet, udp);
    let config = match config {
        Some(c) => c,
        None => return PacketOutcome::Ignored,
    };
    if config.enabled == 0 || dest_port != config.target_port {
        return PacketOutcome::Ignored;
    }
    let payload_off = udp_off + udp_hdr_len();
    let proposer_index = match read_proposer_index(packet, payload_off) {
        Ok(i) => i,
        Err(_) => return PacketOutcome::Truncated { port_matched: true },
    };
    PacketOutcome::Pshred { proposer_index, packet_len: packet.len() as u64 }
}


/// What the classifier reads off the wire, in terms of the frame's bytes:
/// a frame gets past the port check only if it is an Ethernet frame of type
/// IPv4 (bytes 12..14 = 0x0800) carrying UDP (byte 23 = 17) whose big-endian
/// destination port (bytes 36..38) equals the configured port, with matching
/// enabled; a frame whose headers are all present but whose destination port
/// differs is ignored; a pshred packet's proposer index is the little-endian
/// value of bytes 50..54 and its length the frame's length; and every
/// complete frame that meets these conditions is a pshred packet.
#[verifier::spinoff_prover]
#[verifier::rlimit(40)]
pub proof fn lemma_classification_reads_the_wire(p: Seq<u8>, c: RouterConfig)
    requires
        p.len() <= u64::MAX,
    ensures
        ({
            let o = classify_packet(p, Some(c));
            (o is Pshred || o == PacketOutcome::Truncated { port_matched: true }) ==> {
                &&& p.len() >= 42
                &&& p[12] as int * 256 + p[13] as int == 0x0800
                &&& p[23] == 17
                &&& c.enabled != 0
                &&& p[36] as int * 256 + p[37] as int == c.target_port as int
            }
        }),
        p.len() >= 42 && p[36] as int * 256 + p[37] as int != c.target_port as int
            ==> classify_packet(p, Some(c)) == PacketOutcome::Ignored,
        classify_packet(p, Some(c)) is Pshred ==> {
            &&& p.len() >= 54
            &&& classify_packet(p, Some(c))->proposer_index as int == p[50] as int + p[51] as int
                * 0x100 + p[52] as int * 0x1_0000 + p[53] as int * 0x100_0000
            &&& classify_packet(p, Some(c))->packet_len as int == p.len()
        },
        p.len() >= 54 && p[12] as int * 256 + p[13] as int == 0x0800 && p[23] == 17 && c.enabled
            != 0 && p[36] as int * 256 + p[37] as int == c.target_port as int
            ==> classify_packet(p, Some(c)) is Pshred,
{
    if p.len() >= 14 {
        lemma_u16_from_be_value(p[12], p[13]);
    }
    if p.len() >= 42 {
        lemma_u16_from_be_value(p[36], p[37]);
    }
    if p.len() >= 54 {
        lemma_u32_from_le_value(p[50], p[51], p[52], p[53]);
    }
}

/// A frame that carries, as the payload of a UDP datagram to the configured
/// port, a packet built by the test sender is demultiplexed by the proposer
/// index the sender put in it.
#[verifier::spinoff_prover]
#[verifier::rlimit(40)]
pub proof fn lemma_sent_packet_demultiplexed(
    frame: Seq<u8>,
    config: RouterConfig,
    slot: u64,
    proposer_index: u32,
    shred_index: u32,
)
    requires
        ({
            let payload = pshred_packet_bytes(slot, proposer_index, shred_index);
            &&& payload_offset() + payload.len() <= frame.len()
            &&& frame.subrange(payload_offset(), payload_offset() + payload.len()) == payload
        }),
        be_u16_at(frame, ETHER_TYPE_OFFSET as int) == ETH_P_IP,
        frame[eth_len() + IPV4_PROTO_OFFSET] == IPPROTO_UDP,
        config.accepts(be_u16_at(frame, udp_offset() + 2)),
    ensures
        classify_packet(frame, Some(config)) == (PacketOutcome::Pshred {
            proposer_index,
            packet_len: frame.len() as u64,
        }),
{
    let payload = pshred_packet_bytes(slot, proposer_index, shred_index);
    lemma_built_packet_proposer_index(slot, proposer_index, shred_index);
    let base = payload_offset();
    let sub = frame.subrange(base, base + payload.len());
    assert(frame[base + 8] == sub[8]);
    assert(frame[base + 9] == sub[9]);
    assert(frame[base + 10] == sub[10]);
    assert(frame[base + 11] == sub[11]);
}

} // verus!
