//! Construction of the test pshred packets that the sender tool emits.

use vstd::prelude::*;
use vstd::string::*;
use crate::bytes::{
    le_bytes_u32, le_bytes_u64, le_u32_at, lemma_le_bytes_u32_digits, lemma_le_bytes_u64_digits,
    lemma_u32_le_roundtrip, pow256, push_u32_le, push_u64_le,
};
use crate::protocol::PshredHeader;

verus! {

/// The filler that follows the header and the 32-byte commitment in a test packet.
pub open spec fn test_shred_payload() -> Seq<u8> {
    "test_shred_data_payload".spec_bytes()
}

/// A test pshred packet: the little-endian header fields, a zeroed
/// commitment of 32 bytes, then the test payload.
pub open spec fn pshred_packet_bytes(slot: u64, proposer_index: u32, shred_index: u32) -> Seq<u8> {
    le_bytes_u64(slot) + le_bytes_u32(proposer_index) + le_bytes_u32(shred_index) + Seq::new(
        32,
        |i: int| 0u8,
    ) + test_shred_payload()
}

/// Builds the UDP payload of a test pshred packet.
pub fn build_pshred_packet(slot: u64, proposer_index: u32, shred_index: u32) -> (packet: Vec<u8>)
    ensures
        packet@ == pshred_packet_bytes(slot, proposer_index, shred_index),
{
    let mut packet: Vec<u8> = Vec::with_capacity(64);
    push_u64_le(&mut packet, slot);
    push_u32_le(&mut packet, proposer_index);
    push_u32_le(&mut packet, shred_index);
    let ghost header = packet@;
    let mut k: usize = 0;
    while k < 32
        invariant
            k <= 32,
            packet@ == header + Seq::new(k as nat, |i: int| 0u8),
        decreases 32 - k,
    {
        packet.push(0u8);
        k = k + 1;
        assert(packet@ =~= header + Seq::new(k as nat, |i: int| 0u8));
    }
    let ghost prefix = packet@;
    let payload = "test_shred_data_payload".as_bytes();
    let mut j: usize = 0;
    while j < payload.len()
        invariant
            j <= payload@.len(),
            payload@ == test_shred_payload(),
            packet@ == prefix + payload@.take(j as int),
        decreases payload@.len() - j,
    {
        packet.push(payload[j]);
        j = j + 1;
        assert(packet@ =~= prefix + payload@.take(j as int));
    }
    assert(payload@.take(j as int) =~= payload@);
    packet
}

/// The layout of a test packet, byte by byte: `slot` in base-256 digits,
/// least significant first, at 0..8; `proposer_index` likewise at 8..12 and
/// `shred_index` at 12..16; 32 zero bytes at 16..48; the UTF-8 bytes of
/// `test_shred_data_payload` from 48 on.
pub proof fn lemma_packet_layout(slot: u64, proposer_index: u32, shred_index: u32)
    ensures
        ({
            let p = pshred_packet_bytes(slot, proposer_index, shred_index);
            &&& p.len() >= 48
            &&& forall|k: int| 0 <= k < 8 ==> #[trigger] p[k] as int == (slot as int / pow256(k)) % 0x100
            &&& forall|k: int|
                0 <= k < 4 ==> #[trigger] p[8 + k] as int == (proposer_index as int / pow256(k))
                    % 0x100
            &&& forall|k: int|
                0 <= k < 4 ==> #[trigger] p[12 + k] as int == (shred_index as int / pow256(k))
                    % 0x100
            &&& forall|k: int| 16 <= k < 48 ==> #[trigger] p[k] == 0
            &&& p.subrange(48, p.len() as int) == "test_shred_data_payload".spec_bytes()
        }),
{
    let p = pshred_packet_bytes(slot, proposer_index, shred_index);
    lemma_le_bytes_u64_digits(slot);
    lemma_le_bytes_u32_digits(proposer_index);
    lemma_le_bytes_u32_digits(shred_index);
    assert(pow256(0) == 1);
    assert(pow256(1) == 0x100);
    assert(pow256(2) == 0x1_0000);
    assert(pow256(3) == 0x100_0000);
    assert forall|k: int| 0 <= k < 4 implies #[trigger] p[8 + k] as int == (proposer_index as int
        / pow256(k)) % 0x100 by {
        assert(p[8 + k] == le_bytes_u32(proposer_index)[k]);
    }
    assert forall|k: int| 0 <= k < 4 implies #[trigger] p[12 + k] as int == (shred_index as int
        / pow256(k)) % 0x100 by {
        assert(p[12 + k] == le_bytes_u32(shred_index)[k]);
    }
    assert forall|k: int| 0 <= k < 8 implies #[trigger] p[k] as int == (slot as int / pow256(k))
        % 0x100 by {
        assert(p[k] == le_bytes_u64(slot)[k]);
    }
    assert(p.subrange(48, p.len() as int) =~= test_shred_payload());
}

/// The test packet with sequence number `seq`: slot and shred index `seq`,
/// proposers taken in turn from `0..num_proposers`.
pub fn sender_packet(seq: u32, num_proposers: u32) -> (packet: Vec<u8>)
    requires
        num_proposers > 0,
    ensures
        packet@ == pshred_packet_bytes(seq as u64, seq % num_proposers, seq),
{
    build_pshred_packet(seq as u64, seq % num_proposers, seq)
}

/// The proposer index a router reads at offset 8 of a built packet is the
/// one the packet was built with.
pub proof fn lemma_built_packet_proposer_index(slot: u64, proposer_index: u32, shred_index: u32)
    ensures
        pshred_packet_bytes(slot, proposer_index, shred_index).len() >= PshredHeader::SIZE,
        le_u32_at(
            pshred_packet_bytes(slot, proposer_index, shred_index),
            PshredHeader::PROPOSER_INDEX_OFFSET as int,
        ) == proposer_index,
{
    let p = pshred_packet_bytes(slot, proposer_index, shred_index);
    lemma_u32_le_roundtrip(proposer_index);
    assert(p[8] == le_bytes_u32(proposer_index)[0]);
    assert(p[9] == le_bytes_u32(proposer_index)[1]);
    assert(p[10] == le_bytes_u32(proposer_index)[2]);
    assert(p[11] == le_bytes_u32(proposer_index)[3]);
}

} // verus!
