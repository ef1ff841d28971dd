use pshred_router::sender::{build_pshred_packet, sender_packet};

fn expected_packet(slot: u64, proposer_index: u32, shred_index: u32) -> Vec<u8> {
    let mut v = Vec::new();
    v.extend_from_slice(&slot.to_le_bytes());
    v.extend_from_slice(&proposer_index.to_le_bytes());
    v.extend_from_slice(&shred_index.to_le_bytes());
    v.extend_from_slice(&[0u8; 32]);
    v.extend_from_slice(b"test_shred_data_payload");
    v
}

#[test]
fn built_packet_has_little_endian_header() {
    let p = build_pshred_packet(0x0102030405060708, 0x0a0b0c0d, 0x11223344);
    assert_eq!(&p[0..8], &[8, 7, 6, 5, 4, 3, 2, 1]);
    assert_eq!(&p[8..12], &[0x0d, 0x0c, 0x0b, 0x0a]);
    assert_eq!(&p[12..16], &[0x44, 0x33, 0x22, 0x11]);
    assert_eq!(&p[16..48], &[0u8; 32]);
    assert_eq!(&p[48..], b"test_shred_data_payload");
    assert_eq!(p.len(), 71);
}

#[test]
fn built_packet_matches_reference_layout() {
    for (slot, pi, si) in [(0u64, 0u32, 0u32), (5, 3, 5), (u64::MAX, u32::MAX, 1)] {
        assert_eq!(build_pshred_packet(slot, pi, si), expected_packet(slot, pi, si));
    }
}

#[test]
fn proposer_index_reads_back_from_offset_eight() {
    let p = build_pshred_packet(42, 17, 99);
    assert_eq!(u32::from_le_bytes([p[8], p[9], p[10], p[11]]), 17);
}

#[test]
fn sender_cycles_through_proposers() {
    assert_eq!(sender_packet(0, 4), expected_packet(0, 0, 0));
    assert_eq!(sender_packet(5, 4), expected_packet(5, 1, 5));
    assert_eq!(sender_packet(7, 4), expected_packet(7, 3, 7));
}
