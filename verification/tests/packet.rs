use pshred_router::packet::{process_packet, ptr_at, read_proposer_index, PacketOutcome};
use pshred_router::protocol::RouterConfig;
use pshred_router::sender::build_pshred_packet;

fn frame(ether_type: u16, proto: u8, dst_port: u16, payload: &[u8]) -> Vec<u8> {
    let mut f = vec![0u8; 12];
    f.extend_from_slice(&ether_type.to_be_bytes());
    let mut ip = vec![0u8; 20];
    ip[0] = 0x45;
    ip[9] = proto;
    f.extend_from_slice(&ip);
    let mut udp = vec![0u8; 8];
    udp[0..2].copy_from_slice(&5555u16.to_be_bytes());
    udp[2..4].copy_from_slice(&dst_port.to_be_bytes());
    f.extend_from_slice(&udp);
    f.extend_from_slice(payload);
    f
}

fn cfg(port: u16) -> Option<RouterConfig> {
    Some(RouterConfig::for_port(port))
}

#[test]
fn header_sizes_agree_with_network_types() {
    assert_eq!(network_types::eth::EthHdr::LEN, 14);
    assert_eq!(network_types::ip::Ipv4Hdr::LEN, 20);
    assert_eq!(core::mem::size_of::<network_types::udp::UdpHdr>(), 8);
}

#[test]
fn pshred_packet_is_parsed() {
    let f = frame(0x0800, 17, 8001, &build_pshred_packet(1, 7, 2));
    assert_eq!(
        process_packet(&f, cfg(8001)),
        PacketOutcome::Pshred { proposer_index: 7, packet_len: f.len() as u64 }
    );
}

#[test]
fn non_ipv4_frame_is_ignored() {
    let f = frame(0x86dd, 17, 8001, &build_pshred_packet(1, 7, 2));
    assert_eq!(process_packet(&f, cfg(8001)), PacketOutcome::Ignored);
}

#[test]
fn non_udp_datagram_is_ignored() {
    let f = frame(0x0800, 6, 8001, &build_pshred_packet(1, 7, 2));
    assert_eq!(process_packet(&f, cfg(8001)), PacketOutcome::Ignored);
}

#[test]
fn other_port_is_ignored() {
    let f = frame(0x0800, 17, 8002, &build_pshred_packet(1, 7, 2));
    assert_eq!(process_packet(&f, cfg(8001)), PacketOutcome::Ignored);
}

#[test]
fn disabled_or_missing_config_ignores_everything() {
    let f = frame(0x0800, 17, 8001, &build_pshred_packet(1, 7, 2));
    let disabled = RouterConfig { target_port: 8001, enabled: 0, _pad: 0 };
    assert_eq!(process_packet(&f, Some(disabled)), PacketOutcome::Ignored);
    assert_eq!(process_packet(&f, None), PacketOutcome::Ignored);
}

#[test]
fn truncated_frames_are_errors() {
    let f = frame(0x0800, 17, 8001, &build_pshred_packet(1, 7, 2));
    assert_eq!(
        process_packet(&f[..13], cfg(8001)),
        PacketOutcome::Truncated { port_matched: false }
    );
    assert_eq!(
        process_packet(&f[..33], cfg(8001)),
        PacketOutcome::Truncated { port_matched: false }
    );
    assert_eq!(
        process_packet(&f[..41], cfg(8001)),
        PacketOutcome::Truncated { port_matched: false }
    );
    assert_eq!(
        process_packet(&f[..53], cfg(8001)),
        PacketOutcome::Truncated { port_matched: true }
    );
    assert_eq!(
        process_packet(&f[..54], cfg(8001)),
        PacketOutcome::Pshred { proposer_index: 7, packet_len: 54 }
    );
    assert_eq!(process_packet(&[], cfg(8001)), PacketOutcome::Truncated { port_matched: false });
}

#[test]
fn short_frame_of_other_protocol_is_ignored_before_length_checks() {
    let f = frame(0x0806, 17, 8001, &[]);
    assert_eq!(process_packet(&f[..20], cfg(8001)), PacketOutcome::Ignored);
}

#[test]
fn bounds_checks() {
    let data = [0u8; 10];
    assert_eq!(ptr_at(&data, 6, 4), Ok(6));
    assert_eq!(ptr_at(&data, 7, 4), Err(()));
    assert_eq!(ptr_at(&data, 11, 0), Err(()));
    assert_eq!(ptr_at(&data, 10, 0), Ok(10));
}

#[test]
fn proposer_index_read_from_payload() {
    let f = frame(0x0800, 17, 8001, &build_pshred_packet(9, 0xdeadbeef, 1));
    assert_eq!(read_proposer_index(&f, 42), Ok(0xdeadbeef));
    assert_eq!(read_proposer_index(&f[..53], 42), Err(()));
}
