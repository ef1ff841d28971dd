use pshred_router::packet::PacketOutcome;
use pshred_router::protocol::{ProposerStats, RouterConfig};
use pshred_router::router::{
    frame_effects, pshred_router, RouterMaps, XdpAction, IDX_ERRORS, IDX_PASSED, IDX_PSHRED_PARSED,
    IDX_REDIRECTED, IDX_TOTAL, IDX_UDP_MATCHED, XDP_PASS, XDP_REDIRECT,
};
use pshred_router::sender::build_pshred_packet;

fn udp_frame(ether_type: u16, proto: u8, dst_port: u16, payload: &[u8]) -> Vec<u8> {
    let mut f = vec![0u8; 12];
    f.extend_from_slice(&ether_type.to_be_bytes());
    let mut ip = vec![0u8; 20];
    ip[9] = proto;
    f.extend_from_slice(&ip);
    let mut udp = vec![0u8; 8];
    udp[2..4].copy_from_slice(&dst_port.to_be_bytes());
    f.extend_from_slice(&udp);
    f.extend_from_slice(payload);
    f
}

fn counters(m: &RouterMaps) -> [u64; 6] {
    [
        m.counters[IDX_TOTAL as usize],
        m.counters[IDX_UDP_MATCHED as usize],
        m.counters[IDX_PSHRED_PARSED as usize],
        m.counters[IDX_REDIRECTED as usize],
        m.counters[IDX_PASSED as usize],
        m.counters[IDX_ERRORS as usize],
    ]
}

#[test]
fn fresh_maps_are_disabled_and_zero() {
    let m = RouterMaps::new();
    assert_eq!(m.config, RouterConfig { target_port: 0, enabled: 0, _pad: 0 });
    assert_eq!(m.redirects.len(), 32);
    assert!(m.redirects.iter().all(|r| r.is_none()));
    assert_eq!(counters(&m), [0; 6]);
    assert_eq!(m.proposer_stats.len(), 32);
}

#[test]
fn unconfigured_router_passes_everything() {
    let mut m = RouterMaps::new();
    let f = udp_frame(0x0800, 17, 8001, &build_pshred_packet(1, 2, 3));
    assert_eq!(pshred_router(&mut m, &f), XdpAction::Pass);
    assert_eq!(counters(&m), [1, 0, 0, 0, 0, 0]);
}

#[test]
fn parsed_packet_without_target_is_passed_and_counted() {
    let mut m = RouterMaps::new();
    m.configure_router(8001);
    let f = udp_frame(0x0800, 17, 8001, &build_pshred_packet(1, 2, 3));
    assert_eq!(pshred_router(&mut m, &f), XdpAction::Pass);
    assert_eq!(counters(&m), [1, 1, 1, 0, 1, 0]);
    assert_eq!(
        m.proposer_stats[2],
        ProposerStats { packet_count: 1, byte_count: f.len() as u64 }
    );
}

#[test]
fn parsed_packet_with_target_is_redirected() {
    let mut m = RouterMaps::new();
    m.configure_router(8001);
    assert_eq!(m.set_redirect(2, 17), Ok(()));
    let f = udp_frame(0x0800, 17, 8001, &build_pshred_packet(1, 2, 3));
    let action = pshred_router(&mut m, &f);
    assert_eq!(action, XdpAction::Redirect { ifindex: 17 });
    assert_eq!(action.code(), XDP_REDIRECT);
    assert_eq!(counters(&m), [1, 1, 1, 1, 0, 0]);
}

#[test]
fn set_redirect_refuses_ids_past_the_table() {
    let mut m = RouterMaps::new();
    assert_eq!(m.set_redirect(32, 5), Err(()));
    assert!(m.redirects.iter().all(|r| r.is_none()));
    assert_eq!(m.set_redirect(31, 5), Ok(()));
    assert_eq!(m.redirects[31], Some(5));
}

#[test]
fn large_proposer_index_shares_a_stats_slot_and_is_passed() {
    let mut m = RouterMaps::new();
    m.configure_router(8001);
    assert_eq!(m.set_redirect(3, 9), Ok(()));
    let f = udp_frame(0x0800, 17, 8001, &build_pshred_packet(1, 35, 3));
    assert_eq!(pshred_router(&mut m, &f), XdpAction::Pass);
    assert_eq!(m.proposer_stats[3].packet_count, 1);
    assert_eq!(counters(&m), [1, 1, 1, 0, 1, 0]);
}

#[test]
fn truncated_payload_counts_match_and_error() {
    let mut m = RouterMaps::new();
    m.configure_router(8001);
    let f = udp_frame(0x0800, 17, 8001, &[1, 2, 3]);
    assert_eq!(pshred_router(&mut m, &f), XdpAction::Pass);
    assert_eq!(counters(&m), [1, 1, 0, 0, 0, 1]);
    let g = &f[..20];
    assert_eq!(pshred_router(&mut m, g), XdpAction::Pass);
    assert_eq!(counters(&m), [2, 1, 0, 0, 0, 2]);
}

#[test]
fn counters_stay_consistent_over_mixed_traffic() {
    let mut m = RouterMaps::new();
    m.configure_router(8001);
    m.set_redirect(0, 4).unwrap();
    m.set_redirect(1, 5).unwrap();
    for i in 0..100u32 {
        let f = if i % 2 == 0 {
            udp_frame(0x0800, 17, 8001, &build_pshred_packet(i as u64, i % 4, i))
        } else {
            udp_frame(0x0800, 6, 80, &[0; 10])
        };
        pshred_router(&mut m, &f);
    }
    let c = counters(&m);
    assert_eq!(c, [100, 50, 50, 25, 25, 0]);
    let per_slot: u64 = m.proposer_stats.iter().map(|s| s.packet_count).sum();
    assert_eq!(per_slot, c[2]);
    assert_eq!(c[2], c[3] + c[4]);
}

#[test]
fn increment_counter_ignores_unknown_index() {
    let mut m = RouterMaps::new();
    m.increment_counter(6);
    assert_eq!(counters(&m), [0; 6]);
    m.increment_counter(IDX_ERRORS);
    assert_eq!(counters(&m), [0, 0, 0, 0, 0, 1]);
}

#[test]
fn counters_wrap() {
    let mut m = RouterMaps::new();
    m.counters[0] = u64::MAX;
    m.increment_counter(IDX_TOTAL);
    assert_eq!(m.counters[0], 0);
}

#[test]
fn update_proposer_stats_uses_the_index_modulo_table_size() {
    let mut m = RouterMaps::new();
    m.update_proposer_stats(65, 10);
    m.update_proposer_stats(1, 5);
    assert_eq!(m.proposer_stats[1], ProposerStats { packet_count: 2, byte_count: 15 });
}

#[test]
fn action_codes_are_the_kernel_values() {
    assert_eq!(XdpAction::Pass.code(), XDP_PASS);
    assert_eq!(XDP_PASS, 2);
    assert_eq!(XDP_REDIRECT, 4);
}

#[test]
fn route_follows_the_table() {
    let mut m = RouterMaps::new();
    m.set_redirect(7, 70).unwrap();
    assert_eq!(m.route(7), XdpAction::Redirect { ifindex: 70 });
    assert_eq!(m.route(8), XdpAction::Pass);
    assert_eq!(m.route(39), XdpAction::Pass);
}

#[test]
fn frame_effects_list_counters_in_order() {
    let e = frame_effects(PacketOutcome::Ignored, None);
    assert_eq!(e.counters, vec![IDX_TOTAL]);
    assert_eq!(e.action, XdpAction::Pass);
    assert_eq!(e.stats_update, None);
    let e = frame_effects(PacketOutcome::Truncated { port_matched: true }, Some(3));
    assert_eq!(e.counters, vec![IDX_TOTAL, IDX_UDP_MATCHED, IDX_ERRORS]);
    assert_eq!(e.action, XdpAction::Pass);
    let e = frame_effects(PacketOutcome::Pshred { proposer_index: 33, packet_len: 70 }, Some(8));
    assert_eq!(e.counters, vec![IDX_TOTAL, IDX_UDP_MATCHED, IDX_PSHRED_PARSED, IDX_REDIRECTED]);
    assert_eq!(e.action, XdpAction::Redirect { ifindex: 8 });
    assert_eq!(e.stats_update, Some((1, 70)));
    let e = frame_effects(PacketOutcome::Pshred { proposer_index: 2, packet_len: 70 }, None);
    assert_eq!(e.counters, vec![IDX_TOTAL, IDX_UDP_MATCHED, IDX_PSHRED_PARSED, IDX_PASSED]);
    assert_eq!(e.action, XdpAction::Pass);
}

#[test]
fn run_totals_match_frames_and_bytes() {
    let mut m = RouterMaps::new();
    m.configure_router(8001);
    let mut parsed_bytes = 0u64;
    for i in 0..40u32 {
        let f = if i % 3 == 0 {
            udp_frame(0x0800, 17, 8001, &build_pshred_packet(i as u64, i, i))
        } else {
            udp_frame(0x0800, 17, 9, &[0; 5])
        };
        if i % 3 == 0 {
            parsed_bytes += f.len() as u64;
        }
        pshred_router(&mut m, &f);
    }
    assert_eq!(m.counters[IDX_TOTAL as usize], 40);
    let bytes: u64 = m.proposer_stats.iter().map(|s| s.byte_count).sum();
    assert_eq!(bytes, parsed_bytes);
    assert_eq!(m.redirect_target(3), None);
}
