use pshred_router::protocol::{
    PshredHeader, ProposerStats, RouterConfig, DEFAULT_UDP_PORT, MAX_PROPOSERS,
};

#[test]
fn constants_match_the_wire_format() {
    assert_eq!(MAX_PROPOSERS, 32);
    assert_eq!(DEFAULT_UDP_PORT, 8001);
    assert_eq!(PshredHeader::SIZE, 16);
    assert_eq!(PshredHeader::PROPOSER_INDEX_OFFSET, 8);
}

#[test]
fn default_router_config_filters_the_default_port() {
    let c = RouterConfig::default();
    assert_eq!(c.target_port, 8001);
    assert_eq!(c.enabled, 1);
    assert_eq!(c._pad, 0);
}

#[test]
fn config_for_port_is_enabled() {
    let c = RouterConfig::for_port(9000);
    assert_eq!(c, RouterConfig { target_port: 9000, enabled: 1, _pad: 0 });
}

#[test]
fn default_stats_are_zero() {
    let s = ProposerStats::default();
    assert_eq!(s.packet_count, 0);
    assert_eq!(s.byte_count, 0);
}

#[test]
fn record_counts_packets_and_bytes() {
    let mut s = ProposerStats::default();
    s.record(100);
    s.record(13);
    assert_eq!(s, ProposerStats { packet_count: 2, byte_count: 113 });
}

#[test]
fn record_wraps_at_the_counter_limit() {
    let mut s = ProposerStats { packet_count: u64::MAX, byte_count: u64::MAX - 1 };
    s.record(3);
    assert_eq!(s, ProposerStats { packet_count: 0, byte_count: 1 });
}

#[test]
fn debug_output_names_the_fields() {
    let h = PshredHeader { slot: 7, proposer_index: 3, shred_index: 9 };
    assert_eq!(
        format!("{:?}", h),
        "PshredHeader { slot: 7, proposer_index: 3, shred_index: 9 }"
    );
    let s = ProposerStats { packet_count: 1, byte_count: 2 };
    assert_eq!(format!("{:?}", s), "ProposerStats { packet_count: 1, byte_count: 2 }");
}
