//! The router's maps (configuration, redirect table, counters, per-proposer
//! statistics) and what one frame does to them.

use vstd::prelude::*;
use crate::packet::{classify_packet, process_packet, PacketOutcome};
use crate::protocol::{wrap_add, ProposerStats, RouterConfig, MAX_PROPOSERS};

verus! {

/// Counter of every frame seen.
pub const IDX_TOTAL: u32 = 0;

/// Counter of UDP datagrams to the configured port.
pub const IDX_UDP_MATCHED: u32 = 1;

/// Counter of parsed pshred packets.
pub const IDX_PSHRED_PARSED: u32 = 2;

/// Counter of packets redirected to a proposer's interface.
pub const IDX_REDIRECTED: u32 = 3;

/// Counter of parsed packets passed to the kernel for want of a redirect target.
pub const IDX_PASSED: u32 = 4;

/// Counter of frames that ended inside a header they had to hold.
pub const IDX_ERRORS: u32 = 5;

/// Number of counters.
pub const NUM_COUNTERS: u32 = 6;

/// Linux's `XDP_PASS` action code.
pub const XDP_PASS: u32 = 2;

/// Linux's `XDP_REDIRECT` action code.
pub const XDP_REDIRECT: u32 = 4;

/// What the XDP program does with a frame.
#[derive(Clone, Copy, Debug, PartialEq, Eq, Structural)]
pub enum XdpAction {
    /// Hand the frame to the kernel network stack.
    Pass,
    /// Transmit the frame on the interface with this index.
    Redirect { ifindex: u32 },
}

impl XdpAction {
    /// The kernel's action code for this action.
    pub fn code(&self) -> (c: u32)
        ensures
            c == (match self {
                XdpAction::Pass => XDP_PASS,
                XdpAction::Redirect { .. } => XDP_REDIRECT,
            }),
    {
        match self {
            XdpAction::Pass => XDP_PASS,
            XdpAction::Redirect { .. } => XDP_REDIRECT,
        }
    }
}

/// The maps the XDP program shares with the loader (one CPU's view of the
/// per-CPU maps).
pub struct RouterMaps {
    /// The single entry of the configuration array.
    pub config: RouterConfig,
    /// Redirect target interface of each proposer slot, if one is configured.
    pub redirects: Vec<Option<u32>>,
    /// The counters, indexed by the `IDX_*` constants.
    pub counters: Vec<u64>,
    /// Statistics of each proposer slot.
    pub proposer_stats: Vec<ProposerStats>,
}

impl RouterMaps {
    /// The maps have the sizes the program declares.
    pub open spec fn wf(&self) -> bool {
        &&& self.redirects@.len() == MAX_PROPOSERS
        &&& self.counters@.len() == NUM_COUNTERS
        &&& self.proposer_stats@.len() == MAX_PROPOSERS
    }

    /// Freshly created maps: zeroed configuration (matching disabled), no
    /// redirects, zero counters and statistics.
    pub fn new() -> (m: RouterMaps)
        ensures
            m.wf(),
            m.config == (RouterConfig { target_port: 0, enabled: 0, _pad: 0 }),
            forall|i: int| 0 <= i < MAX_PROPOSERS ==> #[trigger] m.redirects@[i] == None::<u32>,
            forall|i: int| 0 <= i < NUM_COUNTERS ==> #[trigger] m.counters@[i] == 0,
            forall|i: int|
                0 <= i < MAX_PROPOSERS ==> #[trigger] m.proposer_stats@[i] == (ProposerStats {
                    packet_count: 0,
                    byte_count: 0,
                }),
    {
        let mut redirects: Vec<Option<u32>> = Vec::new();
        let mut proposer_stats: Vec<ProposerStats> = Vec::new();
        let mut i: u32 = 0;
        while i < MAX_PROPOSERS
            invariant
                i <= MAX_PROPOSERS,
                redirects@.len() == i,
                proposer_stats@.len() == i,
                forall|j: int| 0 <= j < i ==> #[trigger] redirects@[j] == None::<u32>,
                forall|j: int|
                    0 <= j < i ==> #[trigger] proposer_stats@[j] == (ProposerStats {
                        packet_count: 0,
                        byte_count: 0,
                    }),
            decreases MAX_PROPOSERS - i,
        {
            redirects.push(None);
            proposer_stats.push(ProposerStats { packet_count: 0, byte_count: 0 });
            i = i + 1;
        }
        let mut counters: Vec<u64> = Vec::new();
        let mut k: u32 = 0;
        while k < NUM_COUNTERS
            invariant
                k <= NUM_COUNTERS,
                counters@.len() == k,
                forall|j: int| 0 <= j < k ==> #[trigger] counters@[j] == 0,
            decreases NUM_COUNTERS - k,
        {
            counters.push(0);
            k = k + 1;
        }
        RouterMaps {
            config: RouterConfig { target_port: 0, enabled: 0, _pad: 0 },
            redirects,
            counters,
            proposer_stats,
        }
    }

    /// Installs the configuration for `port` (matching enabled).
    pub fn configure_router(&mut self, port: u16)
        ensures
            final(self).config == RouterConfig::for_port_spec(port),
            final(self).redirects == old(self).redirects,
            final(self).counters == old(self).counters,
            final(self).proposer_stats == old(self).proposer_stats,
    {
        self.config = RouterConfig::for_port(port);
    }

    /// Sets the redirect target of `proposer_id`; fails, changing nothing,
    /// when the id is outside the table.
    pub fn set_redirect(&mut self, proposer_id: u32, ifindex: u32) -> (r: Result<(), ()>)
        requires
            old(self).wf(),
        ensures
            final(self).wf(),
            r is Ok <==> proposer_id < MAX_PROPOSERS,
            final(self).redirects@ == (if proposer_id < MAX_PROPOSERS {
                old(self).redirects@.update(proposer_id as int, Some(ifindex))
            } else {
                old(self).redirects@
            }),
            final(self).config == old(self).config,
            final(self).counters == old(self).counters,
            final(self).proposer_stats == old(self).proposer_stats,
    {
        if proposer_id >= MAX_PROPOSERS {
            return Err(());
        }
        self.redirects.set(proposer_id as usize, Some(ifindex));
        Ok(())
    }

    /// Adds one to counter `index`, wrapping; an index outside the map is ignored.
    pub fn increment_counter(&mut self, index: u32)
        requires
            old(self).wf(),
        ensures
            final(self).wf(),
            final(self).counters@ == (if index < NUM_COUNTERS {
                bump(old(self).counters@, index as int)
            } else {
                old(self).counters@
            }),
            final(self).config == old(self).config,
            final(self).redirects == old(self).redirects,
            final(self).proposer_stats == old(self).proposer_stats,
    {
        if index < NUM_COUNTERS {
            let i = index as usize;
            let v = self.counters[i].wrapping_add(1);
            self.counters.set(i, v);
        }
    }

    /// Counts a packet of `packet_len` bytes for `proposer_index`, in the slot
    /// `proposer_index % MAX_PROPOSERS`.
    pub fn update_proposer_stats(&mut self, proposer_index: u32, packet_len: u64)
        requires
            old(self).wf(),
        ensures
            final(self).wf(),
            final(self).proposer_stats@ == record_in_slot(
                old(self).proposer_stats@,
                proposer_index,
                packet_len,
            ),
            final(self).config == old(self).config,
            final(self).redirects == old(self).redirects,
            final(self).counters == old(self).counters,
    {
        let idx = stats_slot(proposer_index) as usize;
        let mut stats = self.proposer_stats[idx];
        stats.record(packet_len);
        self.proposer_stats.set(idx, stats);
    }

    /// The redirect target configured for `proposer_index`, if any.
    pub fn redirect_target(&self, proposer_index: u32) -> (t: Option<u32>)
        requires
            self.wf(),
        ensures
            t == target_of(self.redirects@, proposer_index),
    {
        if proposer_index < MAX_PROPOSERS {
            self.redirects[proposer_index as usize]
        } else {
            None
        }
    }

    /// Where a pshred packet of `proposer_index` goes.
    pub fn route(&self, proposer_index: u32) -> (a: XdpAction)
        requires
            self.wf(),
        ensures
            a == route_of(self.redirects@, proposer_index),
    {
        if proposer_index < MAX_PROPOSERS {
            match self.redirects[proposer_index as usize] {
                Some(ifindex) => XdpAction::Redirect { ifindex },
                None => XdpAction::Pass,
            }
        } else {
            XdpAction::Pass
        }
    }
}

/// The statistics slot of `proposer_index`.
pub fn stats_slot(proposer_index: u32) -> (slot: u32)
    ensures
        slot == proposer_index % MAX_PROPOSERS,
        slot < MAX_PROPOSERS,
{
    proposer_index % MAX_PROPOSERS
}

/// Counter `i` of `c` increased by one, wrapping.
pub open spec fn bump(c: Seq<u64>, i: int) -> Seq<u64> {
    c.update(i, wrap_add(c[i], 1))
}

/// Statistics after a packet of `packet_len` bytes for `proposer_index`.
pub open spec fn record_in_slot(
    s: Seq<ProposerStats>,
    proposer_index: u32,
    packet_len: u64,
) -> Seq<ProposerStats> {
    let slot = (proposer_index % MAX_PROPOSERS) as int;
    s.update(slot, s[slot].recorded(packet_len))
}

/// The action for a pshred packet of `proposer_index`: redirect to the
/// proposer's configured interface, else pass.
pub open spec fn route_of(redirects: Seq<Option<u32>>, proposer_index: u32) -> XdpAction {
    if proposer_index < redirects.len() {
        match redirects[proposer_index as int] {
            Some(ifindex) => XdpAction::Redirect { ifindex },
            None => XdpAction::Pass,
        }
    } else {
        XdpAction::Pass
    }
}

/// The action for a frame with outcome `o`.
pub open spec fn action_of(redirects: Seq<Option<u32>>, o: PacketOutcome) -> XdpAction {
    match o {
        PacketOutcome::Pshred { proposer_index, .. } => route_of(redirects, proposer_index),
        _ => XdpAction::Pass,
    }
}

/// The counters after a frame with outcome `o` that the router answered with `a`.
pub open spec fn counters_after(c: Seq<u64>, o: PacketOutcome, a: XdpAction) -> Seq<u64> {
    let c1 = bump(c, IDX_TOTAL as int);
    match o {
        PacketOutcome::Ignored => c1,
        PacketOutcome::Truncated { port_matched } => if port_matched {
            bump(bump(c1, IDX_UDP_MATCHED as int), IDX_ERRORS as int)
        } else {
            bump(c1, IDX_ERRORS as int)
        },
        PacketOutcome::Pshred { .. } => {
            let c2 = bump(bump(c1, IDX_UDP_MATCHED as int), IDX_PSHRED_PARSED as int);
            match a {
                XdpAction::Redirect { .. } => bump(c2, IDX_REDIRECTED as int),
                XdpAction::Pass => bump(c2, IDX_PASSED as int),
            }
        },
    }
}

/// The statistics after a frame with outcome `o`.
pub open spec fn stats_after(s: Seq<ProposerStats>, o: PacketOutcome) -> Seq<ProposerStats> {
    match o {
        PacketOutcome::Pshred { proposer_index, packet_len } => record_in_slot(
            s,
            proposer_index,
            packet_len,
        ),
        _ => s,
    }
}

/// Recording a packet for proposer `p` changes exactly slot `p % 32` (so
/// slot `p` itself for `p < 32`): one packet and `packet_len` bytes more,
/// modulo 2^64; every other slot is unchanged.
pub proof fn lemma_record_touches_the_proposers_slot(
    s: Seq<ProposerStats>,
    p: u32,
    packet_len: u64,
)
    requires
        s.len() == 32,
    ensures
        ({
            let r = record_in_slot(s, p, packet_len);
            let k = p as int % 32;
            &&& r.len() == 32
            &&& forall|j: int| 0 <= j < 32 && j != k ==> #[trigger] r[j] == s[j]
            &&& r[k].packet_count as int == (s[k].packet_count as int + 1) % 0x1_0000_0000_0000_0000
            &&& r[k].byte_count as int == (s[k].byte_count as int + packet_len as int)
                % 0x1_0000_0000_0000_0000
            &&& p < 32 ==> k == p as int
        }),
{
}

/// The redirect target the table holds for `proposer_index`, if any.
pub open spec fn target_of(redirects: Seq<Option<u32>>, proposer_index: u32) -> Option<u32> {
    if proposer_index < redirects.len() {
        redirects[proposer_index as int]
    } else {
        None
    }
}

/// The action for a frame with outcome `o` when the redirect lookup for its
/// proposer found `target`: a pshred packet goes to the target if there is
/// one; everything else is passed.
pub open spec fn action_for(o: PacketOutcome, target: Option<u32>) -> XdpAction {
    match o {
        PacketOutcome::Pshred { .. } => match target {
            Some(ifindex) => XdpAction::Redirect { ifindex },
            None => XdpAction::Pass,
        },
        _ => XdpAction::Pass,
    }
}

/// The counters a frame with outcome `o`, answered with `a`, increments, in order.
pub open spec fn bumps_for(o: PacketOutcome, a: XdpAction) -> Seq<u32> {
    match o {
        PacketOutcome::Ignored => seq![IDX_TOTAL],
        PacketOutcome::Truncated { port_matched } => if port_matched {
            seq![IDX_TOTAL, IDX_UDP_MATCHED, IDX_ERRORS]
        } else {
            seq![IDX_TOTAL, IDX_ERRORS]
        },
        PacketOutcome::Pshred { .. } => match a {
            XdpAction::Redirect { .. } => seq![
                IDX_TOTAL,
                IDX_UDP_MATCHED,
                IDX_PSHRED_PARSED,
                IDX_REDIRECTED,
            ],
            XdpAction::Pass => seq![IDX_TOTAL, IDX_UDP_MATCHED, IDX_PSHRED_PARSED, IDX_PASSED],
        },
    }
}

/// The statistics slot and packet length a frame with outcome `o` records.
pub open spec fn stats_update_for(o: PacketOutcome) -> Option<(u32, u64)> {
    match o {
        PacketOutcome::Pshred { proposer_index, packet_len } => Some(
            (proposer_index % MAX_PROPOSERS, packet_len),
        ),
        _ => None,
    }
}

/// The counters `c` after incrementing those listed in `indices`, in order.
pub open spec fn apply_bumps(c: Seq<u64>, indices: Seq<u32>) -> Seq<u64>
    decreases indices.len(),
{
    if indices.len() == 0 {
        c
    } else {
        bump(apply_bumps(c, indices.drop_last()), indices.last() as int)
    }
}

/// Incrementing the counters `bumps_for` lists gives the counters `counters_after` states.
pub proof fn lemma_bumps_match_counters_after(c: Seq<u64>, o: PacketOutcome, a: XdpAction)
    ensures
        apply_bumps(c, bumps_for(o, a)) == counters_after(c, o, a),
{
    let b = bumps_for(o, a);
    reveal_with_fuel(apply_bumps, 5);
    match o {
        PacketOutcome::Ignored => {
            assert(b.drop_last() =~= Seq::<u32>::empty());
        },
        PacketOutcome::Truncated { port_matched } => {
            if port_matched {
                assert(b.drop_last() =~= seq![IDX_TOTAL, IDX_UDP_MATCHED]);
                assert(b.drop_last().drop_last() =~= seq![IDX_TOTAL]);
                assert(b.drop_last().drop_last().drop_last() =~= Seq::<u32>::empty());
            } else {
                assert(b.drop_last() =~= seq![IDX_TOTAL]);
                assert(b.drop_last().drop_last() =~= Seq::<u32>::empty());
            }
        },
        PacketOutcome::Pshred { .. } => {
            assert(b.drop_last() =~= seq![IDX_TOTAL, IDX_UDP_MATCHED, IDX_PSHRED_PARSED]);
            assert(b.drop_last().drop_last() =~= seq![IDX_TOTAL, IDX_UDP_MATCHED]);
            assert(b.drop_last().drop_last().drop_last() =~= seq![IDX_TOTAL]);
            assert(b.drop_last().drop_last().drop_last().drop_last() =~= Seq::<u32>::empty());
        },
    }
}

/// What one frame does to the maps: the counters to increment (in order),
/// the statistics slot and length to record, and the action.
pub struct FrameEffects {
    pub counters: Vec<u32>,
    pub stats_update: Option<(u32, u64)>,
    pub action: XdpAction,
}

/// The effects of a frame with outcome `outcome`, given the redirect target
/// the lookup for its proposer found (`None` when there is none, or when the
/// redirect could not be made).
pub fn frame_effects(outcome: PacketOutcome, target: Option<u32>) -> (e: FrameEffects)
    ensures
        e.action == action_for(outcome, target),
        e.counters@ == bumps_for(outcome, e.action),
        e.stats_update == stats_update_for(outcome),
{
    let mut counters: Vec<u32> = Vec::new();
    counters.push(IDX_TOTAL);
    match outcome {
        PacketOutcome::Ignored => FrameEffects { counters, stats_update: None, action: XdpAction::Pass },
        PacketOutcome::Truncated { port_matched } => {
            if port_matched {
                counters.push(IDX_UDP_MATCHED);
            }
            counters.push(IDX_ERRORS);
            FrameEffects { counters, stats_update: None, action: XdpAction::Pass }
        },
        PacketOutcome::Pshred { proposer_index, packet_len } => {
            counters.push(IDX_UDP_MATCHED);
            counters.push(IDX_PSHRED_PARSED);
            let action = match target {
                Some(ifindex) => {
                    counters.push(IDX_REDIRECTED);
                    XdpAction::Redirect { ifindex }
                },
                None => {
                    counters.push(IDX_PASSED);
                    XdpAction::Pass
                },
            };
            FrameEffects {
                counters,
                stats_update: Some((stats_slot(proposer_index), packet_len)),
                action,
            }
        },
    }
}

/// The XDP program: classifies the frame under the configured port, updates
/// the counters and the proposer's statistics, and redirects a pshred packet
/// to its proposer's interface when one is configured, else passes it.
#[verifier::spinoff_prover]
#[verifier::rlimit(40)]
pub fn pshred_router(maps: &mut RouterMaps, packet: &[u8]) -> (action: XdpAction)
    requires
        old(maps).wf(),
    ensures
        final(maps).wf(),
        action == action_of(old(maps).redirects@, classify_packet(packet@, Some(old(maps).config))),
        final(maps).counters@ == counters_after(
            old(maps).counters@,
            classify_packet(packet@, Some(old(maps).config)),
            action,
        ),
        final(maps).proposer_stats@ == stats_after(
            old(maps).proposer_stats@,
            classify_packet(packet@, Some(old(maps).config)),
        ),
        final(maps).config == old(maps).config,
        final(maps).redirects == old(maps).redirects,
{
    let ghost c0 = maps.counters@;
    let outcome = process_packet(packet, Some(maps.config));
    let target = match outcome {
        PacketOutcome::Pshred { proposer_index, .. } => maps.redirect_target(proposer_index),
        _ => None,
    };
    let effects = frame_effects(outcome, target);
    let mut i: usize = 0;
    while i < effects.counters.len()
        invariant
            maps.wf(),
            i <= effects.counters@.len(),
            effects.counters@ == bumps_for(outcome, effects.action),
            forall|j: int| 0 <= j < effects.counters@.len() ==> #[trigger] effects.counters@[j] < NUM_COUNTERS,
            maps.counters@ == apply_bumps(c0, effects.counters@.take(i as int)),
            maps.config == old(maps).config,
            maps.redirects == old(maps).redirects,
            maps.proposer_stats == old(maps).proposer_stats,
        decreases effects.counters@.len() - i,
    {
        let ghost before = effects.counters@.take(i as int);
        assert(effects.counters@.take(i + 1).drop_last() =~= before);
        maps.increment_counter(effects.counters[i]);
        i = i + 1;
    }
    assert(effects.counters@.take(i as int) =~= effects.counters@);
    proof {
        lemma_bumps_match_counters_after(c0, outcome, effects.action);
    }
    if let Some((slot, packet_len)) = effects.stats_update {
        maps.update_proposer_stats(slot, packet_len);
    }
    effects.action
}

/// The packets counted over all proposer slots.
pub open spec fn total_packets(s: Seq<ProposerStats>) -> int
    decreases s.len(),
{
    if s.len() == 0 {
        0
    } else {
        total_packets(s.drop_last()) + s.last().packet_count
    }
}

/// Replacing one slot changes the total by the difference of its packet counts.
proof fn lemma_total_packets_update(s: Seq<ProposerStats>, i: int, x: ProposerStats)
    requires
        0 <= i < s.len(),
    ensures
        total_packets(s.update(i, x)) == total_packets(s) - s[i].packet_count + x.packet_count,
    decreases s.len(),
{
    let u = s.update(i, x);
    if i < s.len() - 1 {
        assert(u.drop_last() =~= s.drop_last().update(i, x));
        lemma_total_packets_update(s.drop_last(), i, x);
    } else {
        assert(u.drop_last() =~= s.drop_last());
    }
}

/// No slot counts more packets than all slots together.
proof fn lemma_slot_at_most_total(s: Seq<ProposerStats>, i: int)
    requires
        0 <= i < s.len(),
    ensures
        s[i].packet_count <= total_packets(s),
    decreases s.len(),
{
    if i < s.len() - 1 {
        lemma_slot_at_most_total(s.drop_last(), i);
        assert(s.drop_last()[i] == s[i]);
    } else {
        lemma_total_packets_nonnegative(s.drop_last());
    }
}

/// A total of packet counts is never negative.
proof fn lemma_total_packets_nonnegative(s: Seq<ProposerStats>)
    ensures
        total_packets(s) >= 0,
    decreases s.len(),
{
    if s.len() > 0 {
        lemma_total_packets_nonnegative(s.drop_last());
    }
}

/// The counters agree with each other and with the per-proposer statistics:
/// every parsed packet was either redirected or passed, the statistics count
/// exactly the parsed packets, every port match ends parsed or as an error,
/// and parsed packets and errors are frames the router saw.
pub open spec fn accounts_consistent(c: Seq<u64>, s: Seq<ProposerStats>) -> bool {
    &&& c.len() == NUM_COUNTERS
    &&& c[IDX_PSHRED_PARSED as int] == c[IDX_REDIRECTED as int] + c[IDX_PASSED as int]
    &&& total_packets(s) == c[IDX_PSHRED_PARSED as int]
    &&& c[IDX_PSHRED_PARSED as int] <= c[IDX_UDP_MATCHED as int]
    &&& c[IDX_UDP_MATCHED as int] <= c[IDX_PSHRED_PARSED as int] + c[IDX_ERRORS as int]
    &&& c[IDX_PSHRED_PARSED as int] + c[IDX_ERRORS as int] <= c[IDX_TOTAL as int]
}

/// Freshly zeroed maps are consistent.
pub proof fn lemma_zeroed_maps_consistent(c: Seq<u64>, s: Seq<ProposerStats>)
    requires
        c.len() == NUM_COUNTERS,
        s.len() == MAX_PROPOSERS,
        forall|i: int| 0 <= i < c.len() ==> #[trigger] c[i] == 0,
        forall|i: int| 0 <= i < s.len() ==> (#[trigger] s[i]).packet_count == 0,
    ensures
        accounts_consistent(c, s),
{
    lemma_zero_total(s);
    assert(c[IDX_PSHRED_PARSED as int] == 0);
    assert(c[IDX_REDIRECTED as int] == 0);
    assert(c[IDX_PASSED as int] == 0);
    assert(c[IDX_UDP_MATCHED as int] == 0);
    assert(c[IDX_ERRORS as int] == 0);
    assert(c[IDX_TOTAL as int] == 0);
}

/// Statistics whose slots all count zero packets count zero in total.
proof fn lemma_zero_total(s: Seq<ProposerStats>)
    requires
        forall|i: int| 0 <= i < s.len() ==> (#[trigger] s[i]).packet_count == 0,
    ensures
        total_packets(s) == 0,
    decreases s.len(),
{
    if s.len() > 0 {
        assert forall|i: int| 0 <= i < s.drop_last().len() implies (
        #[trigger] s.drop_last()[i]).packet_count == 0 by {
            assert(s.drop_last()[i] == s[i]);
        }
        lemma_zero_total(s.drop_last());
    }
}

/// Handling any frame keeps the counters and statistics consistent, as long
/// as the frame counter has not reached its maximum (after which it wraps).
pub proof fn lemma_accounting_preserved(
    c: Seq<u64>,
    s: Seq<ProposerStats>,
    redirects: Seq<Option<u32>>,
    config: RouterConfig,
    packet: Seq<u8>,
)
    requires
        s.len() == MAX_PROPOSERS,
        accounts_consistent(c, s),
        c[IDX_TOTAL as int] < u64::MAX,
    ensures
        ({
            let o = classify_packet(packet, Some(config));
            accounts_consistent(counters_after(c, o, action_of(redirects, o)), stats_after(s, o))
        }),
{
    let o = classify_packet(packet, Some(config));
    lemma_accounting_step(c, s, o, action_of(redirects, o));
}

/// One frame with any outcome and either action keeps the accounts consistent.
proof fn lemma_accounting_step(c: Seq<u64>, s: Seq<ProposerStats>, o: PacketOutcome, a: XdpAction)
    requires
        s.len() == MAX_PROPOSERS,
        accounts_consistent(c, s),
        c[IDX_TOTAL as int] < u64::MAX,
    ensures
        accounts_consistent(counters_after(c, o, a), stats_after(s, o)),
{
    match o {
        PacketOutcome::Pshred { proposer_index, packet_len } => {
            let slot = (proposer_index % MAX_PROPOSERS) as int;
            lemma_slot_at_most_total(s, slot);
            lemma_total_packets_update(s, slot, s[slot].recorded(packet_len));
        },
        _ => {},
    }
}

/// A pshred packet for a proposer with a configured redirect target is sent
/// to that interface; without a target it is passed to the kernel.
#[verifier::spinoff_prover]
#[verifier::rlimit(40)]
pub proof fn lemma_redirect_follows_table(
    redirects: Seq<Option<u32>>,
    config: RouterConfig,
    packet: Seq<u8>,
    proposer_index: u32,
    packet_len: u64,
)
    requires
        redirects.len() == MAX_PROPOSERS,
        classify_packet(packet, Some(config)) == (PacketOutcome::Pshred {
            proposer_index,
            packet_len,
        }),
    ensures
        proposer_index < MAX_PROPOSERS && redirects[proposer_index as int] is Some ==> action_of(
            redirects,
            classify_packet(packet, Some(config)),
        ) == (XdpAction::Redirect { ifindex: redirects[proposer_index as int]->0 }),
        !(proposer_index < MAX_PROPOSERS && redirects[proposer_index as int] is Some)
            ==> action_of(redirects, classify_packet(packet, Some(config))) == XdpAction::Pass,
{
}

/// A redirect set for a proposer is the one its packets then follow.
pub proof fn lemma_set_redirect_then_route(
    redirects: Seq<Option<u32>>,
    proposer_id: u32,
    ifindex: u32,
)
    requires
        redirects.len() == MAX_PROPOSERS,
        proposer_id < MAX_PROPOSERS,
    ensures
        route_of(redirects.update(proposer_id as int, Some(ifindex)), proposer_id)
            == (XdpAction::Redirect { ifindex }),
{
}


/// The bytes counted over all proposer slots.
pub open spec fn total_bytes(s: Seq<ProposerStats>) -> int
    decreases s.len(),
{
    if s.len() == 0 {
        0
    } else {
        total_bytes(s.drop_last()) + s.last().byte_count
    }
}

/// Replacing one slot changes the byte total by the difference of its byte counts.
proof fn lemma_total_bytes_update(s: Seq<ProposerStats>, i: int, x: ProposerStats)
    requires
        0 <= i < s.len(),
    ensures
        total_bytes(s.update(i, x)) == total_bytes(s) - s[i].byte_count + x.byte_count,
    decreases s.len(),
{
    let u = s.update(i, x);
    if i < s.len() - 1 {
        assert(u.drop_last() =~= s.drop_last().update(i, x));
        lemma_total_bytes_update(s.drop_last(), i, x);
    } else {
        assert(u.drop_last() =~= s.drop_last());
    }
}

/// No slot counts more bytes than all slots together.
proof fn lemma_slot_bytes_at_most_total(s: Seq<ProposerStats>, i: int)
    requires
        0 <= i < s.len(),
    ensures
        s[i].byte_count <= total_bytes(s),
    decreases s.len(),
{
    if i < s.len() - 1 {
        lemma_slot_bytes_at_most_total(s.drop_last(), i);
        assert(s.drop_last()[i] == s[i]);
    } else {
        lemma_total_bytes_nonnegative(s.drop_last());
    }
}

/// A total of byte counts is never negative.
proof fn lemma_total_bytes_nonnegative(s: Seq<ProposerStats>)
    ensures
        total_bytes(s) >= 0,
    decreases s.len(),
{
    if s.len() > 0 {
        lemma_total_bytes_nonnegative(s.drop_last());
    }
}

/// One frame as the router meets it: the configuration and redirect table in
/// force at that moment (the loader may change both between frames), and the
/// frame's bytes.
pub type FrameEvent = (RouterConfig, Seq<Option<u32>>, Seq<u8>);

/// The counters and statistics of one CPU after it handled `events`, in
/// order, starting from zeroed maps.
pub open spec fn run_frames(events: Seq<FrameEvent>) -> (Seq<u64>, Seq<ProposerStats>)
    decreases events.len(),
{
    if events.len() == 0 {
        (
            Seq::new(NUM_COUNTERS as nat, |i: int| 0u64),
            Seq::new(MAX_PROPOSERS as nat, |i: int| ProposerStats { packet_count: 0, byte_count: 0 }),
        )
    } else {
        let (c, s) = run_frames(events.drop_last());
        let (config, redirects, packet) = events.last();
        let o = classify_packet(packet, Some(config));
        (counters_after(c, o, action_of(redirects, o)), stats_after(s, o))
    }
}

/// The length of a frame if the router parsed it as a pshred packet, else 0.
pub open spec fn parsed_len(e: FrameEvent) -> int {
    match classify_packet(e.2, Some(e.0)) {
        PacketOutcome::Pshred { packet_len, .. } => packet_len as int,
        _ => 0,
    }
}

/// The summed lengths of the frames of `events` that were parsed as pshred packets.
pub open spec fn parsed_bytes(events: Seq<FrameEvent>) -> int
    decreases events.len(),
{
    if events.len() == 0 {
        0
    } else {
        parsed_bytes(events.drop_last()) + parsed_len(events.last())
    }
}

/// After any sequence of frames on one CPU, starting from zeroed maps and
/// as long as no counter can overflow: the frame counter equals the number of
/// frames, the counters agree with each other and with the statistics
/// (`accounts_consistent`), the byte counts of all slots add up to the
/// lengths of the parsed frames, and the last frame decreased no counter.
#[verifier::spinoff_prover]
#[verifier::rlimit(40)]
pub proof fn lemma_router_run(events: Seq<FrameEvent>)
    requires
        events.len() <= u64::MAX,
        parsed_bytes(events) <= u64::MAX,
    ensures
        ({
            let (c, s) = run_frames(events);
            &&& c.len() == NUM_COUNTERS
            &&& s.len() == MAX_PROPOSERS
            &&& c[IDX_TOTAL as int] == events.len()
            &&& accounts_consistent(c, s)
            &&& total_bytes(s) == parsed_bytes(events)
        }),
        events.len() > 0 ==> forall|k: int|
            0 <= k < NUM_COUNTERS ==> #[trigger] run_frames(events.drop_last()).0[k]
                <= run_frames(events).0[k],
    decreases events.len(),
{
    let (c, s) = run_frames(events);
    if events.len() == 0 {
        assert forall|i: int| 0 <= i < s.len() implies (#[trigger] s[i]).packet_count == 0 by {}
        lemma_zeroed_maps_consistent(c, s);
        lemma_zero_bytes(s);
    } else {
        let prev = events.drop_last();
        lemma_parsed_bytes_nonnegative(prev);
        lemma_router_run(prev);
        let (c0, s0) = run_frames(prev);
        let (config, redirects, packet) = events.last();
        let o = classify_packet(packet, Some(config));
        lemma_accounting_preserved(c0, s0, redirects, config, packet);
        match o {
            PacketOutcome::Pshred { proposer_index, packet_len } => {
                let slot = (proposer_index % MAX_PROPOSERS) as int;
                lemma_slot_bytes_at_most_total(s0, slot);
                lemma_total_bytes_update(s0, slot, s0[slot].recorded(packet_len));
            },
            _ => {},
        }
    }
}

/// Statistics whose slots all count zero bytes count zero bytes in total.
proof fn lemma_zero_bytes(s: Seq<ProposerStats>)
    requires
        forall|i: int| 0 <= i < s.len() ==> (#[trigger] s[i]).byte_count == 0,
    ensures
        total_bytes(s) == 0,
    decreases s.len(),
{
    if s.len() > 0 {
        assert forall|i: int| 0 <= i < s.drop_last().len() implies (
        #[trigger] s.drop_last()[i]).byte_count == 0 by {
            assert(s.drop_last()[i] == s[i]);
        }
        lemma_zero_bytes(s.drop_last());
    }
}

/// Summed frame lengths are never negative.
proof fn lemma_parsed_bytes_nonnegative(events: Seq<FrameEvent>)
    ensures
        parsed_bytes(events) >= 0,
    decreases events.len(),
{
    if events.len() > 0 {
        lemma_parsed_bytes_nonnegative(events.drop_last());
    }
}

} // verus!
