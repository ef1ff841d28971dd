//! Shared protocol definitions: the pshred header layout, per-proposer
//! statistics and the router configuration record.

use vstd::prelude::*;

verus! {

/// Number of proposer slots the router keeps statistics and redirects for.
pub const MAX_PROPOSERS: u32 = 32;

/// UDP destination port the router filters on unless configured otherwise.
pub const DEFAULT_UDP_PORT: u16 = 8001;

/// The fixed-size prefix of a pshred packet, encoded little-endian on the wire:
/// `slot` at offset 0, `proposer_index` at offset 8, `shred_index` at offset 12.
#[derive(Clone, Copy, Debug, PartialEq, Eq, Structural)]
pub struct PshredHeader {
    pub slot: u64,
    pub proposer_index: u32,
    pub shred_index: u32,
}

impl PshredHeader {
    /// Size of the encoded header in bytes.
    pub const SIZE: usize = 16;

    /// Byte offset of `proposer_index` inside the header (the demux key).
    pub const PROPOSER_INDEX_OFFSET: usize = 8;
}

/// Packet and byte counters kept for one proposer slot.
#[derive(Clone, Copy, Debug, PartialEq, Eq, Structural)]
pub struct ProposerStats {
    pub packet_count: u64,
    pub byte_count: u64,
}

/// `x + y` modulo 2^64, the sum a `u64` counter holds after it wraps.
pub open spec fn wrap_add(x: u64, y: u64) -> u64 {
    ((x + y) % 0x1_0000_0000_0000_0000) as u64
}

impl ProposerStats {
    /// The statistics after one more packet of `packet_len` bytes.
    pub open spec fn recorded(self, packet_len: u64) -> ProposerStats {
        ProposerStats {
            packet_count: wrap_add(self.packet_count, 1),
            byte_count: wrap_add(self.byte_count, packet_len),
        }
    }

    /// Counts one more packet of `packet_len` bytes; the counters wrap as the
    /// in-kernel counters do.
    pub fn record(&mut self, packet_len: u64)
        ensures
            *final(self) == old(self).recorded(packet_len),
    {
        self.packet_count = self.packet_count.wrapping_add(1);
        self.byte_count = self.byte_count.wrapping_add(packet_len);
    }
}

impl Default for ProposerStats {
    fn default() -> (s: Self)
        ensures
            s.packet_count == 0,
            s.byte_count == 0,
    {
        ProposerStats { packet_count: 0, byte_count: 0 }
    }
}

/// Router configuration: the UDP port to match and whether matching is on.
#[derive(Clone, Copy, Debug, PartialEq, Eq, Structural)]
pub struct RouterConfig {
    pub target_port: u16,
    pub enabled: u8,
    pub _pad: u8,
}

impl RouterConfig {
    /// The configuration the loader installs for `port`: enabled, no padding.
    pub fn for_port(port: u16) -> (c: RouterConfig)
        ensures
            c == Self::for_port_spec(port),
    {
        RouterConfig { target_port: port, enabled: 1, _pad: 0 }
    }

    /// The configuration `for_port` builds.
    pub open spec fn for_port_spec(port: u16) -> RouterConfig {
        RouterConfig { target_port: port, enabled: 1, _pad: 0 }
    }

    /// Whether this configuration accepts UDP datagrams sent to `port`.
    pub open spec fn accepts(self, port: u16) -> bool {
        self.enabled != 0 && self.target_port == port
    }
}

/// The configuration installed for a port accepts exactly that port.
pub proof fn lemma_configured_port_accepted(port: u16, other: u16)
    ensures
        RouterConfig::for_port_spec(port).accepts(port),
        other != port ==> !RouterConfig::for_port_spec(port).accepts(other),
{
}

impl Default for RouterConfig {
    fn default() -> (c: Self)
        ensures
            c.target_port == DEFAULT_UDP_PORT,
            c.enabled == 1,
            c._pad == 0,
    {
        RouterConfig { target_port: DEFAULT_UDP_PORT, enabled: 1, _pad: 0 }
    }
}

} // verus!
