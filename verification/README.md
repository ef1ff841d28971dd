# pshred-router

Verified core of an XDP router that demultiplexes Constellation pshred packets
by the `proposer_index` field (bytes 8..12, little-endian) of the pshred header
carried in UDP datagrams to a configured port.

- `src/` is the library, proved with Verus:
  - `protocol`: header layout, per-proposer statistics, router configuration;
  - `bytes`: little/big-endian encodings and their round trip;
  - `packet`: classification of an Ethernet frame (IPv4, UDP, port, pshred header);
  - `router`: the router maps and the effect of one frame on them, with the
    accounting invariant and the redirect laws;
  - `sender`: the test packets the sender emits;
  - `stats`: per-CPU sums and the statistics report;
  - `redirect`: `ID:IFACE` options, automatic `vethN` mappings, sysfs ifindex files;
  - `text`: decimal rendering and parsing, trimming, alignment;
  - `xtask`: the invocations of the build and deployment tasks.
- `app/` holds the programs: the loader (aya, tokio), the test sender and the
  task runner, all calling the library, and the in-kernel XDP entry point
  (`app/xdp.rs`), which calls the library's classifier (`process_packet`) and
  effect function (`frame_effects`); the composed step `router::pshred_router`
  is the verified model of that entry point over `RouterMaps`. The XDP object
  itself is built separately for the BPF target and read by the loader from
  `PSHRED_EBPF_OBJECT`.
- `tests/` runs the library on concrete inputs.
