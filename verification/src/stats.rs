//! Aggregation of the per-CPU counters and statistics the loader reads back,
//! and the text of the statistics report it prints.

use vstd::prelude::*;
use vstd::string::*;
use vstd::arithmetic::div_mod::lemma_add_mod_noop;
use crate::protocol::{ProposerStats, MAX_PROPOSERS};
use crate::router::{
    IDX_ERRORS, IDX_PASSED, IDX_PSHRED_PARSED, IDX_REDIRECTED, IDX_TOTAL, IDX_UDP_MATCHED,
    NUM_COUNTERS,
};
use crate::text::{decimal, decimal_string, pad_left, pad_left_string};

verus! {

/// 2^64, the modulus of `u64` arithmetic.
pub open spec fn u64_modulus() -> int {
    0x1_0000_0000_0000_0000
}

/// The sum of a sequence of counters, without wrapping.
pub open spec fn seq_sum(s: Seq<u64>) -> int
    decreases s.len(),
{
    if s.len() == 0 {
        0
    } else {
        seq_sum(s.drop_last()) + s.last()
    }
}

/// The packets of a sequence of statistics, without wrapping.
pub open spec fn packets_sum(s: Seq<ProposerStats>) -> int
    decreases s.len(),
{
    if s.len() == 0 {
        0
    } else {
        packets_sum(s.drop_last()) + s.last().packet_count
    }
}

/// The bytes of a sequence of statistics, without wrapping.
pub open spec fn bytes_sum(s: Seq<ProposerStats>) -> int
    decreases s.len(),
{
    if s.len() == 0 {
        0
    } else {
        bytes_sum(s.drop_last()) + s.last().byte_count
    }
}

/// Counter sums add up over concatenation, a single value sums to itself and
/// nothing sums to zero: `seq_sum` is the ordinary sum of the values.
pub proof fn lemma_seq_sum_additive(s: Seq<u64>, t: Seq<u64>, x: u64)
    ensures
        seq_sum(s + t) == seq_sum(s) + seq_sum(t),
        seq_sum(seq![x]) == x,
        seq_sum(Seq::<u64>::empty()) == 0,
    decreases t.len(),
{
    assert(seq![x].drop_last() =~= Seq::<u64>::empty());
    assert(seq![x].last() == x);
    assert(seq_sum(Seq::<u64>::empty()) == 0);
    assert(seq_sum(seq![x]) == seq_sum(seq![x].drop_last()) + seq![x].last());
    if t.len() == 0 {
        assert(s + t =~= s);
    } else {
        lemma_seq_sum_additive(s, t.drop_last(), x);
        assert((s + t).drop_last() =~= s + t.drop_last());
    }
}

/// The packet and byte sums of statistics add up over concatenation, and a
/// single entry sums to its own counts.
pub proof fn lemma_stats_sums_additive(s: Seq<ProposerStats>, t: Seq<ProposerStats>, x: ProposerStats)
    ensures
        packets_sum(s + t) == packets_sum(s) + packets_sum(t),
        bytes_sum(s + t) == bytes_sum(s) + bytes_sum(t),
        packets_sum(seq![x]) == x.packet_count,
        bytes_sum(seq![x]) == x.byte_count,
    decreases t.len(),
{
    assert(seq![x].drop_last() =~= Seq::<ProposerStats>::empty());
    assert(seq![x].last() == x);
    assert(packets_sum(Seq::<ProposerStats>::empty()) == 0);
    assert(bytes_sum(Seq::<ProposerStats>::empty()) == 0);
    assert(packets_sum(seq![x]) == packets_sum(seq![x].drop_last()) + seq![x].last().packet_count);
    assert(bytes_sum(seq![x]) == bytes_sum(seq![x].drop_last()) + seq![x].last().byte_count);
    if t.len() == 0 {
        assert(s + t =~= s);
    } else {
        lemma_stats_sums_additive(s, t.drop_last(), x);
        assert((s + t).drop_last() =~= s + t.drop_last());
    }
}

/// `(a % m + x) % m == (a + x) % m` for the `u64` modulus.
proof fn lemma_wrapping_step(a: int, x: int)
    ensures
        ((a % u64_modulus()) + x) % u64_modulus() == (a + x) % u64_modulus(),
{
    lemma_add_mod_noop(a, x, u64_modulus());
    lemma_add_mod_noop(a % u64_modulus(), x, u64_modulus());
    assert((a % u64_modulus()) % u64_modulus() == a % u64_modulus()) by {
        vstd::arithmetic::div_mod::lemma_mod_twice(a, u64_modulus());
    }
}

/// Sums the per-CPU values of one counter; the sum wraps like the release
/// build's `Iterator::sum`.
pub fn sum_percpu(values: &[u64]) -> (total: u64)
    ensures
        total == seq_sum(values@) % u64_modulus(),
{
    let mut acc: u64 = 0;
    let mut i: usize = 0;
    assert(values@.take(0) =~= Seq::<u64>::empty());
    while i < values.len()
        invariant
            i <= values@.len(),
            acc == seq_sum(values@.take(i as int)) % u64_modulus(),
        decreases values@.len() - i,
    {
        let ghost prev = values@.take(i as int);
        assert(values@.take(i + 1).drop_last() =~= prev);
        proof {
            lemma_wrapping_step(seq_sum(prev), values@[i as int] as int);
        }
        acc = acc.wrapping_add(values[i]);
        i = i + 1;
    }
    assert(values@.take(i as int) =~= values@);
    acc
}

/// Sums the per-CPU statistics of one proposer slot into (packets, bytes);
/// both sums wrap like the release build's additions.
pub fn sum_proposer_stats(values: &[ProposerStats]) -> (totals: (u64, u64))
    ensures
        totals.0 == packets_sum(values@) % u64_modulus(),
        totals.1 == bytes_sum(values@) % u64_modulus(),
{
    let mut packets: u64 = 0;
    let mut bytes: u64 = 0;
    let mut i: usize = 0;
    assert(values@.take(0) =~= Seq::<ProposerStats>::empty());
    while i < values.len()
        invariant
            i <= values@.len(),
            packets == packets_sum(values@.take(i as int)) % u64_modulus(),
            bytes == bytes_sum(values@.take(i as int)) % u64_modulus(),
        decreases values@.len() - i,
    {
        let ghost prev = values@.take(i as int);
        assert(values@.take(i + 1).drop_last() =~= prev);
        proof {
            lemma_wrapping_step(packets_sum(prev), values@[i as int].packet_count as int);
            lemma_wrapping_step(bytes_sum(prev), values@[i as int].byte_count as int);
        }
        packets = packets.wrapping_add(values[i].packet_count);
        bytes = bytes.wrapping_add(values[i].byte_count);
        i = i + 1;
    }
    assert(values@.take(i as int) =~= values@);
    (packets, bytes)
}

/// A table row: the three cells right-aligned in widths 4, 12 and 14.
pub open spec fn table_row(id: Seq<char>, packets: Seq<char>, bytes: Seq<char>) -> Seq<char> {
    pad_left(id, 4) + " "@ + pad_left(packets, 12) + " "@ + pad_left(bytes, 14)
}

/// The rows of the proposer slots that counted packets, in slot order; a slot
/// whose statistics could not be read (`None`) is left out.
pub open spec fn proposer_rows(ps: Seq<Option<(u64, u64)>>) -> Seq<Seq<char>>
    decreases ps.len(),
{
    if ps.len() == 0 {
        Seq::empty()
    } else {
        let prev = proposer_rows(ps.drop_last());
        match ps.last() {
            Some((packets, bytes)) => if packets > 0 {
                prev.push(
                    table_row(
                        decimal((ps.len() - 1) as nat),
                        decimal(packets as nat),
                        decimal(bytes as nat),
                    ),
                )
            } else {
                prev
            },
            None => prev,
        }
    }
}

/// The counter summary line.
pub open spec fn counter_line(c: Seq<u64>) -> Seq<char> {
    "Total: "@ + decimal(c[0] as nat) + "  UDP matched: "@ + decimal(c[1] as nat)
        + "  Parsed: "@ + decimal(c[2] as nat) + "  Redirected: "@ + decimal(c[3] as nat)
        + "  Passed: "@ + decimal(c[4] as nat) + "  Errors: "@ + decimal(c[5] as nat)
}

/// In the report's counter line each label is followed by the decimal value
/// of its own counter: Total, UDP matched, Parsed, Redirected, Passed and
/// Errors, in that order.
pub proof fn lemma_counter_line_labels(c: Seq<u64>, ps: Seq<Option<(u64, u64)>>)
    requires
        c.len() == NUM_COUNTERS,
    ensures
        stats_report(c, ps)[1] == "Total: "@ + decimal(c[IDX_TOTAL as int] as nat)
            + "  UDP matched: "@ + decimal(c[IDX_UDP_MATCHED as int] as nat) + "  Parsed: "@
            + decimal(c[IDX_PSHRED_PARSED as int] as nat) + "  Redirected: "@ + decimal(
            c[IDX_REDIRECTED as int] as nat,
        ) + "  Passed: "@ + decimal(c[IDX_PASSED as int] as nat) + "  Errors: "@ + decimal(
            c[IDX_ERRORS as int] as nat,
        ),
{
}

/// The lines of the statistics report, each printed with a line break.
pub open spec fn stats_report(c: Seq<u64>, ps: Seq<Option<(u64, u64)>>) -> Seq<Seq<char>> {
    seq![
        "\n--- Router Statistics ---"@,
        counter_line(c),
        "\nPer-Proposer Stats:"@,
        table_row("ID"@, "Packets"@, "Bytes"@),
        Seq::new(32, |i: int| '-'),
    ] + proposer_rows(ps)
}

/// The views of a sequence of strings.
pub open spec fn lines_view(v: Seq<String>) -> Seq<Seq<char>> {
    v.map_values(|s: String| s@)
}

/// Appends `label` and the decimal rendering of `n` to `s`.
fn append_number(s: &mut String, label: &str, n: u64)
    ensures
        final(s)@ == old(s)@ + label@ + decimal(n as nat),
{
    s.append(label);
    let t = decimal_string(n);
    s.append(t.as_str());
}

/// One table row.
fn table_row_string(id: &str, packets: &str, bytes: &str) -> (r: String)
    ensures
        r@ == table_row(id@, packets@, bytes@),
{
    let mut r = pad_left_string(id, 4);
    r.append(" ");
    let p = pad_left_string(packets, 12);
    r.append(p.as_str());
    r.append(" ");
    let b = pad_left_string(bytes, 14);
    r.append(b.as_str());
    r
}

/// The statistics report for the summed counters `counters` (indexed by the
/// `IDX_*` constants) and the summed statistics of each proposer slot.
pub fn format_stats(counters: &[u64], proposers: &[Option<(u64, u64)>]) -> (lines: Vec<String>)
    requires
        counters@.len() == NUM_COUNTERS,
        proposers@.len() <= MAX_PROPOSERS,
    ensures
        lines_view(lines@) == stats_report(counters@, proposers@),
{
    let mut lines: Vec<String> = Vec::new();
    lines.push(String::from_str("\n--- Router Statistics ---"));
    let mut summary = String::new();
    append_number(&mut summary, "Total: ", counters[0]);
    append_number(&mut summary, "  UDP matched: ", counters[1]);
    append_number(&mut summary, "  Parsed: ", counters[2]);
    append_number(&mut summary, "  Redirected: ", counters[3]);
    append_number(&mut summary, "  Passed: ", counters[4]);
    append_number(&mut summary, "  Errors: ", counters[5]);
    assert(summary@ =~= counter_line(counters@));
    lines.push(summary);
    lines.push(String::from_str("\nPer-Proposer Stats:"));
    lines.push(table_row_string("ID", "Packets", "Bytes"));
    let mut dashes = String::new();
    let mut k: usize = 0;
    while k < 32
        invariant
            k <= 32,
            dashes@ == Seq::new(k as nat, |i: int| '-'),
        decreases 32 - k,
    {
        dashes.append("-");
        proof {
            reveal_strlit("-");
        }
        k = k + 1;
        assert(dashes@ =~= Seq::new(k as nat, |i: int| '-'));
    }
    lines.push(dashes);
    let ghost head = lines_view(lines@);
    let mut i: usize = 0;
    assert(proposers@.take(0) =~= Seq::<Option<(u64, u64)>>::empty());
    while i < proposers.len()
        invariant
            i <= proposers@.len(),
            proposers@.len() <= MAX_PROPOSERS,
            lines_view(lines@) == head + proposer_rows(proposers@.take(i as int)),
        decreases proposers@.len() - i,
    {
        let ghost prev = proposers@.take(i as int);
        assert(proposers@.take(i + 1).drop_last() =~= prev);
        assert(proposers@.take(i + 1).last() == proposers@[i as int]);
        match proposers[i] {
            Some((packets, bytes)) => {
                if packets > 0 {
                    let id = decimal_string(i as u64);
                    let p = decimal_string(packets);
                    let b = decimal_string(bytes);
                    let row = table_row_string(id.as_str(), p.as_str(), b.as_str());
                    let ghost before = lines@;
                    lines.push(row);
                    assert(lines_view(lines@) =~= lines_view(before).push(row@));
                }
            },
            None => {},
        }
        i = i + 1;
    }
    assert(proposers@.take(i as int) =~= proposers@);
    proof {
        assert(head =~= seq![
            "\n--- Router Statistics ---"@,
            counter_line(counters@),
            "\nPer-Proposer Stats:"@,
            table_row("ID"@, "Packets"@, "Bytes"@),
            Seq::new(32, |i: int| '-'),
        ]);
    }
    lines
}

} // verus!
