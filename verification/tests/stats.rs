use pshred_router::protocol::ProposerStats;
use pshred_router::stats::{format_stats, sum_percpu, sum_proposer_stats};

#[test]
fn percpu_values_are_summed() {
    assert_eq!(sum_percpu(&[]), 0);
    assert_eq!(sum_percpu(&[1, 2, 3, 4]), 10);
}

#[test]
fn percpu_sum_wraps() {
    assert_eq!(sum_percpu(&[u64::MAX, 2]), 1);
}

#[test]
fn proposer_stats_are_summed_componentwise() {
    let v = [
        ProposerStats { packet_count: 3, byte_count: 300 },
        ProposerStats { packet_count: 4, byte_count: 41 },
    ];
    assert_eq!(sum_proposer_stats(&v), (7, 341));
    assert_eq!(sum_proposer_stats(&[]), (0, 0));
}

#[test]
fn report_matches_the_printed_layout() {
    let mut per = vec![None; 32];
    per[0] = Some((13, 1469));
    per[1] = Some((0, 0));
    per[3] = Some((12, 1356));
    let lines = format_stats(&[100, 50, 50, 50, 0, 0], &per);
    let expected = vec![
        "\n--- Router Statistics ---".to_string(),
        "Total: 100  UDP matched: 50  Parsed: 50  Redirected: 50  Passed: 0  Errors: 0".to_string(),
        "\nPer-Proposer Stats:".to_string(),
        format!("{:>4} {:>12} {:>14}", "ID", "Packets", "Bytes"),
        "-".repeat(32),
        format!("{:>4} {:>12} {:>14}", 0, 13, 1469),
        format!("{:>4} {:>12} {:>14}", 3, 12, 1356),
    ];
    assert_eq!(lines, expected);
    assert_eq!(lines[5], "   0           13           1469");
}

#[test]
fn report_keeps_wide_numbers_whole() {
    let per = vec![Some((u64::MAX, u64::MAX))];
    let lines = format_stats(&[0; 6], &per);
    assert_eq!(lines[5], format!("{:>4} {:>12} {:>14}", 0, u64::MAX, u64::MAX));
}
