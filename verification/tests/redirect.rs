use pshred_router::redirect::{
    auto_redirect_iface, interface_index_path, parse_ifindex, parse_redirect, plan_redirects,
    redirect_writes,
    RedirectEntry, RedirectError,
};

#[test]
fn valid_redirect_option_is_parsed() {
    assert_eq!(parse_redirect("0:veth0"), Ok((0, "veth0".to_string())));
    assert_eq!(parse_redirect("31:eth1"), Ok((31, "eth1".to_string())));
    assert_eq!(parse_redirect("+5:"), Ok((5, String::new())));
}

#[test]
fn redirect_option_needs_exactly_one_colon() {
    assert_eq!(parse_redirect("veth0"), Err(RedirectError::Format));
    assert_eq!(parse_redirect("1:a:b"), Err(RedirectError::Format));
    assert_eq!(parse_redirect(""), Err(RedirectError::Format));
}

#[test]
fn redirect_option_needs_a_numeric_id() {
    assert_eq!(parse_redirect("x:veth0"), Err(RedirectError::ProposerId("x".to_string())));
    assert_eq!(parse_redirect(":veth0"), Err(RedirectError::ProposerId(String::new())));
    assert_eq!(parse_redirect("-1:veth0"), Err(RedirectError::ProposerId("-1".to_string())));
}

#[test]
fn redirect_option_id_must_be_below_the_table_size() {
    assert_eq!(parse_redirect("32:veth0"), Err(RedirectError::OutOfRange(32)));
    assert_eq!(
        parse_redirect("4294967295:veth0"),
        Err(RedirectError::OutOfRange(4294967295))
    );
}

#[test]
fn formatted_redirect_option_reads_back() {
    for id in 0..32u32 {
        let spec = format!("{}:{}", id, "eth9");
        assert_eq!(parse_redirect(&spec), Ok((id, "eth9".to_string())));
    }
}

#[test]
fn auto_redirect_names_veth_interfaces() {
    assert_eq!(auto_redirect_iface(0), "veth0");
    assert_eq!(auto_redirect_iface(15), "veth15");
}

#[test]
fn plan_puts_auto_entries_first() {
    let opts = vec!["1:eth1".to_string(), "bad".to_string(), "40:eth4".to_string()];
    let plan = plan_redirects(&opts, Some(2));
    assert_eq!(
        plan,
        vec![
            RedirectEntry::Auto { proposer_id: 0, iface: "veth0".to_string() },
            RedirectEntry::Auto { proposer_id: 1, iface: "veth1".to_string() },
            RedirectEntry::Explicit { proposer_id: 1, iface: "eth1".to_string() },
            RedirectEntry::Rejected { spec: "bad".to_string(), error: RedirectError::Format },
            RedirectEntry::Rejected {
                spec: "40:eth4".to_string(),
                error: RedirectError::OutOfRange(40),
            },
        ]
    );
}

#[test]
fn auto_redirect_is_capped_at_the_table_size() {
    let plan = plan_redirects(&[], Some(100));
    assert_eq!(plan.len(), 32);
    assert_eq!(plan[31], RedirectEntry::Auto { proposer_id: 31, iface: "veth31".to_string() });
    assert!(plan_redirects(&[], None).is_empty());
    assert!(plan_redirects(&[], Some(0)).is_empty());
}

#[test]
fn ifindex_file_location() {
    assert_eq!(interface_index_path("veth3"), "/sys/class/net/veth3/ifindex");
}

#[test]
fn ifindex_contents_are_trimmed_and_parsed() {
    assert_eq!(parse_ifindex("12\n"), Some(12));
    assert_eq!(parse_ifindex("  7 "), Some(7));
    assert_eq!(parse_ifindex(""), None);
    assert_eq!(parse_ifindex("x\n"), None);
}

#[test]
fn writes_follow_plan_and_lookups() {
    let opts = vec!["5:eth5".to_string(), "bad".to_string(), "6:eth6".to_string()];
    let plan = plan_redirects(&opts, Some(2));
    let lookups = vec![Some(10), None, Some(50), Some(99), Some(60)];
    let (writes, count) = redirect_writes(&plan, &lookups);
    assert_eq!(writes, vec![(0, 10), (5, 50), (6, 60)]);
    assert_eq!(count, 3);
}
