use landscape::firewall::{
    convert_mark_map_to_vec_mark, find_delete_rule_keys, firewall_rule_into_hash,
    update_firewall_rules, FirewallRuleConfig, FirewallRuleItem, FirewallRuleItemConfig,
    FirewallRuleMark, PortRange, RuleAddress,
};

fn item(port: Option<(u16, u16)>) -> FirewallRuleItemConfig {
    FirewallRuleItemConfig {
        ip_protocol: Some(6),
        local_port: port.map(|(start, end)| PortRange { start, end }),
        address: RuleAddress::V4(0x0a00_0000),
        ip_prefixlen: 8,
    }
}

fn rule(index: u32, enable: bool, mark: u32, items: Vec<FirewallRuleItemConfig>) -> FirewallRuleConfig {
    FirewallRuleConfig { index, enable, mark, items }
}

fn installed(port: Option<u16>) -> FirewallRuleItem {
    FirewallRuleItem { ip_protocol: Some(6), local_port: port, address: RuleAddress::V4(0x0a00_0000), ip_prefixlen: 8 }
}

fn marks(rules: &[FirewallRuleConfig]) -> Vec<(Option<u16>, u32)> {
    convert_mark_map_to_vec_mark(&firewall_rule_into_hash(rules))
        .into_iter()
        .map(|m| (m.item.local_port, m.mark))
        .collect()
}

#[test]
fn port_ranges_expand_and_disabled_rules_are_skipped() {
    let rules = vec![
        rule(1, true, 7, vec![item(Some((80, 82))), item(None)]),
        rule(2, false, 9, vec![item(Some((81, 81)))]),
        rule(3, true, 5, vec![item(Some((90, 89)))]),
    ];
    assert_eq!(marks(&rules), vec![(None, 7), (Some(80), 7), (Some(81), 7), (Some(82), 7)]);
}

#[test]
fn rule_of_higher_index_wins_whatever_the_order() {
    let a = rule(5, true, 50, vec![item(Some((80, 81)))]);
    let b = rule(2, true, 20, vec![item(Some((81, 82)))]);
    let expected = vec![(Some(80), 50), (Some(81), 50), (Some(82), 20)];
    assert_eq!(marks(&[a.clone(), b.clone()]), expected);
    assert_eq!(marks(&[b, a]), expected);
    let c = rule(5, true, 60, vec![item(Some((81, 81)))]);
    let d = rule(5, true, 70, vec![item(Some((81, 81)))]);
    assert_eq!(marks(&[c, d]), vec![(Some(81), 70)]);
}

#[test]
fn full_port_range_expands() {
    let rules = vec![rule(0, true, 1, vec![item(Some((0, 65535)))])];
    assert_eq!(marks(&rules).len(), 65536);
}

#[test]
fn update_installs_changes_and_removes_dropped_items() {
    let old = vec![rule(1, true, 7, vec![item(Some((80, 82)))])];
    let new = vec![rule(1, true, 7, vec![item(Some((80, 80)))]), rule(2, true, 9, vec![item(Some((81, 81))), item(Some((90, 90)))])];
    let up = update_firewall_rules(&new, &old);
    assert_eq!(
        up.add,
        vec![FirewallRuleMark { mark: 9, item: installed(Some(81)) }, FirewallRuleMark { mark: 9, item: installed(Some(90)) }]
    );
    assert_eq!(up.delete, vec![installed(Some(82))]);
    let same = update_firewall_rules(&old, &old);
    assert!(same.add.is_empty() && same.delete.is_empty());
}

#[test]
fn delete_keys_leave_only_changed_entries() {
    let mut new_rules = firewall_rule_into_hash(&[rule(1, true, 3, vec![item(None), item(Some((1, 1)))])]);
    let old = firewall_rule_into_hash(&[rule(1, true, 3, vec![item(None)]), rule(2, true, 4, vec![item(Some((1, 2)))])]);
    let deletes = find_delete_rule_keys(&mut new_rules, &old);
    assert_eq!(deletes, vec![installed(Some(2))]);
    let left: Vec<(Option<u16>, u32)> = new_rules.values().map(|e| (e.0.local_port, e.1)).collect();
    assert_eq!(left, vec![(Some(1), 3)]);
}
