use landscape::ipv6_prefix::{
    allocate_subnet, delegation_parent, pd_source_info, plan_prefix_sources, static_source_info,
    watched_delegation_parent, LanIPv6SourceConfig, SourceServiceKind,
};

const DOC_PREFIX: u128 = 0x2001_0db8_0000_0000_0000_0000_0000_0000;

#[test]
fn test() {
    let prefix_ip = DOC_PREFIX;
    let prefix_len = 48;
    let sub_prefix_len = 64;
    let subnet_index = 2;
    let (subnet_network, router_addr) =
        allocate_subnet(prefix_ip, prefix_len, sub_prefix_len, subnet_index);
    assert_eq!(subnet_network, 0x2001_0db8_0000_0002_0000_0000_0000_0000);
    assert_eq!(router_addr, subnet_network + 1);
}

#[test]
fn test_static_setting() {
    let (subnet_network, router_addr) = allocate_subnet(DOC_PREFIX | 3, 60, 64, 2);
    assert_eq!(subnet_network, 0x2001_0db8_0000_0002_0000_0000_0000_0000);
    assert_eq!(router_addr, 0x2001_0db8_0000_0002_0000_0000_0000_0001);
}

#[test]
fn first_and_last_subnet_of_a_block() {
    let block: u128 = 0x2001_0db8_00ab_cd00_0000_0000_0000_0000;
    let (first, _) = allocate_subnet(block | 0xffff, 56, 64, 0);
    assert_eq!(first, block);
    let (last, router) = allocate_subnet(block, 56, 64, 255);
    assert_eq!(last, 0x2001_0db8_00ab_cdff_0000_0000_0000_0000);
    assert_eq!(router, last + 1);
    let (whole, _) = allocate_subnet(block, 56, 56, 0);
    assert_eq!(whole, block);
}

#[test]
fn static_source_takes_a_64_of_its_56() {
    let base: u128 = 0x2001_0db8_00ab_cd00_0000_0000_0000_0000;
    let info = static_source_info(base | 0x1234, 3, 300, 600);
    assert_eq!(info.rt_prefix, base | 0x1234);
    assert_eq!(info.rt_prefix_len, 56);
    assert_eq!(info.sub_prefix, 0x2001_0db8_00ab_cd03_0000_0000_0000_0000);
    assert_eq!(info.sub_router, 0x2001_0db8_00ab_cd03_0000_0000_0000_0001);
    assert_eq!(info.sub_prefix_len, 64);
    assert_eq!((info.ra_preferred_lifetime, info.ra_valid_lifetime), (300, 600));
}

#[test]
fn delegated_prefix_gives_a_64_and_blocks() {
    let pd: u128 = 0x2001_0db8_1200_0000_0000_0000_0000_0000;
    let info = pd_source_info(pd, 48, 5, 10, 20);
    assert_eq!(info.sub_prefix, 0x2001_0db8_1200_0005_0000_0000_0000_0000);
    assert_eq!(info.rt_prefix_len, 48);
    let parent = delegation_parent(pd, 48, 1, 56);
    assert_eq!(parent.prefix, 0x2001_0db8_1200_0100_0000_0000_0000_0000);
    assert_eq!(parent.prefix_len, 56);
    assert!(watched_delegation_parent(pd, 60, 56, 0, 62).is_none());
    assert_eq!(watched_delegation_parent(pd, 48, 56, 1, 56).unwrap().prefix, parent.prefix);
}

#[test]
fn plan_keeps_only_the_kinds_asked_for_in_order() {
    let base: u128 = 0x2001_0db8_00ab_cd00_0000_0000_0000_0000;
    let sources = vec![
        LanIPv6SourceConfig::RaStatic { base_prefix: base, pool_index: 1, preferred_lifetime: 7, valid_lifetime: 9 },
        LanIPv6SourceConfig::NaStatic { base_prefix: base, pool_index: 2 },
        LanIPv6SourceConfig::RaPd { depend_iface: "wan".to_string(), pool_index: 4, preferred_lifetime: 1, valid_lifetime: 2 },
        LanIPv6SourceConfig::NaPd { depend_iface: "wan".to_string(), pool_index: 5 },
        LanIPv6SourceConfig::PdStatic { base_prefix: base, base_prefix_len: 56, pool_index: 3, pool_len: 60 },
        LanIPv6SourceConfig::PdPd { depend_iface: "wan".to_string(), max_source_prefix_len: 56, pool_index: 0, pool_len: 60 },
    ];
    let ra = plan_prefix_sources(&sources, &[SourceServiceKind::Ra]);
    assert_eq!(ra.static_info.len(), 1);
    assert_eq!(ra.static_info[0].sub_prefix, base | (1u128 << 64));
    assert_eq!(ra.static_info[0].ra_valid_lifetime, 9);
    assert_eq!(ra.cleanup_ips, vec![(base | (1u128 << 64) | 1, 64)]);
    assert_eq!(ra.pd_watches.len(), 1);
    assert_eq!(ra.pd_watches[0].pool_index, 4);
    assert!(ra.pd_delegation_static.is_empty() && ra.pd_parent_watches.is_empty());
    let na = plan_prefix_sources(&sources, &[SourceServiceKind::Na]);
    assert_eq!(na.static_info[0].sub_prefix, base | (2u128 << 64));
    assert_eq!(na.static_info[0].ra_preferred_lifetime, 0);
    assert_eq!(na.pd_watches[0].pool_index, 5);
    let pd = plan_prefix_sources(&sources, &[SourceServiceKind::Pd]);
    assert_eq!(pd.pd_delegation_static.len(), 1);
    assert_eq!(pd.pd_delegation_static[0].prefix, base | (3u128 << 68));
    assert_eq!(pd.pd_parent_watches[0].max_source_prefix_len, 56);
    assert!(pd.static_info.is_empty());
    let all = plan_prefix_sources(&sources, &[SourceServiceKind::Na, SourceServiceKind::Ra]);
    assert_eq!(all.static_info.len(), 2);
    assert_eq!(all.pd_watches.len(), 2);
}
