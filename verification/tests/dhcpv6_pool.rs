use landscape::dhcpv6_pool::{
    DHCPv6IANAConfig, DHCPv6IAPDConfig, DHCPv6Server, DHCPv6ServerConfig, OFFER_VALID_TIME,
};
use landscape::duid::{
    combine_prefix_suffix, compute_delegated_prefix, duid_to_hex, extract_mac_from_duid,
    gen_server_duid, hash_duid, MacAddr,
};
use landscape::ipv6_prefix::{ICMPv6ConfigInfo, PdDelegationParent};

const PREFIX: u128 = 0x2001_0db8_0000_0001_0000_0000_0000_0000;

fn server(pool_end: Option<u64>) -> DHCPv6Server {
    let config = DHCPv6ServerConfig {
        enable: true,
        ia_na: Some(DHCPv6IANAConfig {
            max_prefix_len: 64,
            pool_start: 256,
            pool_end,
            preferred_lifetime: 3600,
            valid_lifetime: 7200,
        }),
        ia_pd: Some(DHCPv6IAPDConfig {
            delegate_prefix_len: 60,
            preferred_lifetime: 1800,
            valid_lifetime: 3600,
        }),
    };
    DHCPv6Server::init(&config, Vec::new())
}

fn info(prefix: u128, len: u8) -> ICMPv6ConfigInfo {
    ICMPv6ConfigInfo {
        rt_prefix: prefix,
        rt_prefix_len: 48,
        sub_router: prefix | 1,
        sub_prefix: prefix,
        sub_prefix_len: len,
        ra_preferred_lifetime: 100,
        ra_valid_lifetime: 200,
    }
}

#[test]
fn hash_duid_is_djb2() {
    assert_eq!(hash_duid(&[]), 5381);
    assert_eq!(hash_duid(&[1]), 5381 * 33 + 1);
    assert_eq!(hash_duid(&[1, 2]), (5381 * 33 + 1) * 33 + 2);
}

#[test]
fn duid_hex_and_mac_extraction() {
    let mac = MacAddr::new(0x00, 0x11, 0x22, 0x33, 0x44, 0x55);
    let duid = gen_server_duid(&mac);
    assert_eq!(duid, vec![0, 3, 0, 1, 0x00, 0x11, 0x22, 0x33, 0x44, 0x55]);
    assert_eq!(duid_to_hex(&duid), "00030001001122334455");
    assert_eq!(extract_mac_from_duid(&duid), Some(mac));
    let llt = [0, 1, 0, 1, 9, 9, 9, 9, 0xaa, 0xbb, 0xcc, 0xdd, 0xee, 0xff];
    assert_eq!(extract_mac_from_duid(&llt), Some(MacAddr::new(0xaa, 0xbb, 0xcc, 0xdd, 0xee, 0xff)));
    assert_eq!(extract_mac_from_duid(&llt[..13]), None);
    assert_eq!(extract_mac_from_duid(&[0, 2, 0, 0, 1, 2, 3, 4, 5, 6]), None);
    assert_eq!(extract_mac_from_duid(&[0, 3]), None);
    assert_eq!(MacAddr::from([1, 2, 3, 4, 5, 6]), MacAddr::new(1, 2, 3, 4, 5, 6));
    assert_eq!(mac.to_u64(), 0x0011_2233_4455);
}

#[test]
fn prefix_arithmetic() {
    assert_eq!(combine_prefix_suffix(PREFIX | 0xffff, 64, 0x1234), PREFIX | 0x1234);
    assert_eq!(combine_prefix_suffix(PREFIX, 128, 1), PREFIX | 1);
    let base: u128 = 0x2001_0db8_0000_0000_0000_0000_0000_0000;
    assert_eq!(compute_delegated_prefix(base, 48, 60, 3), base | (3u128 << 68));
}

#[test]
fn init_sets_pools() {
    let s = server(Some(512));
    assert_eq!(s.na_pool_start, 256);
    assert_eq!(s.na_range_capacity, 256);
    assert_eq!(s.pd_range_capacity, 256);
    let s = server(None);
    assert_eq!(s.na_range_capacity, 0xFFFF);
}

#[test]
fn new_client_gets_probe_suffix_and_keeps_it() {
    let mut s = server(Some(512));
    let duid = b"client-a".to_vec();
    let expected = 256 + hash_duid(&duid) % 256;
    assert_eq!(s.offer_na_suffix_at(5, &duid, None, None), Some(expected));
    let lease = s.na_offered.get(&duid).unwrap();
    assert_eq!(lease.relative_offer_time, 5);
    assert_eq!(lease.valid_time, OFFER_VALID_TIME);
    assert_eq!(lease.preferred_time, OFFER_VALID_TIME);
    assert_eq!(lease.duid_hex, duid_to_hex(&duid));
    assert!(s.na_allocated_suffixes.contains(&expected));
    assert_eq!(s.offer_na_suffix_at(9, &duid, None, None), Some(expected));
    assert_eq!(s.na_allocated_suffixes.len(), 1);
}

#[test]
fn colliding_clients_take_next_free_suffix() {
    let mut s = server(Some(512));
    // Find a second DUID whose probe starts at the same suffix.
    let a = vec![1u8];
    let start = hash_duid(&a) % 256;
    let mut n: u32 = 1;
    let mut b = n.to_be_bytes().to_vec();
    while hash_duid(&b) % 256 != start {
        n += 1;
        b = n.to_be_bytes().to_vec();
    }
    let first = s.offer_na_suffix_at(0, &a, None, None).unwrap();
    let second = s.offer_na_suffix_at(0, &b, None, None).unwrap();
    assert_eq!(first, 256 + start);
    assert_eq!(second, 256 + (start + 1) % 256);
}

#[test]
fn static_binding_gives_low_bits_of_bound_address() {
    let mac = MacAddr::new(2, 0, 0, 0, 0, 7);
    let bound: u128 = PREFIX | 0xabcd;
    let config = DHCPv6ServerConfig {
        enable: true,
        ia_na: Some(DHCPv6IANAConfig {
            max_prefix_len: 64,
            pool_start: 256,
            pool_end: Some(512),
            preferred_lifetime: 3600,
            valid_lifetime: 7200,
        }),
        ia_pd: None,
    };
    let mut s = DHCPv6Server::init(&config, vec![(mac, bound)]);
    let r = s.offer_na_suffix_at(1, b"static", Some(mac), Some("host".to_string()));
    assert_eq!(r, Some(0xabcd));
    let lease = s.na_offered.get(b"static").unwrap();
    assert!(lease.is_static);
    assert_eq!(lease.valid_time, 7200);
    assert_eq!(lease.hostname, Some("host".to_string()));
    // A static lease never lapses.
    assert!(!s.clean_expired_na_at(1_000_000));
    assert!(s.na_offered.contains_key(b"static"));
}

#[test]
fn confirm_extends_and_sweep_drops_lapsed() {
    let mut s = server(Some(512));
    let a = b"a".to_vec();
    let b = b"b".to_vec();
    let sa = s.offer_na_suffix_at(0, &a, None, None).unwrap();
    let sb = s.offer_na_suffix_at(0, &b, None, None).unwrap();
    assert!(s.confirm_na_at(10, &a));
    assert!(!s.confirm_na_at(10, b"nobody"));
    let lease = s.na_offered.get(&a).unwrap();
    assert_eq!(lease.suffix, sa);
    assert_eq!(lease.relative_offer_time, 10);
    assert_eq!(lease.valid_time, 7200);
    assert_eq!(lease.preferred_time, 3600);
    // At 121 the unconfirmed offer of b (0 + 120) has lapsed; a has not.
    assert!(!s.clean_expired_na_at(120));
    assert!(s.clean_expired_na_at(121));
    assert!(s.na_offered.contains_key(&a));
    assert!(!s.na_offered.contains_key(&b));
    assert!(s.na_allocated_suffixes.contains(&sa));
    assert!(!s.na_allocated_suffixes.contains(&sb));
}

#[test]
fn release_undoes_offer() {
    let mut s = server(Some(512));
    let a = b"a".to_vec();
    s.offer_na_suffix_at(0, &a, None, None);
    s.offer_pd_index_at(0, &a);
    s.release_na(&a);
    let released = s.release_pd(&a).unwrap();
    assert_eq!(released.sub_index, (hash_duid(&a) as u32) % 256);
    assert!(s.na_allocated_suffixes.is_empty());
    assert!(s.pd_allocated_indices.is_empty());
    assert_eq!(s.na_offered.len(), 0);
    assert_eq!(s.pd_offered.len(), 0);
    assert!(s.release_pd(&a).is_none());
}

#[test]
fn full_pool_sweeps_before_offering() {
    let mut s = server(Some(258));
    assert_eq!(s.na_range_capacity, 2);
    s.offer_na_suffix_at(0, b"a", None, None).unwrap();
    s.offer_na_suffix_at(0, b"b", None, None).unwrap();
    // Full and nothing lapsed: no offer.
    assert_eq!(s.offer_na_suffix_at(50, b"c", None, None), None);
    assert!(!s.na_offered.contains_key(b"c"));
    // Once both offers lapsed, a new client gets a suffix after the sweep.
    let got = s.offer_na_suffix_at(500, b"c", None, None).unwrap();
    assert!(got == 256 || got == 257);
    assert_eq!(s.na_offered.len(), 1);
}

#[test]
fn pd_offers_confirm_and_expire() {
    let mut s = server(Some(512));
    let a = b"router".to_vec();
    let idx = s.offer_pd_index_at(0, &a).unwrap();
    assert_eq!(idx, (hash_duid(&a) as u32) % 256);
    let lease = s.pd_offered.get(&a).unwrap();
    assert_eq!(lease.valid_time, OFFER_VALID_TIME);
    assert!(lease.active_routes.is_empty());
    assert!(s.confirm_pd_at(30, &a));
    assert_eq!(s.pd_offered.get(&a).unwrap().valid_time, 3600);
    assert!(s.clean_expired_pd_at(3630).is_empty());
    let gone = s.clean_expired_pd_at(3631);
    assert_eq!(gone.len(), 1);
    assert_eq!(gone[0].sub_index, idx);
    assert!(s.pd_allocated_indices.is_empty());
}

#[test]
fn replace_routes_hands_back_previous() {
    let mut s = server(Some(512));
    let a = b"router".to_vec();
    s.offer_pd_index_at(0, &a);
    let routes = vec![(PREFIX, 60u8)];
    assert_eq!(s.replace_pd_routes(&a, 7, routes.clone()), Some(vec![]));
    assert_eq!(s.replace_pd_routes(&a, 8, vec![]), Some(routes));
    assert_eq!(s.pd_offered.get(&a).unwrap().client_addr, 8);
    assert_eq!(s.replace_pd_routes(b"other", 8, vec![]), None);
}

#[test]
fn qualifying_prefixes_respect_max_length() {
    let s = server(Some(512));
    let na = s.get_qualifying_na_prefixes(
        &[Some(info(PREFIX, 64)), None, Some(info(PREFIX | (1 << 64), 80))],
        &[info(PREFIX | (2 << 64), 56)],
    );
    assert_eq!(na, vec![(PREFIX | (2 << 64), 56), (PREFIX, 64)]);
    let parents = [PdDelegationParent { prefix: PREFIX, prefix_len: 48 }];
    let dynamic = [None, Some(PdDelegationParent { prefix: PREFIX | 5, prefix_len: 56 })];
    let pd = s.get_qualifying_pd_prefixes(&parents, &dynamic);
    assert_eq!(pd, vec![(PREFIX, 48), (PREFIX | 5, 56)]);
}

#[test]
fn offered_info_lists_leases_on_first_prefix() {
    let mut s = server(Some(512));
    let a = b"a".to_vec();
    let suffix = s.offer_na_suffix_at(3, &a, None, None).unwrap();
    let idx = s.offer_pd_index_at(3, &a).unwrap();
    let base: u128 = 0x2001_0db8_0000_0000_0000_0000_0000_0000;
    let parents = [PdDelegationParent { prefix: base, prefix_len: 48 }];
    let info_now = s.get_offered_info_at(9, &[], &[info(PREFIX, 64)], &parents, &[]);
    assert_eq!(info_now.relative_boot_time, 9);
    assert_eq!(info_now.offered_addresses.len(), 1);
    assert_eq!(info_now.offered_addresses[0].ip, PREFIX | suffix as u128);
    assert_eq!(info_now.offered_addresses[0].relative_active_time, 3);
    assert_eq!(info_now.delegated_prefixes.len(), 1);
    assert_eq!(info_now.delegated_prefixes[0].prefix, base | ((idx as u128) << 68));
    assert_eq!(info_now.delegated_prefixes[0].prefix_len, 60);
    let none = s.get_offered_info_at(9, &[], &[], &[], &[]);
    assert!(none.offered_addresses.is_empty());
    assert!(none.delegated_prefixes.is_empty());
}

#[test]
fn clock_offer_probes_past_taken_suffix() {
    let mut s = server(Some(512));
    let first = s.offer_na_suffix(&[], None, None);
    assert_eq!(first, Some(256 + hash_duid(&[]) % 256));
    let second = s.offer_na_suffix(&[96u8], None, None);
    if hash_duid(&[96u8]) % 256 == hash_duid(&[]) % 256 {
        assert_eq!(second, Some(first.unwrap() + 1));
    }
    assert_eq!(s.na_offered.get(&[96u8]).unwrap().suffix, second.unwrap());
    assert_eq!(s.na_allocated_suffixes.len(), 2);
    assert!(s.confirm_na(&[96u8]));
    let c = s.na_offered.get(&[96u8]).unwrap();
    assert_eq!((c.preferred_time, c.valid_time), (3600, 7200));
    s.release_na(&[96u8]);
    assert_eq!(s.na_allocated_suffixes.len(), 1);
}
