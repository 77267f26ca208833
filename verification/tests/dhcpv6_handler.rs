use landscape::dhcpv6_handler::{
    build_iana_options, collect_dns_servers, handle_dhcpv6_message_at, pd_route_key_index,
    ClientIaNa, ClientIaPd, DhcpV6MessageType, Dhcpv6Request, Dhcpv6Status,
};
use landscape::dhcpv6_pool::{
    DHCPv6IANAConfig, DHCPv6IAPDConfig, DHCPv6Server, DHCPv6ServerConfig,
};
use landscape::duid::MacAddr;
use landscape::ipv6_prefix::{ICMPv6ConfigInfo, PdDelegationParent};

const PREFIX_A: u128 = 0xfd11_2222_3333_3300_0000_0000_0000_0000;
const PREFIX_B: u128 = 0xfd11_2222_3333_3301_0000_0000_0000_0000;
const LINK_LOCAL: u128 = 0xfe80_0000_0000_0000_0000_0000_0000_0001;
const PEER: u128 = 0xfe80_0000_0000_0000_0000_0000_0000_0099;

fn na_config() -> DHCPv6IANAConfig {
    DHCPv6IANAConfig {
        max_prefix_len: 64,
        pool_start: 256,
        pool_end: Some(512),
        preferred_lifetime: 3600,
        valid_lifetime: 7200,
    }
}

fn pd_config() -> DHCPv6IAPDConfig {
    DHCPv6IAPDConfig { delegate_prefix_len: 61, preferred_lifetime: 3600, valid_lifetime: 7200 }
}

fn info(prefix: u128) -> ICMPv6ConfigInfo {
    ICMPv6ConfigInfo {
        rt_prefix: prefix,
        rt_prefix_len: 56,
        sub_router: prefix | 1,
        sub_prefix: prefix,
        sub_prefix_len: 64,
        ra_preferred_lifetime: 3600,
        ra_valid_lifetime: 7200,
    }
}

fn server_with(na: bool, pd: bool) -> DHCPv6Server {
    let config = DHCPv6ServerConfig {
        enable: true,
        ia_na: if na { Some(na_config()) } else { None },
        ia_pd: if pd { Some(pd_config()) } else { None },
    };
    let mut server = DHCPv6Server::init(&config, Vec::new());
    server.server_duid = vec![1, 2, 3, 4, 5, 6];
    server
}

fn request(
    msg_type: DhcpV6MessageType,
    client: &[u8],
    server_id: Option<Vec<u8>>,
    iana: Option<ClientIaNa>,
    iapd: Option<ClientIaPd>,
) -> Dhcpv6Request {
    Dhcpv6Request {
        msg_type,
        xid: [7, 8, 9],
        client_id: Some(client.to_vec()),
        server_id,
        iana,
        iapd,
        peer_addr: PEER,
    }
}

fn na_ia(addrs: Vec<u128>) -> Option<ClientIaNa> {
    Some(ClientIaNa { id: 1, addrs })
}

#[test]
fn test_renew_with_new_prefix_and_cached_address() {
    let server_config = DHCPv6ServerConfig {
        enable: true,
        ia_na: Some(DHCPv6IANAConfig {
            max_prefix_len: 64,
            pool_start: 256,
            pool_end: Some(512),
            preferred_lifetime: 3600,
            valid_lifetime: 7200,
        }),
        ia_pd: None,
    };

    let mut server = DHCPv6Server::init(&server_config, Vec::new());
    let server_duid = vec![1, 2, 3, 4, 5, 6];
    server.server_duid = server_duid;

    let client_duid = b"test-client-1".to_vec();
    let mac = MacAddr::from([0x00, 0x11, 0x22, 0x33, 0x44, 0x55]);

    server.offer_na_suffix(&client_duid, Some(mac), None);
    assert!(server.na_offered.contains_key(&client_duid), "Client should have cached address");

    let new_prefix: u128 = 0xfd11_2222_3333_3301_0000_0000_0000_0000;
    let qualifying_prefixes = vec![(new_prefix, 64u8)];

    let iana = build_iana_options(&server, &client_duid, 1, &qualifying_prefixes);

    assert_eq!(iana.id, 1, "IANA ID should match");
    assert!(iana.t1 > 0, "IANA T1 should be greater than 0 for valid lease");
    assert!(iana.t2 > iana.t1, "IANA T2 should be greater than T1");
}

#[test]
fn test_iana_lifetime_calculation() {
    let config = DHCPv6IANAConfig {
        max_prefix_len: 64,
        pool_start: 256,
        pool_end: None,
        preferred_lifetime: 3600,
        valid_lifetime: 7200,
    };

    let t1 = config.preferred_lifetime / 2;
    let t2 = (config.preferred_lifetime * 4) / 5;

    assert_eq!(t1, 1800, "T1 should be half of preferred_lifetime");
    assert_eq!(t2, 2880, "T2 should be 4/5 of preferred_lifetime");
}

#[test]
fn test_server_initialization() {
    let server_config = DHCPv6ServerConfig {
        enable: true,
        ia_na: Some(DHCPv6IANAConfig {
            max_prefix_len: 64,
            pool_start: 256,
            pool_end: Some(512),
            preferred_lifetime: 3600,
            valid_lifetime: 7200,
        }),
        ia_pd: Some(DHCPv6IAPDConfig {
            delegate_prefix_len: 61,
            preferred_lifetime: 3600,
            valid_lifetime: 7200,
        }),
    };

    let server = DHCPv6Server::init(&server_config, Vec::new());

    assert!(server.na_config.is_some(), "NA config should be set");
    assert!(server.pd_config.is_some(), "PD config should be set");
    assert_eq!(server.na_config.as_ref().unwrap().max_prefix_len, 64, "NA max_prefix_len should be 64");
}

#[test]
fn test_address_allocation_for_client() {
    let server_config = DHCPv6ServerConfig {
        enable: true,
        ia_na: Some(DHCPv6IANAConfig {
            max_prefix_len: 64,
            pool_start: 256,
            pool_end: Some(512),
            preferred_lifetime: 3600,
            valid_lifetime: 7200,
        }),
        ia_pd: None,
    };

    let mut server = DHCPv6Server::init(&server_config, Vec::new());
    let client_duid = b"test-client-new".to_vec();
    let mac = MacAddr::from([0xaa, 0xbb, 0xcc, 0xdd, 0xee, 0xff]);

    server.offer_na_suffix(&client_duid, Some(mac), None);

    assert!(
        server.na_offered.contains_key(&client_duid),
        "Client should be in na_offered cache after allocation"
    );
}

#[test]
fn test_prefix_delegation_allocation() {
    let server_config = DHCPv6ServerConfig {
        enable: true,
        ia_na: None,
        ia_pd: Some(DHCPv6IAPDConfig {
            delegate_prefix_len: 61,
            preferred_lifetime: 3600,
            valid_lifetime: 7200,
        }),
    };

    let mut server = DHCPv6Server::init(&server_config, Vec::new());
    let client_duid = b"test-client-pd".to_vec();

    server.offer_pd_index(&client_duid);

    assert!(
        server.pd_offered.contains_key(&client_duid),
        "Client should be in pd_offered cache after PD allocation"
    );
}

#[test]
fn solicit_is_advertised_with_lease_on_each_prefix() {
    let mut server = server_with(true, false);
    let sd = server.server_duid.clone();
    let req = request(DhcpV6MessageType::Solicit, b"c1", None, na_ia(vec![]), None);
    let out =
        handle_dhcpv6_message_at(&mut server, 10, &sd, &req, &[], &[info(PREFIX_A)], &[], &[], LINK_LOCAL);
    assert!(out.need_update);
    let reply = out.reply.expect("an advertise");
    assert_eq!(reply.msg_type, DhcpV6MessageType::Advertise);
    assert_eq!(reply.xid, [7, 8, 9]);
    assert_eq!(reply.preference, Some(255));
    assert_eq!(reply.client_id, b"c1".to_vec());
    assert_eq!(reply.server_id, sd);
    let iana = reply.iana.expect("an IA_NA");
    assert_eq!((iana.t1, iana.t2), (1800, 2880));
    assert_eq!(iana.addrs.len(), 1);
    let suffix = server.na_offered.get(b"c1").unwrap().suffix;
    assert!((256..512).contains(&suffix));
    assert_eq!(iana.addrs[0].addr, PREFIX_A | suffix as u128);
    assert_eq!(reply.dns, Some(vec![LINK_LOCAL, PREFIX_A | 1]));
}

#[test]
fn request_for_another_server_is_ignored() {
    let mut server = server_with(true, false);
    let sd = server.server_duid.clone();
    let req = request(DhcpV6MessageType::Request, b"c1", Some(vec![9, 9]), na_ia(vec![]), None);
    let out =
        handle_dhcpv6_message_at(&mut server, 10, &sd, &req, &[], &[info(PREFIX_A)], &[], &[], LINK_LOCAL);
    assert!(out.reply.is_none());
    assert!(!out.need_update);
    assert!(!server.na_offered.contains_key(b"c1"));
    let renew = request(DhcpV6MessageType::Renew, b"c1", None, na_ia(vec![]), None);
    let out =
        handle_dhcpv6_message_at(&mut server, 10, &sd, &renew, &[], &[info(PREFIX_A)], &[], &[], LINK_LOCAL);
    assert!(out.reply.is_none());
}

#[test]
fn request_confirms_lease_with_configured_lifetimes() {
    let mut server = server_with(true, false);
    let sd = server.server_duid.clone();
    let solicit = request(DhcpV6MessageType::Solicit, b"c1", None, na_ia(vec![]), None);
    handle_dhcpv6_message_at(&mut server, 10, &sd, &solicit, &[], &[info(PREFIX_A)], &[], &[], LINK_LOCAL);
    let offered = server.na_offered.get(b"c1").unwrap().suffix;
    assert_eq!(server.na_offered.get(b"c1").unwrap().valid_time, 120);
    let req = request(DhcpV6MessageType::Request, b"c1", Some(sd.clone()), na_ia(vec![]), None);
    let out =
        handle_dhcpv6_message_at(&mut server, 50, &sd, &req, &[], &[info(PREFIX_A)], &[], &[], LINK_LOCAL);
    let reply = out.reply.unwrap();
    assert_eq!(reply.msg_type, DhcpV6MessageType::Reply);
    assert_eq!(reply.preference, None);
    let lease = server.na_offered.get(b"c1").unwrap();
    assert_eq!(lease.suffix, offered);
    assert_eq!(lease.relative_offer_time, 50);
    assert_eq!(lease.valid_time, 7200);
    assert_eq!(lease.preferred_time, 3600);
    let iana = reply.iana.unwrap();
    assert_eq!(iana.addrs.len(), 1);
    assert_eq!(iana.addrs[0].addr, PREFIX_A | offered as u128);
    assert_eq!(iana.addrs[0].preferred_life, 3600);
    assert_eq!(iana.addrs[0].valid_life, 7200);
}

#[test]
fn renew_withdraws_addresses_of_a_vanished_prefix() {
    let mut server = server_with(true, false);
    let sd = server.server_duid.clone();
    let solicit = request(DhcpV6MessageType::Solicit, b"c1", None, na_ia(vec![]), None);
    handle_dhcpv6_message_at(&mut server, 10, &sd, &solicit, &[], &[info(PREFIX_A)], &[], &[], LINK_LOCAL);
    let suffix = server.na_offered.get(b"c1").unwrap().suffix as u128;
    let old_addr = PREFIX_A | suffix;
    let renew = request(DhcpV6MessageType::Renew, b"c1", Some(sd.clone()), na_ia(vec![old_addr]), None);
    let out =
        handle_dhcpv6_message_at(&mut server, 20, &sd, &renew, &[], &[info(PREFIX_B)], &[], &[], LINK_LOCAL);
    let iana = out.reply.unwrap().iana.unwrap();
    assert_eq!(iana.addrs.len(), 2);
    assert_eq!(iana.addrs[0].addr, PREFIX_B | suffix);
    assert_eq!(iana.addrs[1].addr, old_addr);
    assert_eq!(iana.addrs[1].preferred_life, 0);
    assert_eq!(iana.addrs[1].valid_life, 0);
    let request_again =
        request(DhcpV6MessageType::Request, b"c1", Some(sd.clone()), na_ia(vec![old_addr]), None);
    let out = handle_dhcpv6_message_at(
        &mut server, 30, &sd, &request_again, &[], &[info(PREFIX_B)], &[], &[], LINK_LOCAL,
    );
    assert_eq!(out.reply.unwrap().iana.unwrap().addrs.len(), 1);
}

#[test]
fn rebind_needs_no_server_id_and_offers_a_new_client() {
    let mut server = server_with(true, false);
    let sd = server.server_duid.clone();
    let rebind = request(DhcpV6MessageType::Rebind, b"c9", None, na_ia(vec![]), None);
    let out =
        handle_dhcpv6_message_at(&mut server, 40, &sd, &rebind, &[], &[info(PREFIX_A)], &[], &[], LINK_LOCAL);
    assert!(out.need_update);
    assert!(out.reply.is_some());
    let lease = server.na_offered.get(b"c9").unwrap();
    assert_eq!(lease.relative_offer_time, 40);
    assert_eq!(lease.valid_time, 7200);
}

#[test]
fn request_without_prefix_says_not_on_link() {
    let mut server = server_with(true, false);
    let sd = server.server_duid.clone();
    let req = request(DhcpV6MessageType::Request, b"c1", Some(sd.clone()), na_ia(vec![]), None);
    let out = handle_dhcpv6_message_at(&mut server, 10, &sd, &req, &[], &[], &[], &[], LINK_LOCAL);
    let iana = out.reply.unwrap().iana.unwrap();
    assert_eq!(iana.status.status, Dhcpv6Status::NotOnLink);
    assert_eq!(iana.status.msg, "Prefix no longer available, please request new address");
    assert!(iana.addrs.is_empty());
    assert_eq!((iana.t1, iana.t2), (0, 0));
}

#[test]
fn release_frees_both_leases() {
    let mut server = server_with(true, true);
    let sd = server.server_duid.clone();
    let base = [PdDelegationParent { prefix: PREFIX_A, prefix_len: 56 }];
    let solicit = request(
        DhcpV6MessageType::Solicit,
        b"c1",
        None,
        na_ia(vec![]),
        Some(ClientIaPd { id: 2, prefixes: vec![] }),
    );
    handle_dhcpv6_message_at(&mut server, 10, &sd, &solicit, &[], &[info(PREFIX_A)], &base, &[], LINK_LOCAL);
    assert!(server.na_offered.contains_key(b"c1"));
    assert!(server.pd_offered.contains_key(b"c1"));
    let index = server.pd_offered.get(b"c1").unwrap().sub_index;
    let release = request(DhcpV6MessageType::Release, b"c1", Some(sd.clone()), None, None);
    let out =
        handle_dhcpv6_message_at(&mut server, 20, &sd, &release, &[], &[info(PREFIX_A)], &base, &[], LINK_LOCAL);
    assert!(out.need_update);
    assert_eq!(out.released_pd.unwrap().sub_index, index);
    let status = out.reply.unwrap().status.unwrap();
    assert_eq!(status.status, Dhcpv6Status::Success);
    assert!(status.msg.is_empty());
    assert!(!server.na_offered.contains_key(b"c1"));
    assert!(!server.pd_offered.contains_key(b"c1"));
    assert!(!server.pd_allocated_indices.contains(&index));
}

#[test]
fn release_for_another_server_keeps_leases() {
    let mut server = server_with(true, false);
    let sd = server.server_duid.clone();
    let solicit = request(DhcpV6MessageType::Solicit, b"c1", None, na_ia(vec![]), None);
    handle_dhcpv6_message_at(&mut server, 10, &sd, &solicit, &[], &[info(PREFIX_A)], &[], &[], LINK_LOCAL);
    let release = request(DhcpV6MessageType::Release, b"c1", None, None, None);
    let out =
        handle_dhcpv6_message_at(&mut server, 20, &sd, &release, &[], &[info(PREFIX_A)], &[], &[], LINK_LOCAL);
    assert!(out.reply.is_none());
    assert!(server.na_offered.contains_key(b"c1"));
}

#[test]
fn decline_drops_the_address_without_reply() {
    let mut server = server_with(true, false);
    let sd = server.server_duid.clone();
    let solicit = request(DhcpV6MessageType::Solicit, b"c1", None, na_ia(vec![]), None);
    handle_dhcpv6_message_at(&mut server, 10, &sd, &solicit, &[], &[info(PREFIX_A)], &[], &[], LINK_LOCAL);
    let decline = request(DhcpV6MessageType::Decline, b"c1", None, None, None);
    let out =
        handle_dhcpv6_message_at(&mut server, 20, &sd, &decline, &[], &[info(PREFIX_A)], &[], &[], LINK_LOCAL);
    assert!(out.reply.is_none());
    assert!(out.need_update);
    assert!(!server.na_offered.contains_key(b"c1"));
    assert!(server.na_allocated_suffixes.is_empty());
}

#[test]
fn confirm_checks_addresses_are_on_link() {
    let mut server = server_with(true, false);
    let sd = server.server_duid.clone();
    let on = request(DhcpV6MessageType::Confirm, b"c1", None, na_ia(vec![PREFIX_A | 0x1234]), None);
    let out =
        handle_dhcpv6_message_at(&mut server, 10, &sd, &on, &[], &[info(PREFIX_A)], &[], &[], LINK_LOCAL);
    assert!(!out.need_update);
    let status = out.reply.unwrap().status.unwrap();
    assert_eq!(status.status, Dhcpv6Status::Success);
    let off = request(
        DhcpV6MessageType::Confirm,
        b"c1",
        None,
        na_ia(vec![PREFIX_A | 0x1234, PREFIX_B | 0x1234]),
        None,
    );
    let out =
        handle_dhcpv6_message_at(&mut server, 10, &sd, &off, &[], &[info(PREFIX_A)], &[], &[], LINK_LOCAL);
    let status = out.reply.unwrap().status.unwrap();
    assert_eq!(status.status, Dhcpv6Status::NotOnLink);
    assert_eq!(status.msg, "Address not appropriate for link");
    assert!(!server.na_offered.contains_key(b"c1"));
}

#[test]
fn information_request_lists_dns_servers() {
    let mut server = server_with(true, false);
    let sd = server.server_duid.clone();
    let ask = request(DhcpV6MessageType::InformationRequest, b"c1", None, None, None);
    let runtime = [Some(info(PREFIX_B)), None, Some(info(PREFIX_A))];
    let out =
        handle_dhcpv6_message_at(&mut server, 10, &sd, &ask, &runtime, &[info(PREFIX_A)], &[], &[], LINK_LOCAL);
    assert!(!out.need_update);
    let reply = out.reply.unwrap();
    assert_eq!(reply.dns, Some(vec![LINK_LOCAL, PREFIX_A | 1, PREFIX_B | 1]));
    assert!(reply.iana.is_none());
    assert!(reply.status.is_none());
}

#[test]
fn messages_without_client_id_or_of_other_kinds_are_ignored() {
    let mut server = server_with(true, false);
    let sd = server.server_duid.clone();
    let mut anonymous = request(DhcpV6MessageType::Solicit, b"c1", None, na_ia(vec![]), None);
    anonymous.client_id = None;
    let out =
        handle_dhcpv6_message_at(&mut server, 10, &sd, &anonymous, &[], &[info(PREFIX_A)], &[], &[], LINK_LOCAL);
    assert!(out.reply.is_none() && !out.need_update);
    let stray = request(DhcpV6MessageType::Advertise, b"c1", None, na_ia(vec![]), None);
    let out =
        handle_dhcpv6_message_at(&mut server, 10, &sd, &stray, &[], &[info(PREFIX_A)], &[], &[], LINK_LOCAL);
    assert!(out.reply.is_none() && !out.need_update);
    assert_eq!(server.na_offered.len(), 0);
}

#[test]
fn prefix_delegation_routes_follow_the_client() {
    let mut server = server_with(false, true);
    let sd = server.server_duid.clone();
    let base = [PdDelegationParent { prefix: PREFIX_A, prefix_len: 56 }];
    let ia = Some(ClientIaPd { id: 2, prefixes: vec![] });
    let solicit = request(DhcpV6MessageType::Solicit, b"c1", None, None, ia.clone());
    handle_dhcpv6_message_at(&mut server, 10, &sd, &solicit, &[], &[], &base, &[], LINK_LOCAL);
    let index = server.pd_offered.get(b"c1").unwrap().sub_index;
    let delegated = PREFIX_A | ((index as u128) << 67);
    let req = request(DhcpV6MessageType::Request, b"c1", Some(sd.clone()), None, ia.clone());
    let out = handle_dhcpv6_message_at(&mut server, 20, &sd, &req, &[], &[], &base, &[], LINK_LOCAL);
    let iapd = out.reply.unwrap().iapd.unwrap();
    assert_eq!(iapd.prefixes.len(), 1);
    assert_eq!(iapd.prefixes[0].prefix_ip, delegated);
    assert_eq!(iapd.prefixes[0].prefix_len, 61);
    let update = out.pd_routes.unwrap();
    assert_eq!(update.gateway, PEER);
    assert_eq!(update.sub_index, index);
    assert_eq!(update.valid_time, 7200);
    assert!(update.removed.is_empty());
    assert_eq!(update.added, vec![(delegated, 61u8)]);
    let lease = server.pd_offered.get(b"c1").unwrap();
    assert_eq!(lease.client_addr, PEER);
    assert_eq!(lease.active_routes, vec![(delegated, 61u8)]);
    let renew = request(DhcpV6MessageType::Renew, b"c1", Some(sd.clone()), None, ia);
    let out = handle_dhcpv6_message_at(&mut server, 30, &sd, &renew, &[], &[], &base, &[], LINK_LOCAL);
    assert_eq!(out.pd_routes.unwrap().removed, vec![(delegated, 61u8)]);
}

#[test]
fn prefix_delegation_without_base_says_not_on_link() {
    let mut server = server_with(false, true);
    let sd = server.server_duid.clone();
    let solicit =
        request(DhcpV6MessageType::Solicit, b"c1", None, None, Some(ClientIaPd { id: 5, prefixes: vec![] }));
    let out = handle_dhcpv6_message_at(&mut server, 10, &sd, &solicit, &[], &[], &[], &[None], LINK_LOCAL);
    let iapd = out.reply.unwrap().iapd.unwrap();
    assert_eq!(iapd.id, 5);
    assert_eq!(iapd.status.status, Dhcpv6Status::NotOnLink);
    assert_eq!(iapd.status.msg, "Prefix delegation not available, please request new prefix");
}

#[test]
fn renew_withdraws_prefixes_no_longer_delegated() {
    let mut server = server_with(false, true);
    let sd = server.server_duid.clone();
    let base = [PdDelegationParent { prefix: PREFIX_A, prefix_len: 56 }];
    let stale = (PREFIX_B, 61u8);
    let renew = request(
        DhcpV6MessageType::Renew,
        b"c1",
        Some(sd.clone()),
        None,
        Some(ClientIaPd { id: 3, prefixes: vec![stale] }),
    );
    let out = handle_dhcpv6_message_at(&mut server, 10, &sd, &renew, &[], &[], &base, &[], LINK_LOCAL);
    let iapd = out.reply.unwrap().iapd.unwrap();
    assert_eq!(iapd.prefixes.len(), 2);
    assert_eq!(iapd.prefixes[1].prefix_ip, PREFIX_B);
    assert_eq!(iapd.prefixes[1].prefix_len, 61);
    assert_eq!(iapd.prefixes[1].valid_lifetime, 0);
    assert_eq!(iapd.prefixes[1].preferred_lifetime, 0);
}

#[test]
fn pd_route_key_index_sets_high_bit() {
    let prefix: u128 = 0x2001_0db8_0000_0010_0000_0000_0000_0000;
    assert_eq!(pd_route_key_index(0, prefix), 0x8000_0010);
    assert_eq!(pd_route_key_index(2, prefix), 0x8000_0010 + 62);
    assert_eq!(pd_route_key_index(u32::MAX, 0), 0x8000_0000 | u32::MAX.wrapping_mul(31));
}

#[test]
fn dns_servers_are_listed_once_in_order() {
    let dns = collect_dns_servers(&[Some(info(PREFIX_A))], &[info(PREFIX_A), info(PREFIX_B)], LINK_LOCAL);
    assert_eq!(dns, vec![LINK_LOCAL, PREFIX_A | 1, PREFIX_B | 1]);
    let only_ll = collect_dns_servers(&[None], &[], LINK_LOCAL);
    assert_eq!(only_ll, vec![LINK_LOCAL]);
}

#[test]
fn overflowing_lifetime_refuses_only_ia_answers() {
    let config = DHCPv6ServerConfig {
        enable: true,
        ia_na: Some(DHCPv6IANAConfig {
            max_prefix_len: 64,
            pool_start: 256,
            pool_end: Some(512),
            preferred_lifetime: u32::MAX,
            valid_lifetime: u32::MAX,
        }),
        ia_pd: None,
    };
    let mut server = DHCPv6Server::init(&config, Vec::new());
    server.server_duid = vec![1, 2, 3, 4, 5, 6];
    let sd = server.server_duid.clone();
    let solicit = request(DhcpV6MessageType::Solicit, b"c1", None, na_ia(vec![]), None);
    let out = handle_dhcpv6_message_at(&mut server, 10, &sd, &solicit, &[], &[info(PREFIX_A)], &[], &[], LINK_LOCAL);
    assert!(out.reply.is_none());
    assert!(!server.na_offered.contains_key(b"c1"));
    let info_req = request(DhcpV6MessageType::InformationRequest, b"c1", None, None, None);
    let out = handle_dhcpv6_message_at(&mut server, 10, &sd, &info_req, &[], &[info(PREFIX_A)], &[], &[], LINK_LOCAL);
    assert!(out.reply.is_some());
    let no_ia = request(DhcpV6MessageType::Solicit, b"c2", None, None, None);
    let out = handle_dhcpv6_message_at(&mut server, 10, &sd, &no_ia, &[], &[info(PREFIX_A)], &[], &[], LINK_LOCAL);
    assert!(out.reply.is_some());
}
