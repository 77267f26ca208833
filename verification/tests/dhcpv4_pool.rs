use landscape::dhcpv4_pool::{
    DHCPv4Server, DHCPv4ServerConfig, DhcpServerIpv4Config, DhcpV4Message, DhcpV4ReplyKind,
    MacBindingRecord, DHCP_V4_CLIENT_PORT, IPV4_BROADCAST,
    DHCPV4_OFFER_VALID_TIME, LANDSCAPE_DHCP_DEFAULT_ADDRESS_LEASE_TIME,
};
use landscape::duid::MacAddr;

fn ip(a: u8, b: u8, c: u8, d: u8) -> u32 {
    u32::from_be_bytes([a, b, c, d])
}

fn lan_config() -> DHCPv4ServerConfig {
    DHCPv4ServerConfig {
        ip_range_start: ip(192, 168, 5, 2),
        ip_range_end: None,
        server_ip_addr: ip(192, 168, 5, 1),
        network_mask: 24,
        address_lease_time: None,
        mac_binding_records: vec![],
    }
}

fn mac(n: u8) -> MacAddr {
    MacAddr::new(0, 0, 0, 0, 0, n)
}

#[test]
fn test_ip_alloc() {
    let mut dhcp_server = DHCPv4Server::init(lan_config());
    let wanted = ip(192, 168, 5, 226);
    let mac1 = mac(1);

    assert!(!dhcp_server.ack_request_at(0, &mac1, wanted));

    let offered = dhcp_server.offer_ip_at(0, &mac1, 224).unwrap();
    assert_eq!(offered, wanted);

    assert!(dhcp_server.ack_request_at(3, &mac1, wanted));
    let lease = dhcp_server.offered_ip.get(&mac1.octets_vec()).unwrap();
    assert_eq!(lease.valid_time, LANDSCAPE_DHCP_DEFAULT_ADDRESS_LEASE_TIME);
    assert_eq!(lease.relative_offer_time, 3);
    assert!(!dhcp_server.ack_request_at(4, &mac1, ip(192, 168, 5, 9)));
}

#[test]
fn test_ip_alloc_same_seed_large_then_2_lap() {
    let mut config = lan_config();
    let start = cidr::Ipv4Inet::new(core::net::Ipv4Addr::from(ip(192, 168, 1, 1)), 30).unwrap().overflowing_add_u32(1).0;
    config.ip_range_start = u32::from(start.address());
    config.network_mask = 30;
    let mut dhcp_server = DHCPv4Server::init(config);
    assert_eq!(dhcp_server.ip_range_start, ip(192, 168, 1, 2));
    assert_eq!(dhcp_server.range_capacity, 1);

    let seed = 0xFFFF_0000;
    assert_eq!(dhcp_server.offer_ip_at(0, &mac(1), seed), Some(ip(192, 168, 1, 2)));
    assert_eq!(dhcp_server.offer_ip_at(0, &mac(2), seed), None);

    // 25 seconds later the first offer has lapsed.
    assert_eq!(dhcp_server.offer_ip_at(25, &mac(3), seed), Some(ip(192, 168, 1, 2)));
    assert!(!dhcp_server.offered_ip.contains_key(&mac(1).octets_vec()));
    assert_eq!(dhcp_server.offer_ip_at(25, &mac(4), seed), None);
}

#[test]
fn init_reads_config() {
    let mut config = lan_config();
    config.address_lease_time = Some(600);
    config.mac_binding_records =
        vec![MacBindingRecord { mac: mac(9), ip: ip(192, 168, 5, 50), expire_time: 86400 }];
    let s = DHCPv4Server::init(config);
    assert_eq!(s.range_capacity, ip(192, 168, 5, 255) - ip(192, 168, 5, 2));
    assert_eq!(s.subnet_mask, ip(255, 255, 255, 0));
    assert_eq!(s.address_lease_time, 600);
    assert!(s.allocated_host.contains(&ip(192, 168, 5, 50)));
    let bound = s.offered_ip.get(&mac(9).octets_vec()).unwrap();
    assert!(bound.is_static);
    assert_eq!(bound.ip, ip(192, 168, 5, 50));
    let default_time = DHCPv4Server::init(lan_config());
    assert_eq!(default_time.address_lease_time, LANDSCAPE_DHCP_DEFAULT_ADDRESS_LEASE_TIME);
}

#[test]
fn bound_mac_keeps_its_address() {
    let mut config = lan_config();
    config.mac_binding_records =
        vec![MacBindingRecord { mac: mac(9), ip: ip(192, 168, 5, 50), expire_time: 86400 }];
    let mut s = DHCPv4Server::init(config);
    assert_eq!(s.offer_ip_at(0, &mac(9), 1), Some(ip(192, 168, 5, 50)));
    // A dynamic client whose probe lands on the bound address moves on.
    let seed = ip(192, 168, 5, 50) - ip(192, 168, 5, 2);
    assert_eq!(s.offer_ip_at(0, &mac(1), seed), Some(ip(192, 168, 5, 51)));
    assert!(!s.clean_expire_ip_at(1_000_000) || !s.offered_ip.contains_key(&mac(1).octets_vec()));
    assert!(s.offered_ip.contains_key(&mac(9).octets_vec()));
}

#[test]
fn offers_lapse_after_offer_time() {
    let mut s = DHCPv4Server::init(lan_config());
    let got = s.offer_ip_at(100, &mac(1), 7).unwrap();
    assert_eq!(got, ip(192, 168, 5, 9));
    assert_eq!(s.offered_ip.get(&mac(1).octets_vec()).unwrap().valid_time, DHCPV4_OFFER_VALID_TIME);
    assert!(!s.clean_expire_ip_at(120));
    assert!(s.clean_expire_ip_at(121));
    assert!(s.allocated_host.is_empty());
}

#[test]
fn offered_info_lists_each_lease() {
    let mut s = DHCPv4Server::init(lan_config());
    s.offer_ip_at(5, &mac(1), 0);
    let info = s.get_offered_info_at(8);
    assert_eq!(info.relative_boot_time, 8);
    assert_eq!(info.offered_ips.len(), 1);
    assert_eq!(info.offered_ips[0].ip, ip(192, 168, 5, 2));
    assert_eq!(info.offered_ips[0].relative_active_time, 5);
    assert_eq!(info.offered_ips[0].expire_time, DHCPV4_OFFER_VALID_TIME);
}

#[test]
fn range_capacity_counts_both_ends() {
    let c = DhcpServerIpv4Config {
        ip_range_start: ip(192, 168, 5, 100),
        ip_range_end: Some(ip(192, 168, 5, 199)),
        server_ip_addr: ip(192, 168, 5, 1),
        network_mask: 24,
    };
    assert_eq!(c.get_range_capacity(), 100);
    let open = DhcpServerIpv4Config { ip_range_end: None, ..c };
    assert_eq!(open.get_range_capacity(), 156);
}

#[test]
fn init_takes_range_end_and_mask_from_the_network() {
    let mut config = lan_config();
    config.ip_range_start = ip(10, 0, 0, 5);
    config.server_ip_addr = ip(10, 0, 0, 1);
    config.network_mask = 24;
    let server = DHCPv4Server::init(config.clone());
    assert_eq!(server.range_capacity, 250);
    assert_eq!(server.subnet_mask, ip(255, 255, 255, 0));
    config.network_mask = 20;
    let wide = DHCPv4Server::init(config);
    assert_eq!(wide.subnet_mask, ip(255, 255, 240, 0));
    assert_eq!(wide.range_capacity, ip(10, 0, 15, 255) - ip(10, 0, 0, 5));
}

#[test]
fn offers_probe_inside_the_range() {
    let mut config = lan_config();
    config.ip_range_start = ip(10, 0, 0, 250);
    config.server_ip_addr = ip(10, 0, 0, 1);
    config.network_mask = 24;
    let mut server = DHCPv4Server::init(config);
    assert_eq!(server.range_capacity, 5);
    assert_eq!(server.offer_ip_at(0, &mac(1), 13), Some(ip(10, 0, 0, 253)));
    assert_eq!(server.offer_ip_at(0, &mac(2), 3), Some(ip(10, 0, 0, 254)));
}

fn message(message_type: u8, flags: u16, requested_ip: Option<u32>) -> DhcpV4Message {
    DhcpV4Message { op: 1, message_type, xid: 0x1234, secs: 3, flags, chaddr: mac(7), requested_ip, source_port: 6800 }
}

#[test]
fn discover_gets_a_broadcast_offer() {
    let mut server = DHCPv4Server::init(lan_config());
    let reply = server.handle_dhcp_message_at(0, &message(1, 0, None), 224).unwrap();
    assert_eq!(reply.kind, DhcpV4ReplyKind::Offer);
    assert_eq!(reply.yiaddr, ip(192, 168, 5, 226));
    assert_eq!((reply.xid, reply.secs, reply.chaddr), (0x1234, 3, mac(7)));
    assert_eq!((reply.dest_ip, reply.dest_port), (IPV4_BROADCAST, DHCP_V4_CLIENT_PORT));
    let again = server.handle_dhcp_message_at(1, &message(1, 0, None), 5).unwrap();
    assert_eq!(again.yiaddr, reply.yiaddr);
}

#[test]
fn request_is_acked_only_for_the_offered_address() {
    let mut server = DHCPv4Server::init(lan_config());
    let offer = server.handle_dhcp_message_at(0, &message(1, 0, None), 224).unwrap();
    let ack = server.handle_dhcp_message_at(2, &message(3, 0x8000, Some(offer.yiaddr)), 0).unwrap();
    assert_eq!(ack.kind, DhcpV4ReplyKind::Ack);
    assert_eq!(ack.yiaddr, offer.yiaddr);
    assert_eq!((ack.dest_ip, ack.dest_port), (IPV4_BROADCAST, DHCP_V4_CLIENT_PORT));
    let nak = server.handle_dhcp_message_at(3, &message(3, 0, Some(ip(192, 168, 5, 9))), 0).unwrap();
    assert_eq!(nak.kind, DhcpV4ReplyKind::Nak);
    assert_eq!(nak.yiaddr, 0);
    assert_eq!((nak.dest_ip, nak.dest_port), (IPV4_BROADCAST, 6800));
}

#[test]
fn other_messages_get_no_answer() {
    let mut server = DHCPv4Server::init(lan_config());
    assert!(server.handle_dhcp_message_at(0, &message(3, 0, None), 0).is_none());
    assert!(server.handle_dhcp_message_at(0, &message(7, 0, None), 0).is_none());
    assert!(server.handle_dhcp_message_at(0, &message(2, 0, None), 0).is_none());
    let mut reply_op = message(1, 0, None);
    reply_op.op = 2;
    assert!(server.handle_dhcp_message_at(0, &reply_op, 0).is_none());
    assert_eq!(server.offered_ip.len(), 0);
}

#[test]
fn test_addr() {
    let data = DhcpServerIpv4Config::default();
    println!("{:?}", data);
    assert_eq!(data.ip_range_start, ip(192, 168, 5, 100));
    assert_eq!(data.ip_range_end, None);
    assert_eq!(data.server_ip_addr, ip(192, 168, 5, 1));
    assert_eq!(data.network_mask, 24);
    assert_eq!(data.get_range_capacity(), 156);
}
