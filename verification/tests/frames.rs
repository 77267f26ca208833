use landscape::bytes::{be16, be32, split16, split32};
use landscape::checksum::{checksum, split_u8_by_index};
use landscape::firewall::FirewallServiceConfig;
use landscape::frames::{identifier_type, EthUdpType, IcmpEthFrame, Ipv4EthFrame, UdpEthFrame};
use landscape::system_status::MemUsage;
use landscape::wifi::{LandScapeWifiInterface, WLANType, WifiAttr};

#[test]
fn internet_checksum_matches_rfc1071_example() {
    // RFC 1071 section 3 example: words 0001 f203 f4f5 f6f7 sum to ddf2.
    let data = [0x00, 0x01, 0xf2, 0x03, 0xf4, 0xf5, 0xf6, 0xf7];
    assert_eq!(checksum(&data), !0xddf2u16);
    assert_eq!(checksum(&[]), 0xffff);
    assert_eq!(checksum(&[0x01]), !0x0100u16);
    let mut with_sum = data.to_vec();
    let c = checksum(&data);
    with_sum.extend_from_slice(&c.to_be_bytes());
    assert_eq!(checksum(&with_sum), 0);
}

#[test]
fn byte_helpers() {
    assert_eq!(be16(0x12, 0x34), 0x1234);
    assert_eq!(be32(1, 2, 3, 4), 0x0102_0304);
    assert_eq!(split16(0xabcd), (0xab, 0xcd));
    assert_eq!(split32(0x0102_0304), [1, 2, 3, 4]);
    assert_eq!(split_u8_by_index(0b1011_0110, 4), (0b1011, 0b0110));
    assert_eq!(split_u8_by_index(0x45, 0), (0x45, 0));
}

#[test]
fn udp_frame_roundtrip() {
    let bytes = [0x00, 0x43, 0x00, 0x44, 0x00, 0x0b, 0x12, 0x34, 0xaa, 0xbb, 0xcc];
    let f = UdpEthFrame::new(&bytes).unwrap();
    assert_eq!((f.source_port, f.denst_port, f.length, f.checksum), (67, 68, 11, 0x1234));
    assert_eq!(f.playload.convert_to_payload(), vec![0xaa, 0xbb, 0xcc]);
    assert_eq!(f.as_payload(), bytes.to_vec());
    let mut check_part = bytes.to_vec();
    check_part[6] = 0;
    check_part[7] = 0;
    assert_eq!(f.get_check_sum_part(), check_part);
    let mut reply = f.get_response_empty();
    assert_eq!((reply.source_port, reply.denst_port, reply.length), (68, 67, 8));
    reply.set_payload(identifier_type(&[1, 2]));
    assert_eq!(reply.length, 10);
    reply.update_checksum(0x5555);
    reply.update_checksum(0x6666);
    assert_eq!(reply.checksum, 0x5555);
    assert_eq!(reply.as_payload(), vec![0, 68, 0, 67, 0, 10, 0x55, 0x55, 1, 2]);
    match identifier_type(&[9]) {
        EthUdpType::Raw(d) => assert_eq!(d, vec![9]),
    }
}

#[test]
fn icmp_frame_needs_six_bytes() {
    assert!(IcmpEthFrame::new(&[8, 0, 0, 0, 0]).is_none());
    let f = IcmpEthFrame::new(&[8, 0, 0x12, 0x34, 0x00, 0x01, 7, 7]).unwrap();
    assert_eq!((f.icmp_type, f.code), (8, 0));
    assert_eq!(f.checksum, (0x12 << 8) | (0x34 << 8) | 0x01);
    assert_eq!(f.rest, vec![7, 7]);
}

#[test]
fn wifi_interface_takes_last_attributes() {
    let attrs = vec![
        WifiAttr::IfIndex(3),
        WifiAttr::IfName("wlan0".to_string()),
        WifiAttr::Other,
        WifiAttr::IfType(WLANType::Ap),
        WifiAttr::IfIndex(4),
    ];
    let w = LandScapeWifiInterface::new(attrs).unwrap();
    assert_eq!(w.index, 4);
    assert_eq!(w.name, "wlan0");
    assert_eq!(w.wifi_type, WLANType::Ap);
    assert!(LandScapeWifiInterface::new(vec![WifiAttr::IfIndex(1), WifiAttr::IfType(WLANType::Station)]).is_none());
}

#[test]
fn small_types() {
    let c = FirewallServiceConfig { iface_name: "lan0".to_string(), enable: true };
    assert_eq!(c.get_store_key(), "lan0");
    let m = MemUsage::default();
    assert_eq!((m.total_mem, m.used_mem, m.total_swap, m.used_swap), (0, 0, 0, 0));
}

#[test]
fn ipv4_test1() {
    let a = split_u8_by_index(16, 2);
    println!("{a:?}");
    assert_eq!(a, (4, 0));
}

#[test]
fn ipv4_header_round_trips() {
    let data: Vec<u8> = vec![
        0x45, 0x00, 0x00, 0x1c, 0x12, 0x34, 0x40, 0x00, 0x40, 0x06, 0xab, 0xcd, 192, 168, 5, 1,
        192, 168, 5, 100, 1, 2, 3, 4, 5, 6, 7, 8,
    ];
    let f = Ipv4EthFrame::new(&data).unwrap();
    assert_eq!(f.get_header_contain_checksum(true), data[..20].to_vec());
}
