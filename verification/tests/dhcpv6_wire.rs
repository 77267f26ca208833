use dhcproto::v6;
use dhcproto::{Decodable, Decoder, Encodable, Encoder};
use landscape::dhcpv6_handler::{DhcpV6MessageType, Dhcpv6Reply, Dhcpv6Status, IaAddrOpt, IaNaReply, StatusNote};
use landscape::dhcpv6_pool::{DHCPv6IANAConfig, DHCPv6Server, DHCPv6ServerConfig};
use landscape::dhcpv6_wire::{
    decode_dhcpv6_request, encode_dhcpv6_reply, handle_dhcpv6_bytes_at, message_type_of_code,
};
use landscape::ipv6_prefix::ICMPv6ConfigInfo;

const PREFIX_A: u128 = 0xfd11_2222_3333_3300_0000_0000_0000_0000;
const LINK_LOCAL: u128 = 0xfe80_0000_0000_0000_0000_0000_0000_0001;
const PEER: u128 = 0xfe80_0000_0000_0000_0000_0000_0000_0099;

fn solicit_bytes(client: &[u8]) -> Vec<u8> {
    let mut msg = v6::Message::new_with_id(v6::MessageType::Solicit, [7, 8, 9]);
    msg.opts_mut().insert(v6::DhcpOption::ClientId(client.to_vec()));
    msg.opts_mut().insert(v6::DhcpOption::IANA(v6::IANA {
        id: 42,
        t1: 0,
        t2: 0,
        opts: v6::DhcpOptions::new(),
    }));
    let mut buf = Vec::new();
    msg.encode(&mut Encoder::new(&mut buf)).unwrap();
    buf
}

fn server() -> DHCPv6Server {
    let config = DHCPv6ServerConfig {
        enable: true,
        ia_na: Some(DHCPv6IANAConfig {
            max_prefix_len: 64,
            pool_start: 256,
            pool_end: Some(512),
            preferred_lifetime: 3600,
            valid_lifetime: 7200,
        }),
        ia_pd: None,
    };
    let mut s = DHCPv6Server::init(&config, Vec::new());
    s.server_duid = vec![1, 2, 3, 4, 5, 6];
    s
}

fn info(prefix: u128) -> ICMPv6ConfigInfo {
    ICMPv6ConfigInfo {
        rt_prefix: prefix,
        rt_prefix_len: 56,
        sub_router: prefix | 1,
        sub_prefix: prefix,
        sub_prefix_len: 64,
        ra_preferred_lifetime: 3600,
        ra_valid_lifetime: 7200,
    }
}

#[test]
fn decodes_solicit_fields() {
    let req = decode_dhcpv6_request(&solicit_bytes(b"c1"), PEER).expect("decodes");
    assert_eq!(req.msg_type, DhcpV6MessageType::Solicit);
    assert_eq!(req.xid, [7, 8, 9]);
    assert_eq!(req.client_id, Some(b"c1".to_vec()));
    assert_eq!(req.server_id, None);
    assert_eq!(req.iana.as_ref().map(|ia| ia.id), Some(42));
    assert!(req.iapd.is_none());
    assert_eq!(req.peer_addr, PEER);
}

#[test]
fn short_bytes_do_not_decode() {
    assert!(decode_dhcpv6_request(&[1u8, 2], PEER).is_none());
}

#[test]
fn undecodable_bytes_change_nothing() {
    let mut s = server();
    let sd = s.server_duid.clone();
    let out = handle_dhcpv6_bytes_at(&mut s, 10, &sd, &[1u8], PEER, &[], &[info(PREFIX_A)], &[], &[], LINK_LOCAL);
    assert!(out.reply.is_none());
    assert!(!out.need_update);
    assert_eq!(s.na_offered.len(), 0);
}

#[test]
fn solicit_bytes_get_an_advertise() {
    let mut s = server();
    let sd = s.server_duid.clone();
    let out = handle_dhcpv6_bytes_at(
        &mut s,
        10,
        &sd,
        &solicit_bytes(b"c1"),
        PEER,
        &[],
        &[info(PREFIX_A)],
        &[],
        &[],
        LINK_LOCAL,
    );
    let reply = out.reply.expect("an advertise");
    assert_eq!(reply.msg_type, DhcpV6MessageType::Advertise);
    assert!(s.na_offered.contains_key(b"c1"));
    let bytes = encode_dhcpv6_reply(&reply).expect("encodes");
    let back = v6::Message::decode(&mut Decoder::new(&bytes)).unwrap();
    assert_eq!(back.msg_type(), v6::MessageType::Advertise);
    assert_eq!(back.xid(), [7, 8, 9]);
}

#[test]
fn encodes_reply_options() {
    let reply = Dhcpv6Reply {
        msg_type: DhcpV6MessageType::Reply,
        xid: [1, 2, 3],
        client_id: vec![9, 9],
        server_id: vec![1, 2, 3, 4, 5, 6],
        preference: None,
        status: None,
        iana: Some(IaNaReply {
            id: 5,
            t1: 1800,
            t2: 2880,
            addrs: vec![IaAddrOpt { addr: PREFIX_A | 0x1af, preferred_life: 120, valid_life: 120 }],
            status: StatusNote { status: Dhcpv6Status::Success, msg: String::new() },
        }),
        iapd: None,
        dns: Some(vec![LINK_LOCAL]),
    };
    let bytes = encode_dhcpv6_reply(&reply).expect("encodes");
    let m = v6::Message::decode(&mut Decoder::new(&bytes)).unwrap();
    assert_eq!(m.msg_type(), v6::MessageType::Reply);
    match m.opts().get(v6::OptionCode::ClientId) {
        Some(v6::DhcpOption::ClientId(d)) => assert_eq!(d, &vec![9u8, 9]),
        _ => panic!("no client id"),
    }
    match m.opts().get(v6::OptionCode::IANA) {
        Some(v6::DhcpOption::IANA(ia)) => {
            assert_eq!((ia.id, ia.t1, ia.t2), (5, 1800, 2880));
            match ia.opts.get(v6::OptionCode::IAAddr) {
                Some(v6::DhcpOption::IAAddr(a)) => assert_eq!(u128::from(a.addr), PREFIX_A | 0x1af),
                _ => panic!("no address"),
            }
        },
        _ => panic!("no IA_NA"),
    }
}

#[test]
fn message_type_codes() {
    assert_eq!(message_type_of_code(1), DhcpV6MessageType::Solicit);
    assert_eq!(message_type_of_code(11), DhcpV6MessageType::InformationRequest);
    assert_eq!(message_type_of_code(200), DhcpV6MessageType::Other(200));
}

#[test]
fn short_status_code_is_refused_not_decoded() {
    let bytes = [1u8, 0, 0, 0, 0, 13, 0, 0, 0xAA, 0xBB];
    assert!(decode_dhcpv6_request(&bytes, PEER).is_none());
    let mut s = server();
    let sd = s.server_duid.clone();
    let out = handle_dhcpv6_bytes_at(&mut s, 10, &sd, &bytes, PEER, &[], &[info(PREFIX_A)], &[], &[], LINK_LOCAL);
    assert!(out.reply.is_none());
    assert!(!out.need_update);
}

#[test]
fn oversized_dns_list_is_not_encoded() {
    let reply = Dhcpv6Reply {
        msg_type: DhcpV6MessageType::Reply,
        xid: [1, 2, 3],
        client_id: vec![9],
        server_id: vec![1],
        preference: None,
        status: None,
        iana: None,
        iapd: None,
        dns: Some(vec![LINK_LOCAL; 4096]),
    };
    assert!(encode_dhcpv6_reply(&reply).is_none());
    let small = Dhcpv6Reply { dns: Some(vec![LINK_LOCAL; 2]), ..reply };
    let bytes = encode_dhcpv6_reply(&small).expect("encodes");
    assert_eq!(&bytes[..4], &[7u8, 1, 2, 3]);
}
