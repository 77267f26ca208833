use landscape::duid::MacAddr;
use landscape::ipv6_prefix::ICMPv6ConfigInfo;
use landscape::ra::{deprecation_options, ra_options, RaOption};

fn info(n: u128) -> ICMPv6ConfigInfo {
    let sub = (0x2001_0db8_0000_0000u128 + n) << 64;
    ICMPv6ConfigInfo {
        rt_prefix: 0x2001_0db8u128 << 96,
        rt_prefix_len: 56,
        sub_router: sub | 1,
        sub_prefix: sub,
        sub_prefix_len: 64,
        ra_preferred_lifetime: 1,
        ra_valid_lifetime: 2,
    }
}

fn pi(i: &ICMPv6ConfigInfo, valid: u32, preferred: u32, autonomous: bool) -> RaOption {
    RaOption::PrefixInformation {
        prefix_len: i.sub_prefix_len,
        valid_lifetime: valid,
        preferred_lifetime: preferred,
        prefix: i.sub_prefix,
        autonomous,
    }
}

#[test]
fn advertisement_lists_prefixes_routes_and_dns() {
    let mac = MacAddr::new(2, 0, 0, 0, 0, 1);
    let a = info(1);
    let b = info(2);
    let c = info(3);
    let opts = ra_options(mac, &[a], &[None, Some(b)], true, &[c], &[]);
    let expected = vec![
        RaOption::SourceLinkLayerAddress(mac),
        pi(&a, 600, 300, true),
        RaOption::RouteInformation { prefix_len: 56, prefix: a.rt_prefix },
        RaOption::RecursiveDnsServer { lifetime: 60_000, addr: a.sub_router },
        pi(&b, 600, 300, true),
        RaOption::RouteInformation { prefix_len: 56, prefix: b.rt_prefix },
        RaOption::RecursiveDnsServer { lifetime: 60_000, addr: b.sub_router },
        pi(&c, 600, 300, false),
        RaOption::RouteInformation { prefix_len: 56, prefix: c.rt_prefix },
        RaOption::Mtu(1500),
        RaOption::AdvertisementInterval(60_000),
    ];
    assert_eq!(opts, expected);
    let bare = ra_options(mac, &[], &[None], false, &[], &[]);
    assert_eq!(bare, vec![RaOption::SourceLinkLayerAddress(mac), RaOption::Mtu(1500), RaOption::AdvertisementInterval(60_000)]);
}

#[test]
fn deprecation_zeroes_every_prefix() {
    let mac = MacAddr::new(2, 0, 0, 0, 0, 1);
    let ll: u128 = 0xfe80 << 112 | 1;
    assert!(deprecation_options(mac, ll, &[], &[None], &[], &[]).is_none());
    let a = info(1);
    let c = info(3);
    let opts = deprecation_options(mac, ll, &[a], &[], &[], &[Some(c)]).unwrap();
    assert_eq!(
        opts,
        vec![
            RaOption::SourceLinkLayerAddress(mac),
            pi(&a, 0, 0, false),
            pi(&c, 0, 0, false),
            RaOption::RecursiveDnsServer { lifetime: 60_000, addr: ll },
            RaOption::Mtu(1500),
        ]
    );
}
