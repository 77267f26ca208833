//! What the router advertisements of a LAN link say: the options of the
//! periodic or solicited advertisement, and of the advertisement that
//! withdraws the link's prefixes. Putting them on the wire is the caller's
//! part.
use vstd::prelude::*;

use crate::duid::MacAddr;
use crate::ipv6_prefix::ICMPv6ConfigInfo;

verus! {

/// Valid lifetime, in seconds, of an advertised prefix.
pub const RA_PREFIX_VALID_LIFETIME: u32 = 600;

/// Preferred lifetime, in seconds, of an advertised prefix.
pub const RA_PREFIX_PREFERRED_LIFETIME: u32 = 300;

/// Lifetime of an advertised DNS server.
pub const RA_RDNSS_LIFETIME: u32 = 60_000;

/// The link MTU advertised.
pub const RA_MTU: u32 = 1500;

/// The advertisement interval advertised, in milliseconds.
pub const RA_ADVERTISEMENT_INTERVAL: u32 = 60_000;

/// One option of a router advertisement.
#[derive(Clone, Copy, Debug, PartialEq, Eq, Structural)]
pub enum RaOption {
    SourceLinkLayerAddress(MacAddr),
    PrefixInformation {
        prefix_len: u8,
        valid_lifetime: u32,
        preferred_lifetime: u32,
        prefix: u128,
        autonomous: bool,
    },
    RouteInformation { prefix_len: u8, prefix: u128 },
    RecursiveDnsServer { lifetime: u32, addr: u128 },
    Mtu(u32),
    AdvertisementInterval(u32),
}

/// The prefixes of the sources that are present, in order.
pub open spec fn present_infos(srcs: Seq<Option<ICMPv6ConfigInfo>>) -> Seq<ICMPv6ConfigInfo>
    decreases srcs.len(),
{
    if srcs.len() == 0 {
        Seq::empty()
    } else {
        let rest = present_infos(srcs.drop_last());
        match srcs.last() {
            Some(i) => rest.push(i),
            None => rest,
        }
    }
}

/// The options that announce one prefix: the prefix with its lifetimes,
/// the route to the prefix it was carved from, and, where the link serves
/// addresses from it, its router as DNS server.
pub open spec fn prefix_options(i: ICMPv6ConfigInfo, autonomous: bool, with_dns: bool) -> Seq<RaOption> {
    let base = seq![
        RaOption::PrefixInformation {
            prefix_len: i.sub_prefix_len,
            valid_lifetime: RA_PREFIX_VALID_LIFETIME,
            preferred_lifetime: RA_PREFIX_PREFERRED_LIFETIME,
            prefix: i.sub_prefix,
            autonomous,
        },
        RaOption::RouteInformation { prefix_len: i.rt_prefix_len, prefix: i.rt_prefix },
    ];
    if with_dns {
        base.push(RaOption::RecursiveDnsServer { lifetime: RA_RDNSS_LIFETIME, addr: i.sub_router })
    } else {
        base
    }
}

/// The options that announce each prefix, in order.
pub open spec fn announced(infos: Seq<ICMPv6ConfigInfo>, autonomous: bool, with_dns: bool) -> Seq<RaOption>
    decreases infos.len(),
{
    if infos.len() == 0 {
        Seq::empty()
    } else {
        announced(infos.drop_last(), autonomous, with_dns) + prefix_options(
            infos.last(),
            autonomous,
            with_dns,
        )
    }
}

/// The options that withdraw each prefix: zero lifetimes, not for
/// address configuration.
pub open spec fn withdrawn(infos: Seq<ICMPv6ConfigInfo>) -> Seq<RaOption>
    decreases infos.len(),
{
    if infos.len() == 0 {
        Seq::empty()
    } else {
        withdrawn(infos.drop_last()).push(
            RaOption::PrefixInformation {
                prefix_len: infos.last().sub_prefix_len,
                valid_lifetime: 0,
                preferred_lifetime: 0,
                prefix: infos.last().sub_prefix,
                autonomous: false,
            },
        )
    }
}

/// The prefixes of a link: its static ones and the delegated ones that
/// are present.
pub open spec fn link_prefixes(
    static_infos: Seq<ICMPv6ConfigInfo>,
    pd_infos: Seq<Option<ICMPv6ConfigInfo>>,
) -> Seq<ICMPv6ConfigInfo> {
    static_infos + present_infos(pd_infos)
}

/// The options of an advertisement: the router's hardware address; each
/// prefix of the link, for address configuration as `autonomous` says,
/// with its DNS server; each on-link-only prefix (never for address
/// configuration, no DNS server); the MTU and the advertisement interval.
pub open spec fn spec_ra_options(
    mac: MacAddr,
    static_infos: Seq<ICMPv6ConfigInfo>,
    pd_infos: Seq<Option<ICMPv6ConfigInfo>>,
    autonomous: bool,
    onlink_static: Seq<ICMPv6ConfigInfo>,
    onlink_pd: Seq<Option<ICMPv6ConfigInfo>>,
) -> Seq<RaOption> {
    seq![RaOption::SourceLinkLayerAddress(mac)] + announced(
        link_prefixes(static_infos, pd_infos),
        autonomous,
        true,
    ) + announced(link_prefixes(onlink_static, onlink_pd), false, false) + seq![
        RaOption::Mtu(RA_MTU),
        RaOption::AdvertisementInterval(RA_ADVERTISEMENT_INTERVAL),
    ]
}

/// The options of the advertisement that withdraws the link's prefixes
/// before its configuration changes: none where the link has no prefix;
/// else the router's hardware address, each prefix with zero lifetimes,
/// the link-local address as DNS server, and the MTU.
pub open spec fn spec_deprecation_options(
    mac: MacAddr,
    link_local: u128,
    static_infos: Seq<ICMPv6ConfigInfo>,
    pd_infos: Seq<Option<ICMPv6ConfigInfo>>,
    onlink_static: Seq<ICMPv6ConfigInfo>,
    onlink_pd: Seq<Option<ICMPv6ConfigInfo>>,
) -> Option<Seq<RaOption>> {
    let all = link_prefixes(static_infos, pd_infos) + link_prefixes(onlink_static, onlink_pd);
    if all.len() == 0 {
        None
    } else {
        Some(
            seq![RaOption::SourceLinkLayerAddress(mac)] + withdrawn(all) + seq![
                RaOption::RecursiveDnsServer { lifetime: RA_RDNSS_LIFETIME, addr: link_local },
                RaOption::Mtu(RA_MTU),
            ],
        )
    }
}

fn collect_present(srcs: &[Option<ICMPv6ConfigInfo>]) -> (r: Vec<ICMPv6ConfigInfo>)
    ensures
        r@ == present_infos(srcs@),
{
    let mut r: Vec<ICMPv6ConfigInfo> = Vec::new();
    let mut i: usize = 0;
    while i < srcs.len()
        invariant
            i <= srcs@.len(),
            r@ == present_infos(srcs@.take(i as int)),
        decreases srcs@.len() - i,
    {
        assert(srcs@.take(i + 1).drop_last() =~= srcs@.take(i as int));
        if let Some(info) = srcs[i] {
            r.push(info);
        }
        i += 1;
    }
    assert(srcs@.take(srcs@.len() as int) =~= srcs@);
    r
}

fn link_prefix_list(static_infos: &[ICMPv6ConfigInfo], pd_infos: &[Option<ICMPv6ConfigInfo>]) -> (r: Vec<ICMPv6ConfigInfo>)
    ensures
        r@ == link_prefixes(static_infos@, pd_infos@),
{
    let mut r = vstd::slice::slice_to_vec(static_infos);
    let mut present = collect_present(pd_infos);
    r.append(&mut present);
    r
}

fn push_announced(out: &mut Vec<RaOption>, infos: &Vec<ICMPv6ConfigInfo>, autonomous: bool, with_dns: bool)
    ensures
        final(out)@ == old(out)@ + announced(infos@, autonomous, with_dns),
{
    let ghost start = out@;
    let mut i: usize = 0;
    while i < infos.len()
        invariant
            i <= infos@.len(),
            out@ == start + announced(infos@.take(i as int), autonomous, with_dns),
        decreases infos@.len() - i,
    {
        let info = infos[i];
        assert(infos@.take(i + 1).drop_last() =~= infos@.take(i as int));
        let ghost before = out@;
        out.push(
            RaOption::PrefixInformation {
                prefix_len: info.sub_prefix_len,
                valid_lifetime: RA_PREFIX_VALID_LIFETIME,
                preferred_lifetime: RA_PREFIX_PREFERRED_LIFETIME,
                prefix: info.sub_prefix,
                autonomous,
            },
        );
        out.push(RaOption::RouteInformation { prefix_len: info.rt_prefix_len, prefix: info.rt_prefix });
        if with_dns {
            out.push(RaOption::RecursiveDnsServer { lifetime: RA_RDNSS_LIFETIME, addr: info.sub_router });
        }
        assert(out@ =~= before + prefix_options(info, autonomous, with_dns));
        i += 1;
    }
    assert(infos@.take(infos@.len() as int) =~= infos@);
}

fn push_withdrawn(out: &mut Vec<RaOption>, infos: &Vec<ICMPv6ConfigInfo>)
    ensures
        final(out)@ == old(out)@ + withdrawn(infos@),
{
    let ghost start = out@;
    let mut i: usize = 0;
    while i < infos.len()
        invariant
            i <= infos@.len(),
            out@ == start + withdrawn(infos@.take(i as int)),
        decreases infos@.len() - i,
    {
        let info = infos[i];
        assert(infos@.take(i + 1).drop_last() =~= infos@.take(i as int));
        out.push(
            RaOption::PrefixInformation {
                prefix_len: info.sub_prefix_len,
                valid_lifetime: 0,
                preferred_lifetime: 0,
                prefix: info.sub_prefix,
                autonomous: false,
            },
        );
        i += 1;
    }
    assert(infos@.take(infos@.len() as int) =~= infos@);
}

/// The options of an advertisement of the link, in the order they are
/// added.
pub fn ra_options(
    mac: MacAddr,
    static_infos: &[ICMPv6ConfigInfo],
    pd_infos: &[Option<ICMPv6ConfigInfo>],
    autonomous: bool,
    onlink_static: &[ICMPv6ConfigInfo],
    onlink_pd: &[Option<ICMPv6ConfigInfo>],
) -> (r: Vec<RaOption>)
    ensures
        r@ == spec_ra_options(mac, static_infos@, pd_infos@, autonomous, onlink_static@, onlink_pd@),
{
    let mut out: Vec<RaOption> = Vec::new();
    out.push(RaOption::SourceLinkLayerAddress(mac));
    let own = link_prefix_list(static_infos, pd_infos);
    push_announced(&mut out, &own, autonomous, true);
    let onlink = link_prefix_list(onlink_static, onlink_pd);
    push_announced(&mut out, &onlink, false, false);
    out.push(RaOption::Mtu(RA_MTU));
    out.push(RaOption::AdvertisementInterval(RA_ADVERTISEMENT_INTERVAL));
    out
}

/// The options of the advertisement that withdraws the link's prefixes, or
/// none where there is nothing to withdraw.
pub fn deprecation_options(
    mac: MacAddr,
    link_local: u128,
    static_infos: &[ICMPv6ConfigInfo],
    pd_infos: &[Option<ICMPv6ConfigInfo>],
    onlink_static: &[ICMPv6ConfigInfo],
    onlink_pd: &[Option<ICMPv6ConfigInfo>],
) -> (r: Option<Vec<RaOption>>)
    ensures
        match r {
            Some(v) => spec_deprecation_options(
                mac,
                link_local,
                static_infos@,
                pd_infos@,
                onlink_static@,
                onlink_pd@,
            ) == Some(v@),
            None => spec_deprecation_options(
                mac,
                link_local,
                static_infos@,
                pd_infos@,
                onlink_static@,
                onlink_pd@,
            ) is None,
        },
{
    let mut all = link_prefix_list(static_infos, pd_infos);
    let mut onlink = link_prefix_list(onlink_static, onlink_pd);
    all.append(&mut onlink);
    if all.len() == 0 {
        return None;
    }
    let mut out: Vec<RaOption> = Vec::new();
    out.push(RaOption::SourceLinkLayerAddress(mac));
    push_withdrawn(&mut out, &all);
    out.push(RaOption::RecursiveDnsServer { lifetime: RA_RDNSS_LIFETIME, addr: link_local });
    out.push(RaOption::Mtu(RA_MTU));
    Some(out)
}

/// A withdrawal advertisement gives every prefix it names zero lifetimes
/// and never offers it for address configuration.
pub proof fn law_withdrawal_zeroes_every_prefix(infos: Seq<ICMPv6ConfigInfo>, k: int)
    requires
        0 <= k < withdrawn(infos).len(),
    ensures
        withdrawn(infos)[k] matches RaOption::PrefixInformation {
            valid_lifetime,
            preferred_lifetime,
            autonomous,
            ..
        } && valid_lifetime == 0 && preferred_lifetime == 0 && !autonomous,
    decreases infos.len(),
{
    if k < withdrawn(infos.drop_last()).len() {
        law_withdrawal_zeroes_every_prefix(infos.drop_last(), k);
    }
}

/// The number of options that announce one prefix.
spec fn option_width(with_dns: bool) -> int {
    if with_dns {
        3
    } else {
        2
    }
}

/// The prefix information that announces `i`.
spec fn prefix_info_of(i: ICMPv6ConfigInfo, autonomous: bool) -> RaOption {
    RaOption::PrefixInformation {
        prefix_len: i.sub_prefix_len,
        valid_lifetime: RA_PREFIX_VALID_LIFETIME,
        preferred_lifetime: RA_PREFIX_PREFERRED_LIFETIME,
        prefix: i.sub_prefix,
        autonomous,
    }
}

proof fn lemma_announced_at(infos: Seq<ICMPv6ConfigInfo>, autonomous: bool, with_dns: bool, j: int)
    requires
        0 <= j < infos.len(),
    ensures
        announced(infos, autonomous, with_dns).len() == infos.len() * option_width(with_dns),
        announced(infos, autonomous, with_dns)[j * option_width(with_dns)] == prefix_info_of(
            infos[j],
            autonomous,
        ),
    decreases infos.len(),
{
    let w: int = option_width(with_dns);
    let n = infos.len() - 1;
    if j < n {
        lemma_announced_at(infos.drop_last(), autonomous, with_dns, j);
        assert(infos.drop_last()[j] == infos[j]);
    } else {
        if n > 0 {
            lemma_announced_at(infos.drop_last(), autonomous, with_dns, 0);
        } else {
            assert(announced(infos.drop_last(), autonomous, with_dns).len() == 0);
        }
    }
    assert(announced(infos, autonomous, with_dns).len() == infos.len() * w) by (nonlinear_arith)
        requires
            announced(infos, autonomous, with_dns).len() == announced(infos.drop_last(), autonomous, with_dns).len() + w,
            announced(infos.drop_last(), autonomous, with_dns).len() == n * w,
            n == infos.len() - 1,
    ;
    assert(j * w + 0 <= n * w) by (nonlinear_arith)
        requires
            j <= n,
            w >= 0,
    ;
}

/// An advertisement tells clients to configure addresses on the link's
/// own prefixes exactly as the link is set (`autonomous`), and never on
/// its on-link-only prefixes: the prefix information of the `j`-th own
/// prefix (static ones first, then the delegated ones present) carries the
/// configured flag, and that of each on-link-only prefix carries no flag.
pub proof fn law_ra_autonomous_follows_config(
    mac: MacAddr,
    static_infos: Seq<ICMPv6ConfigInfo>,
    pd_infos: Seq<Option<ICMPv6ConfigInfo>>,
    autonomous: bool,
    onlink_static: Seq<ICMPv6ConfigInfo>,
    onlink_pd: Seq<Option<ICMPv6ConfigInfo>>,
    j: int,
)
    ensures
        ({
            let own = static_infos + present_infos(pd_infos);
            let r = spec_ra_options(mac, static_infos, pd_infos, autonomous, onlink_static, onlink_pd);
            0 <= j < own.len() ==> r[1 + 3 * j] == RaOption::PrefixInformation {
                prefix_len: own[j].sub_prefix_len,
                valid_lifetime: RA_PREFIX_VALID_LIFETIME,
                preferred_lifetime: RA_PREFIX_PREFERRED_LIFETIME,
                prefix: own[j].sub_prefix,
                autonomous,
            }
        }),
        ({
            let own = static_infos + present_infos(pd_infos);
            let onlink = onlink_static + present_infos(onlink_pd);
            let r = spec_ra_options(mac, static_infos, pd_infos, autonomous, onlink_static, onlink_pd);
            0 <= j < onlink.len() ==> r[1 + 3 * own.len() + 2 * j] == RaOption::PrefixInformation {
                prefix_len: onlink[j].sub_prefix_len,
                valid_lifetime: RA_PREFIX_VALID_LIFETIME,
                preferred_lifetime: RA_PREFIX_PREFERRED_LIFETIME,
                prefix: onlink[j].sub_prefix,
                autonomous: false,
            }
        }),
{
    let own = static_infos + present_infos(pd_infos);
    let onlink = onlink_static + present_infos(onlink_pd);
    let a1 = announced(own, autonomous, true);
    let a2 = announced(onlink, false, false);
    let r = spec_ra_options(mac, static_infos, pd_infos, autonomous, onlink_static, onlink_pd);
    if 0 <= j < own.len() {
        lemma_announced_at(own, autonomous, true, j);
        assert(r[1 + 3 * j] == a1[3 * j]);
    }
    if 0 <= j < onlink.len() {
        lemma_announced_at(onlink, false, false, j);
        if own.len() > 0 {
            lemma_announced_at(own, autonomous, true, 0);
        } else {
            assert(a1.len() == 0);
        }
        assert(r[1 + 3 * own.len() + 2 * j] == a2[2 * j]);
    }
}

} // verus!
