//! How the DHCPv6 server answers a client: the options of its replies, the
//! DNS servers it hands out, and the routes of delegated prefixes. Messages
//! are held here as plain values; their wire form is the caller's part.
use vstd::prelude::*;
use vstd::string::StringExecFns;

use crate::dhcpv6_pool::{
    na_offer_made, pd_offer_made, DHCPv6IAPDConfig, DHCPv6IANAConfig, DHCPv6NACache,
    DHCPv6PDCache, DHCPv6Server,
};
use crate::duid::{
    combine_prefix_suffix, combined_address, compute_delegated_prefix, delegated_prefix,
    prefix_mask,
};
use crate::duid::{extract_mac_from_duid, spec_mac_from_duid, MacAddr};
use crate::ipv6_prefix::{ICMPv6ConfigInfo, PdDelegationParent};

verus! {

/// The kind of a DHCPv6 message.
#[derive(Clone, Copy, Debug, PartialEq, Eq, Structural)]
pub enum DhcpV6MessageType {
    Solicit,
    Advertise,
    Request,
    Confirm,
    Renew,
    Rebind,
    Reply,
    Release,
    Decline,
    Reconfigure,
    InformationRequest,
    RelayForw,
    RelayRepl,
    Other(u8),
}

/// The IA_NA of a client's message: its id and the addresses it lists.
#[derive(Clone, Debug)]
pub struct ClientIaNa {
    pub id: u32,
    pub addrs: Vec<u128>,
}

/// The IA_PD of a client's message: its id and the prefixes it lists.
#[derive(Clone, Debug)]
pub struct ClientIaPd {
    pub id: u32,
    pub prefixes: Vec<(u128, u8)>,
}

/// A client's message, as far as the server reads it.
#[derive(Clone, Debug)]
pub struct Dhcpv6Request {
    pub msg_type: DhcpV6MessageType,
    pub xid: [u8; 3],
    pub client_id: Option<Vec<u8>>,
    pub server_id: Option<Vec<u8>>,
    pub iana: Option<ClientIaNa>,
    pub iapd: Option<ClientIaPd>,
    /// The address the message came from: the client's link-local address.
    pub peer_addr: u128,
}

/// The status codes the server sends.
#[derive(Clone, Copy, Debug, PartialEq, Eq, Structural)]
pub enum Dhcpv6Status {
    Success,
    NotOnLink,
}

/// A status code option.
#[derive(Clone, Debug)]
pub struct StatusNote {
    pub status: Dhcpv6Status,
    pub msg: String,
}

/// An address offered in an IA_NA, with its lifetimes.
#[derive(Clone, Copy, Debug, PartialEq, Eq, Structural)]
pub struct IaAddrOpt {
    pub addr: u128,
    pub preferred_life: u32,
    pub valid_life: u32,
}

/// A prefix delegated in an IA_PD, with its lifetimes.
#[derive(Clone, Copy, Debug, PartialEq, Eq, Structural)]
pub struct IaPrefixOpt {
    pub prefix_ip: u128,
    pub prefix_len: u8,
    pub preferred_lifetime: u32,
    pub valid_lifetime: u32,
}

/// The IA_NA of a reply.
#[derive(Clone, Debug)]
pub struct IaNaReply {
    pub id: u32,
    pub t1: u32,
    pub t2: u32,
    pub addrs: Vec<IaAddrOpt>,
    pub status: StatusNote,
}

/// The IA_PD of a reply.
#[derive(Clone, Debug)]
pub struct IaPdReply {
    pub id: u32,
    pub t1: u32,
    pub t2: u32,
    pub prefixes: Vec<IaPrefixOpt>,
    pub status: StatusNote,
}

/// A reply of the server.
#[derive(Clone, Debug)]
pub struct Dhcpv6Reply {
    pub msg_type: DhcpV6MessageType,
    pub xid: [u8; 3],
    pub client_id: Vec<u8>,
    pub server_id: Vec<u8>,
    pub preference: Option<u8>,
    pub status: Option<StatusNote>,
    pub iana: Option<IaNaReply>,
    pub iapd: Option<IaPdReply>,
    pub dns: Option<Vec<u128>>,
}

/// The renewal times of an IA: half, and four fifths, of the preferred
/// lifetime.
pub open spec fn renewal_times(preferred: u32) -> (u32, u32) {
    ((preferred / 2) as u32, ((preferred * 4) / 5) as u32)
}

/// The addresses that the lease of suffix `suffix` takes on each prefix.
pub open spec fn lease_addrs(prefixes: Seq<(u128, u8)>, suffix: u64, preferred: u32, valid: u32) -> Seq<IaAddrOpt> {
    prefixes.map_values(
        |p: (u128, u8)|
            IaAddrOpt {
                addr: combined_address(p.0, p.1, suffix),
                preferred_life: preferred,
                valid_life: valid,
            },
    )
}

/// The prefixes that the lease of index `sub_index` takes out of each base.
pub open spec fn lease_prefixes(
    bases: Seq<(u128, u8)>,
    delegate_len: u8,
    sub_index: u32,
    preferred: u32,
    valid: u32,
) -> Seq<IaPrefixOpt> {
    bases.map_values(
        |p: (u128, u8)|
            IaPrefixOpt {
                prefix_ip: delegated_prefix(p.0, p.1, delegate_len, sub_index),
                prefix_len: delegate_len,
                preferred_lifetime: preferred,
                valid_lifetime: valid,
            },
    )
}

/// Every prefix has a length the address arithmetic can take.
pub open spec fn lengths_positive(prefixes: Seq<(u128, u8)>) -> bool {
    forall|i: int| 0 <= i < prefixes.len() ==> (#[trigger] prefixes[i]).1 > 0
}

/// The IA_NA that the server answers: the client's addresses on each
/// qualifying prefix, if it holds a lease, and a success status.
pub fn build_iana_options(
    server: &DHCPv6Server,
    client_duid: &[u8],
    iana_id: u32,
    qualifying_prefixes: &[(u128, u8)],
) -> (r: IaNaReply)
    requires
        server.wf(),
        server.na_config is Some,
        server.na_config.unwrap().preferred_lifetime * 4 <= u32::MAX,
        lengths_positive(qualifying_prefixes@),
    ensures
        r.id == iana_id,
        (r.t1, r.t2) == renewal_times(server.na_config.unwrap().preferred_lifetime),
        r.status.status == Dhcpv6Status::Success,
        r.status.msg@.len() == 0,
        r.addrs@ == if server.na_offered.view().contains_key(client_duid@) {
            let c = server.na_offered.view()[client_duid@];
            lease_addrs(qualifying_prefixes@, c.suffix, c.preferred_time, c.valid_time)
        } else {
            Seq::empty()
        },
{
    let na_config: DHCPv6IANAConfig = match server.na_config {
        Some(c) => c,
        None => {
            return IaNaReply {
                id: iana_id,
                t1: 0,
                t2: 0,
                addrs: Vec::new(),
                status: StatusNote { status: Dhcpv6Status::Success, msg: String::new() },
            };
        },
    };
    let mut addrs: Vec<IaAddrOpt> = Vec::new();
    if let Some(cache) = server.na_offered.get(client_duid) {
        let ghost c = *cache;
        let mut i: usize = 0;
        while i < qualifying_prefixes.len()
            invariant
                i <= qualifying_prefixes@.len(),
                lengths_positive(qualifying_prefixes@),
                addrs@ == lease_addrs(
                    qualifying_prefixes@.take(i as int),
                    c.suffix,
                    c.preferred_time,
                    c.valid_time,
                ),
                cache.suffix == c.suffix,
                cache.preferred_time == c.preferred_time,
                cache.valid_time == c.valid_time,
            decreases qualifying_prefixes@.len() - i,
        {
            let (prefix, prefix_len) = qualifying_prefixes[i];
            assert(qualifying_prefixes@[i as int].1 > 0);
            addrs.push(
                IaAddrOpt {
                    addr: combine_prefix_suffix(prefix, prefix_len, cache.suffix),
                    preferred_life: cache.preferred_time,
                    valid_life: cache.valid_time,
                },
            );
            assert(qualifying_prefixes@.take(i + 1) =~= qualifying_prefixes@.take(i as int).push(
                (prefix, prefix_len),
            ));
            i += 1;
        }
        assert(qualifying_prefixes@.take(qualifying_prefixes@.len() as int)
            =~= qualifying_prefixes@);
    }
    IaNaReply {
        id: iana_id,
        t1: na_config.preferred_lifetime / 2,
        t2: (na_config.preferred_lifetime * 4) / 5,
        addrs,
        status: StatusNote { status: Dhcpv6Status::Success, msg: String::new() },
    }
}

/// The IA_PD that the server answers: the client's delegated prefix out of
/// each base prefix, if it holds a lease, and a success status.
pub fn build_iapd_options(
    server: &DHCPv6Server,
    client_duid: &[u8],
    iapd_id: u32,
    qualifying_prefixes: &[(u128, u8)],
) -> (r: IaPdReply)
    requires
        server.wf(),
        server.pd_config is Some,
        server.pd_config.unwrap().preferred_lifetime * 4 <= u32::MAX,
        0 < server.pd_config.unwrap().delegate_prefix_len <= 128,
        lengths_positive(qualifying_prefixes@),
    ensures
        r.id == iapd_id,
        (r.t1, r.t2) == renewal_times(server.pd_config.unwrap().preferred_lifetime),
        r.status.status == Dhcpv6Status::Success,
        r.status.msg@.len() == 0,
        r.prefixes@ == if server.pd_offered.view().contains_key(client_duid@) {
            let c = server.pd_offered.view()[client_duid@];
            lease_prefixes(
                qualifying_prefixes@,
                server.pd_config.unwrap().delegate_prefix_len,
                c.sub_index,
                c.preferred_time,
                c.valid_time,
            )
        } else {
            Seq::empty()
        },
{
    let pd_config: DHCPv6IAPDConfig = match server.pd_config {
        Some(c) => c,
        None => {
            return IaPdReply {
                id: iapd_id,
                t1: 0,
                t2: 0,
                prefixes: Vec::new(),
                status: StatusNote { status: Dhcpv6Status::Success, msg: String::new() },
            };
        },
    };
    let delegate_len = pd_config.delegate_prefix_len;
    let mut prefixes: Vec<IaPrefixOpt> = Vec::new();
    if let Some(cache) = server.pd_offered.get(client_duid) {
        let ghost c = *cache;
        let mut i: usize = 0;
        while i < qualifying_prefixes.len()
            invariant
                i <= qualifying_prefixes@.len(),
                lengths_positive(qualifying_prefixes@),
                0 < delegate_len <= 128,
                prefixes@ == lease_prefixes(
                    qualifying_prefixes@.take(i as int),
                    delegate_len,
                    c.sub_index,
                    c.preferred_time,
                    c.valid_time,
                ),
                cache.sub_index == c.sub_index,
                cache.preferred_time == c.preferred_time,
                cache.valid_time == c.valid_time,
            decreases qualifying_prefixes@.len() - i,
        {
            let (base_prefix, base_prefix_len) = qualifying_prefixes[i];
            assert(qualifying_prefixes@[i as int].1 > 0);
            prefixes.push(
                IaPrefixOpt {
                    prefix_ip: compute_delegated_prefix(
                        base_prefix,
                        base_prefix_len,
                        delegate_len,
                        cache.sub_index,
                    ),
                    prefix_len: delegate_len,
                    preferred_lifetime: cache.preferred_time,
                    valid_lifetime: cache.valid_time,
                },
            );
            assert(qualifying_prefixes@.take(i + 1) =~= qualifying_prefixes@.take(i as int).push(
                (base_prefix, base_prefix_len),
            ));
            i += 1;
        }
        assert(qualifying_prefixes@.take(qualifying_prefixes@.len() as int)
            =~= qualifying_prefixes@);
    }
    IaPdReply {
        id: iapd_id,
        t1: pd_config.preferred_lifetime / 2,
        t2: (pd_config.preferred_lifetime * 4) / 5,
        prefixes,
        status: StatusNote { status: Dhcpv6Status::Success, msg: String::new() },
    }
}

/// `dns` with `x` added at its end unless it is there already.
pub open spec fn push_new(dns: Seq<u128>, x: u128) -> Seq<u128> {
    if dns.contains(x) {
        dns
    } else {
        dns.push(x)
    }
}

/// The DNS servers after adding each candidate in order, skipping those
/// already listed.
pub open spec fn add_all_new(dns: Seq<u128>, candidates: Seq<u128>) -> Seq<u128>
    decreases candidates.len(),
{
    if candidates.len() == 0 {
        dns
    } else {
        push_new(add_all_new(dns, candidates.drop_last()), candidates.last())
    }
}

/// The router addresses of the static prefixes.
pub open spec fn static_routers(infos: Seq<ICMPv6ConfigInfo>) -> Seq<u128> {
    infos.map_values(|i: ICMPv6ConfigInfo| i.sub_router)
}

/// The router addresses of the runtime prefixes that are present.
pub open spec fn runtime_routers(srcs: Seq<Option<ICMPv6ConfigInfo>>) -> Seq<u128>
    decreases srcs.len(),
{
    if srcs.len() == 0 {
        Seq::empty()
    } else {
        match srcs.last() {
            Some(i) => runtime_routers(srcs.drop_last()).push(i.sub_router),
            None => runtime_routers(srcs.drop_last()),
        }
    }
}

/// The DNS servers handed to clients: the link-local address first, then
/// the router addresses of the static, then of the runtime prefixes, each
/// once.
pub open spec fn spec_dns_servers(
    runtime_sources: Seq<Option<ICMPv6ConfigInfo>>,
    static_infos: Seq<ICMPv6ConfigInfo>,
    link_local: u128,
) -> Seq<u128> {
    add_all_new(seq![link_local], static_routers(static_infos) + runtime_routers(runtime_sources))
}

fn push_if_new(dns: &mut Vec<u128>, x: u128)
    ensures
        final(dns)@ == push_new(old(dns)@, x),
{
    let mut i: usize = 0;
    while i < dns.len()
        invariant
            i <= dns@.len(),
            forall|j: int| 0 <= j < i ==> dns@[j] != x,
        decreases dns@.len() - i,
    {
        if dns[i] == x {
            assert(dns@.contains(x));
            return;
        }
        i += 1;
    }
    dns.push(x);
}

/// The DNS servers handed to clients.
pub fn collect_dns_servers(
    runtime_sources: &[Option<ICMPv6ConfigInfo>],
    static_infos: &[ICMPv6ConfigInfo],
    link_local: u128,
) -> (r: Vec<u128>)
    ensures
        r@ == spec_dns_servers(runtime_sources@, static_infos@, link_local),
{
    let mut dns: Vec<u128> = Vec::new();
    dns.push(link_local);
    let ghost start = dns@;
    let mut i: usize = 0;
    while i < static_infos.len()
        invariant
            i <= static_infos@.len(),
            start == seq![link_local],
            dns@ == add_all_new(start, static_routers(static_infos@.take(i as int))),
        decreases static_infos@.len() - i,
    {
        let info = static_infos[i];
        assert(static_routers(static_infos@.take(i + 1)).drop_last() =~= static_routers(
            static_infos@.take(i as int),
        ));
        push_if_new(&mut dns, info.sub_router);
        i += 1;
    }
    assert(static_infos@.take(static_infos@.len() as int) =~= static_infos@);
    let ghost after_static = dns@;
    let mut j: usize = 0;
    while j < runtime_sources.len()
        invariant
            j <= runtime_sources@.len(),
            start == seq![link_local],
            after_static == add_all_new(start, static_routers(static_infos@)),
            dns@ == add_all_new(start, static_routers(static_infos@) + runtime_routers(
                runtime_sources@.take(j as int),
            )),
        decreases runtime_sources@.len() - j,
    {
        let ghost before = static_routers(static_infos@) + runtime_routers(
            runtime_sources@.take(j as int),
        );
        assert(runtime_sources@.take(j + 1).drop_last() =~= runtime_sources@.take(j as int));
        if let Some(info) = runtime_sources[j] {
            let ghost after = static_routers(static_infos@) + runtime_routers(
                runtime_sources@.take(j + 1),
            );
            assert(after.drop_last() =~= before);
            assert(after.last() == info.sub_router);
            push_if_new(&mut dns, info.sub_router);
        } else {
            assert(static_routers(static_infos@) + runtime_routers(runtime_sources@.take(j + 1))
                =~= before);
        }
        j += 1;
    }
    assert(runtime_sources@.take(runtime_sources@.len() as int) =~= runtime_sources@);
    proof {
        lemma_add_all_new_concat(
            start,
            static_routers(static_infos@),
            runtime_routers(runtime_sources@),
        );
    }
    dns
}

proof fn lemma_add_all_new_concat(d: Seq<u128>, a: Seq<u128>, b: Seq<u128>)
    ensures
        add_all_new(add_all_new(d, a), b) == add_all_new(d, a + b),
    decreases b.len(),
{
    if b.len() == 0 {
        assert(a + b =~= a);
    } else {
        lemma_add_all_new_concat(d, a, b.drop_last());
        assert((a + b).drop_last() =~= a + b.drop_last());
        assert((a + b).last() == b.last());
    }
}

/// The key index of the route of a delegated prefix: a high bit set, above
/// the lease index times 31 plus the prefix's second 32-bit word, wrapping.
pub open spec fn spec_pd_route_key_index(sub_index: u32, delegated_prefix: u128) -> u32 {
    0x8000_0000u32 | sub_index.wrapping_mul(31).wrapping_add((delegated_prefix >> 64u128) as u32)
}

/// The key index of the route of a delegated prefix, kept clear of the
/// indices of the link's own routes.
pub fn pd_route_key_index(sub_index: u32, delegated_prefix: u128) -> (r: u32)
    ensures
        r == spec_pd_route_key_index(sub_index, delegated_prefix),
{
    let prefix_hash = #[verifier::truncate] ((delegated_prefix >> 64u128) as u32);
    0x8000_0000u32 | (sub_index.wrapping_mul(31).wrapping_add(prefix_hash))
}

/// `addr` lies in one of the prefixes.
pub open spec fn on_some_link(addr: u128, prefixes: Seq<(u128, u8)>) -> bool {
    exists|i: int|
        0 <= i < prefixes.len() && #[trigger] (addr & prefix_mask(prefixes[i].1)) == prefixes[i].0
            & prefix_mask(prefixes[i].1)
}

fn on_link_of(addr: u128, prefixes: &Vec<(u128, u8)>) -> (r: bool)
    requires
        lengths_positive(prefixes@),
    ensures
        r == on_some_link(addr, prefixes@),
{
    let mut i: usize = 0;
    while i < prefixes.len()
        invariant
            i <= prefixes@.len(),
            lengths_positive(prefixes@),
            forall|j: int|
                0 <= j < i ==> #[trigger] (addr & prefix_mask(prefixes@[j].1)) != prefixes@[j].0
                    & prefix_mask(prefixes@[j].1),
        decreases prefixes@.len() - i,
    {
        let (prefix, prefix_len) = prefixes[i];
        let mask: u128 = if prefix_len >= 128 {
            !0u128
        } else {
            (!0u128) << ((128 - prefix_len) as u128)
        };
        assert(prefixes@[i as int].1 > 0);
        assert(mask == prefix_mask(prefix_len));
        if (addr & mask) == (prefix & mask) {
            assert((addr & prefix_mask(prefixes@[i as int].1)) == prefixes@[i as int].0 & prefix_mask(
                prefixes@[i as int].1,
            ));
            return true;
        }
        i += 1;
    }
    false
}

/// Every address the client lists lies in one of the prefixes.
pub open spec fn all_on_link(addrs: Seq<u128>, prefixes: Seq<(u128, u8)>) -> bool {
    forall|i: int| 0 <= i < addrs.len() ==> on_some_link(#[trigger] addrs[i], prefixes)
}

fn all_addrs_on_link(addrs: &Vec<u128>, prefixes: &Vec<(u128, u8)>) -> (r: bool)
    requires
        addrs@.len() > 0 ==> lengths_positive(prefixes@),
    ensures
        r == all_on_link(addrs@, prefixes@),
{
    let mut i: usize = 0;
    while i < addrs.len()
        invariant
            i <= addrs@.len(),
            addrs@.len() > 0 ==> lengths_positive(prefixes@),
            forall|j: int| 0 <= j < i ==> on_some_link(#[trigger] addrs@[j], prefixes@),
        decreases addrs@.len() - i,
    {
        if !on_link_of(addrs[i], prefixes) {
            return false;
        }
        i += 1;
    }
    true
}

/// The listed addresses that are not among `keep`, in order.
pub open spec fn missing_from(listed: Seq<u128>, keep: Seq<u128>) -> Seq<u128>
    decreases listed.len(),
{
    if listed.len() == 0 {
        Seq::empty()
    } else {
        let rest = missing_from(listed.drop_last(), keep);
        if keep.contains(listed.last()) {
            rest
        } else {
            rest.push(listed.last())
        }
    }
}

/// The listed prefixes whose address is not among `keep`, in order.
pub open spec fn missing_prefixes(listed: Seq<(u128, u8)>, keep: Seq<u128>) -> Seq<(u128, u8)>
    decreases listed.len(),
{
    if listed.len() == 0 {
        Seq::empty()
    } else {
        let rest = missing_prefixes(listed.drop_last(), keep);
        if keep.contains(listed.last().0) {
            rest
        } else {
            rest.push(listed.last())
        }
    }
}

/// An address with both lifetimes zero: the client is to stop using it.
pub open spec fn withdrawn_addr(a: u128) -> IaAddrOpt {
    IaAddrOpt { addr: a, preferred_life: 0, valid_life: 0 }
}

/// A prefix with both lifetimes zero: the client is to stop using it.
pub open spec fn withdrawn_prefix(p: (u128, u8)) -> IaPrefixOpt {
    IaPrefixOpt { prefix_ip: p.0, prefix_len: p.1, preferred_lifetime: 0, valid_lifetime: 0 }
}

fn contains_u128(v: &Vec<u128>, x: u128) -> (r: bool)
    ensures
        r == v@.contains(x),
{
    let mut i: usize = 0;
    while i < v.len()
        invariant
            i <= v@.len(),
            forall|j: int| 0 <= j < i ==> v@[j] != x,
        decreases v@.len() - i,
    {
        if v[i] == x {
            return true;
        }
        i += 1;
    }
    false
}

/// Appends, with zero lifetimes, the client's addresses that the server no
/// longer hands out.
fn withdraw_addrs(out: &mut Vec<IaAddrOpt>, client_addrs: &Vec<u128>, server_addrs: &Vec<u128>)
    ensures
        final(out)@ == old(out)@ + missing_from(client_addrs@, server_addrs@).map_values(
            |a: u128| withdrawn_addr(a),
        ),
{
    let ghost start = out@;
    let mut i: usize = 0;
    while i < client_addrs.len()
        invariant
            i <= client_addrs@.len(),
            out@ == start + missing_from(client_addrs@.take(i as int), server_addrs@).map_values(
                |a: u128| withdrawn_addr(a),
            ),
        decreases client_addrs@.len() - i,
    {
        let a = client_addrs[i];
        assert(client_addrs@.take(i + 1).drop_last() =~= client_addrs@.take(i as int));
        let ghost before = missing_from(client_addrs@.take(i as int), server_addrs@);
        if !contains_u128(server_addrs, a) {
            out.push(IaAddrOpt { addr: a, preferred_life: 0, valid_life: 0 });
            assert(before.push(a).map_values(|a: u128| withdrawn_addr(a)) =~= before.map_values(
                |a: u128| withdrawn_addr(a),
            ).push(withdrawn_addr(a)));
        }
        i += 1;
    }
    assert(client_addrs@.take(client_addrs@.len() as int) =~= client_addrs@);
}

/// Appends, with zero lifetimes, the client's prefixes that the server no
/// longer delegates.
fn withdraw_prefixes(
    out: &mut Vec<IaPrefixOpt>,
    client_prefixes: &Vec<(u128, u8)>,
    server_prefixes: &Vec<u128>,
)
    ensures
        final(out)@ == old(out)@ + missing_prefixes(client_prefixes@, server_prefixes@).map_values(
            |p: (u128, u8)| withdrawn_prefix(p),
        ),
{
    let ghost start = out@;
    let mut i: usize = 0;
    while i < client_prefixes.len()
        invariant
            i <= client_prefixes@.len(),
            out@ == start + missing_prefixes(
                client_prefixes@.take(i as int),
                server_prefixes@,
            ).map_values(|p: (u128, u8)| withdrawn_prefix(p)),
        decreases client_prefixes@.len() - i,
    {
        let p = client_prefixes[i];
        assert(client_prefixes@.take(i + 1).drop_last() =~= client_prefixes@.take(i as int));
        let ghost before = missing_prefixes(client_prefixes@.take(i as int), server_prefixes@);
        if !contains_u128(server_prefixes, p.0) {
            out.push(IaPrefixOpt { prefix_ip: p.0, prefix_len: p.1, preferred_lifetime: 0, valid_lifetime: 0 });
            assert(before.push(p).map_values(|p: (u128, u8)| withdrawn_prefix(p))
                =~= before.map_values(|p: (u128, u8)| withdrawn_prefix(p)).push(
                withdrawn_prefix(p),
            ));
        }
        i += 1;
    }
    assert(client_prefixes@.take(client_prefixes@.len() as int) =~= client_prefixes@);
}

fn addrs_of(opts: &Vec<IaAddrOpt>) -> (r: Vec<u128>)
    ensures
        r@ == opts@.map_values(|o: IaAddrOpt| o.addr),
{
    let mut r: Vec<u128> = Vec::new();
    let mut i: usize = 0;
    while i < opts.len()
        invariant
            i <= opts@.len(),
            r@ == opts@.take(i as int).map_values(|o: IaAddrOpt| o.addr),
        decreases opts@.len() - i,
    {
        r.push(opts[i].addr);
        assert(opts@.take(i + 1).map_values(|o: IaAddrOpt| o.addr) =~= opts@.take(
            i as int,
        ).map_values(|o: IaAddrOpt| o.addr).push(opts@[i as int].addr));
        i += 1;
    }
    assert(opts@.take(opts@.len() as int) =~= opts@);
    r
}

fn prefix_ips_of(opts: &Vec<IaPrefixOpt>) -> (r: Vec<u128>)
    ensures
        r@ == opts@.map_values(|o: IaPrefixOpt| o.prefix_ip),
{
    let mut r: Vec<u128> = Vec::new();
    let mut i: usize = 0;
    while i < opts.len()
        invariant
            i <= opts@.len(),
            r@ == opts@.take(i as int).map_values(|o: IaPrefixOpt| o.prefix_ip),
        decreases opts@.len() - i,
    {
        r.push(opts[i].prefix_ip);
        assert(opts@.take(i + 1).map_values(|o: IaPrefixOpt| o.prefix_ip) =~= opts@.take(
            i as int,
        ).map_values(|o: IaPrefixOpt| o.prefix_ip).push(opts@[i as int].prefix_ip));
        i += 1;
    }
    assert(opts@.take(opts@.len() as int) =~= opts@);
    r
}

fn pairs_of(opts: &Vec<IaPrefixOpt>) -> (r: Vec<(u128, u8)>)
    ensures
        r@ == opts@.map_values(|o: IaPrefixOpt| (o.prefix_ip, o.prefix_len)),
{
    let mut r: Vec<(u128, u8)> = Vec::new();
    let mut i: usize = 0;
    while i < opts.len()
        invariant
            i <= opts@.len(),
            r@ == opts@.take(i as int).map_values(|o: IaPrefixOpt| (o.prefix_ip, o.prefix_len)),
        decreases opts@.len() - i,
    {
        r.push((opts[i].prefix_ip, opts[i].prefix_len));
        assert(opts@.take(i + 1).map_values(|o: IaPrefixOpt| (o.prefix_ip, o.prefix_len))
            =~= opts@.take(i as int).map_values(|o: IaPrefixOpt| (o.prefix_ip, o.prefix_len)).push(
            (opts@[i as int].prefix_ip, opts@[i as int].prefix_len),
        ));
        i += 1;
    }
    assert(opts@.take(opts@.len() as int) =~= opts@);
    r
}

/// Routes to change after a delegation was confirmed: those recorded
/// before are to go, the new ones to be installed through the client's
/// address.
#[derive(Clone, Debug)]
pub struct PdRouteUpdate {
    pub sub_index: u32,
    pub gateway: u128,
    pub valid_time: u32,
    pub removed: Vec<(u128, u8)>,
    pub added: Vec<(u128, u8)>,
}

/// What the server does with one client message: the reply to send, if
/// any, whether the lease status page is to be refreshed, the routes of a
/// delegated prefix to change, and a released delegation whose routes are
/// to go.
#[derive(Debug)]
pub struct Dhcpv6Outcome {
    pub reply: Option<Dhcpv6Reply>,
    pub need_update: bool,
    pub pd_routes: Option<PdRouteUpdate>,
    pub released_pd: Option<DHCPv6PDCache>,
}

/// The request can be answered without an overflow: where it asks for an
/// IA_NA that the server serves and a prefix qualifies, four times the
/// preferred lifetime fits in 32 bits and every qualifying prefix has a
/// length; likewise for an IA_PD, whose delegated length must also lie in
/// 1..=128.
pub open spec fn ia_inputs_ok(
    server: DHCPv6Server,
    req: Dhcpv6Request,
    runtime_sources: Seq<Option<ICMPv6ConfigInfo>>,
    static_infos: Seq<ICMPv6ConfigInfo>,
    pd_delegation_static: Seq<PdDelegationParent>,
    pd_delegation_dynamic: Seq<Option<PdDelegationParent>>,
) -> bool {
    let na = server.qualifying_na(runtime_sources, static_infos);
    let pd = server.qualifying_pd(pd_delegation_static, pd_delegation_dynamic);
    &&& req.iana is Some && server.na_config is Some && na.len() > 0 ==> {
        &&& server.na_config.unwrap().preferred_lifetime * 4 <= u32::MAX
        &&& lengths_positive(na)
    }
    &&& req.iapd is Some && server.pd_config is Some && pd.len() > 0 ==> {
        &&& server.pd_config.unwrap().preferred_lifetime * 4 <= u32::MAX
        &&& 0 < server.pd_config.unwrap().delegate_prefix_len <= 128
        &&& lengths_positive(pd)
    }
}

/// Every prefix of the list has a length.
fn all_lengths_positive(prefixes: &Vec<(u128, u8)>) -> (r: bool)
    ensures
        r == lengths_positive(prefixes@),
{
    let mut i: usize = 0;
    while i < prefixes.len()
        invariant
            i <= prefixes@.len(),
            forall|j: int| 0 <= j < i ==> (#[trigger] prefixes@[j]).1 > 0,
        decreases prefixes@.len() - i,
    {
        if prefixes[i].1 == 0 {
            return false;
        }
        i += 1;
    }
    true
}

/// Whether `ia_inputs_ok` holds.
pub fn check_ia_inputs(
    server: &DHCPv6Server,
    req: &Dhcpv6Request,
    runtime_sources: &[Option<ICMPv6ConfigInfo>],
    static_infos: &[ICMPv6ConfigInfo],
    pd_delegation_static: &[PdDelegationParent],
    pd_delegation_dynamic: &[Option<PdDelegationParent>],
) -> (r: bool)
    requires
        server.wf(),
    ensures
        r == ia_inputs_ok(
            *server,
            *req,
            runtime_sources@,
            static_infos@,
            pd_delegation_static@,
            pd_delegation_dynamic@,
        ),
{
    if req.iana.is_some() {
        if let Some(c) = server.na_config {
            let na = server.get_qualifying_na_prefixes(runtime_sources, static_infos);
            if na.len() > 0 && (c.preferred_lifetime > u32::MAX / 4 || !all_lengths_positive(&na)) {
                return false;
            }
        }
    }
    if req.iapd.is_some() {
        if let Some(c) = server.pd_config {
            let pd = server.get_qualifying_pd_prefixes(pd_delegation_static, pd_delegation_dynamic);
            if pd.len() > 0 && (c.preferred_lifetime > u32::MAX / 4 || c.delegate_prefix_len == 0
                || c.delegate_prefix_len > 128 || !all_lengths_positive(&pd)) {
                return false;
            }
        }
    }
    true
}

/// The addresses of the client's IA_NA lease on the prefixes, if it holds
/// one.
pub open spec fn na_lease_addrs(s: DHCPv6Server, duid: Seq<u8>, na: Seq<(u128, u8)>) -> Seq<IaAddrOpt> {
    if s.na_offered.view().contains_key(duid) {
        let c = s.na_offered.view()[duid];
        lease_addrs(na, c.suffix, c.preferred_time, c.valid_time)
    } else {
        Seq::empty()
    }
}

/// The prefixes of the client's IA_PD lease out of the bases, if it holds
/// one.
pub open spec fn pd_lease_prefixes(s: DHCPv6Server, duid: Seq<u8>, pd: Seq<(u128, u8)>) -> Seq<IaPrefixOpt> {
    if s.pd_offered.view().contains_key(duid) && s.pd_config is Some {
        let c = s.pd_offered.view()[duid];
        lease_prefixes(
            pd,
            s.pd_config.unwrap().delegate_prefix_len,
            c.sub_index,
            c.preferred_time,
            c.valid_time,
        )
    } else {
        Seq::empty()
    }
}

/// The reply carries the message's transaction id and both DUIDs.
pub open spec fn reply_heads(r: Dhcpv6Reply, t: DhcpV6MessageType, req: Dhcpv6Request, duid: Seq<u8>, server_duid: Seq<u8>) -> bool {
    &&& r.msg_type == t
    &&& r.xid == req.xid
    &&& r.client_id@ == duid
    &&& r.server_id@ == server_duid
}

/// An IA_NA that tells the client its addresses are gone.
pub open spec fn na_not_on_link(ia: IaNaReply, id: u32) -> bool {
    &&& ia.id == id
    &&& ia.t1 == 0
    &&& ia.t2 == 0
    &&& ia.addrs@.len() == 0
    &&& ia.status.status == Dhcpv6Status::NotOnLink
    &&& ia.status.msg@ == "Prefix no longer available, please request new address"@
}

/// An IA_PD that tells the client no prefix can be delegated.
pub open spec fn pd_not_on_link(ia: IaPdReply, id: u32) -> bool {
    &&& ia.id == id
    &&& ia.t1 == 0
    &&& ia.t2 == 0
    &&& ia.prefixes@.len() == 0
    &&& ia.status.status == Dhcpv6Status::NotOnLink
    &&& ia.status.msg@ == "Prefix delegation not available, please request new prefix"@
}

fn base_reply(msg_type: DhcpV6MessageType, xid: [u8; 3], client_duid: &Vec<u8>, server_duid: &[u8]) -> (r: Dhcpv6Reply)
    ensures
        r.msg_type == msg_type,
        r.xid == xid,
        r.client_id@ == client_duid@,
        r.server_id@ == server_duid@,
        r.preference is None,
        r.status is None,
        r.iana is None,
        r.iapd is None,
        r.dns is None,
{
    Dhcpv6Reply {
        msg_type,
        xid,
        client_id: vstd::slice::slice_to_vec(client_duid.as_slice()),
        server_id: vstd::slice::slice_to_vec(server_duid),
        preference: None,
        status: None,
        iana: None,
        iapd: None,
        dns: None,
    }
}

fn iana_not_on_link(id: u32) -> (r: IaNaReply)
    ensures
        na_not_on_link(r, id),
{
    IaNaReply {
        id,
        t1: 0,
        t2: 0,
        addrs: Vec::new(),
        status: StatusNote {
            status: Dhcpv6Status::NotOnLink,
            msg: String::from_str("Prefix no longer available, please request new address"),
        },
    }
}

fn iapd_not_on_link(id: u32) -> (r: IaPdReply)
    ensures
        pd_not_on_link(r, id),
{
    IaPdReply {
        id,
        t1: 0,
        t2: 0,
        prefixes: Vec::new(),
        status: StatusNote {
            status: Dhcpv6Status::NotOnLink,
            msg: String::from_str("Prefix delegation not available, please request new prefix"),
        },
    }
}

/// The ADVERTISE `r` answers the SOLICIT `req` of the client `duid` (whose
/// DUID names the MAC `mac`) at `now`, and the leases went from `s` to
/// `f`: a lease is offered for each IA the client asks for and the server
/// serves, as the pool's offer at `now` makes it (see `na_offer_made` and
/// `pd_offer_made`), which leaves a lease the client holds as it is; the reply
/// lists the client's addresses, or its delegated prefixes (or, with no
/// base prefix, that none can be delegated), and the DNS servers, at the
/// highest preference.
pub open spec fn solicit_answered(
    s: DHCPv6Server,
    f: DHCPv6Server,
    now: u64,
    mac: Option<MacAddr>,
    req: Dhcpv6Request,
    duid: Seq<u8>,
    server_duid: Seq<u8>,
    runtime_sources: Seq<Option<ICMPv6ConfigInfo>>,
    static_infos: Seq<ICMPv6ConfigInfo>,
    pd_delegation_static: Seq<PdDelegationParent>,
    pd_delegation_dynamic: Seq<Option<PdDelegationParent>>,
    link_local: u128,
    r: Dhcpv6Reply,
) -> bool {
    let na = f.qualifying_na(runtime_sources, static_infos);
    let pd = f.qualifying_pd(pd_delegation_static, pd_delegation_dynamic);
    &&& !(req.iana is Some && s.na_config is Some) ==> f.same_na(&s)
    &&& !(req.iapd is Some && s.pd_config is Some) ==> f.same_pd(&s)
    &&& s.na_offered.view().contains_key(duid) ==> f.same_na(&s)
    &&& s.pd_offered.view().contains_key(duid) ==> f.same_pd(&s)
    &&& req.iana is Some && s.na_config is Some ==> exists|o: Option<u64>|
        na_offer_made(s, f, now, duid, mac, None, o)
    &&& req.iapd is Some && s.pd_config is Some ==> exists|o: Option<u32>|
        pd_offer_made(s, f, now, duid, o)
    &&& reply_heads(r, DhcpV6MessageType::Advertise, req, duid, server_duid)
    &&& r.preference == Some(255u8)
    &&& r.status is None
    &&& r.dns matches Some(d) && d@ == spec_dns_servers(runtime_sources, static_infos, link_local)
    &&& match r.iana {
        Some(ia) => req.iana is Some && f.na_config is Some && na.len() > 0 && ia.id
            == req.iana.unwrap().id && (ia.t1, ia.t2) == renewal_times(
            f.na_config.unwrap().preferred_lifetime,
        ) && ia.status.status == Dhcpv6Status::Success && ia.addrs@ == na_lease_addrs(
            f,
            duid,
            na,
        ),
        None => !(req.iana is Some && f.na_config is Some && na.len() > 0),
    }
    &&& match r.iapd {
        Some(ia) => req.iapd is Some && f.pd_config is Some && if pd.len() > 0 {
            ia.id == req.iapd.unwrap().id && (ia.t1, ia.t2) == renewal_times(
                f.pd_config.unwrap().preferred_lifetime,
            ) && ia.status.status == Dhcpv6Status::Success && ia.prefixes@ == pd_lease_prefixes(
                f,
                duid,
                pd,
            )
        } else {
            pd_not_on_link(ia, req.iapd.unwrap().id)
        },
        None => !(req.iapd is Some && f.pd_config is Some),
    }
}

proof fn lemma_na_offer_keeps(
    s: DHCPv6Server,
    f: DHCPv6Server,
    g: DHCPv6Server,
    now: u64,
    duid: Seq<u8>,
    mac: Option<MacAddr>,
    o: Option<u64>,
)
    requires
        na_offer_made(s, f, now, duid, mac, None, o),
        g.same_na(&f),
    ensures
        na_offer_made(s, g, now, duid, mac, None, o),
{
}

proof fn lemma_na_offer_from_same_na(
    s: DHCPv6Server,
    m: DHCPv6Server,
    f: DHCPv6Server,
    now: u64,
    duid: Seq<u8>,
    mac: Option<MacAddr>,
    o: Option<u64>,
)
    requires
        na_offer_made(m, f, now, duid, mac, None, o),
        m.same_na(&s),
        m.static_bindings@ == s.static_bindings@,
    ensures
        na_offer_made(s, f, now, duid, mac, None, o),
{
}

proof fn lemma_pd_offer_from_same_pd(
    s: DHCPv6Server,
    m: DHCPv6Server,
    f: DHCPv6Server,
    now: u64,
    duid: Seq<u8>,
    o: Option<u32>,
)
    requires
        pd_offer_made(m, f, now, duid, o),
        m.same_pd(&s),
    ensures
        pd_offer_made(s, f, now, duid, o),
{
}

/// The ADVERTISE to a SOLICIT: a lease is offered for each IA the client
/// asks for and the server serves; the reply lists the client's addresses,
/// or its delegated prefixes (or, with no base prefix, that none can be
/// delegated), and the DNS servers, at the highest preference.
fn answer_solicit(
    server: &mut DHCPv6Server,
    now: u64,
    server_duid: &[u8],
    req: &Dhcpv6Request,
    client_duid: &Vec<u8>,
    mac: Option<MacAddr>,
    runtime_sources: &[Option<ICMPv6ConfigInfo>],
    static_infos: &[ICMPv6ConfigInfo],
    pd_delegation_static: &[PdDelegationParent],
    pd_delegation_dynamic: &[Option<PdDelegationParent>],
    link_local: u128,
) -> (r: Dhcpv6Reply)
    requires
        old(server).wf(),
        ia_inputs_ok(
            *old(server),
            *req,
            runtime_sources@,
            static_infos@,
            pd_delegation_static@,
            pd_delegation_dynamic@,
        ),
    ensures
        final(server).wf(),
        final(server).same_setup(old(server)),
        solicit_answered(
            *old(server),
            *final(server),
            now,
            mac,
            *req,
            client_duid@,
            server_duid@,
            runtime_sources@,
            static_infos@,
            pd_delegation_static@,
            pd_delegation_dynamic@,
            link_local,
            r,
        ),
{
    let ghost s0 = *server;
    let ghost d = client_duid@;
    let ghost mut na_got: Option<u64> = None;
    if server.na_config.is_some() && req.iana.is_some() {
        let got = server.offer_na_suffix_at(now, client_duid.as_slice(), mac, None);
        proof {
            na_got = got;
        }
    }
    let ghost s1 = *server;
    if server.pd_config.is_some() && req.iapd.is_some() {
        let got = server.offer_pd_index_at(now, client_duid.as_slice());
        proof {
            lemma_pd_offer_from_same_pd(s0, s1, *server, now, d, got);
        }
    }
    proof {
        if req.iana is Some && s0.na_config is Some {
            lemma_na_offer_keeps(s0, s1, *server, now, d, mac, na_got);
        }
    }
    let mut reply = base_reply(DhcpV6MessageType::Advertise, req.xid, client_duid, server_duid);
    reply.preference = Some(255);
    if let Some(ia) = &req.iana {
        if server.na_config.is_some() {
            let na_prefixes = server.get_qualifying_na_prefixes(runtime_sources, static_infos);
            if na_prefixes.len() > 0 {
                reply.iana = Some(
                    build_iana_options(server, client_duid.as_slice(), ia.id, na_prefixes.as_slice()),
                );
            }
        }
    }
    if let Some(ia) = &req.iapd {
        if server.pd_config.is_some() {
            let pd_prefixes = server.get_qualifying_pd_prefixes(
                pd_delegation_static,
                pd_delegation_dynamic,
            );
            if pd_prefixes.len() > 0 {
                reply.iapd = Some(
                    build_iapd_options(server, client_duid.as_slice(), ia.id, pd_prefixes.as_slice()),
                );
            } else {
                reply.iapd = Some(iapd_not_on_link(ia.id));
            }
        }
    }
    reply.dns = Some(collect_dns_servers(runtime_sources, static_infos, link_local));
    reply
}

/// The IA_NA lease `c` is `c0` renewed at `now` under `conf`.
pub open spec fn na_renewed(c0: DHCPv6NACache, c: DHCPv6NACache, conf: DHCPv6IANAConfig, now: u64) -> bool {
    &&& c.suffix == c0.suffix
    &&& c.hostname == c0.hostname
    &&& c.mac == c0.mac
    &&& c.duid_hex == c0.duid_hex
    &&& c.is_static == c0.is_static
    &&& c.relative_offer_time == now
    &&& c.valid_time == if c0.is_static {
        c0.valid_time
    } else {
        conf.valid_lifetime
    }
    &&& c.preferred_time == conf.preferred_lifetime
}

/// The IA_PD lease `c` is `c0` renewed at `now` under `conf`.
pub open spec fn pd_renewed(c0: DHCPv6PDCache, c: DHCPv6PDCache, conf: DHCPv6IAPDConfig, now: u64) -> bool {
    &&& c.sub_index == c0.sub_index
    &&& c.duid_hex == c0.duid_hex
    &&& c.relative_offer_time == now
    &&& c.valid_time == conf.valid_lifetime
    &&& c.preferred_time == conf.preferred_lifetime
}

/// Offers an IA_NA lease to a client that holds none, as the pool's offer
/// at `now` makes it.
fn offer_na_if_missing(server: &mut DHCPv6Server, now: u64, duid: &[u8], mac: Option<MacAddr>)
    requires
        old(server).wf(),
    ensures
        final(server).wf(),
        final(server).same_setup(old(server)),
        final(server).same_pd(old(server)),
        old(server).na_offered.view().contains_key(duid@) ==> final(server).same_na(old(server)),
        !old(server).na_offered.view().contains_key(duid@) && final(server).na_offered.view().contains_key(duid@) ==> final(server).na_offered.view()[duid@].relative_offer_time
            == now,
        !old(server).na_offered.view().contains_key(duid@) ==> exists|o: Option<u64>|
            na_offer_made(*old(server), *final(server), now, duid@, mac, None, o),
{
    if !server.na_offered.contains_key(duid) {
        let _ = server.offer_na_suffix_at(now, duid, mac, None);
    }
}

/// Offers an IA_PD lease to a client that holds none, as the pool's offer
/// at `now` makes it.
fn offer_pd_if_missing(server: &mut DHCPv6Server, now: u64, duid: &[u8])
    requires
        old(server).wf(),
    ensures
        final(server).wf(),
        final(server).same_setup(old(server)),
        final(server).same_na(old(server)),
        old(server).pd_offered.view().contains_key(duid@) ==> final(server).same_pd(old(server)),
        !old(server).pd_offered.view().contains_key(duid@) && final(server).pd_offered.view().contains_key(duid@) ==> {
            let c = final(server).pd_offered.view()[duid@];
            &&& c.relative_offer_time == now
            &&& c.client_addr == 0
            &&& c.active_routes@.len() == 0
        },
        !old(server).pd_offered.view().contains_key(duid@) ==> exists|o: Option<u32>|
            pd_offer_made(*old(server), *final(server), now, duid@, o),
{
    if !server.pd_offered.contains_key(duid) {
        let _ = server.offer_pd_index_at(now, duid);
    }
}

/// From `m` to `f` the client's IA_NA lease, if it holds one, is renewed
/// at `now`; otherwise nothing changes.
pub open spec fn na_settled(m: DHCPv6Server, f: DHCPv6Server, duid: Seq<u8>, now: u64) -> bool {
    &&& m.na_offered.view().contains_key(duid) ==> {
        &&& f.na_allocated_suffixes@ == m.na_allocated_suffixes@
        &&& f.na_offered.view() == m.na_offered.view().insert(duid, f.na_offered.view()[duid])
        &&& na_renewed(m.na_offered.view()[duid], f.na_offered.view()[duid], m.na_config.unwrap(), now)
    }
    &&& !m.na_offered.view().contains_key(duid) ==> f.same_na(&m)
}

/// Renews the client's IA_NA lease, or offers one and renews it.
fn settle_na(server: &mut DHCPv6Server, now: u64, duid: &[u8], mac: Option<MacAddr>)
    requires
        old(server).wf(),
        old(server).na_config is Some,
    ensures
        final(server).wf(),
        final(server).same_setup(old(server)),
        final(server).same_pd(old(server)),
        old(server).na_offered.view().contains_key(duid@) ==> {
            &&& final(server).na_allocated_suffixes@ == old(server).na_allocated_suffixes@
            &&& final(server).na_offered.view() == old(server).na_offered.view().insert(
                duid@,
                final(server).na_offered.view()[duid@],
            )
            &&& na_renewed(
                old(server).na_offered.view()[duid@],
                final(server).na_offered.view()[duid@],
                old(server).na_config.unwrap(),
                now,
            )
        },
        !old(server).na_offered.view().contains_key(duid@) && final(server).na_offered.view().contains_key(duid@) ==> final(server).na_offered.view()[duid@].relative_offer_time
            == now,
        !old(server).na_offered.view().contains_key(duid@) ==> exists|m: DHCPv6Server, o: Option<u64>|
            m.same_setup(old(server)) && na_offer_made(*old(server), m, now, duid@, mac, None, o)
                && na_settled(m, *final(server), duid@, now),
{
    if !server.confirm_na_at(now, duid) {
        let ghost s1 = *server;
        offer_na_if_missing(server, now, duid, mac);
        let ghost m = *server;
        let _ = server.confirm_na_at(now, duid);
        proof {
            let o = choose|o: Option<u64>| na_offer_made(s1, m, now, duid@, mac, None, o);
            lemma_na_offer_from_same_na(*old(server), s1, m, now, duid@, mac, o);
            assert(m.same_setup(old(server)) && na_offer_made(*old(server), m, now, duid@, mac, None, o) && na_settled(
                m,
                *server,
                duid@,
                now,
            ));
        }
    }
}

/// From `m` to `f` the client's IA_PD lease, if it holds one, is renewed
/// at `now` and keeps its routes; otherwise nothing changes.
pub open spec fn pd_settled(m: DHCPv6Server, f: DHCPv6Server, duid: Seq<u8>, now: u64) -> bool {
    &&& m.pd_offered.view().contains_key(duid) ==> {
        let c0 = m.pd_offered.view()[duid];
        let c = f.pd_offered.view()[duid];
        &&& f.pd_allocated_indices@ == m.pd_allocated_indices@
        &&& f.pd_offered.view() == m.pd_offered.view().insert(duid, c)
        &&& pd_renewed(c0, c, m.pd_config.unwrap(), now)
        &&& c.client_addr == c0.client_addr
        &&& c.active_routes == c0.active_routes
    }
    &&& !m.pd_offered.view().contains_key(duid) ==> f.same_pd(&m)
}

/// From `g` to `f` at most the routes of the client's IA_PD lease, and the
/// address they go through, change; the lease itself stays.
pub open spec fn pd_routed(g: DHCPv6Server, f: DHCPv6Server, duid: Seq<u8>) -> bool {
    &&& g.pd_offered.view().contains_key(duid) ==> {
        let c0 = g.pd_offered.view()[duid];
        let c = f.pd_offered.view()[duid];
        &&& f.pd_allocated_indices@ == g.pd_allocated_indices@
        &&& f.pd_offered.view() == g.pd_offered.view().insert(duid, c)
        &&& c.sub_index == c0.sub_index
        &&& c.duid_hex == c0.duid_hex
        &&& c.relative_offer_time == c0.relative_offer_time
        &&& c.valid_time == c0.valid_time
        &&& c.preferred_time == c0.preferred_time
    }
    &&& !g.pd_offered.view().contains_key(duid) ==> f.same_pd(&g)
}

/// Renews the client's IA_PD lease, or offers one and renews it.
fn settle_pd(server: &mut DHCPv6Server, now: u64, duid: &[u8])
    requires
        old(server).wf(),
        old(server).pd_config is Some,
    ensures
        final(server).wf(),
        final(server).same_setup(old(server)),
        final(server).same_na(old(server)),
        old(server).pd_offered.view().contains_key(duid@) ==> {
            let c0 = old(server).pd_offered.view()[duid@];
            let c = final(server).pd_offered.view()[duid@];
            &&& final(server).pd_allocated_indices@ == old(server).pd_allocated_indices@
            &&& final(server).pd_offered.view() == old(server).pd_offered.view().insert(duid@, c)
            &&& pd_renewed(c0, c, old(server).pd_config.unwrap(), now)
            &&& c.client_addr == c0.client_addr
            &&& c.active_routes == c0.active_routes
        },
        !old(server).pd_offered.view().contains_key(duid@) && final(server).pd_offered.view().contains_key(duid@) ==> {
            let c = final(server).pd_offered.view()[duid@];
            &&& c.relative_offer_time == now
            &&& c.client_addr == 0
            &&& c.active_routes@.len() == 0
        },
        !old(server).pd_offered.view().contains_key(duid@) ==> exists|m: DHCPv6Server, o: Option<u32>|
            m.same_setup(old(server)) && pd_offer_made(*old(server), m, now, duid@, o) && pd_settled(
                m,
                *final(server),
                duid@,
                now,
            ),
{
    if !server.confirm_pd_at(now, duid) {
        let ghost s1 = *server;
        offer_pd_if_missing(server, now, duid);
        let ghost m = *server;
        let _ = server.confirm_pd_at(now, duid);
        proof {
            let o = choose|o: Option<u32>| pd_offer_made(s1, m, now, duid@, o);
            lemma_pd_offer_from_same_pd(*old(server), s1, m, now, duid@, o);
            assert(m.same_setup(old(server)) && pd_offer_made(*old(server), m, now, duid@, o)
                && pd_settled(m, *server, duid@, now));
        }
    }
}

/// RENEW and REBIND: the client may list addresses and prefixes that the
/// server no longer hands out.
pub open spec fn renewing(t: DhcpV6MessageType) -> bool {
    t == DhcpV6MessageType::Renew || t == DhcpV6MessageType::Rebind
}

/// `ia` is the IA_NA, of id `id`, that answers a REQUEST, RENEW or REBIND
/// in which the client listed `listed`: with no qualifying prefix, that the
/// addresses are gone; else the client's lease on each prefix, followed,
/// for RENEW and REBIND, by each listed address the lease does not give,
/// with zero lifetimes.
pub open spec fn na_reply_for(
    f: DHCPv6Server,
    duid: Seq<u8>,
    na: Seq<(u128, u8)>,
    id: u32,
    listed: Seq<u128>,
    renew: bool,
    ia: IaNaReply,
) -> bool {
    if na.len() > 0 {
        let lease = na_lease_addrs(f, duid, na);
        &&& ia.id == id
        &&& (ia.t1, ia.t2) == renewal_times(f.na_config.unwrap().preferred_lifetime)
        &&& ia.status.status == Dhcpv6Status::Success
        &&& ia.status.msg@.len() == 0
        &&& ia.addrs@ == if renew {
            lease + missing_from(listed, lease.map_values(|o: IaAddrOpt| o.addr)).map_values(
                |a: u128| withdrawn_addr(a),
            )
        } else {
            lease
        }
    } else {
        na_not_on_link(ia, id)
    }
}

/// `ia` is the IA_PD, of id `id`, that answers a REQUEST, RENEW or REBIND
/// in which the client listed `listed`: with no base prefix, that none can
/// be delegated; else the client's delegated prefix out of each base,
/// followed, for RENEW and REBIND, by each listed prefix the lease does not
/// give, with zero lifetimes.
pub open spec fn pd_reply_for(
    f: DHCPv6Server,
    duid: Seq<u8>,
    pd: Seq<(u128, u8)>,
    id: u32,
    listed: Seq<(u128, u8)>,
    renew: bool,
    ia: IaPdReply,
) -> bool {
    if pd.len() > 0 {
        let lease = pd_lease_prefixes(f, duid, pd);
        &&& ia.id == id
        &&& (ia.t1, ia.t2) == renewal_times(f.pd_config.unwrap().preferred_lifetime)
        &&& ia.status.status == Dhcpv6Status::Success
        &&& ia.status.msg@.len() == 0
        &&& ia.prefixes@ == if renew {
            lease + missing_prefixes(listed, lease.map_values(|o: IaPrefixOpt| o.prefix_ip)).map_values(
                |p: (u128, u8)| withdrawn_prefix(p),
            )
        } else {
            lease
        }
    } else {
        pd_not_on_link(ia, id)
    }
}

/// The routes recorded for the client's delegation in `s`.
pub open spec fn routes_before(s: DHCPv6Server, duid: Seq<u8>) -> Seq<(u128, u8)> {
    if s.pd_offered.view().contains_key(duid) {
        s.pd_offered.view()[duid].active_routes@
    } else {
        Seq::empty()
    }
}

/// `u` replaces the routes `removed` of the client's delegation by one
/// route per delegated prefix through `peer`, and `f` records them.
pub open spec fn pd_route_update_is(
    f: DHCPv6Server,
    duid: Seq<u8>,
    pd: Seq<(u128, u8)>,
    peer: u128,
    removed: Seq<(u128, u8)>,
    u: PdRouteUpdate,
) -> bool {
    let c = f.pd_offered.view()[duid];
    &&& f.pd_offered.view().contains_key(duid)
    &&& u.sub_index == c.sub_index
    &&& u.gateway == peer
    &&& u.valid_time == c.valid_time
    &&& u.removed@ == removed
    &&& u.added@ == pd_lease_prefixes(f, duid, pd).map_values(
        |o: IaPrefixOpt| (o.prefix_ip, o.prefix_len),
    )
    &&& c.client_addr == peer
    &&& c.active_routes@ == u.added@
}

/// The IA_NA of the REPLY to a REQUEST, RENEW or REBIND; the client is
/// offered a lease first if it holds none and a prefix qualifies.
fn request_iana(
    server: &mut DHCPv6Server,
    now: u64,
    ia: &ClientIaNa,
    renew: bool,
    duid: &[u8],
    mac: Option<MacAddr>,
    runtime_sources: &[Option<ICMPv6ConfigInfo>],
    static_infos: &[ICMPv6ConfigInfo],
) -> (r: IaNaReply)
    requires
        old(server).wf(),
        old(server).na_config is Some,
        old(server).qualifying_na(runtime_sources@, static_infos@).len() > 0
            ==> old(server).na_config.unwrap().preferred_lifetime * 4 <= u32::MAX,
        lengths_positive(old(server).qualifying_na(runtime_sources@, static_infos@)),
    ensures
        final(server).wf(),
        final(server).same_setup(old(server)),
        final(server).same_pd(old(server)),
        old(server).na_offered.view().contains_key(duid@) ==> final(server).same_na(old(server)),
        !old(server).na_offered.view().contains_key(duid@) && final(server).na_offered.view().contains_key(duid@)
            ==> final(server).na_offered.view()[duid@].relative_offer_time == now,
        !old(server).na_offered.view().contains_key(duid@) && old(server).qualifying_na(
            runtime_sources@,
            static_infos@,
        ).len() > 0 ==> exists|o: Option<u64>|
            na_offer_made(*old(server), *final(server), now, duid@, mac, None, o),
        old(server).qualifying_na(runtime_sources@, static_infos@).len() == 0
            ==> final(server).same_na(old(server)),
        na_reply_for(
            *final(server),
            duid@,
            final(server).qualifying_na(runtime_sources@, static_infos@),
            ia.id,
            ia.addrs@,
            renew,
            r,
        ),
{
    let na_prefixes = server.get_qualifying_na_prefixes(runtime_sources, static_infos);
    if na_prefixes.len() > 0 {
        offer_na_if_missing(server, now, duid, mac);
        let mut iana = build_iana_options(server, duid, ia.id, na_prefixes.as_slice());
        if renew {
            let server_addrs = addrs_of(&iana.addrs);
            let mut addrs = iana.addrs;
            withdraw_addrs(&mut addrs, &ia.addrs, &server_addrs);
            iana.addrs = addrs;
        }
        iana
    } else {
        iana_not_on_link(ia.id)
    }
}

/// The IA_PD of the REPLY to a REQUEST, RENEW or REBIND, and the route
/// change of the delegation; the client is offered a lease first if it
/// holds none and a base prefix qualifies.
fn request_iapd(
    server: &mut DHCPv6Server,
    now: u64,
    ia: &ClientIaPd,
    renew: bool,
    duid: &[u8],
    peer: u128,
    pd_delegation_static: &[PdDelegationParent],
    pd_delegation_dynamic: &[Option<PdDelegationParent>],
) -> (r: (IaPdReply, Option<PdRouteUpdate>))
    requires
        old(server).wf(),
        old(server).pd_config is Some,
        old(server).qualifying_pd(pd_delegation_static@, pd_delegation_dynamic@).len() > 0 ==> {
            &&& old(server).pd_config.unwrap().preferred_lifetime * 4 <= u32::MAX
            &&& 0 < old(server).pd_config.unwrap().delegate_prefix_len <= 128
        },
        lengths_positive(old(server).qualifying_pd(pd_delegation_static@, pd_delegation_dynamic@)),
    ensures
        final(server).wf(),
        final(server).same_setup(old(server)),
        final(server).same_na(old(server)),
        r.1 is None && old(server).pd_offered.view().contains_key(duid@) ==> final(server).same_pd(old(server)),
        old(server).pd_offered.view().contains_key(duid@) ==> {
            let c0 = old(server).pd_offered.view()[duid@];
            let c = final(server).pd_offered.view()[duid@];
            &&& final(server).pd_allocated_indices@ == old(server).pd_allocated_indices@
            &&& final(server).pd_offered.view() == old(server).pd_offered.view().insert(duid@, c)
            &&& c.sub_index == c0.sub_index
            &&& c.duid_hex == c0.duid_hex
            &&& c.relative_offer_time == c0.relative_offer_time
            &&& c.valid_time == c0.valid_time
            &&& c.preferred_time == c0.preferred_time
        },
        !old(server).pd_offered.view().contains_key(duid@) && final(server).pd_offered.view().contains_key(duid@)
            ==> final(server).pd_offered.view()[duid@].relative_offer_time == now,
        !old(server).pd_offered.view().contains_key(duid@) && old(server).qualifying_pd(
            pd_delegation_static@,
            pd_delegation_dynamic@,
        ).len() > 0 ==> exists|g: DHCPv6Server, o: Option<u32>|
            pd_offer_made(*old(server), g, now, duid@, o) && pd_routed(g, *final(server), duid@),
        old(server).qualifying_pd(pd_delegation_static@, pd_delegation_dynamic@).len() == 0
            ==> final(server).same_pd(old(server)),
        pd_reply_for(
            *final(server),
            duid@,
            final(server).qualifying_pd(pd_delegation_static@, pd_delegation_dynamic@),
            ia.id,
            ia.prefixes@,
            renew,
            r.0,
        ),
        ({
            let pd = final(server).qualifying_pd(pd_delegation_static@, pd_delegation_dynamic@);
            match r.1 {
                Some(u) => pd.len() > 0 && pd_route_update_is(
                    *final(server),
                    duid@,
                    pd,
                    peer,
                    routes_before(*old(server), duid@),
                    u,
                ),
                None => !(pd.len() > 0 && final(server).pd_offered.view().contains_key(duid@)),
            }
        }),
{
    let pd_prefixes = server.get_qualifying_pd_prefixes(pd_delegation_static, pd_delegation_dynamic);
    if pd_prefixes.len() > 0 {
        offer_pd_if_missing(server, now, duid);
        let ghost g = *server;
        let mut iapd = build_iapd_options(server, duid, ia.id, pd_prefixes.as_slice());
        let added = pairs_of(&iapd.prefixes);
        let recorded = pairs_of(&iapd.prefixes);
        if renew {
            let server_prefixes = prefix_ips_of(&iapd.prefixes);
            let mut prefixes = iapd.prefixes;
            withdraw_prefixes(&mut prefixes, &ia.prefixes, &server_prefixes);
            iapd.prefixes = prefixes;
        }
        let ghost mid = *server;
        let ghost pd = pd_prefixes@;
        let mut routes: Option<PdRouteUpdate> = None;
        let held = match server.pd_offered.get(duid) {
            Some(c) => Some((c.sub_index, c.valid_time)),
            None => None,
        };
        if let Some((sub_index, valid_time)) = held {
            if let Some(previous) = server.replace_pd_routes(duid, peer, recorded) {
                routes = Some(
                    PdRouteUpdate { sub_index, gateway: peer, valid_time, removed: previous, added },
                );
                proof {
                    let f = *server;
                    assert(pd_lease_prefixes(f, duid@, pd) == pd_lease_prefixes(mid, duid@, pd));
                    assert(previous@ == routes_before(*old(server), duid@)) by {
                        if !old(server).pd_offered.view().contains_key(duid@) {
                            assert(mid.pd_offered.view()[duid@].active_routes@ =~= Seq::empty());
                        }
                    }
                }
            }
        }
        proof {
            if !old(server).pd_offered.view().contains_key(duid@) {
                let o = choose|o: Option<u32>| pd_offer_made(*old(server), g, now, duid@, o);
                assert(pd_offer_made(*old(server), g, now, duid@, o) && pd_routed(
                    g,
                    *server,
                    duid@,
                ));
            }
        }
        (iapd, routes)
    } else {
        (iapd_not_on_link(ia.id), None)
    }
}

/// What a REQUEST, RENEW or REBIND of the client `duid` (whose DUID names
/// the MAC `mac`) does to the leases, from `s` to `f`: a lease the client
/// held is renewed at `now` under the configuration, and keeps its suffix
/// or index; a client that held no IA_NA lease is first offered one as the
/// pool's offer at `now` makes it, which is then renewed, or, where none
/// came of it and an IA_NA prefix qualifies (`na_qualifies`), offered one
/// once more; so too for IA_PD (with `pd_qualifies`), where the routes of
/// the lease then given may change; a lease it is given is stamped `now`; a
/// side the message does not ask for, or the server does not serve, is
/// untouched.
pub open spec fn request_state_ok(
    s: DHCPv6Server,
    f: DHCPv6Server,
    req: Dhcpv6Request,
    duid: Seq<u8>,
    mac: Option<MacAddr>,
    now: u64,
    na_qualifies: bool,
    pd_qualifies: bool,
    routes: Option<PdRouteUpdate>,
) -> bool {
    &&& !(req.iana is Some && s.na_config is Some) ==> f.same_na(&s)
    &&& req.iana is Some && s.na_config is Some && s.na_offered.view().contains_key(duid) ==> {
        &&& f.na_allocated_suffixes@ == s.na_allocated_suffixes@
        &&& f.na_offered.view() == s.na_offered.view().insert(duid, f.na_offered.view()[duid])
        &&& na_renewed(
            s.na_offered.view()[duid],
            f.na_offered.view()[duid],
            s.na_config.unwrap(),
            now,
        )
    }
    &&& !s.na_offered.view().contains_key(duid) && f.na_offered.view().contains_key(duid)
        ==> f.na_offered.view()[duid].relative_offer_time == now
    &&& req.iana is Some && s.na_config is Some && !s.na_offered.view().contains_key(duid)
        ==> exists|m: DHCPv6Server, o: Option<u64>|
        {
            &&& m.same_setup(&s)
            &&& na_offer_made(s, m, now, duid, mac, None, o)
            &&& m.na_offered.view().contains_key(duid) ==> na_settled(m, f, duid, now)
            &&& !m.na_offered.view().contains_key(duid) && na_qualifies ==> exists|o2: Option<u64>|
                na_offer_made(m, f, now, duid, mac, None, o2)
            &&& !m.na_offered.view().contains_key(duid) && !na_qualifies ==> f.same_na(&m)
        }
    &&& !(req.iapd is Some && s.pd_config is Some) ==> f.same_pd(&s)
    &&& req.iapd is Some && s.pd_config is Some && s.pd_offered.view().contains_key(duid) ==> {
        let c0 = s.pd_offered.view()[duid];
        let c = f.pd_offered.view()[duid];
        &&& f.pd_allocated_indices@ == s.pd_allocated_indices@
        &&& f.pd_offered.view() == s.pd_offered.view().insert(duid, c)
        &&& pd_renewed(c0, c, s.pd_config.unwrap(), now)
        &&& routes is None ==> c.client_addr == c0.client_addr && c.active_routes == c0.active_routes
    }
    &&& !s.pd_offered.view().contains_key(duid) && f.pd_offered.view().contains_key(duid)
        ==> f.pd_offered.view()[duid].relative_offer_time == now
    &&& req.iapd is Some && s.pd_config is Some && !s.pd_offered.view().contains_key(duid)
        ==> exists|m: DHCPv6Server, o: Option<u32>|
        {
            &&& m.same_setup(&s)
            &&& pd_offer_made(s, m, now, duid, o)
            &&& m.pd_offered.view().contains_key(duid) ==> {
                let c0 = m.pd_offered.view()[duid];
                let c = f.pd_offered.view()[duid];
                &&& f.pd_allocated_indices@ == m.pd_allocated_indices@
                &&& f.pd_offered.view() == m.pd_offered.view().insert(duid, c)
                &&& pd_renewed(c0, c, m.pd_config.unwrap(), now)
                &&& routes is None ==> c.client_addr == c0.client_addr && c.active_routes
                    == c0.active_routes
            }
            &&& !m.pd_offered.view().contains_key(duid) && pd_qualifies ==> exists|
                g: DHCPv6Server,
                o2: Option<u32>,
            | pd_offer_made(m, g, now, duid, o2) && pd_routed(g, f, duid)
            &&& !m.pd_offered.view().contains_key(duid) && !pd_qualifies ==> f.same_pd(&m)
        }
}

/// The REPLY `r` and the route change `routes` answer the REQUEST, RENEW
/// or REBIND `req` of the client `duid`, and the leases went from `s` to
/// `f` as `request_state_ok` says: the reply lists, for each IA the client
/// asks for and the server serves, its lease (or that none can be had),
/// and the DNS servers; the routes of a delegation move to the client's
/// address.
pub open spec fn request_answered(
    s: DHCPv6Server,
    f: DHCPv6Server,
    now: u64,
    mac: Option<MacAddr>,
    req: Dhcpv6Request,
    duid: Seq<u8>,
    server_duid: Seq<u8>,
    runtime_sources: Seq<Option<ICMPv6ConfigInfo>>,
    static_infos: Seq<ICMPv6ConfigInfo>,
    pd_delegation_static: Seq<PdDelegationParent>,
    pd_delegation_dynamic: Seq<Option<PdDelegationParent>>,
    link_local: u128,
    r: Dhcpv6Reply,
    routes: Option<PdRouteUpdate>,
) -> bool {
    let na = f.qualifying_na(runtime_sources, static_infos);
    let pd = f.qualifying_pd(pd_delegation_static, pd_delegation_dynamic);
    &&& request_state_ok(s, f, req, duid, mac, now, na.len() > 0, pd.len() > 0, routes)
    &&& reply_heads(r, DhcpV6MessageType::Reply, req, duid, server_duid)
    &&& r.preference is None
    &&& r.status is None
    &&& r.dns matches Some(d) && d@ == spec_dns_servers(runtime_sources, static_infos, link_local)
    &&& match r.iana {
        Some(ia) => req.iana is Some && f.na_config is Some && na_reply_for(
            f,
            duid,
            na,
            req.iana.unwrap().id,
            req.iana.unwrap().addrs@,
            renewing(req.msg_type),
            ia,
        ),
        None => !(req.iana is Some && f.na_config is Some),
    }
    &&& match r.iapd {
        Some(ia) => req.iapd is Some && f.pd_config is Some && pd_reply_for(
            f,
            duid,
            pd,
            req.iapd.unwrap().id,
            req.iapd.unwrap().prefixes@,
            renewing(req.msg_type),
            ia,
        ),
        None => !(req.iapd is Some && f.pd_config is Some),
    }
    &&& match routes {
        Some(u) => req.iapd is Some && f.pd_config is Some && pd.len() > 0 && pd_route_update_is(
            f,
            duid,
            pd,
            req.peer_addr,
            routes_before(s, duid),
            u,
        ),
        None => !(req.iapd is Some && f.pd_config is Some && pd.len() > 0
            && f.pd_offered.view().contains_key(duid)),
    }
}

/// The REPLY to a REQUEST, RENEW or REBIND, and the route change of the
/// client's delegation.
fn answer_request(
    server: &mut DHCPv6Server,
    now: u64,
    server_duid: &[u8],
    req: &Dhcpv6Request,
    client_duid: &Vec<u8>,
    mac: Option<MacAddr>,
    runtime_sources: &[Option<ICMPv6ConfigInfo>],
    static_infos: &[ICMPv6ConfigInfo],
    pd_delegation_static: &[PdDelegationParent],
    pd_delegation_dynamic: &[Option<PdDelegationParent>],
    link_local: u128,
) -> (r: (Dhcpv6Reply, Option<PdRouteUpdate>))
    requires
        old(server).wf(),
        ia_inputs_ok(
            *old(server),
            *req,
            runtime_sources@,
            static_infos@,
            pd_delegation_static@,
            pd_delegation_dynamic@,
        ),
    ensures
        final(server).wf(),
        final(server).same_setup(old(server)),
        request_answered(
            *old(server),
            *final(server),
            now,
            mac,
            *req,
            client_duid@,
            server_duid@,
            runtime_sources@,
            static_infos@,
            pd_delegation_static@,
            pd_delegation_dynamic@,
            link_local,
            r.0,
            r.1,
        ),
{
    let renew = match req.msg_type {
        DhcpV6MessageType::Renew => true,
        DhcpV6MessageType::Rebind => true,
        _ => false,
    };
    let duid = client_duid.as_slice();
    if server.na_config.is_some() && req.iana.is_some() {
        settle_na(server, now, duid, mac);
    }
    let ghost s1 = *server;
    let ghost mut m_na = s1;
    let ghost mut o_na: Option<u64> = None;
    proof {
        let s0 = *old(server);
        if req.iana is Some && s0.na_config is Some && !s0.na_offered.view().contains_key(duid@) {
            let (m, o) = choose|m: DHCPv6Server, o: Option<u64>|
                m.same_setup(&s0) && na_offer_made(s0, m, now, duid@, mac, None, o) && na_settled(
                    m,
                    s1,
                    duid@,
                    now,
                );
            m_na = m;
            o_na = o;
        }
    }
    if server.pd_config.is_some() && req.iapd.is_some() {
        settle_pd(server, now, duid);
    }
    let ghost s2 = *server;
    let ghost mut m_pd = s2;
    let ghost mut o_pd: Option<u32> = None;
    proof {
        let s0 = *old(server);
        if req.iapd is Some && s0.pd_config is Some && !s0.pd_offered.view().contains_key(duid@) {
            let (m, o) = choose|m: DHCPv6Server, o: Option<u32>|
                m.same_setup(&s1) && pd_offer_made(s1, m, now, duid@, o) && pd_settled(
                    m,
                    s2,
                    duid@,
                    now,
                );
            lemma_pd_offer_from_same_pd(s0, s1, m, now, duid@, o);
            m_pd = m;
            o_pd = o;
        }
    }
    let mut reply = base_reply(DhcpV6MessageType::Reply, req.xid, client_duid, server_duid);
    if let Some(ia) = &req.iana {
        if server.na_config.is_some() {
            reply.iana = Some(
                request_iana(server, now, ia, renew, duid, mac, runtime_sources, static_infos),
            );
        }
    }
    let ghost s3 = *server;
    let ghost mut o2_na: Option<u64> = None;
    proof {
        let s0 = *old(server);
        if req.iana is Some && s0.na_config is Some && !s0.na_offered.view().contains_key(duid@)
            && !m_na.na_offered.view().contains_key(duid@) && s2.qualifying_na(
            runtime_sources@,
            static_infos@,
        ).len() > 0 {
            let o2 = choose|o2: Option<u64>|
                na_offer_made(s2, s3, now, duid@, mac, None, o2);
            lemma_na_offer_from_same_na(m_na, s2, s3, now, duid@, mac, o2);
            o2_na = o2;
        }
    }
    let mut routes: Option<PdRouteUpdate> = None;
    if let Some(ia) = &req.iapd {
        if server.pd_config.is_some() {
            let (iapd, update) = request_iapd(
                server,
                now,
                ia,
                renew,
                duid,
                req.peer_addr,
                pd_delegation_static,
                pd_delegation_dynamic,
            );
            reply.iapd = Some(iapd);
            routes = update;
        }
    }
    proof {
        let s0 = *old(server);
        let f = *server;
        if req.iapd is Some && s0.pd_config is Some && !s0.pd_offered.view().contains_key(duid@) {
            let pd_q = f.qualifying_pd(pd_delegation_static@, pd_delegation_dynamic@).len() > 0;
            if !m_pd.pd_offered.view().contains_key(duid@) && pd_q {
                let (g, o2) = choose|g: DHCPv6Server, o2: Option<u32>|
                    pd_offer_made(s3, g, now, duid@, o2) && pd_routed(g, f, duid@);
                lemma_pd_offer_from_same_pd(m_pd, s3, g, now, duid@, o2);
            }
            assert({
                &&& m_pd.same_setup(&s0)
                &&& pd_offer_made(s0, m_pd, now, duid@, o_pd)
                &&& m_pd.pd_offered.view().contains_key(duid@) ==> {
                    let c0 = m_pd.pd_offered.view()[duid@];
                    let c = f.pd_offered.view()[duid@];
                    &&& f.pd_allocated_indices@ == m_pd.pd_allocated_indices@
                    &&& f.pd_offered.view() == m_pd.pd_offered.view().insert(duid@, c)
                    &&& pd_renewed(c0, c, m_pd.pd_config.unwrap(), now)
                    &&& routes is None ==> c.client_addr == c0.client_addr && c.active_routes
                        == c0.active_routes
                }
                &&& !m_pd.pd_offered.view().contains_key(duid@) && pd_q ==> exists|
                    g: DHCPv6Server,
                    o2: Option<u32>,
                | pd_offer_made(m_pd, g, now, duid@, o2) && pd_routed(g, f, duid@)
                &&& !m_pd.pd_offered.view().contains_key(duid@) && !pd_q ==> f.same_pd(&m_pd)
            });
        }
        if req.iana is Some && s0.na_config is Some && !s0.na_offered.view().contains_key(duid@) {
            let na_q = f.qualifying_na(runtime_sources@, static_infos@).len() > 0;
            if !m_na.na_offered.view().contains_key(duid@) && na_q {
                lemma_na_offer_keeps(m_na, s3, f, now, duid@, mac, o2_na);
            }
            assert({
                &&& m_na.same_setup(&s0)
                &&& na_offer_made(s0, m_na, now, duid@, mac, None, o_na)
                &&& m_na.na_offered.view().contains_key(duid@) ==> na_settled(m_na, f, duid@, now)
                &&& !m_na.na_offered.view().contains_key(duid@) && na_q ==> exists|o2: Option<u64>|
                    na_offer_made(m_na, f, now, duid@, mac, None, o2)
                &&& !m_na.na_offered.view().contains_key(duid@) && !na_q ==> f.same_na(&m_na)
            });
        }
        assert(routes_before(s3, duid@) == routes_before(s0, duid@)) by {
            if !s0.pd_offered.view().contains_key(duid@) && s3.pd_offered.view().contains_key(duid@) {
                assert(s3.pd_offered.view()[duid@].active_routes@ =~= Seq::empty());
            }
        }
        let r = *req;
        let d = duid@;
        assert(!(r.iana is Some && s0.na_config is Some) ==> f.same_na(&s0));
        assert(r.iana is Some && s0.na_config is Some && s0.na_offered.view().contains_key(d) ==> {
            &&& f.na_allocated_suffixes@ == s0.na_allocated_suffixes@
            &&& f.na_offered.view() == s0.na_offered.view().insert(d, f.na_offered.view()[d])
        });
        assert(r.iana is Some && s0.na_config is Some && s0.na_offered.view().contains_key(d) ==>
            na_renewed(s0.na_offered.view()[d], f.na_offered.view()[d], s0.na_config.unwrap(), now));
        assert(!s0.na_offered.view().contains_key(d) && f.na_offered.view().contains_key(d)
            ==> f.na_offered.view()[d].relative_offer_time == now);
        assert(!(r.iapd is Some && s0.pd_config is Some) ==> f.same_pd(&s0));
        assert(r.iapd is Some && s0.pd_config is Some && s0.pd_offered.view().contains_key(d) ==> {
            let c0 = s0.pd_offered.view()[d];
            let c = f.pd_offered.view()[d];
            &&& f.pd_allocated_indices@ == s0.pd_allocated_indices@
            &&& f.pd_offered.view() == s0.pd_offered.view().insert(d, c)
            &&& pd_renewed(c0, c, s0.pd_config.unwrap(), now)
            &&& routes is None ==> c.client_addr == c0.client_addr && c.active_routes == c0.active_routes
        });
        assert(!s0.pd_offered.view().contains_key(d) && f.pd_offered.view().contains_key(d)
            ==> f.pd_offered.view()[d].relative_offer_time == now);
    }
    reply.dns = Some(collect_dns_servers(runtime_sources, static_infos, link_local));
    (reply, routes)
}

/// The message carries this server's DUID as its server id.
pub open spec fn server_id_is(req: Dhcpv6Request, server_duid: Seq<u8>) -> bool {
    req.server_id matches Some(sid) && sid@ == server_duid
}

/// The server neither answers nor changes anything.
pub open spec fn nothing_done(r: Dhcpv6Outcome) -> bool {
    &&& r.reply is None
    &&& !r.need_update
    &&& r.pd_routes is None
    &&& r.released_pd is None
}

/// Neither pool changed.
pub open spec fn untouched(s: DHCPv6Server, f: DHCPv6Server) -> bool {
    f.same_na(&s) && f.same_pd(&s)
}

/// The client's IA_NA lease is gone; a dynamic one freed its suffix.
pub open spec fn na_released(s: DHCPv6Server, f: DHCPv6Server, duid: Seq<u8>) -> bool {
    &&& f.na_offered.view() == s.na_offered.view().remove(duid)
    &&& f.na_allocated_suffixes@ == if s.na_offered.view().contains_key(duid)
        && !s.na_offered.view()[duid].is_static {
        s.na_allocated_suffixes@.remove(s.na_offered.view()[duid].suffix)
    } else {
        s.na_allocated_suffixes@
    }
}

/// The client's IA_PD lease is gone, its index freed, and handed back as
/// `released`.
pub open spec fn pd_released(
    s: DHCPv6Server,
    f: DHCPv6Server,
    duid: Seq<u8>,
    released: Option<DHCPv6PDCache>,
) -> bool {
    &&& f.pd_offered.view() == s.pd_offered.view().remove(duid)
    &&& match released {
        Some(c) => s.pd_offered.view().contains_key(duid) && c == s.pd_offered.view()[duid]
            && f.pd_allocated_indices@ == s.pd_allocated_indices@.remove(c.sub_index),
        None => !s.pd_offered.view().contains_key(duid) && f.pd_allocated_indices@
            == s.pd_allocated_indices@,
    }
}

/// A REPLY that carries only the heads and, maybe, a status.
pub open spec fn bare_reply(r: Dhcpv6Reply, req: Dhcpv6Request, duid: Seq<u8>, server_duid: Seq<u8>) -> bool {
    &&& reply_heads(r, DhcpV6MessageType::Reply, req, duid, server_duid)
    &&& r.preference is None
    &&& r.iana is None
    &&& r.iapd is None
}

/// A bare REPLY with status `status` and message `msg`.
pub open spec fn status_reply(
    r: Dhcpv6Reply,
    req: Dhcpv6Request,
    duid: Seq<u8>,
    server_duid: Seq<u8>,
    status: Dhcpv6Status,
    msg: Seq<char>,
) -> bool {
    &&& bare_reply(r, req, duid, server_duid)
    &&& r.dns is None
    &&& r.status matches Some(st) && st.status == status && st.msg@ == msg
}

/// A bare REPLY with the DNS servers `dns`.
pub open spec fn dns_reply(
    r: Dhcpv6Reply,
    req: Dhcpv6Request,
    duid: Seq<u8>,
    server_duid: Seq<u8>,
    dns: Seq<u128>,
) -> bool {
    &&& bare_reply(r, req, duid, server_duid)
    &&& r.status is None
    &&& r.dns matches Some(d) && d@ == dns
}

/// The addresses the client lists in its IA_NA.
pub open spec fn listed_addrs(req: Dhcpv6Request) -> Seq<u128> {
    match req.iana {
        Some(ia) => ia.addrs@,
        None => Seq::empty(),
    }
}

/// What the server does with the message `req` at time `now`, from lease
/// state `s` to `f`:
/// - without a client id, nothing;
/// - SOLICIT: an ADVERTISE (see `solicit_answered`);
/// - REQUEST and RENEW addressed to another server: nothing; else, and for
///   REBIND, a REPLY and route change (see `request_answered`);
/// - a SOLICIT, REQUEST, RENEW or REBIND whose IA options could not be
///   built without an overflow (see `ia_inputs_ok`): nothing;
/// - RELEASE addressed to this server: both leases released and a REPLY
///   with a success status; else nothing;
/// - DECLINE: the IA_NA lease released, no reply;
/// - CONFIRM: a REPLY whose status says whether every listed address lies
///   on a qualifying prefix (nothing where addresses are listed and a
///   qualifying prefix has no length, which would overflow the mask);
/// - INFORMATION-REQUEST: a REPLY with the DNS servers;
/// - anything else: nothing.
/// The status page is to be refreshed after SOLICIT, REQUEST, RENEW,
/// REBIND, RELEASE and DECLINE that were served.
pub open spec fn dhcpv6_outcome_ok(
    s: DHCPv6Server,
    f: DHCPv6Server,
    now: u64,
    server_duid: Seq<u8>,
    req: Dhcpv6Request,
    runtime_sources: Seq<Option<ICMPv6ConfigInfo>>,
    static_infos: Seq<ICMPv6ConfigInfo>,
    pd_delegation_static: Seq<PdDelegationParent>,
    pd_delegation_dynamic: Seq<Option<PdDelegationParent>>,
    link_local: u128,
    r: Dhcpv6Outcome,
) -> bool {
    match req.client_id {
        None => nothing_done(r) && untouched(s, f),
        Some(cid) => {
            let duid = cid@;
            match req.msg_type {
                DhcpV6MessageType::Solicit => if !ia_inputs_ok(
                    s,
                    req,
                    runtime_sources,
                    static_infos,
                    pd_delegation_static,
                    pd_delegation_dynamic,
                ) {
                    nothing_done(r) && untouched(s, f)
                } else {
                    &&& r.need_update
                    &&& r.pd_routes is None
                    &&& r.released_pd is None
                    &&& r.reply matches Some(rep) && solicit_answered(
                        s,
                        f,
                        now,
                        spec_mac_from_duid(duid),
                        req,
                        duid,
                        server_duid,
                        runtime_sources,
                        static_infos,
                        pd_delegation_static,
                        pd_delegation_dynamic,
                        link_local,
                        rep,
                    )
                },
                DhcpV6MessageType::Request | DhcpV6MessageType::Renew
                | DhcpV6MessageType::Rebind => if req.msg_type != DhcpV6MessageType::Rebind
                    && !server_id_is(req, server_duid) || !ia_inputs_ok(
                    s,
                    req,
                    runtime_sources,
                    static_infos,
                    pd_delegation_static,
                    pd_delegation_dynamic,
                ) {
                    nothing_done(r) && untouched(s, f)
                } else {
                    &&& r.need_update
                    &&& r.released_pd is None
                    &&& r.reply matches Some(rep) && request_answered(
                        s,
                        f,
                        now,
                        spec_mac_from_duid(duid),
                        req,
                        duid,
                        server_duid,
                        runtime_sources,
                        static_infos,
                        pd_delegation_static,
                        pd_delegation_dynamic,
                        link_local,
                        rep,
                        r.pd_routes,
                    )
                },
                DhcpV6MessageType::Release => if !server_id_is(req, server_duid) {
                    nothing_done(r) && untouched(s, f)
                } else {
                    &&& r.need_update
                    &&& r.pd_routes is None
                    &&& na_released(s, f, duid)
                    &&& pd_released(s, f, duid, r.released_pd)
                    &&& r.reply matches Some(rep) && status_reply(
                        rep,
                        req,
                        duid,
                        server_duid,
                        Dhcpv6Status::Success,
                        Seq::empty(),
                    )
                },
                DhcpV6MessageType::Decline => {
                    &&& r.reply is None
                    &&& r.need_update
                    &&& r.pd_routes is None
                    &&& r.released_pd is None
                    &&& na_released(s, f, duid)
                    &&& f.same_pd(&s)
                },
                DhcpV6MessageType::Confirm => if req.iana is Some && listed_addrs(req).len() > 0
                    && !lengths_positive(s.qualifying_na(runtime_sources, static_infos)) {
                    nothing_done(r) && untouched(s, f)
                } else {
                    let na = s.qualifying_na(runtime_sources, static_infos);
                    &&& !r.need_update
                    &&& r.pd_routes is None
                    &&& r.released_pd is None
                    &&& untouched(s, f)
                    &&& r.reply matches Some(rep) && if all_on_link(listed_addrs(req), na) {
                        status_reply(rep, req, duid, server_duid, Dhcpv6Status::Success, Seq::empty())
                    } else {
                        status_reply(
                            rep,
                            req,
                            duid,
                            server_duid,
                            Dhcpv6Status::NotOnLink,
                            "Address not appropriate for link"@,
                        )
                    }
                },
                DhcpV6MessageType::InformationRequest => {
                    &&& !r.need_update
                    &&& r.pd_routes is None
                    &&& r.released_pd is None
                    &&& untouched(s, f)
                    &&& r.reply matches Some(rep) && dns_reply(
                        rep,
                        req,
                        duid,
                        server_duid,
                        spec_dns_servers(runtime_sources, static_infos, link_local),
                    )
                },
                _ => nothing_done(r) && untouched(s, f),
            }
        },
    }
}

fn server_id_matches(req: &Dhcpv6Request, server_duid: &[u8]) -> (r: bool)
    ensures
        r == server_id_is(*req, server_duid@),
{
    match &req.server_id {
        Some(sid) => crate::lease_table::bytes_equal(sid.as_slice(), server_duid),
        None => false,
    }
}

fn nothing() -> (r: Dhcpv6Outcome)
    ensures
        nothing_done(r),
{
    Dhcpv6Outcome { reply: None, need_update: false, pd_routes: None, released_pd: None }
}

/// Handles one client message at time `now`: updates the leases and says
/// what to send, whether to refresh the status page, and which routes to
/// change, as `dhcpv6_outcome_ok` states.
pub fn handle_dhcpv6_message_at(
    server: &mut DHCPv6Server,
    now: u64,
    server_duid: &[u8],
    req: &Dhcpv6Request,
    runtime_sources: &[Option<ICMPv6ConfigInfo>],
    static_infos: &[ICMPv6ConfigInfo],
    pd_delegation_static: &[PdDelegationParent],
    pd_delegation_dynamic: &[Option<PdDelegationParent>],
    link_local: u128,
) -> (r: Dhcpv6Outcome)
    requires
        old(server).wf(),
    ensures
        final(server).wf(),
        final(server).same_setup(old(server)),
        dhcpv6_outcome_ok(
            *old(server),
            *final(server),
            now,
            server_duid@,
            *req,
            runtime_sources@,
            static_infos@,
            pd_delegation_static@,
            pd_delegation_dynamic@,
            link_local,
            r,
        ),
{
    let client_duid: &Vec<u8> = match &req.client_id {
        Some(d) => d,
        None => return nothing(),
    };
    let duid = client_duid.as_slice();
    let mac = extract_mac_from_duid(duid);
    match req.msg_type {
        DhcpV6MessageType::Solicit => {
            if !check_ia_inputs(
                server,
                req,
                runtime_sources,
                static_infos,
                pd_delegation_static,
                pd_delegation_dynamic,
            ) {
                return nothing();
            }
            let reply = answer_solicit(
                server,
                now,
                server_duid,
                req,
                client_duid,
                mac,
                runtime_sources,
                static_infos,
                pd_delegation_static,
                pd_delegation_dynamic,
                link_local,
            );
            Dhcpv6Outcome { reply: Some(reply), need_update: true, pd_routes: None, released_pd: None }
        },
        DhcpV6MessageType::Request | DhcpV6MessageType::Renew | DhcpV6MessageType::Rebind => {
            let rebind = match req.msg_type {
                DhcpV6MessageType::Rebind => true,
                _ => false,
            };
            if !rebind && !server_id_matches(req, server_duid) {
                return nothing();
            }
            if !check_ia_inputs(
                server,
                req,
                runtime_sources,
                static_infos,
                pd_delegation_static,
                pd_delegation_dynamic,
            ) {
                return nothing();
            }
            let (reply, routes) = answer_request(
                server,
                now,
                server_duid,
                req,
                client_duid,
                mac,
                runtime_sources,
                static_infos,
                pd_delegation_static,
                pd_delegation_dynamic,
                link_local,
            );
            Dhcpv6Outcome { reply: Some(reply), need_update: true, pd_routes: routes, released_pd: None }
        },
        DhcpV6MessageType::Release => {
            if !server_id_matches(req, server_duid) {
                return nothing();
            }
            server.release_na(duid);
            let released = server.release_pd(duid);
            let mut reply = base_reply(DhcpV6MessageType::Reply, req.xid, client_duid, server_duid);
            reply.status = Some(StatusNote { status: Dhcpv6Status::Success, msg: String::new() });
            Dhcpv6Outcome {
                reply: Some(reply),
                need_update: true,
                pd_routes: None,
                released_pd: released,
            }
        },
        DhcpV6MessageType::Decline => {
            server.release_na(duid);
            Dhcpv6Outcome { reply: None, need_update: true, pd_routes: None, released_pd: None }
        },
        DhcpV6MessageType::Confirm => {
            let na_prefixes = server.get_qualifying_na_prefixes(runtime_sources, static_infos);
            if let Some(ia) = &req.iana {
                if ia.addrs.len() > 0 && !all_lengths_positive(&na_prefixes) {
                    return nothing();
                }
            }
            let on_link = match &req.iana {
                Some(ia) => all_addrs_on_link(&ia.addrs, &na_prefixes),
                None => true,
            };
            let status = if on_link {
                StatusNote { status: Dhcpv6Status::Success, msg: String::new() }
            } else {
                StatusNote {
                    status: Dhcpv6Status::NotOnLink,
                    msg: String::from_str("Address not appropriate for link"),
                }
            };
            let mut reply = base_reply(DhcpV6MessageType::Reply, req.xid, client_duid, server_duid);
            reply.status = Some(status);
            Dhcpv6Outcome { reply: Some(reply), need_update: false, pd_routes: None, released_pd: None }
        },
        DhcpV6MessageType::InformationRequest => {
            let mut reply = base_reply(DhcpV6MessageType::Reply, req.xid, client_duid, server_duid);
            reply.dns = Some(collect_dns_servers(runtime_sources, static_infos, link_local));
            Dhcpv6Outcome { reply: Some(reply), need_update: false, pd_routes: None, released_pd: None }
        },
        _ => nothing(),
    }
}

/// Handles one client message by the server's clock; what happens is what
/// `handle_dhcpv6_message_at` does at the time the clock gave.
pub fn handle_dhcpv6_message(
    server: &mut DHCPv6Server,
    server_duid: &[u8],
    req: &Dhcpv6Request,
    runtime_sources: &[Option<ICMPv6ConfigInfo>],
    static_infos: &[ICMPv6ConfigInfo],
    pd_delegation_static: &[PdDelegationParent],
    pd_delegation_dynamic: &[Option<PdDelegationParent>],
    link_local: u128,
) -> (r: Dhcpv6Outcome)
    requires
        old(server).wf(),
    ensures
        final(server).wf(),
        final(server).same_setup(old(server)),
        exists|now: u64|
            dhcpv6_outcome_ok(
                *old(server),
                *final(server),
                now,
                server_duid@,
                *req,
                runtime_sources@,
                static_infos@,
                pd_delegation_static@,
                pd_delegation_dynamic@,
                link_local,
                r,
            ),
{
    let now = crate::clock::elapsed_secs(&server.relative_boot_time);
    handle_dhcpv6_message_at(
        server,
        now,
        server_duid,
        req,
        runtime_sources,
        static_infos,
        pd_delegation_static,
        pd_delegation_dynamic,
        link_local,
    )
}

} // verus!
