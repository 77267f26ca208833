//! IPv6 prefix information shared by router advertisement and DHCPv6, and
//! the carving of a delegated prefix into subnets. Addresses are 128-bit
//! numbers.
use vstd::prelude::*;

use crate::duid::prefix_mask;

verus! {

/// A prefix that a LAN link advertises: the prefix it came from, the subnet
/// of the link and the router address in it, with their lifetimes.
#[derive(Clone, Copy, Debug, PartialEq, Eq, Structural)]
pub struct ICMPv6ConfigInfo {
    pub rt_prefix: u128,
    pub rt_prefix_len: u8,
    pub sub_router: u128,
    pub sub_prefix: u128,
    pub sub_prefix_len: u8,
    pub ra_preferred_lifetime: u32,
    pub ra_valid_lifetime: u32,
}

/// A parent block out of which prefixes are delegated to clients.
#[derive(Clone, Copy, Debug, PartialEq, Eq, Structural)]
pub struct PdDelegationParent {
    pub prefix: u128,
    pub prefix_len: u8,
}

/// The number of subnets of length `sub_prefix_len` in a prefix of length
/// `pd_prefix_len`.
pub open spec fn subnet_count(pd_prefix_len: u8, sub_prefix_len: u8) -> u128 {
    1u128 << ((sub_prefix_len - pd_prefix_len) as u128)
}

/// The network of subnet `subnet_index` of the delegated prefix: the
/// prefix's network with the index written into the bits between the two
/// lengths.
pub open spec fn subnet_network(
    pd_ip: u128,
    pd_prefix_len: u8,
    sub_prefix_len: u8,
    subnet_index: u128,
) -> int {
    ((pd_ip & prefix_mask(pd_prefix_len)) & prefix_mask(sub_prefix_len)) + (subnet_index << ((128
        - sub_prefix_len) as u128))
}

/// Carves subnet `subnet_index` of length `sub_prefix_len` out of the
/// delegated prefix `pd_ip/pd_prefix_len`, and answers its network address
/// and its router address, the one after it.
pub fn allocate_subnet(pd_ip: u128, pd_prefix_len: u8, sub_prefix_len: u8, subnet_index: u128) -> (r: (
    u128,
    u128,
))
    requires
        0 < pd_prefix_len <= sub_prefix_len <= 128,
        subnet_index < subnet_count(pd_prefix_len, sub_prefix_len),
        subnet_network(pd_ip, pd_prefix_len, sub_prefix_len, subnet_index) + 1 <= u128::MAX,
    ensures
        r.0 == subnet_network(pd_ip, pd_prefix_len, sub_prefix_len, subnet_index),
        r.1 == r.0 + 1,
{
    let max_subnets: u128 = 1u128 << ((sub_prefix_len - pd_prefix_len) as u128);
    assert(subnet_index < max_subnets);
    let parent_mask: u128 = (!0u128) << ((128 - pd_prefix_len) as u128);
    let parent_network = pd_ip & parent_mask;
    let sub_mask: u128 = (!0u128) << ((128 - sub_prefix_len) as u128);
    assert(sub_mask == prefix_mask(sub_prefix_len)) by {
        assert((!0u128) << 0u128 == !0u128) by (bit_vector);
    }
    let base_network = parent_network & sub_mask;
    assert(parent_mask == prefix_mask(pd_prefix_len)) by {
        assert((!0u128) << 0u128 == !0u128) by (bit_vector);
    }
    let offset = subnet_index << ((128 - sub_prefix_len) as u128);
    let subnet_network = base_network + offset;
    (subnet_network, subnet_network + 1)
}

/// Which service a prefix source feeds.
#[derive(Clone, Copy, Debug, PartialEq, Eq, Structural)]
pub enum SourceServiceKind {
    /// Router advertisement.
    Ra,
    /// DHCPv6 addresses (IA_NA).
    Na,
    /// DHCPv6 prefix delegation (IA_PD).
    Pd,
}

/// Where a LAN link takes an IPv6 prefix from.
#[derive(Clone, Debug)]
pub enum LanIPv6SourceConfig {
    RaStatic { base_prefix: u128, pool_index: u32, preferred_lifetime: u32, valid_lifetime: u32 },
    NaStatic { base_prefix: u128, pool_index: u32 },
    RaPd { depend_iface: String, pool_index: u32, preferred_lifetime: u32, valid_lifetime: u32 },
    NaPd { depend_iface: String, pool_index: u32 },
    PdStatic { base_prefix: u128, base_prefix_len: u8, pool_index: u32, pool_len: u8 },
    PdPd { depend_iface: String, max_source_prefix_len: u8, pool_index: u32, pool_len: u8 },
}

impl LanIPv6SourceConfig {
    pub open spec fn spec_kind(&self) -> SourceServiceKind {
        match self {
            LanIPv6SourceConfig::RaStatic { .. } | LanIPv6SourceConfig::RaPd { .. } => SourceServiceKind::Ra,
            LanIPv6SourceConfig::NaStatic { .. } | LanIPv6SourceConfig::NaPd { .. } => SourceServiceKind::Na,
            _ => SourceServiceKind::Pd,
        }
    }

    /// The service the source feeds.
    pub fn service_kind(&self) -> (r: SourceServiceKind)
        ensures
            r == self.spec_kind(),
    {
        match self {
            LanIPv6SourceConfig::RaStatic { .. } | LanIPv6SourceConfig::RaPd { .. } => SourceServiceKind::Ra,
            LanIPv6SourceConfig::NaStatic { .. } | LanIPv6SourceConfig::NaPd { .. } => SourceServiceKind::Na,
            _ => SourceServiceKind::Pd,
        }
    }
}

/// The length of the prefix a static source is carved out of.
pub const STATIC_RT_PREFIX_LEN: u8 = 56;

/// The length of the subnet a LAN link gets.
pub const LAN_SUB_PREFIX_LEN: u8 = 64;

/// The prefix of a link that takes subnet `pool_index` of a prefix: the
/// subnet, its router address (the one after it), and the lifetimes it is
/// advertised with.
pub open spec fn subnet_info(
    rt_prefix: u128,
    rt_prefix_len: u8,
    sub_prefix_len: u8,
    pool_index: u32,
    preferred: u32,
    valid: u32,
) -> ICMPv6ConfigInfo {
    let net = subnet_network(rt_prefix, rt_prefix_len, sub_prefix_len, pool_index as u128);
    ICMPv6ConfigInfo {
        rt_prefix,
        rt_prefix_len,
        sub_router: (net + 1) as u128,
        sub_prefix: net as u128,
        sub_prefix_len,
        ra_preferred_lifetime: preferred,
        ra_valid_lifetime: valid,
    }
}

/// Below a subnet length of 128, the router address of any subnet of the
/// prefix fits in 128 bits.
pub proof fn lemma_subnet_router_fits(pd_ip: u128, pd_prefix_len: u8, sub_prefix_len: u8, subnet_index: u128)
    requires
        0 < pd_prefix_len <= sub_prefix_len < 128,
        subnet_index < subnet_count(pd_prefix_len, sub_prefix_len),
    ensures
        subnet_network(pd_ip, pd_prefix_len, sub_prefix_len, subnet_index) + 1 <= u128::MAX,
{
    let p: u128 = (128 - pd_prefix_len) as u128;
    let q: u128 = (128 - sub_prefix_len) as u128;
    let d: u128 = (sub_prefix_len - pd_prefix_len) as u128;
    let m = prefix_mask(pd_prefix_len);
    let sm = prefix_mask(sub_prefix_len);
    let base = (pd_ip & m) & sm;
    let i = subnet_index;
    assert(subnet_count(pd_prefix_len, sub_prefix_len) == 1u128 << d);
    assert((i << q) < (1u128 << p)) by (bit_vector)
        requires
            i < (1u128 << d),
            d + q == p,
            1 <= q <= p <= 127,
    ;
    assert(base + (i << q) + 1 <= u128::MAX) by (bit_vector)
        requires
            base == (pd_ip & ((!0u128) << p)) & ((!0u128) << q),
            (i << q) < (1u128 << p),
            1 <= q <= p <= 127,
    ;
}

fn subnet_config_info(
    rt_prefix: u128,
    rt_prefix_len: u8,
    sub_prefix_len: u8,
    pool_index: u32,
    preferred: u32,
    valid: u32,
) -> (r: ICMPv6ConfigInfo)
    requires
        0 < rt_prefix_len <= sub_prefix_len < 128,
        pool_index < subnet_count(rt_prefix_len, sub_prefix_len),
    ensures
        r == subnet_info(rt_prefix, rt_prefix_len, sub_prefix_len, pool_index, preferred, valid),
{
    proof {
        lemma_subnet_router_fits(rt_prefix, rt_prefix_len, sub_prefix_len, pool_index as u128);
    }
    let (sub_prefix, sub_router) = allocate_subnet(
        rt_prefix,
        rt_prefix_len,
        sub_prefix_len,
        pool_index as u128,
    );
    ICMPv6ConfigInfo {
        rt_prefix,
        rt_prefix_len,
        sub_router,
        sub_prefix,
        sub_prefix_len,
        ra_preferred_lifetime: preferred,
        ra_valid_lifetime: valid,
    }
}

/// The /64 of a static source: subnet `pool_index` of the /56 of
/// `base_prefix`.
pub fn static_source_info(base_prefix: u128, pool_index: u32, preferred: u32, valid: u32) -> (r: ICMPv6ConfigInfo)
    requires
        pool_index < 256,
    ensures
        r == subnet_info(base_prefix, STATIC_RT_PREFIX_LEN, LAN_SUB_PREFIX_LEN, pool_index, preferred, valid),
{
    assert((1u128 << 8u128) == 256u128) by (bit_vector);
    assert(subnet_count(STATIC_RT_PREFIX_LEN, LAN_SUB_PREFIX_LEN) == 256);
    subnet_config_info(base_prefix, STATIC_RT_PREFIX_LEN, LAN_SUB_PREFIX_LEN, pool_index, preferred, valid)
}

/// The /64 that a link takes out of a delegated prefix: subnet
/// `pool_index` of `prefix_ip/prefix_len`.
pub fn pd_source_info(
    prefix_ip: u128,
    prefix_len: u8,
    pool_index: u32,
    preferred: u32,
    valid: u32,
) -> (r: ICMPv6ConfigInfo)
    requires
        0 < prefix_len <= LAN_SUB_PREFIX_LEN,
        pool_index < subnet_count(prefix_len, LAN_SUB_PREFIX_LEN),
    ensures
        r == subnet_info(prefix_ip, prefix_len, LAN_SUB_PREFIX_LEN, pool_index, preferred, valid),
{
    subnet_config_info(prefix_ip, prefix_len, LAN_SUB_PREFIX_LEN, pool_index, preferred, valid)
}

/// The block of length `pool_len` that the server delegates out of: block
/// `pool_index` of `prefix/prefix_len`.
pub open spec fn spec_delegation_parent(prefix: u128, prefix_len: u8, pool_index: u32, pool_len: u8) -> PdDelegationParent {
    PdDelegationParent {
        prefix: subnet_network(prefix, prefix_len, pool_len, pool_index as u128) as u128,
        prefix_len: pool_len,
    }
}

/// The carving of a delegation block is defined: the lengths are in order
/// and the block exists.
pub open spec fn delegation_parent_ok(prefix: u128, prefix_len: u8, pool_index: u32, pool_len: u8) -> bool {
    &&& 0 < prefix_len <= pool_len <= 128
    &&& pool_index < subnet_count(prefix_len, pool_len)
    &&& subnet_network(prefix, prefix_len, pool_len, pool_index as u128) + 1 <= u128::MAX
}

/// The block a static delegation source gives.
pub fn delegation_parent(prefix: u128, prefix_len: u8, pool_index: u32, pool_len: u8) -> (r: PdDelegationParent)
    requires
        delegation_parent_ok(prefix, prefix_len, pool_index, pool_len),
    ensures
        r == spec_delegation_parent(prefix, prefix_len, pool_index, pool_len),
{
    let (sub_block, _) = allocate_subnet(prefix, prefix_len, pool_len, pool_index as u128);
    PdDelegationParent { prefix: sub_block, prefix_len: pool_len }
}

/// The block a delegation source that follows an upstream prefix gives:
/// none while the upstream prefix is longer than `max_source_prefix_len`.
pub fn watched_delegation_parent(
    upstream_prefix: u128,
    upstream_prefix_len: u8,
    max_source_prefix_len: u8,
    pool_index: u32,
    pool_len: u8,
) -> (r: Option<PdDelegationParent>)
    requires
        upstream_prefix_len <= max_source_prefix_len ==> delegation_parent_ok(
            upstream_prefix,
            upstream_prefix_len,
            pool_index,
            pool_len,
        ),
    ensures
        r == if upstream_prefix_len <= max_source_prefix_len {
            Some(spec_delegation_parent(upstream_prefix, upstream_prefix_len, pool_index, pool_len))
        } else {
            None
        },
{
    if upstream_prefix_len <= max_source_prefix_len {
        Some(delegation_parent(upstream_prefix, upstream_prefix_len, pool_index, pool_len))
    } else {
        None
    }
}

/// A source whose prefix follows the delegation received on another
/// interface: the link's /64 is carved out of it as it comes.
#[derive(Clone, Debug)]
pub struct PdPrefixWatch {
    pub depend_iface: String,
    pub pool_index: u32,
    pub preferred_lifetime: u32,
    pub valid_lifetime: u32,
}

/// A delegation source that follows the delegation received on another
/// interface.
#[derive(Clone, Debug)]
pub struct PdParentWatch {
    pub depend_iface: String,
    pub max_source_prefix_len: u8,
    pub pool_index: u32,
    pub pool_len: u8,
}

/// What the link's prefix sources come to before anything runs: the
/// static prefixes with their router addresses (to be set on the link and
/// removed later), the upstream delegations to follow, and the delegation
/// blocks.
#[derive(Clone, Debug)]
pub struct PrefixPlan {
    pub static_info: Vec<ICMPv6ConfigInfo>,
    pub pd_watches: Vec<PdPrefixWatch>,
    pub pd_delegation_static: Vec<PdDelegationParent>,
    pub pd_parent_watches: Vec<PdParentWatch>,
    pub cleanup_ips: Vec<(u128, u8)>,
}

/// The source is one of the kinds asked for.
pub open spec fn selected(s: LanIPv6SourceConfig, kinds: Seq<SourceServiceKind>) -> bool {
    kinds.contains(s.spec_kind())
}

/// The selected sources can be planned: the pool index of a static source
/// names one of the 256 /64s of its /56, and a static delegation block is
/// defined.
pub open spec fn plan_ok(srcs: Seq<LanIPv6SourceConfig>, kinds: Seq<SourceServiceKind>) -> bool {
    forall|i: int|
        0 <= i < srcs.len() && selected(#[trigger] srcs[i], kinds) ==> match srcs[i] {
            LanIPv6SourceConfig::RaStatic { pool_index, .. } => pool_index < 256,
            LanIPv6SourceConfig::NaStatic { pool_index, .. } => pool_index < 256,
            LanIPv6SourceConfig::PdStatic { base_prefix, base_prefix_len, pool_index, pool_len } =>
                delegation_parent_ok(base_prefix, base_prefix_len, pool_index, pool_len),
            _ => true,
        }
}

/// The static prefixes of the selected sources, in order; an address-only
/// source is not advertised (zero lifetimes).
pub open spec fn planned_static(srcs: Seq<LanIPv6SourceConfig>, kinds: Seq<SourceServiceKind>) -> Seq<ICMPv6ConfigInfo>
    decreases srcs.len(),
{
    if srcs.len() == 0 {
        Seq::empty()
    } else {
        let rest = planned_static(srcs.drop_last(), kinds);
        if selected(srcs.last(), kinds) {
            match srcs.last() {
                LanIPv6SourceConfig::RaStatic { base_prefix, pool_index, preferred_lifetime, valid_lifetime } =>
                    rest.push(subnet_info(base_prefix, STATIC_RT_PREFIX_LEN, LAN_SUB_PREFIX_LEN, pool_index, preferred_lifetime, valid_lifetime)),
                LanIPv6SourceConfig::NaStatic { base_prefix, pool_index } =>
                    rest.push(subnet_info(base_prefix, STATIC_RT_PREFIX_LEN, LAN_SUB_PREFIX_LEN, pool_index, 0, 0)),
                _ => rest,
            }
        } else {
            rest
        }
    }
}

/// The upstream delegations the selected sources follow, in order.
pub open spec fn planned_pd_watches(srcs: Seq<LanIPv6SourceConfig>, kinds: Seq<SourceServiceKind>) -> Seq<(Seq<char>, u32, u32, u32)>
    decreases srcs.len(),
{
    if srcs.len() == 0 {
        Seq::empty()
    } else {
        let rest = planned_pd_watches(srcs.drop_last(), kinds);
        if selected(srcs.last(), kinds) {
            match srcs.last() {
                LanIPv6SourceConfig::RaPd { depend_iface, pool_index, preferred_lifetime, valid_lifetime } =>
                    rest.push((depend_iface@, pool_index, preferred_lifetime, valid_lifetime)),
                LanIPv6SourceConfig::NaPd { depend_iface, pool_index } =>
                    rest.push((depend_iface@, pool_index, 0u32, 0u32)),
                _ => rest,
            }
        } else {
            rest
        }
    }
}

/// The static delegation blocks of the selected sources, in order.
pub open spec fn planned_parents(srcs: Seq<LanIPv6SourceConfig>, kinds: Seq<SourceServiceKind>) -> Seq<PdDelegationParent>
    decreases srcs.len(),
{
    if srcs.len() == 0 {
        Seq::empty()
    } else {
        let rest = planned_parents(srcs.drop_last(), kinds);
        if selected(srcs.last(), kinds) {
            match srcs.last() {
                LanIPv6SourceConfig::PdStatic { base_prefix, base_prefix_len, pool_index, pool_len } =>
                    rest.push(spec_delegation_parent(base_prefix, base_prefix_len, pool_index, pool_len)),
                _ => rest,
            }
        } else {
            rest
        }
    }
}

/// The upstream delegations the selected delegation sources follow.
pub open spec fn planned_parent_watches(srcs: Seq<LanIPv6SourceConfig>, kinds: Seq<SourceServiceKind>) -> Seq<(Seq<char>, u8, u32, u8)>
    decreases srcs.len(),
{
    if srcs.len() == 0 {
        Seq::empty()
    } else {
        let rest = planned_parent_watches(srcs.drop_last(), kinds);
        if selected(srcs.last(), kinds) {
            match srcs.last() {
                LanIPv6SourceConfig::PdPd { depend_iface, max_source_prefix_len, pool_index, pool_len } =>
                    rest.push((depend_iface@, max_source_prefix_len, pool_index, pool_len)),
                _ => rest,
            }
        } else {
            rest
        }
    }
}

pub open spec fn pd_watch_view(w: PdPrefixWatch) -> (Seq<char>, u32, u32, u32) {
    (w.depend_iface@, w.pool_index, w.preferred_lifetime, w.valid_lifetime)
}

pub open spec fn parent_watch_view(w: PdParentWatch) -> (Seq<char>, u8, u32, u8) {
    (w.depend_iface@, w.max_source_prefix_len, w.pool_index, w.pool_len)
}

fn kind_selected(kinds: &[SourceServiceKind], k: SourceServiceKind) -> (r: bool)
    ensures
        r == kinds@.contains(k),
{
    let mut i: usize = 0;
    while i < kinds.len()
        invariant
            i <= kinds@.len(),
            forall|j: int| 0 <= j < i ==> kinds@[j] != k,
        decreases kinds@.len() - i,
    {
        if kinds[i] == k {
            assert(kinds@[i as int] == k);
            return true;
        }
        i += 1;
    }
    false
}

/// Plans the selected prefix sources of a link, in their order.
pub fn plan_prefix_sources(sources: &[LanIPv6SourceConfig], filter_kinds: &[SourceServiceKind]) -> (r: PrefixPlan)
    requires
        plan_ok(sources@, filter_kinds@),
    ensures
        r.static_info@ == planned_static(sources@, filter_kinds@),
        r.pd_watches@.map_values(|w: PdPrefixWatch| pd_watch_view(w)) == planned_pd_watches(sources@, filter_kinds@),
        r.pd_delegation_static@ == planned_parents(sources@, filter_kinds@),
        r.pd_parent_watches@.map_values(|w: PdParentWatch| parent_watch_view(w)) == planned_parent_watches(
            sources@,
            filter_kinds@,
        ),
        r.cleanup_ips@ == planned_static(sources@, filter_kinds@).map_values(
            |i: ICMPv6ConfigInfo| (i.sub_router, i.sub_prefix_len),
        ),
{
    let mut plan = PrefixPlan {
        static_info: Vec::new(),
        pd_watches: Vec::new(),
        pd_delegation_static: Vec::new(),
        pd_parent_watches: Vec::new(),
        cleanup_ips: Vec::new(),
    };
    let mut i: usize = 0;
    while i < sources.len()
        invariant
            i <= sources@.len(),
            plan_ok(sources@, filter_kinds@),
            plan.static_info@ == planned_static(sources@.take(i as int), filter_kinds@),
            plan.pd_watches@.map_values(|w: PdPrefixWatch| pd_watch_view(w)) == planned_pd_watches(
                sources@.take(i as int),
                filter_kinds@,
            ),
            plan.pd_delegation_static@ == planned_parents(sources@.take(i as int), filter_kinds@),
            plan.pd_parent_watches@.map_values(|w: PdParentWatch| parent_watch_view(w))
                == planned_parent_watches(sources@.take(i as int), filter_kinds@),
            plan.cleanup_ips@ == planned_static(sources@.take(i as int), filter_kinds@).map_values(
                |i: ICMPv6ConfigInfo| (i.sub_router, i.sub_prefix_len),
            ),
        decreases sources@.len() - i,
    {
        let ghost before = sources@.take(i as int);
        let ghost after = sources@.take(i + 1);
        assert(after.drop_last() =~= before);
        assert(after.last() == sources@[i as int]);
        let src = &sources[i];
        let ghost ws0 = plan.pd_watches@;
        let ghost pw0 = plan.pd_parent_watches@;
        let ghost st0 = plan.static_info@;
        if kind_selected(filter_kinds, src.service_kind()) {
            assert(selected(sources@[i as int], filter_kinds@));
            match src {
                LanIPv6SourceConfig::RaStatic { base_prefix, pool_index, preferred_lifetime, valid_lifetime } => {
                    let info = static_source_info(*base_prefix, *pool_index, *preferred_lifetime, *valid_lifetime);
                    plan.static_info.push(info);
                    plan.cleanup_ips.push((info.sub_router, info.sub_prefix_len));
                    assert(st0.push(info).map_values(|i: ICMPv6ConfigInfo| (i.sub_router, i.sub_prefix_len))
                        =~= st0.map_values(|i: ICMPv6ConfigInfo| (i.sub_router, i.sub_prefix_len)).push(
                        (info.sub_router, info.sub_prefix_len),
                    ));
                },
                LanIPv6SourceConfig::NaStatic { base_prefix, pool_index } => {
                    let info = static_source_info(*base_prefix, *pool_index, 0, 0);
                    plan.static_info.push(info);
                    plan.cleanup_ips.push((info.sub_router, info.sub_prefix_len));
                    assert(st0.push(info).map_values(|i: ICMPv6ConfigInfo| (i.sub_router, i.sub_prefix_len))
                        =~= st0.map_values(|i: ICMPv6ConfigInfo| (i.sub_router, i.sub_prefix_len)).push(
                        (info.sub_router, info.sub_prefix_len),
                    ));
                },
                LanIPv6SourceConfig::RaPd { depend_iface, pool_index, preferred_lifetime, valid_lifetime } => {
                    let w = PdPrefixWatch {
                        depend_iface: depend_iface.clone(),
                        pool_index: *pool_index,
                        preferred_lifetime: *preferred_lifetime,
                        valid_lifetime: *valid_lifetime,
                    };
                    plan.pd_watches.push(w);
                    assert(ws0.push(w).map_values(|w: PdPrefixWatch| pd_watch_view(w)) =~= ws0.map_values(
                        |w: PdPrefixWatch| pd_watch_view(w),
                    ).push(pd_watch_view(w)));
                },
                LanIPv6SourceConfig::NaPd { depend_iface, pool_index } => {
                    let w = PdPrefixWatch {
                        depend_iface: depend_iface.clone(),
                        pool_index: *pool_index,
                        preferred_lifetime: 0,
                        valid_lifetime: 0,
                    };
                    plan.pd_watches.push(w);
                    assert(ws0.push(w).map_values(|w: PdPrefixWatch| pd_watch_view(w)) =~= ws0.map_values(
                        |w: PdPrefixWatch| pd_watch_view(w),
                    ).push(pd_watch_view(w)));
                },
                LanIPv6SourceConfig::PdStatic { base_prefix, base_prefix_len, pool_index, pool_len } => {
                    plan.pd_delegation_static.push(
                        delegation_parent(*base_prefix, *base_prefix_len, *pool_index, *pool_len),
                    );
                },
                LanIPv6SourceConfig::PdPd { depend_iface, max_source_prefix_len, pool_index, pool_len } => {
                    let w = PdParentWatch {
                        depend_iface: depend_iface.clone(),
                        max_source_prefix_len: *max_source_prefix_len,
                        pool_index: *pool_index,
                        pool_len: *pool_len,
                    };
                    plan.pd_parent_watches.push(w);
                    assert(pw0.push(w).map_values(|w: PdParentWatch| parent_watch_view(w)) =~= pw0.map_values(
                        |w: PdParentWatch| parent_watch_view(w),
                    ).push(parent_watch_view(w)));
                },
            }
        }
        i += 1;
    }
    assert(sources@.take(sources@.len() as int) =~= sources@);
    plan
}

} // verus!
