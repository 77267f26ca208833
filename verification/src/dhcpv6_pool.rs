//! The DHCPv6 server's lease pools: IA_NA host suffixes and IA_PD
//! sub-prefix indices, handed out by a DUID-seeded probe and reclaimed when
//! their lifetime runs out.
use std::collections::HashSet;
use vstd::prelude::*;

use crate::clock::{elapsed_secs, instant_now};
use crate::duid::{
    combine_prefix_suffix, combined_address, compute_delegated_prefix, delegated_prefix,
    duid_to_hex, hash_duid, spec_hash_duid, spec_hex, MacAddr,
};
use crate::ipv6_prefix::{ICMPv6ConfigInfo, PdDelegationParent};
use crate::lease_table::{kept_part, DuidTable, Lapsing};

verus! {

broadcast use vstd::std_specs::hash::group_hash_axioms;

/// Lifetime, in seconds, of an offer that no REQUEST has confirmed yet.
pub const OFFER_VALID_TIME: u32 = 120;

/// IA_NA settings: the suffix pool and the lifetimes handed out.
#[derive(Clone, Copy, Debug, PartialEq, Eq, Structural)]
pub struct DHCPv6IANAConfig {
    pub max_prefix_len: u8,
    pub pool_start: u64,
    pub pool_end: Option<u64>,
    pub preferred_lifetime: u32,
    pub valid_lifetime: u32,
}

/// IA_PD settings: the length of the delegated prefixes and their lifetimes.
#[derive(Clone, Copy, Debug, PartialEq, Eq, Structural)]
pub struct DHCPv6IAPDConfig {
    pub delegate_prefix_len: u8,
    pub preferred_lifetime: u32,
    pub valid_lifetime: u32,
}

/// The DHCPv6 server's configuration.
#[derive(Clone, Copy, Debug, PartialEq, Eq, Structural)]
pub struct DHCPv6ServerConfig {
    pub enable: bool,
    pub ia_na: Option<DHCPv6IANAConfig>,
    pub ia_pd: Option<DHCPv6IAPDConfig>,
}

/// One IA_NA lease: the host suffix given to a client and its lifetimes.
#[derive(Debug)]
pub struct DHCPv6NACache {
    pub suffix: u64,
    pub hostname: Option<String>,
    pub mac: Option<MacAddr>,
    pub duid_hex: String,
    pub relative_offer_time: u64,
    pub valid_time: u32,
    pub preferred_time: u32,
    pub is_static: bool,
}

/// One IA_PD lease: the sub-prefix index given to a client, its lifetimes
/// and the routes installed for it.
#[derive(Debug)]
pub struct DHCPv6PDCache {
    pub sub_index: u32,
    pub duid_hex: String,
    pub relative_offer_time: u64,
    pub valid_time: u32,
    pub preferred_time: u32,
    pub client_addr: u128,
    pub active_routes: Vec<(u128, u8)>,
}

/// A lease has run out once more than its valid lifetime has passed since
/// it was offered or confirmed.
pub open spec fn past_lifetime(now: u64, offered_at: u64, valid: u32) -> bool {
    now > offered_at + valid
}

fn is_past_lifetime(now: u64, offered_at: u64, valid: u32) -> (r: bool)
    ensures
        r == past_lifetime(now, offered_at, valid),
{
    now > offered_at && now - offered_at > valid as u64
}

impl Lapsing for DHCPv6NACache {
    /// Static leases never lapse.
    open spec fn lapsed(&self, now: u64) -> bool {
        !self.is_static && past_lifetime(now, self.relative_offer_time, self.valid_time)
    }

    fn is_lapsed(&self, now: u64) -> (r: bool) {
        !self.is_static && is_past_lifetime(now, self.relative_offer_time, self.valid_time)
    }
}

impl Lapsing for DHCPv6PDCache {
    open spec fn lapsed(&self, now: u64) -> bool {
        past_lifetime(now, self.relative_offer_time, self.valid_time)
    }

    fn is_lapsed(&self, now: u64) -> (r: bool) {
        is_past_lifetime(now, self.relative_offer_time, self.valid_time)
    }
}

/// The first static binding of `mac`, if any.
pub open spec fn static_lookup(s: Seq<(MacAddr, u128)>, mac: MacAddr) -> Option<u128>
    decreases s.len(),
{
    if s.len() == 0 {
        None
    } else if s[0].0 == mac {
        Some(s[0].1)
    } else {
        static_lookup(s.drop_first(), mac)
    }
}

/// The host suffix of a statically bound address: its low 64 bits.
pub open spec fn static_suffix(addr: u128) -> u64 {
    addr as u64
}

/// The `k`-th suffix that the IA_NA probe tries: the seed advanced by `k`
/// (wrapping at 64 bits), reduced into the pool.
pub open spec fn na_probe(start: u64, cap: u64, seed: u64, k: nat) -> u64 {
    (start + ((seed + k) % 0x1_0000_0000_0000_0000int) % (cap as int)) as u64
}

/// The `k`-th sub-prefix index that the IA_PD probe tries.
pub open spec fn pd_probe(start: u32, cap: u32, seed: u32, k: nat) -> u32 {
    (start + ((seed + k) % 0x1_0000_0000int) % (cap as int)) as u32
}

/// Probe `k` of the IA_NA pool is the first free one.
pub open spec fn na_first_free(alloc: Set<u64>, start: u64, cap: u64, seed: u64, k: nat) -> bool {
    &&& !alloc.contains(na_probe(start, cap, seed, k))
    &&& forall|j: nat| j < k ==> alloc.contains(#[trigger] na_probe(start, cap, seed, j))
}

/// Probe `k` of the IA_PD pool is the first free one.
pub open spec fn pd_first_free(alloc: Set<u32>, start: u32, cap: u32, seed: u32, k: nat) -> bool {
    &&& !alloc.contains(pd_probe(start, cap, seed, k))
    &&& forall|j: nat| j < k ==> alloc.contains(#[trigger] pd_probe(start, cap, seed, j))
}

/// The suffixes that the IA_NA leases lapsed at `now` hold.
pub open spec fn na_freed(m: Map<Seq<u8>, DHCPv6NACache>, now: u64) -> Set<u64> {
    Set::new(
        |s: u64|
            exists|k: Seq<u8>| #[trigger] m.contains_key(k) && m[k].lapsed(now) && m[k].suffix == s,
    )
}

/// The indices that the IA_PD leases lapsed at `now` hold.
pub open spec fn pd_freed(m: Map<Seq<u8>, DHCPv6PDCache>, now: u64) -> Set<u32> {
    Set::new(
        |s: u32|
            exists|k: Seq<u8>|
                #[trigger] m.contains_key(k) && m[k].lapsed(now) && m[k].sub_index == s,
    )
}

/// Some lease of `m` has lapsed at `now`.
pub open spec fn any_lapsed<T: Lapsing>(m: Map<Seq<u8>, T>, now: u64) -> bool {
    exists|k: Seq<u8>| #[trigger] m.contains_key(k) && m[k].lapsed(now)
}

/// `c` is the IA_NA lease recorded for `duid` with these values.
pub open spec fn na_cache_is(
    c: DHCPv6NACache,
    duid: Seq<u8>,
    suffix: u64,
    hostname: Option<String>,
    mac: Option<MacAddr>,
    now: u64,
    valid: u32,
    preferred: u32,
    is_static: bool,
) -> bool {
    &&& c.suffix == suffix
    &&& c.hostname == hostname
    &&& c.mac == mac
    &&& c.duid_hex@ == spec_hex(duid)
    &&& c.relative_offer_time == now
    &&& c.valid_time == valid
    &&& c.preferred_time == preferred
    &&& c.is_static == is_static
}

/// `c` is the IA_PD lease recorded for `duid` at its first offer.
pub open spec fn pd_cache_is(c: DHCPv6PDCache, duid: Seq<u8>, sub_index: u32, now: u64, preferred: u32) -> bool {
    &&& c.sub_index == sub_index
    &&& c.duid_hex@ == spec_hex(duid)
    &&& c.relative_offer_time == now
    &&& c.valid_time == OFFER_VALID_TIME
    &&& c.preferred_time == preferred
    &&& c.client_addr == 0
    &&& c.active_routes@.len() == 0
}

pub open spec fn min_u32(a: u32, b: u32) -> u32 {
    if a <= b {
        a
    } else {
        b
    }
}

/// The lease state of a DHCPv6 server on one link.
pub struct DHCPv6Server {
    pub relative_boot_time: std::time::Instant,
    pub server_duid: Vec<u8>,
    pub na_config: Option<DHCPv6IANAConfig>,
    pub na_pool_start: u64,
    pub na_range_capacity: u64,
    pub na_allocated_suffixes: HashSet<u64>,
    pub na_offered: DuidTable<DHCPv6NACache>,
    pub pd_config: Option<DHCPv6IAPDConfig>,
    pub pd_pool_start: u32,
    pub pd_range_capacity: u32,
    pub pd_allocated_indices: HashSet<u32>,
    pub pd_offered: DuidTable<DHCPv6PDCache>,
    /// MAC address to statically bound IPv6 address.
    pub static_bindings: Vec<(MacAddr, u128)>,
}

impl DHCPv6Server {
    /// Every dynamic IA_NA lease holds a suffix of the pool that is marked
    /// allocated, and no two of them hold the same one.
    pub open spec fn na_leases_consistent(&self) -> bool {
        let m = self.na_offered.view();
        &&& forall|k: Seq<u8>|
            #[trigger] m.contains_key(k) && !m[k].is_static ==> {
                &&& self.na_allocated_suffixes@.contains(m[k].suffix)
                &&& self.na_pool_start <= m[k].suffix < self.na_pool_start
                    + self.na_range_capacity
            }
        &&& forall|k1: Seq<u8>, k2: Seq<u8>|
            #[trigger] m.contains_key(k1) && #[trigger] m.contains_key(k2) && k1 != k2
                && !m[k1].is_static && !m[k2].is_static ==> m[k1].suffix != m[k2].suffix
    }

    /// Every IA_PD lease holds an index of the pool that is marked
    /// allocated, and no two of them hold the same one.
    pub open spec fn pd_leases_consistent(&self) -> bool {
        let m = self.pd_offered.view();
        &&& forall|k: Seq<u8>|
            #[trigger] m.contains_key(k) ==> {
                &&& self.pd_allocated_indices@.contains(m[k].sub_index)
                &&& self.pd_pool_start <= m[k].sub_index < self.pd_pool_start
                    + self.pd_range_capacity
            }
        &&& forall|k1: Seq<u8>, k2: Seq<u8>|
            #[trigger] m.contains_key(k1) && #[trigger] m.contains_key(k2) && k1 != k2
                ==> m[k1].sub_index != m[k2].sub_index
    }

    pub open spec fn wf(&self) -> bool {
        &&& self.na_offered.wf()
        &&& self.pd_offered.wf()
        &&& self.na_allocated_suffixes@.finite()
        &&& self.pd_allocated_indices@.finite()
        &&& self.na_pool_start + self.na_range_capacity <= u64::MAX
        &&& self.pd_pool_start + self.pd_range_capacity <= u32::MAX
        &&& self.na_leases_consistent()
        &&& self.pd_leases_consistent()
    }

    /// The IA_PD side of the server is as it was.
    pub open spec fn same_pd(&self, other: &Self) -> bool {
        &&& self.pd_config == other.pd_config
        &&& self.pd_pool_start == other.pd_pool_start
        &&& self.pd_range_capacity == other.pd_range_capacity
        &&& self.pd_allocated_indices@ == other.pd_allocated_indices@
        &&& self.pd_offered.view() == other.pd_offered.view()
    }

    /// The IA_NA side of the server is as it was.
    pub open spec fn same_na(&self, other: &Self) -> bool {
        &&& self.na_config == other.na_config
        &&& self.na_pool_start == other.na_pool_start
        &&& self.na_range_capacity == other.na_range_capacity
        &&& self.na_allocated_suffixes@ == other.na_allocated_suffixes@
        &&& self.na_offered.view() == other.na_offered.view()
    }

    /// Neither pool's settings, the bindings nor the server's identity change.
    pub open spec fn same_setup(&self, other: &Self) -> bool {
        &&& self.relative_boot_time == other.relative_boot_time
        &&& self.server_duid@ == other.server_duid@
        &&& self.static_bindings@ == other.static_bindings@
        &&& self.na_config == other.na_config
        &&& self.na_pool_start == other.na_pool_start
        &&& self.na_range_capacity == other.na_range_capacity
        &&& self.pd_config == other.pd_config
        &&& self.pd_pool_start == other.pd_pool_start
        &&& self.pd_range_capacity == other.pd_range_capacity
    }
}

proof fn lemma_wrap_step(a: int, m: int)
    requires
        a >= 0,
        m > 1,
    ensures
        (a + 1) % m == if a % m + 1 == m {
            0
        } else {
            a % m + 1
        },
{
    vstd::arithmetic::div_mod::lemma_add_mod_noop(a, 1, m);
    vstd::arithmetic::div_mod::lemma_small_mod(1, m as nat);
    vstd::arithmetic::div_mod::lemma_mod_pos_bound(a, m);
    if a % m + 1 == m {
        vstd::arithmetic::div_mod::lemma_mod_self_0(m);
    } else {
        vstd::arithmetic::div_mod::lemma_small_mod((a % m + 1) as nat, m as nat);
    }
}

/// Advancing the probe seed by one wrapping step moves to the next probe.
proof fn lemma_seed_step_u64(seed0: u64, k: nat, seed: u64)
    requires
        seed == (seed0 + k) % 0x1_0000_0000_0000_0000int,
    ensures
        seed.wrapping_add(1) == (seed0 + k + 1) % 0x1_0000_0000_0000_0000int,
{
    lemma_wrap_step(seed0 + k, 0x1_0000_0000_0000_0000int);
}

proof fn lemma_seed_step_u32(seed0: u32, k: nat, seed: u32)
    requires
        seed == (seed0 + k) % 0x1_0000_0000int,
    ensures
        seed.wrapping_add(1) == (seed0 + k + 1) % 0x1_0000_0000int,
{
    lemma_wrap_step(seed0 + k, 0x1_0000_0000int);
}

spec fn range_u64(start: u64, n: int) -> Set<u64> {
    Set::new(|x: u64| start <= x < start + n)
}

proof fn lemma_range_u64(start: u64, n: int)
    requires
        0 <= n,
        start + n <= u64::MAX + 1,
    ensures
        range_u64(start, n).finite(),
        range_u64(start, n).len() == n,
    decreases n,
{
    if n == 0 {
        assert(range_u64(start, 0) =~= Set::empty());
    } else {
        lemma_range_u64(start, n - 1);
        assert(range_u64(start, n) =~= range_u64(start, n - 1).insert((start + n - 1) as u64));
    }
}

spec fn range_u32(start: u32, n: int) -> Set<u32> {
    Set::new(|x: u32| start <= x < start + n)
}

proof fn lemma_range_u32(start: u32, n: int)
    requires
        0 <= n,
        start + n <= u32::MAX + 1,
    ensures
        range_u32(start, n).finite(),
        range_u32(start, n).len() == n,
    decreases n,
{
    if n == 0 {
        assert(range_u32(start, 0) =~= Set::empty());
    } else {
        lemma_range_u32(start, n - 1);
        assert(range_u32(start, n) =~= range_u32(start, n - 1).insert((start + n - 1) as u32));
    }
}

/// A pool with fewer marked entries than slots has a free slot.
proof fn lemma_free_slot_u64(alloc: Set<u64>, start: u64, cap: u64) -> (f: u64)
    requires
        alloc.finite(),
        alloc.len() < cap,
        start + cap <= u64::MAX,
    ensures
        f < cap,
        !alloc.contains((start + f) as u64),
{
    if forall|f: u64| f < cap ==> alloc.contains(#[trigger] ((start + f) as u64)) {
        lemma_range_u64(start, cap as int);
        assert forall|x: u64| range_u64(start, cap as int).contains(x) implies alloc.contains(x) by {
            let f = (x - start) as u64;
            assert(alloc.contains((start + f) as u64));
        }
        vstd::set_lib::lemma_len_subset(range_u64(start, cap as int), alloc);
        0
    } else {
        choose|f: u64| f < cap && !alloc.contains(#[trigger] ((start + f) as u64))
    }
}

proof fn lemma_free_slot_u32(alloc: Set<u32>, start: u32, cap: u32) -> (f: u32)
    requires
        alloc.finite(),
        alloc.len() < cap,
        start + cap <= u32::MAX,
    ensures
        f < cap,
        !alloc.contains((start + f) as u32),
{
    if forall|f: u32| f < cap ==> alloc.contains(#[trigger] ((start + f) as u32)) {
        lemma_range_u32(start, cap as int);
        assert forall|x: u32| range_u32(start, cap as int).contains(x) implies alloc.contains(x) by {
            let f = (x - start) as u32;
            assert(alloc.contains((start + f) as u32));
        }
        vstd::set_lib::lemma_len_subset(range_u32(start, cap as int), alloc);
        0
    } else {
        choose|f: u32| f < cap && !alloc.contains(#[trigger] ((start + f) as u32))
    }
}

/// The probe number at which the seed reaches `f`.
spec fn probe_target(seed0: int, f: int, modulus: int) -> nat {
    if f >= seed0 {
        (f - seed0) as nat
    } else {
        (f + modulus - seed0) as nat
    }
}

/// The first static binding of `mac`, found by a walk of the bindings.
fn find_static_binding(bindings: &Vec<(MacAddr, u128)>, mac: MacAddr) -> (r: Option<u128>)
    ensures
        r == static_lookup(bindings@, mac),
{
    let mut i: usize = 0;
    assert(bindings@.skip(0) =~= bindings@);
    while i < bindings.len()
        invariant
            i <= bindings@.len(),
            static_lookup(bindings@, mac) == static_lookup(bindings@.skip(i as int), mac),
        decreases bindings@.len() - i,
    {
        let (m, addr) = bindings[i];
        assert(bindings@.skip(i as int)[0] == bindings@[i as int]);
        if m == mac {
            return Some(addr);
        }
        assert(bindings@.skip(i as int).drop_first() =~= bindings@.skip(i + 1));
        i += 1;
    }
    None
}

impl DHCPv6Server {
    /// The static binding that applies to a client with this MAC, if any.
    pub open spec fn static_hit(&self, mac: Option<MacAddr>) -> Option<u128> {
        match mac {
            Some(m) => static_lookup(self.static_bindings@, m),
            None => None,
        }
    }

    /// The IA_NA pool counts as full: as many suffixes are marked as it has.
    pub open spec fn na_pool_full(&self) -> bool {
        self.na_allocated_suffixes@.len() >= self.na_range_capacity
    }

    /// An offer to `duid` from a client with this MAC goes to the probe: IA_NA
    /// is on, the client holds no offer and no static binding applies.
    pub open spec fn na_dynamic_case(&self, duid: Seq<u8>, mac: Option<MacAddr>) -> bool {
        &&& self.na_config is Some
        &&& !self.na_offered.view().contains_key(duid)
        &&& self.static_hit(mac) is None
    }

    /// After the sweep the pool still counts as full and the first probe
    /// from `seed` is taken.
    pub open spec fn na_first_probe_blocked(&self, now: u64, seed: u64) -> bool {
        let a1 = self.na_alloc_after_sweep(now);
        &&& a1.len() >= self.na_range_capacity
        &&& a1.contains(na_probe(self.na_pool_start, self.na_range_capacity, seed, 0))
    }

    /// The marked suffixes once a full pool has been swept at `now`.
    pub open spec fn na_alloc_after_sweep(&self, now: u64) -> Set<u64> {
        if self.na_pool_full() {
            self.na_allocated_suffixes@.difference(na_freed(self.na_offered.view(), now))
        } else {
            self.na_allocated_suffixes@
        }
    }

    /// The IA_NA leases once a full pool has been swept at `now`.
    pub open spec fn na_offered_after_sweep(&self, now: u64) -> Map<Seq<u8>, DHCPv6NACache> {
        if self.na_pool_full() {
            kept_part(self.na_offered.view(), now)
        } else {
            self.na_offered.view()
        }
    }

    /// A server for `config`, with no lease yet. The IA_NA pool runs from
    /// `pool_start` up to `pool_end`, or over 0xFFFF suffixes where no end is
    /// set; the IA_PD pool has 256 sub-prefix indices from 0.
    pub fn init(config: &DHCPv6ServerConfig, static_bindings: Vec<(MacAddr, u128)>) -> (r: Self)
        requires
            config.ia_na matches Some(na) ==> match na.pool_end {
                Some(end) => na.pool_start <= end,
                None => na.pool_start + 0xFFFF <= u64::MAX,
            },
        ensures
            r.wf(),
            r.server_duid@.len() == 0,
            r.na_config == config.ia_na,
            r.pd_config == config.ia_pd,
            r.static_bindings@ == static_bindings@,
            match config.ia_na {
                Some(na) => r.na_pool_start == na.pool_start && r.na_range_capacity == match na.pool_end {
                    Some(end) => end - na.pool_start,
                    None => 0xFFFF,
                },
                None => r.na_pool_start == 0 && r.na_range_capacity == 0,
            },
            r.pd_pool_start == 0,
            r.pd_range_capacity == if config.ia_pd is Some {
                256u32
            } else {
                0u32
            },
            r.na_allocated_suffixes@.is_empty(),
            r.pd_allocated_indices@.is_empty(),
            r.na_offered.view().is_empty(),
            r.pd_offered.view().is_empty(),
    {
        let (na_pool_start, na_range_capacity) = match &config.ia_na {
            Some(na) => {
                let end = match na.pool_end {
                    Some(e) => e,
                    None => na.pool_start + 0xFFFF,
                };
                (na.pool_start, end - na.pool_start)
            },
            None => (0, 0),
        };
        let (pd_pool_start, pd_range_capacity) = match &config.ia_pd {
            Some(_) => (0u32, 256u32),
            None => (0u32, 0u32),
        };
        DHCPv6Server {
            relative_boot_time: instant_now(),
            server_duid: Vec::new(),
            na_config: config.ia_na,
            na_pool_start,
            na_range_capacity,
            na_allocated_suffixes: HashSet::new(),
            na_offered: DuidTable::new(),
            pd_config: config.ia_pd,
            pd_pool_start,
            pd_range_capacity,
            pd_allocated_indices: HashSet::new(),
            pd_offered: DuidTable::new(),
            static_bindings,
        }
    }

    /// Drops the IA_NA leases that have run out at `now` and frees their
    /// suffixes. Answers whether any lease was dropped.
    pub fn clean_expired_na_at(&mut self, now: u64) -> (r: bool)
        requires
            old(self).wf(),
        ensures
            final(self).wf(),
            final(self).same_setup(old(self)),
            final(self).same_pd(old(self)),
            r == any_lapsed(old(self).na_offered.view(), now),
            final(self).na_offered.view() == kept_part(old(self).na_offered.view(), now),
            final(self).na_allocated_suffixes@ == old(self).na_allocated_suffixes@.difference(
                na_freed(old(self).na_offered.view(), now),
            ),
    {
        let ghost m0 = self.na_offered.view();
        let ghost a0 = self.na_allocated_suffixes@;
        let ghost s0 = *self;
        let removed = self.na_offered.remove_lapsed(now);
        let ghost s1 = *self;
        let mut i: usize = 0;
        while i < removed.len()
            invariant
                i <= removed@.len(),
                self.relative_boot_time == s0.relative_boot_time,
                self.server_duid == s0.server_duid,
                self.static_bindings == s0.static_bindings,
                self.na_config == s0.na_config,
                self.na_pool_start == s0.na_pool_start,
                self.na_range_capacity == s0.na_range_capacity,
                self.pd_config == s0.pd_config,
                self.pd_pool_start == s0.pd_pool_start,
                self.pd_range_capacity == s0.pd_range_capacity,
                self.pd_allocated_indices == s0.pd_allocated_indices,
                self.pd_offered == s0.pd_offered,
                self.na_offered == s1.na_offered,
                self.na_allocated_suffixes@.finite(),
                self.na_offered.view() == kept_part(m0, now),
                self.na_offered.wf(),
                forall|r: int|
                    0 <= r < removed@.len() ==> crate::lease_table::is_lapsed_value(
                        m0,
                        now,
                        #[trigger] removed@[r],
                    ),
                self.na_allocated_suffixes@ == a0.difference(
                    Set::new(|s: u64| exists|j: int| 0 <= j < i && (#[trigger] removed@[j]).suffix == s),
                ),
            decreases removed@.len() - i,
        {
            let _ = self.na_allocated_suffixes.remove(&removed[i].suffix);
            proof {
                let next = Set::new(|s: u64| exists|j: int| 0 <= j < i + 1 && (#[trigger] removed@[j]).suffix == s);
                let prev = Set::new(|s: u64| exists|j: int| 0 <= j < i && (#[trigger] removed@[j]).suffix == s);
                assert(next =~= prev.insert(removed@[i as int].suffix));
                assert(self.na_allocated_suffixes@ =~= a0.difference(next));
            }
            i += 1;
        }
        proof {
            let got = Set::new(|s: u64| exists|j: int| 0 <= j < removed@.len() && (#[trigger] removed@[j]).suffix == s);
            assert forall|s: u64| got.contains(s) implies na_freed(m0, now).contains(s) by {
                let j = choose|j: int| 0 <= j < removed@.len() && (#[trigger] removed@[j]).suffix == s;
                assert(crate::lease_table::is_lapsed_value(m0, now, removed@[j]));
            }
            assert forall|s: u64| na_freed(m0, now).contains(s) implies got.contains(s) by {
                let k = choose|k: Seq<u8>| #[trigger] m0.contains_key(k) && m0[k].lapsed(now) && m0[k].suffix == s;
                assert(crate::lease_table::lapsed_part(m0, now).contains_key(k));
                assert(removed@.contains(m0[k]));
                let j = choose|j: int| 0 <= j < removed@.len() && removed@[j] == m0[k];
                assert(removed@[j].suffix == s);
            }
            assert(got =~= na_freed(m0, now));
            if any_lapsed(m0, now) {
                let k = choose|k: Seq<u8>| #[trigger] m0.contains_key(k) && m0[k].lapsed(now);
                assert(crate::lease_table::lapsed_part(m0, now).contains_key(k));
                assert(removed@.contains(m0[k]));
            }
            if removed@.len() > 0 {
                assert(crate::lease_table::is_lapsed_value(m0, now, removed@[0]));
            }
            // The leases that stay keep their suffixes.
            let m = self.na_offered.view();
            assert forall|k: Seq<u8>| #[trigger] m.contains_key(k) && !m[k].is_static implies {
                &&& self.na_allocated_suffixes@.contains(m[k].suffix)
                &&& self.na_pool_start <= m[k].suffix < self.na_pool_start + self.na_range_capacity
            } by {
                assert(m0.contains_key(k) && m0[k] == m[k]);
                if na_freed(m0, now).contains(m[k].suffix) {
                    let k2 = choose|k2: Seq<u8>| #[trigger] m0.contains_key(k2) && m0[k2].lapsed(now) && m0[k2].suffix == m[k].suffix;
                    assert(m0.contains_key(k2));
                }
            }
            assert forall|k1: Seq<u8>, k2: Seq<u8>|
                #[trigger] m.contains_key(k1) && #[trigger] m.contains_key(k2) && k1 != k2
                    && !m[k1].is_static && !m[k2].is_static implies m[k1].suffix != m[k2].suffix by {
                assert(m0.contains_key(k1) && m0[k1] == m[k1]);
                assert(m0.contains_key(k2) && m0[k2] == m[k2]);
            }
        }
        removed.len() > 0
    }

    /// Drops the IA_NA leases that have run out by the server's clock.
    pub fn clean_expired_na(&mut self) -> (r: bool)
        requires
            old(self).wf(),
        ensures
            final(self).wf(),
            final(self).same_setup(old(self)),
            final(self).same_pd(old(self)),
            exists|now: u64|
                {
                    &&& r == any_lapsed(old(self).na_offered.view(), now)
                    &&& final(self).na_offered.view() == kept_part(old(self).na_offered.view(), now)
                    &&& final(self).na_allocated_suffixes@
                        == old(self).na_allocated_suffixes@.difference(
                        na_freed(old(self).na_offered.view(), now),
                    )
                },
    {
        let now = elapsed_secs(&self.relative_boot_time);
        self.clean_expired_na_at(now)
    }
}

impl DHCPv6Server {
    /// Marks a free pool suffix allocated and records a fresh dynamic offer of
    /// it to `client_duid`.
    fn record_na_offer(
        &mut self,
        now: u64,
        client_duid: &[u8],
        suffix: u64,
        hostname: Option<String>,
        mac: Option<MacAddr>,
        preferred: u32,
    )
        requires
            old(self).wf(),
            !old(self).na_allocated_suffixes@.contains(suffix),
            old(self).na_pool_start <= suffix < old(self).na_pool_start
                + old(self).na_range_capacity,
            !old(self).na_offered.view().contains_key(client_duid@),
        ensures
            final(self).wf(),
            final(self).same_setup(old(self)),
            final(self).same_pd(old(self)),
            final(self).na_allocated_suffixes@ == old(self).na_allocated_suffixes@.insert(suffix),
            final(self).na_offered.view() == old(self).na_offered.view().insert(
                client_duid@,
                final(self).na_offered.view()[client_duid@],
            ),
            na_cache_is(
                final(self).na_offered.view()[client_duid@],
                client_duid@,
                suffix,
                hostname,
                mac,
                now,
                OFFER_VALID_TIME,
                min_u32(preferred, OFFER_VALID_TIME),
                false,
            ),
    {
        let ghost m0 = self.na_offered.view();
        let _ = self.na_allocated_suffixes.insert(suffix);
        let preferred_time = if preferred <= OFFER_VALID_TIME {
            preferred
        } else {
            OFFER_VALID_TIME
        };
        let cache = DHCPv6NACache {
            suffix,
            hostname,
            mac,
            duid_hex: duid_to_hex(client_duid),
            relative_offer_time: now,
            valid_time: OFFER_VALID_TIME,
            preferred_time,
            is_static: false,
        };
        let ghost c = cache;
        self.na_offered.insert(vstd::slice::slice_to_vec(client_duid), cache);
        proof {
            let m = self.na_offered.view();
            assert(m[client_duid@] == c);
            assert(m =~= m0.insert(client_duid@, m[client_duid@]));
            assert forall|k1: Seq<u8>, k2: Seq<u8>|
                #[trigger] m.contains_key(k1) && #[trigger] m.contains_key(k2) && k1 != k2
                    && !m[k1].is_static && !m[k2].is_static implies m[k1].suffix != m[k2].suffix by {
                if k1 != client_duid@ && k2 != client_duid@ {
                    assert(m0.contains_key(k1) && m0.contains_key(k2));
                } else if k1 == client_duid@ {
                    assert(m0.contains_key(k2));
                } else {
                    assert(m0.contains_key(k1));
                }
            }
            assert forall|k: Seq<u8>| #[trigger] m.contains_key(k) && !m[k].is_static implies {
                &&& self.na_allocated_suffixes@.contains(m[k].suffix)
                &&& self.na_pool_start <= m[k].suffix < self.na_pool_start + self.na_range_capacity
            } by {
                if k != client_duid@ {
                    assert(m0.contains_key(k));
                }
            }
        }
    }

    /// Offers an IA_NA suffix to `client_duid` at time `now`.
    ///
    /// A client that holds an offer keeps it. A client whose MAC has a static
    /// binding gets the low 64 bits of the bound address, as a static lease.
    /// Any other client gets the first free suffix along the probe that
    /// starts at the hash of its DUID; when the pool counts as full, the
    /// leases lapsed at `now` are swept first, and nothing is offered if none
    /// had lapsed, or if the pool still counts as full and the first probe is
    /// taken.
    pub fn offer_na_suffix_at(
        &mut self,
        now: u64,
        client_duid: &[u8],
        mac: Option<MacAddr>,
        hostname: Option<String>,
    ) -> (r: Option<u64>)
        requires
            old(self).wf(),
        ensures
            final(self).wf(),
            final(self).same_setup(old(self)),
            final(self).same_pd(old(self)),
            na_offer_made(*old(self), *final(self), now, client_duid@, mac, hostname, r),
    {
        let na_config = match self.na_config {
            Some(c) => c,
            None => return None,
        };
        let valid_lifetime = na_config.valid_lifetime;
        let preferred_lifetime = na_config.preferred_lifetime;
        if let Some(cache) = self.na_offered.get(client_duid) {
            return Some(cache.suffix);
        }
        if let Some(m) = mac {
            if let Some(addr) = find_static_binding(&self.static_bindings, m) {
                let ghost m0 = self.na_offered.view();
                let suffix = #[verifier::truncate] (addr as u64);
                let _ = self.na_allocated_suffixes.insert(suffix);
                let cache = DHCPv6NACache {
                    suffix,
                    hostname,
                    mac: Some(m),
                    duid_hex: duid_to_hex(client_duid),
                    relative_offer_time: now,
                    valid_time: valid_lifetime,
                    preferred_time: preferred_lifetime,
                    is_static: true,
                };
                let ghost c = cache;
                self.na_offered.insert(vstd::slice::slice_to_vec(client_duid), cache);
                proof {
                    let mm = self.na_offered.view();
                    assert(mm[client_duid@] == c);
                    assert(mm =~= m0.insert(client_duid@, mm[client_duid@]));
                    assert forall|k1: Seq<u8>, k2: Seq<u8>|
                        #[trigger] mm.contains_key(k1) && #[trigger] mm.contains_key(k2) && k1 != k2
                            && !mm[k1].is_static && !mm[k2].is_static implies mm[k1].suffix
                            != mm[k2].suffix by {
                        assert(m0.contains_key(k1) && m0.contains_key(k2));
                    }
                    assert forall|k: Seq<u8>| #[trigger] mm.contains_key(k) && !mm[k].is_static implies {
                        &&& self.na_allocated_suffixes@.contains(mm[k].suffix)
                        &&& self.na_pool_start <= mm[k].suffix < self.na_pool_start
                            + self.na_range_capacity
                    } by {
                        assert(m0.contains_key(k));
                    }
                }
                return Some(suffix);
            }
        }
        if self.na_range_capacity == 0 {
            return None;
        }
        let cap = self.na_range_capacity;
        let start = self.na_pool_start;
        let mut seed = hash_duid(client_duid);
        let ghost seed0 = seed;
        let ghost s0 = *self;
        proof {
            vstd::arithmetic::div_mod::lemma_small_mod(seed0 as nat, 0x1_0000_0000_0000_0000nat);
        }
        if self.na_allocated_suffixes.len() as u64 >= cap {
            if !self.clean_expired_na_at(now) {
                proof {
                    let m0 = s0.na_offered.view();
                    assert(kept_part(m0, now) =~= m0);
                    assert(na_freed(m0, now) =~= Set::empty());
                    assert(self.na_allocated_suffixes@ =~= s0.na_allocated_suffixes@);
                }
                return None;
            }
            if self.na_allocated_suffixes.len() as u64 >= cap {
                let suffix = start + seed % cap;
                assert(suffix == na_probe(start, cap, seed0, 0));
                if self.na_allocated_suffixes.contains(&suffix) {
                    proof {
                        assert(s0 == *old(self));
                        assert(s0.na_pool_full());
                        assert(self.na_allocated_suffixes@ == s0.na_alloc_after_sweep(now));
                        assert(self.na_offered.view() == s0.na_offered_after_sweep(now));
                        assert(any_lapsed(s0.na_offered.view(), now));
                        assert(s0.na_alloc_after_sweep(now).len() >= cap);
                        assert(s0.na_alloc_after_sweep(now).contains(na_probe(start, cap, seed0, 0)));
                        assert(seed0 == spec_hash_duid(client_duid@));
                        assert(s0.na_range_capacity == cap);
                        assert(s0.na_pool_start == start);
                        let a1 = s0.na_alloc_after_sweep(now);
                        assert(a1.len() >= cap && a1.contains(na_probe(start, cap, spec_hash_duid(client_duid@), 0)));
                    }
                    return None;
                }
                self.record_na_offer(now, client_duid, suffix, hostname, mac, preferred_lifetime);
                proof {
                    assert(na_first_free(s0.na_alloc_after_sweep(now), start, cap, seed0, 0));
                }
                return Some(suffix);
            }
        }
        let ghost a1 = self.na_allocated_suffixes@;
        assert(a1 == s0.na_alloc_after_sweep(now));
        let ghost f = lemma_free_slot_u64(a1, start, cap);
        let ghost target = probe_target(seed0 as int, f as int, 0x1_0000_0000_0000_0000int);
        let ghost mut k: nat = 0;
        proof {
            vstd::arithmetic::div_mod::lemma_small_mod(seed0 as nat, 0x1_0000_0000_0000_0000nat);
            vstd::arithmetic::div_mod::lemma_small_mod(f as nat, 0x1_0000_0000_0000_0000nat);
            vstd::arithmetic::div_mod::lemma_small_mod(f as nat, cap as nat);
            if f < seed0 {
                vstd::arithmetic::div_mod::lemma_mod_add_multiples_vanish(f as int, 0x1_0000_0000_0000_0000int);
            }
            assert(na_probe(start, cap, seed0, target) == start + f);
        }
        loop
            invariant
                s0 == *old(self),
                s0.na_config is Some,
                s0.static_hit(mac) is None,
                !(s0.na_pool_full() && !any_lapsed(s0.na_offered.view(), now)),
                a1 == s0.na_alloc_after_sweep(now),
                seed0 == spec_hash_duid(client_duid@),
                !s0.na_offered.view().contains_key(client_duid@),
                self.wf(),
                self.same_setup(&s0),
                self.same_pd(&s0),
                self.na_allocated_suffixes@ == a1,
                self.na_offered.view() == s0.na_offered_after_sweep(now),
                !self.na_offered.view().contains_key(client_duid@),
                a1.len() < cap,
                cap == self.na_range_capacity,
                start == self.na_pool_start,
                cap > 0,
                k <= target,
                na_probe(start, cap, seed0, target) == start + f,
                !a1.contains((start + f) as u64),
                seed == (seed0 + k) % 0x1_0000_0000_0000_0000int,
                forall|j: nat| j < k ==> a1.contains(#[trigger] na_probe(start, cap, seed0, j)),
                preferred_lifetime == s0.na_config.unwrap().preferred_lifetime,
            decreases target - k,
        {
            let suffix = start + seed % cap;
            assert(suffix == na_probe(start, cap, seed0, k));
            if !self.na_allocated_suffixes.contains(&suffix) {
                self.record_na_offer(now, client_duid, suffix, hostname, mac, preferred_lifetime);
                proof {
                    assert(na_first_free(a1, start, cap, seed0, k));
                    let so = *old(self);
                    let a1e = so.na_alloc_after_sweep(now);
                    let seed_e = spec_hash_duid(client_duid@);
                    assert(na_first_free(a1e, so.na_pool_start, so.na_range_capacity, seed_e, k));
                    assert(Some(suffix) == Some(na_probe(so.na_pool_start, so.na_range_capacity, seed_e, k)));
                }
                return Some(suffix);
            }
            proof {
                lemma_seed_step_u64(seed0, k, seed);
                k = k + 1;
            }
            seed = seed.wrapping_add(1);
        }
    }

    /// Offers an IA_NA suffix to `client_duid`, by the server's clock: what
    /// `offer_na_suffix_at` does at the time the clock gave.
    pub fn offer_na_suffix(
        &mut self,
        client_duid: &[u8],
        mac: Option<MacAddr>,
        hostname: Option<String>,
    ) -> (r: Option<u64>)
        requires
            old(self).wf(),
        ensures
            final(self).wf(),
            final(self).same_setup(old(self)),
            final(self).same_pd(old(self)),
            old(self).na_config is None ==> r is None && final(self).same_na(old(self)),
            old(self).na_config is Some && old(self).na_offered.view().contains_key(client_duid@)
                ==> r == Some(old(self).na_offered.view()[client_duid@].suffix)
                && final(self).same_na(old(self)),
            r matches Some(suffix) ==> final(self).na_offered.view().contains_key(client_duid@)
                && final(self).na_offered.view()[client_duid@].suffix == suffix,
            exists|now: u64|
                na_offer_made(*old(self), *final(self), now, client_duid@, mac, hostname, r),
    {
        let now = elapsed_secs(&self.relative_boot_time);
        let r = self.offer_na_suffix_at(now, client_duid, mac, hostname);
        assert(na_offer_made(*old(self), *self, now, client_duid@, mac, hostname, r));
        r
    }
}


/// What offering an IA_NA lease to client `duid` (with `mac` and
/// `hostname`) at `now` did to the pool, from `s` to `f`, with answer `r`:
/// without IA_NA service nothing; a client that holds a lease keeps it and
/// gets its suffix; a client with a static binding gets the bound address
/// as a static lease under the configured lifetimes; otherwise, with no
/// range nothing; with a full pool and nothing lapsed nothing; else the
/// lapsed leases are swept and, unless the first probe is taken, the first
/// free suffix along the client's probe is offered for the short offer
/// lifetime.
pub open spec fn na_offer_made(
    s: DHCPv6Server,
    f: DHCPv6Server,
    now: u64,
    duid: Seq<u8>,
    mac: Option<MacAddr>,
    hostname: Option<String>,
    r: Option<u64>,
) -> bool {
    &&& s.na_config is None ==> r is None && f.same_na(&s)
    &&& s.na_config is Some && s.na_offered.view().contains_key(duid) ==> r == Some(
        s.na_offered.view()[duid].suffix,
    ) && f.same_na(&s)
    &&& s.na_config is Some && !s.na_offered.view().contains_key(duid) && s.static_hit(mac) is Some ==> {
        let conf = s.na_config.unwrap();
        let addr = s.static_hit(mac).unwrap();
        &&& r == Some(static_suffix(addr))
        &&& f.na_allocated_suffixes@ == s.na_allocated_suffixes@.insert(static_suffix(addr))
        &&& f.na_offered.view() == s.na_offered.view().insert(duid, f.na_offered.view()[duid])
        &&& na_cache_is(
            f.na_offered.view()[duid],
            duid,
            static_suffix(addr),
            hostname,
            mac,
            now,
            conf.valid_lifetime,
            conf.preferred_lifetime,
            true,
        )
    }
    &&& s.na_dynamic_case(duid, mac) && s.na_range_capacity == 0 ==> r is None && f.same_na(&s)
    &&& s.na_dynamic_case(duid, mac) && s.na_range_capacity > 0 && s.na_pool_full() && !any_lapsed(
        s.na_offered.view(),
        now,
    ) ==> r is None && f.same_na(&s)
    &&& s.na_dynamic_case(duid, mac) && s.na_range_capacity > 0 && s.na_pool_full() && any_lapsed(
        s.na_offered.view(),
        now,
    ) && s.na_first_probe_blocked(now, spec_hash_duid(duid)) ==> {
        &&& r is None
        &&& f.na_allocated_suffixes@ == s.na_alloc_after_sweep(now)
        &&& f.na_offered.view() == s.na_offered_after_sweep(now)
    }
    &&& s.na_dynamic_case(duid, mac) && s.na_range_capacity > 0 && !(s.na_pool_full() && !any_lapsed(
        s.na_offered.view(),
        now,
    )) && !s.na_first_probe_blocked(now, spec_hash_duid(duid)) ==> {
        let a1 = s.na_alloc_after_sweep(now);
        let seed = spec_hash_duid(duid);
        &&& r is Some
        &&& exists|k: nat|
            {
                &&& r == Some(na_probe(s.na_pool_start, s.na_range_capacity, seed, k))
                &&& na_first_free(a1, s.na_pool_start, s.na_range_capacity, seed, k)
                &&& a1.len() >= s.na_range_capacity ==> k == 0
            }
        &&& f.na_allocated_suffixes@ == a1.insert(r.unwrap())
        &&& f.na_offered.view() == s.na_offered_after_sweep(now).insert(duid, f.na_offered.view()[duid])
        &&& na_cache_is(
            f.na_offered.view()[duid],
            duid,
            r.unwrap(),
            hostname,
            mac,
            now,
            OFFER_VALID_TIME,
            min_u32(s.na_config.unwrap().preferred_lifetime, OFFER_VALID_TIME),
            false,
        )
    }
}

/// What offering an IA_PD lease to client `duid` at `now` did to the
/// pool, from `s` to `f`, with answer `r`: without IA_PD service nothing; a
/// client that holds a lease keeps it and gets its index; otherwise, with
/// no range nothing; with a full pool and nothing lapsed nothing; else the
/// lapsed leases are swept and, unless the first probe is taken, the first
/// free index along the client's probe is offered for the short offer
/// lifetime.
pub open spec fn pd_offer_made(s: DHCPv6Server, f: DHCPv6Server, now: u64, duid: Seq<u8>, r: Option<u32>) -> bool {
    &&& s.pd_config is None ==> r is None && f.same_pd(&s)
    &&& s.pd_config is Some && s.pd_offered.view().contains_key(duid) ==> r == Some(
        s.pd_offered.view()[duid].sub_index,
    ) && f.same_pd(&s)
    &&& s.pd_dynamic_case(duid) && s.pd_range_capacity == 0 ==> r is None && f.same_pd(&s)
    &&& s.pd_dynamic_case(duid) && s.pd_range_capacity > 0 && s.pd_pool_full() && !any_lapsed(
        s.pd_offered.view(),
        now,
    ) ==> r is None && f.same_pd(&s)
    &&& s.pd_dynamic_case(duid) && s.pd_range_capacity > 0 && s.pd_pool_full() && any_lapsed(
        s.pd_offered.view(),
        now,
    ) && s.pd_first_probe_blocked(now, spec_hash_duid(duid) as u32) ==> {
        &&& r is None
        &&& f.pd_allocated_indices@ == s.pd_alloc_after_sweep(now)
        &&& f.pd_offered.view() == s.pd_offered_after_sweep(now)
    }
    &&& s.pd_dynamic_case(duid) && s.pd_range_capacity > 0 && !(s.pd_pool_full() && !any_lapsed(
        s.pd_offered.view(),
        now,
    )) && !s.pd_first_probe_blocked(now, spec_hash_duid(duid) as u32) ==> {
        let a1 = s.pd_alloc_after_sweep(now);
        let seed = spec_hash_duid(duid) as u32;
        &&& r is Some
        &&& exists|k: nat|
            {
                &&& r == Some(pd_probe(s.pd_pool_start, s.pd_range_capacity, seed, k))
                &&& pd_first_free(a1, s.pd_pool_start, s.pd_range_capacity, seed, k)
                &&& a1.len() >= s.pd_range_capacity ==> k == 0
            }
        &&& f.pd_allocated_indices@ == a1.insert(r.unwrap())
        &&& f.pd_offered.view() == s.pd_offered_after_sweep(now).insert(duid, f.pd_offered.view()[duid])
        &&& pd_cache_is(
            f.pd_offered.view()[duid],
            duid,
            r.unwrap(),
            now,
            min_u32(s.pd_config.unwrap().preferred_lifetime, OFFER_VALID_TIME),
        )
    }
}

impl DHCPv6Server {
    /// Confirms the IA_NA lease of `client_duid` at `now` (REQUEST, RENEW,
    /// REBIND): it is stamped with `now` and gets the configured preferred
    /// lifetime, and, unless static, the configured valid lifetime. Answers
    /// whether the client held a lease.
    pub fn confirm_na_at(&mut self, now: u64, client_duid: &[u8]) -> (r: bool)
        requires
            old(self).wf(),
        ensures
            final(self).wf(),
            final(self).same_setup(old(self)),
            final(self).same_pd(old(self)),
            final(self).na_allocated_suffixes@ == old(self).na_allocated_suffixes@,
            r == (old(self).na_config is Some && old(self).na_offered.view().contains_key(
                client_duid@,
            )),
            !r ==> final(self).same_na(old(self)),
            r ==> {
                let c0 = old(self).na_offered.view()[client_duid@];
                let c = final(self).na_offered.view()[client_duid@];
                let conf = old(self).na_config.unwrap();
                &&& final(self).na_offered.view() == old(self).na_offered.view().insert(
                    client_duid@,
                    c,
                )
                &&& c.suffix == c0.suffix
                &&& c.hostname == c0.hostname
                &&& c.mac == c0.mac
                &&& c.duid_hex == c0.duid_hex
                &&& c.is_static == c0.is_static
                &&& c.relative_offer_time == now
                &&& c.valid_time == if c0.is_static {
                    c0.valid_time
                } else {
                    conf.valid_lifetime
                }
                &&& c.preferred_time == conf.preferred_lifetime
            },
    {
        let na_config = match self.na_config {
            Some(c) => c,
            None => return false,
        };
        let ghost m0 = self.na_offered.view();
        match self.na_offered.remove(client_duid) {
            Some(mut cache) => {
                let ghost c0 = cache;
                if !cache.is_static {
                    cache.valid_time = na_config.valid_lifetime;
                }
                cache.preferred_time = na_config.preferred_lifetime;
                cache.relative_offer_time = now;
                let ghost c = cache;
                self.na_offered.insert(vstd::slice::slice_to_vec(client_duid), cache);
                proof {
                    let m = self.na_offered.view();
                    assert(m =~= m0.insert(client_duid@, c));
                    assert forall|k1: Seq<u8>, k2: Seq<u8>|
                        #[trigger] m.contains_key(k1) && #[trigger] m.contains_key(k2) && k1 != k2
                            && !m[k1].is_static && !m[k2].is_static implies m[k1].suffix
                            != m[k2].suffix by {
                        assert(m0.contains_key(k1) && m0.contains_key(k2));
                    }
                    assert forall|k: Seq<u8>| #[trigger] m.contains_key(k) && !m[k].is_static implies {
                        &&& self.na_allocated_suffixes@.contains(m[k].suffix)
                        &&& self.na_pool_start <= m[k].suffix < self.na_pool_start
                            + self.na_range_capacity
                    } by {
                        assert(m0.contains_key(k));
                    }
                }
                true
            },
            None => {
                assert(m0.remove(client_duid@) =~= m0);
                false
            },
        }
    }
}

/// What confirming the IA_NA lease of `duid` at `now` did, from `s` to
/// `f`, with answer `r`: where it is held (and IA_NA is served) the lease
/// keeps its suffix, MAC, name and kind, is stamped `now` and gets the
/// configured preferred lifetime, and the configured valid lifetime unless
/// it is static; elsewise nothing changes. The marked suffixes stay.
pub open spec fn na_confirmed(s: DHCPv6Server, f: DHCPv6Server, now: u64, duid: Seq<u8>, r: bool) -> bool {
    &&& f.na_allocated_suffixes@ == s.na_allocated_suffixes@
    &&& r == (s.na_config is Some && s.na_offered.view().contains_key(duid))
    &&& !r ==> f.same_na(&s)
    &&& r ==> {
        let c0 = s.na_offered.view()[duid];
        let c = f.na_offered.view()[duid];
        let conf = s.na_config.unwrap();
        &&& f.na_offered.view() == s.na_offered.view().insert(duid, c)
        &&& c.suffix == c0.suffix
        &&& c.hostname == c0.hostname
        &&& c.mac == c0.mac
        &&& c.duid_hex == c0.duid_hex
        &&& c.is_static == c0.is_static
        &&& c.relative_offer_time == now
        &&& c.valid_time == if c0.is_static {
            c0.valid_time
        } else {
            conf.valid_lifetime
        }
        &&& c.preferred_time == conf.preferred_lifetime
    }
}

/// What confirming the IA_PD lease of `duid` at `now` did, from `s` to
/// `f`, with answer `r`: where it is held (and IA_PD is served) the lease
/// keeps its index, client address and routes, is stamped `now` and gets
/// the configured lifetimes; elsewise nothing changes. The marked indices
/// stay.
pub open spec fn pd_confirmed(s: DHCPv6Server, f: DHCPv6Server, now: u64, duid: Seq<u8>, r: bool) -> bool {
    &&& f.pd_allocated_indices@ == s.pd_allocated_indices@
    &&& r == (s.pd_config is Some && s.pd_offered.view().contains_key(duid))
    &&& !r ==> f.same_pd(&s)
    &&& r ==> {
        let c0 = s.pd_offered.view()[duid];
        let c = f.pd_offered.view()[duid];
        let conf = s.pd_config.unwrap();
        &&& f.pd_offered.view() == s.pd_offered.view().insert(duid, c)
        &&& c.sub_index == c0.sub_index
        &&& c.duid_hex == c0.duid_hex
        &&& c.client_addr == c0.client_addr
        &&& c.active_routes == c0.active_routes
        &&& c.relative_offer_time == now
        &&& c.valid_time == conf.valid_lifetime
        &&& c.preferred_time == conf.preferred_lifetime
    }
}

impl DHCPv6Server {
    /// Confirms the IA_NA lease of `client_duid`, by the server's clock: what
    /// `confirm_na_at` does at the time the clock gave.
    pub fn confirm_na(&mut self, client_duid: &[u8]) -> (r: bool)
        requires
            old(self).wf(),
        ensures
            final(self).wf(),
            final(self).same_setup(old(self)),
            final(self).same_pd(old(self)),
            r == (old(self).na_config is Some && old(self).na_offered.view().contains_key(
                client_duid@,
            )),
            final(self).na_offered.view().dom() == old(self).na_offered.view().dom(),
            exists|now: u64| na_confirmed(*old(self), *final(self), now, client_duid@, r),
    {
        let now = elapsed_secs(&self.relative_boot_time);
        let r = self.confirm_na_at(now, client_duid);
        assert(na_confirmed(*old(self), *self, now, client_duid@, r));
        r
    }

    /// Releases the IA_NA lease of `client_duid`; a dynamic lease frees its
    /// suffix, a static one leaves it marked.
    pub fn release_na(&mut self, client_duid: &[u8])
        requires
            old(self).wf(),
        ensures
            final(self).wf(),
            final(self).same_setup(old(self)),
            final(self).same_pd(old(self)),
            final(self).na_offered.view() == old(self).na_offered.view().remove(client_duid@),
            final(self).na_allocated_suffixes@ == if old(self).na_offered.view().contains_key(
                client_duid@,
            ) && !old(self).na_offered.view()[client_duid@].is_static {
                old(self).na_allocated_suffixes@.remove(
                    old(self).na_offered.view()[client_duid@].suffix,
                )
            } else {
                old(self).na_allocated_suffixes@
            },
    {
        let ghost m0 = self.na_offered.view();
        if let Some(cache) = self.na_offered.remove(client_duid) {
            if !cache.is_static {
                let _ = self.na_allocated_suffixes.remove(&cache.suffix);
            }
        }
        proof {
            let m = self.na_offered.view();
            assert forall|k: Seq<u8>| #[trigger] m.contains_key(k) && !m[k].is_static implies {
                &&& self.na_allocated_suffixes@.contains(m[k].suffix)
                &&& self.na_pool_start <= m[k].suffix < self.na_pool_start + self.na_range_capacity
            } by {
                assert(m0.contains_key(k));
            }
            assert forall|k1: Seq<u8>, k2: Seq<u8>|
                #[trigger] m.contains_key(k1) && #[trigger] m.contains_key(k2) && k1 != k2
                    && !m[k1].is_static && !m[k2].is_static implies m[k1].suffix != m[k2].suffix by {
                assert(m0.contains_key(k1) && m0.contains_key(k2));
            }
        }
    }

    /// Drops the IA_PD leases that have run out at `now`, frees their
    /// indices, and hands the dropped leases back.
    pub fn clean_expired_pd_at(&mut self, now: u64) -> (removed: Vec<DHCPv6PDCache>)
        requires
            old(self).wf(),
        ensures
            final(self).wf(),
            final(self).same_setup(old(self)),
            final(self).same_na(old(self)),
            final(self).pd_offered.view() == kept_part(old(self).pd_offered.view(), now),
            final(self).pd_allocated_indices@ == old(self).pd_allocated_indices@.difference(
                pd_freed(old(self).pd_offered.view(), now),
            ),
            forall|i: int|
                0 <= i < removed@.len() ==> crate::lease_table::is_lapsed_value(
                    old(self).pd_offered.view(),
                    now,
                    #[trigger] removed@[i],
                ),
            forall|k: Seq<u8>| #[trigger]
                crate::lease_table::lapsed_part(old(self).pd_offered.view(), now).contains_key(k)
                    ==> removed@.contains(old(self).pd_offered.view()[k]),
            removed@.len() > 0 <==> any_lapsed(old(self).pd_offered.view(), now),
    {
        let ghost m0 = self.pd_offered.view();
        let ghost a0 = self.pd_allocated_indices@;
        let ghost s0 = *self;
        let removed = self.pd_offered.remove_lapsed(now);
        let ghost s1 = *self;
        let mut i: usize = 0;
        while i < removed.len()
            invariant
                i <= removed@.len(),
                self.relative_boot_time == s0.relative_boot_time,
                self.server_duid == s0.server_duid,
                self.static_bindings == s0.static_bindings,
                self.na_config == s0.na_config,
                self.na_pool_start == s0.na_pool_start,
                self.na_range_capacity == s0.na_range_capacity,
                self.pd_config == s0.pd_config,
                self.pd_pool_start == s0.pd_pool_start,
                self.pd_range_capacity == s0.pd_range_capacity,
                self.na_allocated_suffixes == s0.na_allocated_suffixes,
                self.na_offered == s0.na_offered,
                self.pd_offered == s1.pd_offered,
                self.pd_allocated_indices@.finite(),
                self.pd_offered.view() == kept_part(m0, now),
                self.pd_offered.wf(),
                forall|r: int|
                    0 <= r < removed@.len() ==> crate::lease_table::is_lapsed_value(
                        m0,
                        now,
                        #[trigger] removed@[r],
                    ),
                self.pd_allocated_indices@ == a0.difference(
                    Set::new(|s: u32| exists|j: int| 0 <= j < i && (#[trigger] removed@[j]).sub_index == s),
                ),
            decreases removed@.len() - i,
        {
            let _ = self.pd_allocated_indices.remove(&removed[i].sub_index);
            proof {
                let next = Set::new(|s: u32| exists|j: int| 0 <= j < i + 1 && (#[trigger] removed@[j]).sub_index == s);
                let prev = Set::new(|s: u32| exists|j: int| 0 <= j < i && (#[trigger] removed@[j]).sub_index == s);
                assert(next =~= prev.insert(removed@[i as int].sub_index));
                assert(self.pd_allocated_indices@ =~= a0.difference(next));
            }
            i += 1;
        }
        proof {
            let got = Set::new(|s: u32| exists|j: int| 0 <= j < removed@.len() && (#[trigger] removed@[j]).sub_index == s);
            assert forall|s: u32| got.contains(s) implies pd_freed(m0, now).contains(s) by {
                let j = choose|j: int| 0 <= j < removed@.len() && (#[trigger] removed@[j]).sub_index == s;
                assert(crate::lease_table::is_lapsed_value(m0, now, removed@[j]));
            }
            assert forall|s: u32| pd_freed(m0, now).contains(s) implies got.contains(s) by {
                let k = choose|k: Seq<u8>| #[trigger] m0.contains_key(k) && m0[k].lapsed(now) && m0[k].sub_index == s;
                assert(crate::lease_table::lapsed_part(m0, now).contains_key(k));
                assert(removed@.contains(m0[k]));
                let j = choose|j: int| 0 <= j < removed@.len() && removed@[j] == m0[k];
                assert(removed@[j].sub_index == s);
            }
            assert(got =~= pd_freed(m0, now));
            if any_lapsed(m0, now) {
                let k = choose|k: Seq<u8>| #[trigger] m0.contains_key(k) && m0[k].lapsed(now);
                assert(crate::lease_table::lapsed_part(m0, now).contains_key(k));
                assert(removed@.contains(m0[k]));
            }
            if removed@.len() > 0 {
                assert(crate::lease_table::is_lapsed_value(m0, now, removed@[0]));
            }
            let m = self.pd_offered.view();
            assert forall|k: Seq<u8>| #[trigger] m.contains_key(k) implies {
                &&& self.pd_allocated_indices@.contains(m[k].sub_index)
                &&& self.pd_pool_start <= m[k].sub_index < self.pd_pool_start + self.pd_range_capacity
            } by {
                assert(m0.contains_key(k) && m0[k] == m[k]);
                if pd_freed(m0, now).contains(m[k].sub_index) {
                    let k2 = choose|k2: Seq<u8>| #[trigger] m0.contains_key(k2) && m0[k2].lapsed(now) && m0[k2].sub_index == m[k].sub_index;
                    assert(m0.contains_key(k2));
                }
            }
            assert forall|k1: Seq<u8>, k2: Seq<u8>|
                #[trigger] m.contains_key(k1) && #[trigger] m.contains_key(k2) && k1 != k2
                    implies m[k1].sub_index != m[k2].sub_index by {
                assert(m0.contains_key(k1) && m0[k1] == m[k1]);
                assert(m0.contains_key(k2) && m0[k2] == m[k2]);
            }
        }
        removed
    }

    /// Drops the IA_PD leases that have run out by the server's clock.
    pub fn clean_expired_pd(&mut self) -> (removed: Vec<DHCPv6PDCache>)
        requires
            old(self).wf(),
        ensures
            final(self).wf(),
            final(self).same_setup(old(self)),
            final(self).same_na(old(self)),
            exists|now: u64|
                {
                    &&& final(self).pd_offered.view() == kept_part(old(self).pd_offered.view(), now)
                    &&& final(self).pd_allocated_indices@
                        == old(self).pd_allocated_indices@.difference(
                        pd_freed(old(self).pd_offered.view(), now),
                    )
                    &&& removed@.len() > 0 <==> any_lapsed(old(self).pd_offered.view(), now)
                },
    {
        let now = elapsed_secs(&self.relative_boot_time);
        self.clean_expired_pd_at(now)
    }

    /// The IA_PD pool counts as full: as many indices are marked as it has.
    pub open spec fn pd_pool_full(&self) -> bool {
        self.pd_allocated_indices@.len() >= self.pd_range_capacity
    }

    /// The marked indices once a full pool has been swept at `now`.
    pub open spec fn pd_alloc_after_sweep(&self, now: u64) -> Set<u32> {
        if self.pd_pool_full() {
            self.pd_allocated_indices@.difference(pd_freed(self.pd_offered.view(), now))
        } else {
            self.pd_allocated_indices@
        }
    }

    /// The IA_PD leases once a full pool has been swept at `now`.
    pub open spec fn pd_offered_after_sweep(&self, now: u64) -> Map<Seq<u8>, DHCPv6PDCache> {
        if self.pd_pool_full() {
            kept_part(self.pd_offered.view(), now)
        } else {
            self.pd_offered.view()
        }
    }

    /// An offer to `duid` goes to the probe: IA_PD is on and the client
    /// holds no offer.
    pub open spec fn pd_dynamic_case(&self, duid: Seq<u8>) -> bool {
        &&& self.pd_config is Some
        &&& !self.pd_offered.view().contains_key(duid)
    }

    /// After the sweep the pool still counts as full and the first probe
    /// from `seed` is taken.
    pub open spec fn pd_first_probe_blocked(&self, now: u64, seed: u32) -> bool {
        let a1 = self.pd_alloc_after_sweep(now);
        &&& a1.len() >= self.pd_range_capacity
        &&& a1.contains(pd_probe(self.pd_pool_start, self.pd_range_capacity, seed, 0))
    }

    fn record_pd_offer(&mut self, now: u64, client_duid: &[u8], sub_index: u32, preferred: u32)
        requires
            old(self).wf(),
            !old(self).pd_allocated_indices@.contains(sub_index),
            old(self).pd_pool_start <= sub_index < old(self).pd_pool_start
                + old(self).pd_range_capacity,
            !old(self).pd_offered.view().contains_key(client_duid@),
        ensures
            final(self).wf(),
            final(self).same_setup(old(self)),
            final(self).same_na(old(self)),
            final(self).pd_allocated_indices@ == old(self).pd_allocated_indices@.insert(sub_index),
            final(self).pd_offered.view() == old(self).pd_offered.view().insert(
                client_duid@,
                final(self).pd_offered.view()[client_duid@],
            ),
            pd_cache_is(
                final(self).pd_offered.view()[client_duid@],
                client_duid@,
                sub_index,
                now,
                min_u32(preferred, OFFER_VALID_TIME),
            ),
    {
        let ghost m0 = self.pd_offered.view();
        let _ = self.pd_allocated_indices.insert(sub_index);
        let preferred_time = if preferred <= OFFER_VALID_TIME {
            preferred
        } else {
            OFFER_VALID_TIME
        };
        let cache = DHCPv6PDCache {
            sub_index,
            duid_hex: duid_to_hex(client_duid),
            relative_offer_time: now,
            valid_time: OFFER_VALID_TIME,
            preferred_time,
            client_addr: 0,
            active_routes: Vec::new(),
        };
        let ghost c = cache;
        self.pd_offered.insert(vstd::slice::slice_to_vec(client_duid), cache);
        proof {
            let m = self.pd_offered.view();
            assert(m[client_duid@] == c);
            assert(m =~= m0.insert(client_duid@, m[client_duid@]));
            assert forall|k1: Seq<u8>, k2: Seq<u8>|
                #[trigger] m.contains_key(k1) && #[trigger] m.contains_key(k2) && k1 != k2
                    implies m[k1].sub_index != m[k2].sub_index by {
                if k1 != client_duid@ && k2 != client_duid@ {
                    assert(m0.contains_key(k1) && m0.contains_key(k2));
                } else if k1 == client_duid@ {
                    assert(m0.contains_key(k2));
                } else {
                    assert(m0.contains_key(k1));
                }
            }
            assert forall|k: Seq<u8>| #[trigger] m.contains_key(k) implies {
                &&& self.pd_allocated_indices@.contains(m[k].sub_index)
                &&& self.pd_pool_start <= m[k].sub_index < self.pd_pool_start + self.pd_range_capacity
            } by {
                if k != client_duid@ {
                    assert(m0.contains_key(k));
                }
            }
        }
    }

    /// Offers an IA_PD sub-prefix index to `client_duid` at time `now`: the
    /// index it holds, or the first free one along the probe that starts at
    /// the low 32 bits of the hash of its DUID, with the same sweep as for
    /// IA_NA when the pool counts as full.
    pub fn offer_pd_index_at(&mut self, now: u64, client_duid: &[u8]) -> (r: Option<u32>)
        requires
            old(self).wf(),
        ensures
            final(self).wf(),
            final(self).same_setup(old(self)),
            final(self).same_na(old(self)),
            pd_offer_made(*old(self), *final(self), now, client_duid@, r),
    {
        let pd_config = match self.pd_config {
            Some(c) => c,
            None => return None,
        };
        let preferred_lifetime = pd_config.preferred_lifetime;
        if let Some(cache) = self.pd_offered.get(client_duid) {
            return Some(cache.sub_index);
        }
        if self.pd_range_capacity == 0 {
            return None;
        }
        let cap = self.pd_range_capacity;
        let start = self.pd_pool_start;
        let mut seed = #[verifier::truncate] (hash_duid(client_duid) as u32);
        let ghost seed0 = seed;
        let ghost s0 = *self;
        proof {
            vstd::arithmetic::div_mod::lemma_small_mod(seed0 as nat, 0x1_0000_0000nat);
        }
        if self.pd_allocated_indices.len() as u64 >= cap as u64 {
            let expired = self.clean_expired_pd_at(now);
            if expired.len() == 0 {
                proof {
                    let m0 = s0.pd_offered.view();
                    assert(kept_part(m0, now) =~= m0);
                    assert(pd_freed(m0, now) =~= Set::empty());
                    assert(self.pd_allocated_indices@ =~= s0.pd_allocated_indices@);
                }
                return None;
            }
            if self.pd_allocated_indices.len() as u64 >= cap as u64 {
                let sub_index = start + seed % cap;
                assert(sub_index == pd_probe(start, cap, seed0, 0));
                if self.pd_allocated_indices.contains(&sub_index) {
                    return None;
                }
                self.record_pd_offer(now, client_duid, sub_index, preferred_lifetime);
                proof {
                    assert(pd_first_free(s0.pd_alloc_after_sweep(now), start, cap, seed0, 0));
                }
                return Some(sub_index);
            }
        }
        let ghost a1 = self.pd_allocated_indices@;
        assert(a1 == s0.pd_alloc_after_sweep(now));
        let ghost f = lemma_free_slot_u32(a1, start, cap);
        let ghost target = probe_target(seed0 as int, f as int, 0x1_0000_0000int);
        let ghost mut k: nat = 0;
        proof {
            vstd::arithmetic::div_mod::lemma_small_mod(f as nat, 0x1_0000_0000nat);
            vstd::arithmetic::div_mod::lemma_small_mod(f as nat, cap as nat);
            if f < seed0 {
                vstd::arithmetic::div_mod::lemma_mod_add_multiples_vanish(f as int, 0x1_0000_0000int);
            }
            assert(pd_probe(start, cap, seed0, target) == start + f);
        }
        loop
            invariant
                s0 == *old(self),
                s0.pd_config is Some,
                !s0.pd_offered.view().contains_key(client_duid@),
                !(s0.pd_pool_full() && !any_lapsed(s0.pd_offered.view(), now)),
                a1 == s0.pd_alloc_after_sweep(now),
                seed0 == spec_hash_duid(client_duid@) as u32,
                self.wf(),
                self.same_setup(&s0),
                self.same_na(&s0),
                self.pd_allocated_indices@ == a1,
                self.pd_offered.view() == s0.pd_offered_after_sweep(now),
                !self.pd_offered.view().contains_key(client_duid@),
                a1.len() < cap,
                cap == self.pd_range_capacity,
                start == self.pd_pool_start,
                cap > 0,
                k <= target,
                pd_probe(start, cap, seed0, target) == start + f,
                !a1.contains((start + f) as u32),
                seed == (seed0 + k) % 0x1_0000_0000int,
                forall|j: nat| j < k ==> a1.contains(#[trigger] pd_probe(start, cap, seed0, j)),
                preferred_lifetime == s0.pd_config.unwrap().preferred_lifetime,
            decreases target - k,
        {
            let sub_index = start + seed % cap;
            assert(sub_index == pd_probe(start, cap, seed0, k));
            if !self.pd_allocated_indices.contains(&sub_index) {
                self.record_pd_offer(now, client_duid, sub_index, preferred_lifetime);
                proof {
                    let so = *old(self);
                    let a1e = so.pd_alloc_after_sweep(now);
                    let seed_e = spec_hash_duid(client_duid@) as u32;
                    assert(pd_first_free(a1e, so.pd_pool_start, so.pd_range_capacity, seed_e, k));
                    assert(Some(sub_index) == Some(pd_probe(so.pd_pool_start, so.pd_range_capacity, seed_e, k)));
                }
                return Some(sub_index);
            }
            proof {
                lemma_seed_step_u32(seed0, k, seed);
                k = k + 1;
            }
            seed = seed.wrapping_add(1);
        }
    }

    /// Offers an IA_PD sub-prefix index to `client_duid`, by the server's
    /// clock: what `offer_pd_index_at` does at the time the clock gave.
    pub fn offer_pd_index(&mut self, client_duid: &[u8]) -> (r: Option<u32>)
        requires
            old(self).wf(),
        ensures
            final(self).wf(),
            final(self).same_setup(old(self)),
            final(self).same_na(old(self)),
            old(self).pd_config is None ==> r is None && final(self).same_pd(old(self)),
            old(self).pd_config is Some && old(self).pd_offered.view().contains_key(client_duid@)
                ==> r == Some(old(self).pd_offered.view()[client_duid@].sub_index)
                && final(self).same_pd(old(self)),
            r matches Some(idx) ==> final(self).pd_offered.view().contains_key(client_duid@)
                && final(self).pd_offered.view()[client_duid@].sub_index == idx,
            exists|now: u64| pd_offer_made(*old(self), *final(self), now, client_duid@, r),
    {
        let now = elapsed_secs(&self.relative_boot_time);
        let r = self.offer_pd_index_at(now, client_duid);
        assert(pd_offer_made(*old(self), *self, now, client_duid@, r));
        r
    }

    /// Confirms the IA_PD lease of `client_duid` at `now`: it is stamped
    /// with `now` and gets the configured lifetimes. Answers whether the
    /// client held a lease.
    pub fn confirm_pd_at(&mut self, now: u64, client_duid: &[u8]) -> (r: bool)
        requires
            old(self).wf(),
        ensures
            final(self).wf(),
            final(self).same_setup(old(self)),
            final(self).same_na(old(self)),
            final(self).pd_allocated_indices@ == old(self).pd_allocated_indices@,
            r == (old(self).pd_config is Some && old(self).pd_offered.view().contains_key(
                client_duid@,
            )),
            !r ==> final(self).same_pd(old(self)),
            r ==> {
                let c0 = old(self).pd_offered.view()[client_duid@];
                let c = final(self).pd_offered.view()[client_duid@];
                let conf = old(self).pd_config.unwrap();
                &&& final(self).pd_offered.view() == old(self).pd_offered.view().insert(
                    client_duid@,
                    c,
                )
                &&& c.sub_index == c0.sub_index
                &&& c.duid_hex == c0.duid_hex
                &&& c.client_addr == c0.client_addr
                &&& c.active_routes == c0.active_routes
                &&& c.relative_offer_time == now
                &&& c.valid_time == conf.valid_lifetime
                &&& c.preferred_time == conf.preferred_lifetime
            },
    {
        let pd_config = match self.pd_config {
            Some(c) => c,
            None => return false,
        };
        let ghost m0 = self.pd_offered.view();
        match self.pd_offered.remove(client_duid) {
            Some(mut cache) => {
                cache.valid_time = pd_config.valid_lifetime;
                cache.preferred_time = pd_config.preferred_lifetime;
                cache.relative_offer_time = now;
                let ghost c = cache;
                self.pd_offered.insert(vstd::slice::slice_to_vec(client_duid), cache);
                proof {
                    let m = self.pd_offered.view();
                    assert(m =~= m0.insert(client_duid@, c));
                    assert forall|k1: Seq<u8>, k2: Seq<u8>|
                        #[trigger] m.contains_key(k1) && #[trigger] m.contains_key(k2) && k1 != k2
                            implies m[k1].sub_index != m[k2].sub_index by {
                        assert(m0.contains_key(k1) && m0.contains_key(k2));
                    }
                    assert forall|k: Seq<u8>| #[trigger] m.contains_key(k) implies {
                        &&& self.pd_allocated_indices@.contains(m[k].sub_index)
                        &&& self.pd_pool_start <= m[k].sub_index < self.pd_pool_start
                            + self.pd_range_capacity
                    } by {
                        assert(m0.contains_key(k));
                    }
                }
                true
            },
            None => {
                assert(m0.remove(client_duid@) =~= m0);
                false
            },
        }
    }

    /// Confirms the IA_PD lease of `client_duid`, by the server's clock: what
    /// `confirm_pd_at` does at the time the clock gave.
    pub fn confirm_pd(&mut self, client_duid: &[u8]) -> (r: bool)
        requires
            old(self).wf(),
        ensures
            final(self).wf(),
            final(self).same_setup(old(self)),
            final(self).same_na(old(self)),
            r == (old(self).pd_config is Some && old(self).pd_offered.view().contains_key(
                client_duid@,
            )),
            final(self).pd_offered.view().dom() == old(self).pd_offered.view().dom(),
            exists|now: u64| pd_confirmed(*old(self), *final(self), now, client_duid@, r),
    {
        let now = elapsed_secs(&self.relative_boot_time);
        let r = self.confirm_pd_at(now, client_duid);
        assert(pd_confirmed(*old(self), *self, now, client_duid@, r));
        r
    }

    /// Releases the IA_PD lease of `client_duid`, frees its index and hands
    /// the lease back.
    pub fn release_pd(&mut self, client_duid: &[u8]) -> (r: Option<DHCPv6PDCache>)
        requires
            old(self).wf(),
        ensures
            final(self).wf(),
            final(self).same_setup(old(self)),
            final(self).same_na(old(self)),
            final(self).pd_offered.view() == old(self).pd_offered.view().remove(client_duid@),
            match r {
                Some(c) => old(self).pd_offered.view().contains_key(client_duid@) && c
                    == old(self).pd_offered.view()[client_duid@]
                    && final(self).pd_allocated_indices@ == old(self).pd_allocated_indices@.remove(c.sub_index),
                None => !old(self).pd_offered.view().contains_key(client_duid@)
                    && final(self).pd_allocated_indices@ == old(self).pd_allocated_indices@,
            },
    {
        let ghost m0 = self.pd_offered.view();
        let r = self.pd_offered.remove(client_duid);
        if let Some(cache) = &r {
            let _ = self.pd_allocated_indices.remove(&cache.sub_index);
        }
        proof {
            let m = self.pd_offered.view();
            assert forall|k: Seq<u8>| #[trigger] m.contains_key(k) implies {
                &&& self.pd_allocated_indices@.contains(m[k].sub_index)
                &&& self.pd_pool_start <= m[k].sub_index < self.pd_pool_start + self.pd_range_capacity
            } by {
                assert(m0.contains_key(k));
            }
            assert forall|k1: Seq<u8>, k2: Seq<u8>|
                #[trigger] m.contains_key(k1) && #[trigger] m.contains_key(k2) && k1 != k2
                    implies m[k1].sub_index != m[k2].sub_index by {
                assert(m0.contains_key(k1) && m0.contains_key(k2));
            }
        }
        r
    }
}

/// One IA_NA lease as the status page shows it.
#[derive(Debug)]
pub struct DHCPv6AddressItem {
    pub duid: Option<String>,
    pub mac: Option<MacAddr>,
    pub ip: u128,
    pub hostname: Option<String>,
    pub relative_active_time: u64,
    pub preferred_lifetime: u32,
    pub valid_lifetime: u32,
    pub is_static: bool,
}

/// One IA_PD lease as the status page shows it.
#[derive(Debug)]
pub struct DHCPv6PrefixItem {
    pub duid: Option<String>,
    pub prefix: u128,
    pub prefix_len: u8,
    pub relative_active_time: u64,
    pub preferred_lifetime: u32,
    pub valid_lifetime: u32,
}

/// The leases of a DHCPv6 server, as the status page shows them.
#[derive(Debug)]
pub struct DHCPv6OfferInfo {
    pub relative_boot_time: u64,
    pub offered_addresses: Vec<DHCPv6AddressItem>,
    pub delegated_prefixes: Vec<DHCPv6PrefixItem>,
}

/// The static prefixes whose subnet is no longer than `max_len`, as
/// (prefix, length) pairs, in order.
pub open spec fn qualifying_static(infos: Seq<ICMPv6ConfigInfo>, max_len: u8) -> Seq<(u128, u8)>
    decreases infos.len(),
{
    if infos.len() == 0 {
        Seq::empty()
    } else {
        let rest = qualifying_static(infos.drop_last(), max_len);
        let i = infos.last();
        if i.sub_prefix_len <= max_len {
            rest.push((i.sub_prefix, i.sub_prefix_len))
        } else {
            rest
        }
    }
}

/// The runtime prefixes that are present and whose subnet is no longer than
/// `max_len`, in order.
pub open spec fn qualifying_runtime(srcs: Seq<Option<ICMPv6ConfigInfo>>, max_len: u8) -> Seq<(u128, u8)>
    decreases srcs.len(),
{
    if srcs.len() == 0 {
        Seq::empty()
    } else {
        let rest = qualifying_runtime(srcs.drop_last(), max_len);
        match srcs.last() {
            Some(i) => if i.sub_prefix_len <= max_len {
                rest.push((i.sub_prefix, i.sub_prefix_len))
            } else {
                rest
            },
            None => rest,
        }
    }
}

/// The delegation parents that are present, in order.
pub open spec fn present_parents(srcs: Seq<Option<PdDelegationParent>>) -> Seq<(u128, u8)>
    decreases srcs.len(),
{
    if srcs.len() == 0 {
        Seq::empty()
    } else {
        let rest = present_parents(srcs.drop_last());
        match srcs.last() {
            Some(p) => rest.push((p.prefix, p.prefix_len)),
            None => rest,
        }
    }
}

/// The delegation parents as (prefix, length) pairs.
pub open spec fn parent_pairs(ps: Seq<PdDelegationParent>) -> Seq<(u128, u8)> {
    ps.map_values(|p: PdDelegationParent| (p.prefix, p.prefix_len))
}

fn clone_opt_string(s: &Option<String>) -> (r: Option<String>)
    ensures
        r == *s,
{
    match s {
        Some(v) => Some(v.clone()),
        None => None,
    }
}

impl DHCPv6Server {
    /// The prefixes on which IA_NA addresses are offered: the static ones,
    /// then the runtime ones, that are no longer than the configured maximum.
    pub open spec fn qualifying_na(
        &self,
        runtime_sources: Seq<Option<ICMPv6ConfigInfo>>,
        static_infos: Seq<ICMPv6ConfigInfo>,
    ) -> Seq<(u128, u8)> {
        match self.na_config {
            None => Seq::empty(),
            Some(c) => qualifying_static(static_infos, c.max_prefix_len) + qualifying_runtime(
                runtime_sources,
                c.max_prefix_len,
            ),
        }
    }

    /// The base prefixes out of which IA_PD prefixes are delegated.
    pub open spec fn qualifying_pd(
        &self,
        pd_delegation_static: Seq<PdDelegationParent>,
        pd_delegation_dynamic: Seq<Option<PdDelegationParent>>,
    ) -> Seq<(u128, u8)> {
        match self.pd_config {
            None => Seq::empty(),
            Some(_) => parent_pairs(pd_delegation_static) + present_parents(pd_delegation_dynamic),
        }
    }

    /// The prefixes on which IA_NA addresses are offered. The runtime
    /// sources are the current values of the prefix-delegation watchers.
    pub fn get_qualifying_na_prefixes(
        &self,
        runtime_sources: &[Option<ICMPv6ConfigInfo>],
        static_infos: &[ICMPv6ConfigInfo],
    ) -> (r: Vec<(u128, u8)>)
        ensures
            r@ == self.qualifying_na(runtime_sources@, static_infos@),
    {
        let max_len = match self.na_config {
            Some(c) => c.max_prefix_len,
            None => return Vec::new(),
        };
        let mut result: Vec<(u128, u8)> = Vec::new();
        let mut i: usize = 0;
        while i < static_infos.len()
            invariant
                i <= static_infos@.len(),
                result@ == qualifying_static(static_infos@.take(i as int), max_len),
            decreases static_infos@.len() - i,
        {
            let info = static_infos[i];
            assert(static_infos@.take(i + 1).drop_last() =~= static_infos@.take(i as int));
            if info.sub_prefix_len <= max_len {
                result.push((info.sub_prefix, info.sub_prefix_len));
            }
            i += 1;
        }
        assert(static_infos@.take(static_infos@.len() as int) =~= static_infos@);
        let ghost from_static = result@;
        let mut j: usize = 0;
        while j < runtime_sources.len()
            invariant
                j <= runtime_sources@.len(),
                from_static == qualifying_static(static_infos@, max_len),
                result@ == from_static + qualifying_runtime(runtime_sources@.take(j as int), max_len),
            decreases runtime_sources@.len() - j,
        {
            assert(runtime_sources@.take(j + 1).drop_last() =~= runtime_sources@.take(j as int));
            match runtime_sources[j] {
                Some(info) => {
                    if info.sub_prefix_len <= max_len {
                        result.push((info.sub_prefix, info.sub_prefix_len));
                    }
                },
                None => {},
            }
            j += 1;
        }
        assert(runtime_sources@.take(runtime_sources@.len() as int) =~= runtime_sources@);
        result
    }

    /// The base prefixes out of which IA_PD prefixes are delegated: the
    /// static parents, then the dynamic ones that are present.
    pub fn get_qualifying_pd_prefixes(
        &self,
        pd_delegation_static: &[PdDelegationParent],
        pd_delegation_dynamic: &[Option<PdDelegationParent>],
    ) -> (r: Vec<(u128, u8)>)
        ensures
            r@ == self.qualifying_pd(pd_delegation_static@, pd_delegation_dynamic@),
    {
        if self.pd_config.is_none() {
            return Vec::new();
        }
        let mut result: Vec<(u128, u8)> = Vec::new();
        let mut i: usize = 0;
        while i < pd_delegation_static.len()
            invariant
                i <= pd_delegation_static@.len(),
                result@ == parent_pairs(pd_delegation_static@.take(i as int)),
            decreases pd_delegation_static@.len() - i,
        {
            let p = pd_delegation_static[i];
            result.push((p.prefix, p.prefix_len));
            assert(parent_pairs(pd_delegation_static@.take(i + 1)) =~= parent_pairs(
                pd_delegation_static@.take(i as int),
            ).push((p.prefix, p.prefix_len)));
            i += 1;
        }
        assert(pd_delegation_static@.take(pd_delegation_static@.len() as int)
            =~= pd_delegation_static@);
        let ghost from_static = result@;
        let mut j: usize = 0;
        while j < pd_delegation_dynamic.len()
            invariant
                j <= pd_delegation_dynamic@.len(),
                from_static == parent_pairs(pd_delegation_static@),
                result@ == from_static + present_parents(pd_delegation_dynamic@.take(j as int)),
            decreases pd_delegation_dynamic@.len() - j,
        {
            assert(pd_delegation_dynamic@.take(j + 1).drop_last() =~= pd_delegation_dynamic@.take(
                j as int,
            ));
            if let Some(p) = pd_delegation_dynamic[j] {
                result.push((p.prefix, p.prefix_len));
            }
            j += 1;
        }
        assert(pd_delegation_dynamic@.take(pd_delegation_dynamic@.len() as int)
            =~= pd_delegation_dynamic@);
        result
    }
}

/// `item` shows the IA_NA lease `c` on the prefix `on`.
pub open spec fn address_item_of(c: DHCPv6NACache, on: (u128, u8), item: DHCPv6AddressItem) -> bool {
    &&& item.duid == Some(c.duid_hex)
    &&& item.mac == c.mac
    &&& item.ip == combined_address(on.0, on.1, c.suffix)
    &&& item.hostname == c.hostname
    &&& item.relative_active_time == c.relative_offer_time
    &&& item.preferred_lifetime == c.preferred_time
    &&& item.valid_lifetime == c.valid_time
    &&& item.is_static == c.is_static
}

/// `item` shows the IA_PD lease `c` delegated out of `base`.
pub open spec fn prefix_item_of(
    c: DHCPv6PDCache,
    base: (u128, u8),
    delegate_len: u8,
    item: DHCPv6PrefixItem,
) -> bool {
    &&& item.duid == Some(c.duid_hex)
    &&& item.prefix == delegated_prefix(base.0, base.1, delegate_len, c.sub_index)
    &&& item.prefix_len == delegate_len
    &&& item.relative_active_time == c.relative_offer_time
    &&& item.preferred_lifetime == c.preferred_time
    &&& item.valid_lifetime == c.valid_time
}

impl DHCPv6Server {
    /// The leases as the status page shows them at time `now`: each IA_NA
    /// lease on the first qualifying prefix, each IA_PD lease out of the
    /// first delegation parent; none where there is no such prefix.
    pub fn get_offered_info_at(
        &self,
        now: u64,
        runtime_sources: &[Option<ICMPv6ConfigInfo>],
        static_infos: &[ICMPv6ConfigInfo],
        pd_delegation_static: &[PdDelegationParent],
        pd_delegation_dynamic: &[Option<PdDelegationParent>],
    ) -> (r: DHCPv6OfferInfo)
        requires
            self.wf(),
            self.na_offered.entry_seq().len() > 0 && self.qualifying_na(
                runtime_sources@,
                static_infos@,
            ).len() > 0 ==> self.qualifying_na(runtime_sources@, static_infos@)[0].1 > 0,
            self.pd_offered.entry_seq().len() > 0 && self.qualifying_pd(
                pd_delegation_static@,
                pd_delegation_dynamic@,
            ).len() > 0 ==> self.qualifying_pd(pd_delegation_static@, pd_delegation_dynamic@)[0].1
                > 0 && 0 < self.pd_config.unwrap().delegate_prefix_len <= 128,
        ensures
            r.relative_boot_time == now,
            ({
                let na = self.qualifying_na(runtime_sources@, static_infos@);
                let leases = self.na_offered.entry_seq();
                &&& na.len() == 0 ==> r.offered_addresses@.len() == 0
                &&& na.len() > 0 ==> r.offered_addresses@.len() == leases.len()
                &&& na.len() > 0 ==> forall|i: int|
                    0 <= i < leases.len() ==> address_item_of(
                        #[trigger] leases[i].1,
                        na[0],
                        r.offered_addresses@[i],
                    )
            }),
            ({
                let pd = self.qualifying_pd(pd_delegation_static@, pd_delegation_dynamic@);
                let leases = self.pd_offered.entry_seq();
                &&& pd.len() == 0 ==> r.delegated_prefixes@.len() == 0
                &&& pd.len() > 0 ==> r.delegated_prefixes@.len() == leases.len()
                &&& pd.len() > 0 ==> forall|i: int|
                    0 <= i < leases.len() ==> prefix_item_of(
                        #[trigger] leases[i].1,
                        pd[0],
                        self.pd_config.unwrap().delegate_prefix_len,
                        r.delegated_prefixes@[i],
                    )
            }),
    {
        let na_prefixes = self.get_qualifying_na_prefixes(runtime_sources, static_infos);
        let mut offered_addresses: Vec<DHCPv6AddressItem> = Vec::new();
        let leases = self.na_offered.as_slice();
        if na_prefixes.len() > 0 {
            let (prefix, prefix_len) = na_prefixes[0];
            let mut i: usize = 0;
            while i < leases.len()
                invariant
                    i <= leases@.len(),
                    leases@ == self.na_offered.entry_seq(),
                    na_prefixes@.len() > 0,
                    (prefix, prefix_len) == na_prefixes@[0],
                    leases@.len() > 0 ==> prefix_len > 0,
                    offered_addresses@.len() == i,
                    forall|j: int|
                        0 <= j < i ==> address_item_of(
                            #[trigger] leases@[j].1,
                            (prefix, prefix_len),
                            offered_addresses@[j],
                        ),
                decreases leases@.len() - i,
            {
                let cache = &leases[i].1;
                let item = DHCPv6AddressItem {
                    duid: Some(cache.duid_hex.clone()),
                    mac: cache.mac,
                    ip: combine_prefix_suffix(prefix, prefix_len, cache.suffix),
                    hostname: clone_opt_string(&cache.hostname),
                    relative_active_time: cache.relative_offer_time,
                    preferred_lifetime: cache.preferred_time,
                    valid_lifetime: cache.valid_time,
                    is_static: cache.is_static,
                };
                offered_addresses.push(item);
                i += 1;
            }
        }
        let pd_prefixes = self.get_qualifying_pd_prefixes(pd_delegation_static, pd_delegation_dynamic);
        let mut delegated_prefixes: Vec<DHCPv6PrefixItem> = Vec::new();
        let pd_leases = self.pd_offered.as_slice();
        if let Some(pd_config) = self.pd_config {
            if pd_prefixes.len() > 0 {
                let (base_prefix, base_prefix_len) = pd_prefixes[0];
                let delegate_len = pd_config.delegate_prefix_len;
                let mut i: usize = 0;
                while i < pd_leases.len()
                    invariant
                        i <= pd_leases@.len(),
                        pd_leases@ == self.pd_offered.entry_seq(),
                        pd_prefixes@.len() > 0,
                        (base_prefix, base_prefix_len) == pd_prefixes@[0],
                        delegate_len == self.pd_config.unwrap().delegate_prefix_len,
                        pd_leases@.len() > 0 ==> base_prefix_len > 0 && 0 < delegate_len <= 128,
                        delegated_prefixes@.len() == i,
                        forall|j: int|
                            0 <= j < i ==> prefix_item_of(
                                #[trigger] pd_leases@[j].1,
                                (base_prefix, base_prefix_len),
                                delegate_len,
                                delegated_prefixes@[j],
                            ),
                    decreases pd_leases@.len() - i,
                {
                    let cache = &pd_leases[i].1;
                    let item = DHCPv6PrefixItem {
                        duid: Some(cache.duid_hex.clone()),
                        prefix: compute_delegated_prefix(
                            base_prefix,
                            base_prefix_len,
                            delegate_len,
                            cache.sub_index,
                        ),
                        prefix_len: delegate_len,
                        relative_active_time: cache.relative_offer_time,
                        preferred_lifetime: cache.preferred_time,
                        valid_lifetime: cache.valid_time,
                    };
                    delegated_prefixes.push(item);
                    i += 1;
                }
            }
        }
        DHCPv6OfferInfo { relative_boot_time: now, offered_addresses, delegated_prefixes }
    }

    /// The leases as the status page shows them, by the server's clock.
    pub fn get_offered_info(
        &self,
        runtime_sources: &[Option<ICMPv6ConfigInfo>],
        static_infos: &[ICMPv6ConfigInfo],
        pd_delegation_static: &[PdDelegationParent],
        pd_delegation_dynamic: &[Option<PdDelegationParent>],
    ) -> (r: DHCPv6OfferInfo)
        requires
            self.wf(),
            self.na_offered.entry_seq().len() > 0 && self.qualifying_na(
                runtime_sources@,
                static_infos@,
            ).len() > 0 ==> self.qualifying_na(runtime_sources@, static_infos@)[0].1 > 0,
            self.pd_offered.entry_seq().len() > 0 && self.qualifying_pd(
                pd_delegation_static@,
                pd_delegation_dynamic@,
            ).len() > 0 ==> self.qualifying_pd(pd_delegation_static@, pd_delegation_dynamic@)[0].1
                > 0 && 0 < self.pd_config.unwrap().delegate_prefix_len <= 128,
        ensures
            r.offered_addresses@.len() == if self.qualifying_na(runtime_sources@, static_infos@).len() > 0 {
                self.na_offered.entry_seq().len()
            } else {
                0
            },
            r.delegated_prefixes@.len() == if self.qualifying_pd(
                pd_delegation_static@,
                pd_delegation_dynamic@,
            ).len() > 0 {
                self.pd_offered.entry_seq().len()
            } else {
                0
            },
            ({
                let na = self.qualifying_na(runtime_sources@, static_infos@);
                let leases = self.na_offered.entry_seq();
                &&& na.len() == 0 ==> r.offered_addresses@.len() == 0
                &&& na.len() > 0 ==> r.offered_addresses@.len() == leases.len()
                &&& na.len() > 0 ==> forall|i: int|
                    0 <= i < leases.len() ==> address_item_of(
                        #[trigger] leases[i].1,
                        na[0],
                        r.offered_addresses@[i],
                    )
            }),
            ({
                let pd = self.qualifying_pd(pd_delegation_static@, pd_delegation_dynamic@);
                let leases = self.pd_offered.entry_seq();
                &&& pd.len() == 0 ==> r.delegated_prefixes@.len() == 0
                &&& pd.len() > 0 ==> r.delegated_prefixes@.len() == leases.len()
                &&& pd.len() > 0 ==> forall|i: int|
                    0 <= i < leases.len() ==> prefix_item_of(
                        #[trigger] leases[i].1,
                        pd[0],
                        self.pd_config.unwrap().delegate_prefix_len,
                        r.delegated_prefixes@[i],
                    )
            }),
    {
        let now = elapsed_secs(&self.relative_boot_time);
        self.get_offered_info_at(
            now,
            runtime_sources,
            static_infos,
            pd_delegation_static,
            pd_delegation_dynamic,
        )
    }
}

/// After a sweep at `now`, no lease that stays has lapsed at `now`.
pub proof fn law_sweep_leaves_nothing_lapsed<T: Lapsing>(m: Map<Seq<u8>, T>, now: u64)
    ensures
        !any_lapsed(kept_part(m, now), now),
{
}

/// A sweep keeps every lease that has not lapsed, unchanged; static IA_NA
/// leases never lapse, so a sweep keeps them all.
pub proof fn law_sweep_keeps_live_leases(m: Map<Seq<u8>, DHCPv6NACache>, now: u64, k: Seq<u8>)
    requires
        m.contains_key(k),
        !m[k].lapsed(now) || m[k].is_static,
    ensures
        kept_part(m, now).contains_key(k),
        kept_part(m, now)[k] == m[k],
{
}

/// A sweep frees exactly the suffixes of the dynamic leases that have run
/// out: a suffix held by a lease that stays is never freed.
pub proof fn law_sweep_frees_only_lapsed(s: DHCPv6Server, now: u64, k: Seq<u8>)
    requires
        s.wf(),
        s.na_offered.view().contains_key(k),
        !s.na_offered.view()[k].is_static,
        !s.na_offered.view()[k].lapsed(now),
    ensures
        !na_freed(s.na_offered.view(), now).contains(s.na_offered.view()[k].suffix),
{
    let m = s.na_offered.view();
    if na_freed(m, now).contains(m[k].suffix) {
        let k2 = choose|k2: Seq<u8>|
            #[trigger] m.contains_key(k2) && m[k2].lapsed(now) && m[k2].suffix == m[k].suffix;
        assert(m.contains_key(k2));
    }
}

/// While the IA_NA pool does not count as full, a client that holds no
/// offer and has no static binding is always offered a suffix: neither
/// condition under which the offer fails can hold.
pub proof fn law_room_means_offer(s: DHCPv6Server, now: u64, duid: Seq<u8>, mac: Option<MacAddr>)
    requires
        s.wf(),
        s.na_dynamic_case(duid, mac),
        s.na_range_capacity > 0,
        !s.na_pool_full(),
    ensures
        !(s.na_pool_full() && !any_lapsed(s.na_offered.view(), now)),
        !s.na_first_probe_blocked(now, spec_hash_duid(duid)),
{
}

/// The probe of an offer only ever yields suffixes of the pool.
pub proof fn law_probe_stays_in_pool(start: u64, cap: u64, seed: u64, k: nat)
    requires
        cap > 0,
        start + cap <= u64::MAX,
    ensures
        start <= na_probe(start, cap, seed, k) < start + cap,
{
    vstd::arithmetic::div_mod::lemma_mod_pos_bound(
        (seed + k) % 0x1_0000_0000_0000_0000int,
        cap as int,
    );
    vstd::arithmetic::div_mod::lemma_mod_pos_bound(seed + k, 0x1_0000_0000_0000_0000int);
}

/// Releasing a client right after a dynamic IA_NA offer to it leaves the
/// pool and the lease table as the offer's sweep left them: `s1` is `s`
/// after `offer_na_suffix_at(now, duid, ..)` gave the free suffix `suffix`,
/// and `s2` is `s1` after `release_na(duid)`.
pub proof fn law_release_undoes_na_offer(
    s: DHCPv6Server,
    s1: DHCPv6Server,
    s2: DHCPv6Server,
    now: u64,
    duid: Seq<u8>,
    suffix: u64,
)
    requires
        !s.na_offered.view().contains_key(duid),
        !s.na_alloc_after_sweep(now).contains(suffix),
        s1.na_allocated_suffixes@ == s.na_alloc_after_sweep(now).insert(suffix),
        s1.na_offered.view() == s.na_offered_after_sweep(now).insert(
            duid,
            s1.na_offered.view()[duid],
        ),
        s1.na_offered.view()[duid].suffix == suffix,
        !s1.na_offered.view()[duid].is_static,
        s2.na_offered.view() == s1.na_offered.view().remove(duid),
        s2.na_allocated_suffixes@ == s1.na_allocated_suffixes@.remove(suffix),
    ensures
        s2.na_allocated_suffixes@ == s.na_alloc_after_sweep(now),
        s2.na_offered.view() == s.na_offered_after_sweep(now),
{
    assert(s2.na_allocated_suffixes@ =~= s.na_alloc_after_sweep(now));
    assert(!s.na_offered_after_sweep(now).contains_key(duid));
    assert(s2.na_offered.view() =~= s.na_offered_after_sweep(now));
}

/// Releasing a client right after an IA_PD offer to it leaves the pool and
/// the lease table as the offer's sweep left them: `s1` is `s` after
/// `offer_pd_index_at(now, duid)` gave the free index `index`, and `s2` is
/// `s1` after `release_pd(duid)`.
pub proof fn law_release_undoes_pd_offer(
    s: DHCPv6Server,
    s1: DHCPv6Server,
    s2: DHCPv6Server,
    now: u64,
    duid: Seq<u8>,
    index: u32,
)
    requires
        !s.pd_offered.view().contains_key(duid),
        !s.pd_alloc_after_sweep(now).contains(index),
        s1.pd_allocated_indices@ == s.pd_alloc_after_sweep(now).insert(index),
        s1.pd_offered.view() == s.pd_offered_after_sweep(now).insert(
            duid,
            s1.pd_offered.view()[duid],
        ),
        s1.pd_offered.view()[duid].sub_index == index,
        s2.pd_offered.view() == s1.pd_offered.view().remove(duid),
        s2.pd_allocated_indices@ == s1.pd_allocated_indices@.remove(index),
    ensures
        s2.pd_allocated_indices@ == s.pd_alloc_after_sweep(now),
        s2.pd_offered.view() == s.pd_offered_after_sweep(now),
{
    assert(s2.pd_allocated_indices@ =~= s.pd_alloc_after_sweep(now));
    assert(!s.pd_offered_after_sweep(now).contains_key(duid));
    assert(s2.pd_offered.view() =~= s.pd_offered_after_sweep(now));
}

/// Offering again to a client that an offer has just given a suffix gives
/// the same suffix and changes nothing, whatever MAC or name comes with the
/// second request and whenever it comes.
pub proof fn law_repeated_na_offer_changes_nothing(
    s: DHCPv6Server,
    f: DHCPv6Server,
    g: DHCPv6Server,
    now: u64,
    now2: u64,
    duid: Seq<u8>,
    mac: Option<MacAddr>,
    mac2: Option<MacAddr>,
    hostname: Option<String>,
    hostname2: Option<String>,
    x: u64,
    r2: Option<u64>,
)
    requires
        na_offer_made(s, f, now, duid, mac, hostname, Some(x)),
        f.na_config == s.na_config,
        na_offer_made(f, g, now2, duid, mac2, hostname2, r2),
    ensures
        r2 == Some(x),
        g.same_na(&f),
{
}

/// The same for IA_PD: a second offer to a client that holds an index
/// gives the same index and changes nothing.
pub proof fn law_repeated_pd_offer_changes_nothing(
    s: DHCPv6Server,
    f: DHCPv6Server,
    g: DHCPv6Server,
    now: u64,
    now2: u64,
    duid: Seq<u8>,
    x: u32,
    r2: Option<u32>,
)
    requires
        pd_offer_made(s, f, now, duid, Some(x)),
        f.pd_config == s.pd_config,
        pd_offer_made(f, g, now2, duid, r2),
    ensures
        r2 == Some(x),
        g.same_pd(&f),
{
}

/// No two dynamic IA_NA leases, and no two IA_PD leases, share a suffix or
/// an index; every one of them is marked allocated and lies in its pool.
pub proof fn law_leases_distinct(s: DHCPv6Server, k1: Seq<u8>, k2: Seq<u8>)
    requires
        s.wf(),
    ensures
        s.na_offered.view().contains_key(k1) && s.na_offered.view().contains_key(k2) && k1 != k2
            && !s.na_offered.view()[k1].is_static && !s.na_offered.view()[k2].is_static
            ==> s.na_offered.view()[k1].suffix != s.na_offered.view()[k2].suffix,
        s.pd_offered.view().contains_key(k1) && s.pd_offered.view().contains_key(k2) && k1 != k2
            ==> s.pd_offered.view()[k1].sub_index != s.pd_offered.view()[k2].sub_index,
        s.na_offered.view().contains_key(k1) && !s.na_offered.view()[k1].is_static
            ==> s.na_allocated_suffixes@.contains(s.na_offered.view()[k1].suffix),
        s.pd_offered.view().contains_key(k1) ==> s.pd_allocated_indices@.contains(
            s.pd_offered.view()[k1].sub_index,
        ),
{
}

impl DHCPv6Server {
    /// Records the routes installed for the IA_PD lease of `client_duid`
    /// and the client address they go through; answers the routes recorded
    /// before, or nothing where the client holds no lease.
    pub fn replace_pd_routes(
        &mut self,
        client_duid: &[u8],
        client_addr: u128,
        routes: Vec<(u128, u8)>,
    ) -> (r: Option<Vec<(u128, u8)>>)
        requires
            old(self).wf(),
        ensures
            final(self).wf(),
            final(self).same_setup(old(self)),
            final(self).same_na(old(self)),
            final(self).pd_allocated_indices@ == old(self).pd_allocated_indices@,
            !old(self).pd_offered.view().contains_key(client_duid@) ==> r is None && final(self).same_pd(old(self)),
            old(self).pd_offered.view().contains_key(client_duid@) ==> {
                let c0 = old(self).pd_offered.view()[client_duid@];
                let c = final(self).pd_offered.view()[client_duid@];
                &&& r == Some(c0.active_routes)
                &&& final(self).pd_offered.view() == old(self).pd_offered.view().insert(
                    client_duid@,
                    c,
                )
                &&& c.sub_index == c0.sub_index
                &&& c.duid_hex == c0.duid_hex
                &&& c.relative_offer_time == c0.relative_offer_time
                &&& c.valid_time == c0.valid_time
                &&& c.preferred_time == c0.preferred_time
                &&& c.client_addr == client_addr
                &&& c.active_routes@ == routes@
            },
    {
        let ghost m0 = self.pd_offered.view();
        match self.pd_offered.remove(client_duid) {
            Some(mut cache) => {
                let mut previous = routes;
                std::mem::swap(&mut previous, &mut cache.active_routes);
                cache.client_addr = client_addr;
                let ghost c = cache;
                self.pd_offered.insert(vstd::slice::slice_to_vec(client_duid), cache);
                proof {
                    let m = self.pd_offered.view();
                    assert(m =~= m0.insert(client_duid@, c));
                    assert forall|k1: Seq<u8>, k2: Seq<u8>|
                        #[trigger] m.contains_key(k1) && #[trigger] m.contains_key(k2) && k1 != k2
                            implies m[k1].sub_index != m[k2].sub_index by {
                        assert(m0.contains_key(k1) && m0.contains_key(k2));
                    }
                    assert forall|k: Seq<u8>| #[trigger] m.contains_key(k) implies {
                        &&& self.pd_allocated_indices@.contains(m[k].sub_index)
                        &&& self.pd_pool_start <= m[k].sub_index < self.pd_pool_start
                            + self.pd_range_capacity
                    } by {
                        assert(m0.contains_key(k));
                    }
                }
                Some(previous)
            },
            None => {
                assert(m0.remove(client_duid@) =~= m0);
                None
            },
        }
    }
}

} // verus!
