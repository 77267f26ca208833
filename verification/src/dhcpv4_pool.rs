//! The DHCPv4 server's address pool: addresses handed out to MAC addresses
//! by a seeded probe over the range, static bindings, and reclamation of
//! offers that ran out.
use std::collections::HashSet;
use vstd::prelude::*;

use crate::clock::{elapsed_secs, instant_now};
use crate::dhcpv6_pool::{any_lapsed, past_lifetime};
use crate::duid::MacAddr;
use crate::inet::{
    host_mask, inet_last_address, inet_network_mask, inet_overflowing_add, inet_step,
    lemma_last_address_above,
};
use crate::lease_table::{kept_part, DuidTable, Lapsing};

verus! {

broadcast use vstd::std_specs::hash::group_hash_axioms;

/// Lifetime, in seconds, of an offer that no REQUEST has confirmed yet.
pub const DHCPV4_OFFER_VALID_TIME: u32 = 20;

/// Lease time handed out where the configuration sets none: twelve hours.
pub const LANDSCAPE_DHCP_DEFAULT_ADDRESS_LEASE_TIME: u32 = 43200;

/// A MAC address bound to a fixed IPv4 address.
#[derive(Clone, Copy, Debug, PartialEq, Eq, Structural)]
pub struct MacBindingRecord {
    pub mac: MacAddr,
    pub ip: u32,
    pub expire_time: u32,
}

/// The DHCPv4 server's configuration; addresses are 32-bit numbers.
#[derive(Clone, Debug)]
pub struct DHCPv4ServerConfig {
    pub ip_range_start: u32,
    pub ip_range_end: Option<u32>,
    pub server_ip_addr: u32,
    pub network_mask: u8,
    pub address_lease_time: Option<u32>,
    pub mac_binding_records: Vec<MacBindingRecord>,
}

/// One offered or leased address.
#[derive(Clone, Copy, Debug, PartialEq, Eq, Structural)]
pub struct DHCPv4ServerOfferedCache {
    pub mac: MacAddr,
    pub ip: u32,
    pub relative_offer_time: u64,
    pub valid_time: u32,
    pub is_static: bool,
}

impl DHCPv4ServerOfferedCache {
    /// When the lease runs out, in seconds since the server started.
    pub fn get_expire_time(&self) -> (r: u64)
        requires
            self.relative_offer_time + self.valid_time <= u64::MAX,
        ensures
            r == self.relative_offer_time + self.valid_time,
    {
        self.relative_offer_time + self.valid_time as u64
    }
}

impl Lapsing for DHCPv4ServerOfferedCache {
    /// Static leases never lapse.
    open spec fn lapsed(&self, now: u64) -> bool {
        !self.is_static && past_lifetime(now, self.relative_offer_time, self.valid_time)
    }

    fn is_lapsed(&self, now: u64) -> (r: bool) {
        !self.is_static && now > self.relative_offer_time && now - self.relative_offer_time
            > self.valid_time as u64
    }
}

/// One lease as the status page shows it.
#[derive(Clone, Copy, Debug, PartialEq, Eq, Structural)]
pub struct DHCPv4OfferInfoItem {
    pub mac: MacAddr,
    pub ip: u32,
    pub relative_active_time: u64,
    pub expire_time: u32,
}

/// The leases of a DHCPv4 server, as the status page shows them.
#[derive(Clone, Debug)]
pub struct DHCPv4OfferInfo {
    pub relative_boot_time: u64,
    pub offered_ips: Vec<DHCPv4OfferInfoItem>,
}

/// The addresses that the leases lapsed at `now` hold.
pub open spec fn v4_freed(m: Map<Seq<u8>, DHCPv4ServerOfferedCache>, now: u64) -> Set<u32> {
    Set::new(
        |ip: u32| exists|k: Seq<u8>| #[trigger] m.contains_key(k) && m[k].lapsed(now) && m[k].ip == ip,
    )
}

/// The address that the probe tries for seed value `seed`.
pub open spec fn v4_slot(start: u32, len: u8, cap: u32, seed: int) -> u32 {
    inet_step(start, len, (seed % (cap as int)) as u32)
}

/// Probing from `seed`, the `k`-th value is the first whose address is
/// free, and the seed does not pass `u32::MAX` on the way.
pub open spec fn v4_first_free(alloc: Set<u32>, start: u32, len: u8, cap: u32, seed: u32, k: nat) -> bool {
    &&& seed + k <= u32::MAX
    &&& !alloc.contains(v4_slot(start, len, cap, seed + k))
    &&& forall|j: nat| j < k ==> alloc.contains(#[trigger] v4_slot(start, len, cap, seed + j))
}

/// The address pool of a DHCPv4 server on one link.
pub struct DHCPv4Server {
    pub relative_boot_time: std::time::Instant,
    pub server_ip: u32,
    /// The first address of the range, and the length of its network.
    pub ip_range_start: u32,
    pub network_len: u8,
    pub range_capacity: u32,
    /// The mask of the server's network, as handed to clients.
    pub subnet_mask: u32,
    pub allocated_host: HashSet<u32>,
    /// Leases keyed by the octets of the client's MAC address.
    pub offered_ip: DuidTable<DHCPv4ServerOfferedCache>,
    pub address_lease_time: u32,
}

impl DHCPv4Server {
    /// Each lease is keyed by its own MAC address, and every dynamic lease
    /// holds an address marked allocated that no other dynamic lease holds.
    pub open spec fn wf(&self) -> bool {
        let m = self.offered_ip.view();
        &&& self.offered_ip.wf()
        &&& self.allocated_host@.finite()
        &&& self.network_len <= 32
        &&& forall|k: Seq<u8>| #[trigger] m.contains_key(k) ==> m[k].mac.octets_seq() == k
        &&& forall|k: Seq<u8>|
            #[trigger] m.contains_key(k) && !m[k].is_static ==> self.allocated_host@.contains(
                m[k].ip,
            )
        &&& forall|k1: Seq<u8>, k2: Seq<u8>|
            #[trigger] m.contains_key(k1) && #[trigger] m.contains_key(k2) && k1 != k2
                && !m[k1].is_static && !m[k2].is_static ==> m[k1].ip != m[k2].ip
    }

    /// The range, its settings and the server's address are as they were.
    pub open spec fn same_setup(&self, other: &Self) -> bool {
        &&& self.relative_boot_time == other.relative_boot_time
        &&& self.server_ip == other.server_ip
        &&& self.ip_range_start == other.ip_range_start
        &&& self.network_len == other.network_len
        &&& self.range_capacity == other.range_capacity
        &&& self.subnet_mask == other.subnet_mask
        &&& self.address_lease_time == other.address_lease_time
    }

    /// The pool counts as full: exactly as many addresses are marked as the
    /// range has.
    pub open spec fn pool_full(&self) -> bool {
        self.allocated_host@.len() == self.range_capacity
    }

    /// The marked addresses once a full pool has been swept at `now`.
    pub open spec fn alloc_after_sweep(&self, now: u64) -> Set<u32> {
        if self.pool_full() {
            self.allocated_host@.difference(v4_freed(self.offered_ip.view(), now))
        } else {
            self.allocated_host@
        }
    }

    /// The leases once a full pool has been swept at `now`.
    pub open spec fn offered_after_sweep(&self, now: u64) -> Map<Seq<u8>, DHCPv4ServerOfferedCache> {
        if self.pool_full() {
            kept_part(self.offered_ip.view(), now)
        } else {
            self.offered_ip.view()
        }
    }

    /// The offer to a new client fails at once: the pool is full and no
    /// lease has lapsed.
    pub open spec fn sweep_fails(&self, now: u64) -> bool {
        self.pool_full() && !any_lapsed(self.offered_ip.view(), now)
    }

    /// A server for `config`: the range runs from `ip_range_start` to
    /// `ip_range_end`, or to the last address of its network; every binding
    /// is a static lease whose address is marked allocated.
    pub fn init(config: DHCPv4ServerConfig) -> (r: Self)
        requires
            config.network_mask <= 32,
            config.ip_range_end matches Some(end) ==> config.ip_range_start <= end,
        ensures
            r.wf(),
            r.server_ip == config.server_ip_addr,
            r.ip_range_start == config.ip_range_start,
            r.network_len == config.network_mask,
            r.range_capacity == match config.ip_range_end {
                Some(end) => end,
                None => config.ip_range_start | host_mask(config.network_mask),
            } - config.ip_range_start,
            r.subnet_mask == !host_mask(config.network_mask),
            r.address_lease_time == match config.address_lease_time {
                Some(t) => t,
                None => LANDSCAPE_DHCP_DEFAULT_ADDRESS_LEASE_TIME,
            },
            forall|i: int|
                0 <= i < config.mac_binding_records@.len() ==> r.allocated_host@.contains(
                    (#[trigger] config.mac_binding_records@[i]).ip,
                ),
            forall|k: Seq<u8>| #[trigger]
                r.offered_ip.view().contains_key(k) ==> r.offered_ip.view()[k].is_static,
            forall|i: int|
                0 <= i < config.mac_binding_records@.len() ==> r.offered_ip.view().contains_key(
                    (#[trigger] config.mac_binding_records@[i]).mac.octets_seq(),
                ),
    {
        let ip_addr_end = match config.ip_range_end {
            Some(end) => end,
            None => {
                proof {
                    lemma_last_address_above(config.ip_range_start, config.network_mask);
                }
                inet_last_address(config.ip_range_start, config.network_mask)
            },
        };
        let range_capacity = ip_addr_end - config.ip_range_start;
        let subnet_mask = inet_network_mask(config.server_ip_addr, config.network_mask);
        let mut allocated_host: HashSet<u32> = HashSet::new();
        let mut offered_ip: DuidTable<DHCPv4ServerOfferedCache> = DuidTable::new();
        let records = &config.mac_binding_records;
        let mut i: usize = 0;
        while i < records.len()
            invariant
                i <= records@.len(),
                offered_ip.wf(),
                allocated_host@.finite(),
                forall|k: Seq<u8>| #[trigger]
                    offered_ip.view().contains_key(k) ==> offered_ip.view()[k].is_static
                        && offered_ip.view()[k].mac.octets_seq() == k,
                forall|j: int|
                    0 <= j < i ==> allocated_host@.contains((#[trigger] records@[j]).ip),
                forall|j: int|
                    0 <= j < i ==> offered_ip.view().contains_key(
                        (#[trigger] records@[j]).mac.octets_seq(),
                    ),
            decreases records@.len() - i,
        {
            let each = records[i];
            let _ = allocated_host.insert(each.ip);
            let key = each.mac.octets_vec();
            let ghost before = offered_ip.view();
            let ghost kv = key@;
            offered_ip.insert(
                key,
                DHCPv4ServerOfferedCache {
                    mac: each.mac,
                    ip: each.ip,
                    relative_offer_time: 0,
                    valid_time: each.expire_time,
                    is_static: true,
                },
            );
            proof {
                assert(kv == each.mac.octets_seq());
                assert forall|j: int| 0 <= j < i + 1 implies offered_ip.view().contains_key(
                    (#[trigger] records@[j]).mac.octets_seq(),
                ) by {
                    if j < i {
                        assert(before.contains_key(records@[j].mac.octets_seq()));
                    }
                }
            }
            i += 1;
        }
        let address_lease_time = match config.address_lease_time {
            Some(t) => t,
            None => LANDSCAPE_DHCP_DEFAULT_ADDRESS_LEASE_TIME,
        };
        DHCPv4Server {
            relative_boot_time: instant_now(),
            server_ip: config.server_ip_addr,
            ip_range_start: config.ip_range_start,
            network_len: config.network_mask,
            range_capacity,
            subnet_mask,
            allocated_host,
            offered_ip,
            address_lease_time,
        }
    }
}

/// What offering an address to `mac` at `now`, probing from `seed`, did to
/// the pool, from `s0` to `f`, with answer `r`: a client that holds a lease
/// keeps it; with no range, or a full pool with nothing lapsed, nothing is
/// offered; else the pool is swept if full and the first free address
/// along the probe is offered for the short offer time (see `offer_ip_at`).
pub open spec fn v4_offer_made(
    s0: DHCPv4Server,
    f: DHCPv4Server,
    now: u64,
    mac: MacAddr,
    seed: u32,
    r: Option<u32>,
) -> bool {
    &&& (s0.offered_ip.view().contains_key(mac.octets_seq()) ==> r == Some(
                s0.offered_ip.view()[mac.octets_seq()].ip,
            ) && f.offered_ip.view() == s0.offered_ip.view()
                && f.allocated_host@ == s0.allocated_host@)
    &&& (!s0.offered_ip.view().contains_key(mac.octets_seq()) && (s0.range_capacity == 0 || s0.sweep_fails(now)) ==> r is None && f.offered_ip.view() == s0.offered_ip.view() && f.allocated_host@
                == s0.allocated_host@)
    &&& (!s0.offered_ip.view().contains_key(mac.octets_seq()) && s0.range_capacity
                > 0 && !s0.sweep_fails(now) ==> {
                let s = s0;
                let a1 = s.alloc_after_sweep(now);
                let m1 = s.offered_after_sweep(now);
                let cap = s.range_capacity;
                match r {
                    Some(address) => {
                        &&& exists|k: nat|
                            {
                                &&& v4_first_free(a1, s.ip_range_start, s.network_len, cap, seed, k)
                                &&& address == v4_slot(s.ip_range_start, s.network_len, cap, seed + k)
                                &&& a1.len() == cap ==> k == 0
                            }
                        &&& f.allocated_host@ == a1.insert(address)
                        &&& f.offered_ip.view() == m1.insert(
                            mac.octets_seq(),
                            DHCPv4ServerOfferedCache {
                                mac: mac,
                                ip: address,
                                relative_offer_time: now,
                                valid_time: DHCPV4_OFFER_VALID_TIME,
                                is_static: false,
                            },
                        )
                    },
                    None => {
                        &&& a1.len() == cap ==> a1.contains(
                            v4_slot(s.ip_range_start, s.network_len, cap, seed as int),
                        )
                        &&& a1.len() != cap ==> forall|j: nat|
                            seed + j <= u32::MAX ==> a1.contains(
                                #[trigger] v4_slot(s.ip_range_start, s.network_len, cap, seed + j),
                            )
                        &&& f.allocated_host@ == a1
                        &&& f.offered_ip.view() == m1
                    },
                }
            })
}

impl DHCPv4Server {
    /// Drops the dynamic leases that have run out at `now` and frees their
    /// addresses. Answers whether any lease was dropped.
    pub fn clean_expire_ip_at(&mut self, now: u64) -> (r: bool)
        requires
            old(self).wf(),
        ensures
            final(self).wf(),
            final(self).same_setup(old(self)),
            r == any_lapsed(old(self).offered_ip.view(), now),
            final(self).offered_ip.view() == kept_part(old(self).offered_ip.view(), now),
            final(self).allocated_host@ == old(self).allocated_host@.difference(
                v4_freed(old(self).offered_ip.view(), now),
            ),
    {
        let ghost m0 = self.offered_ip.view();
        let ghost a0 = self.allocated_host@;
        let ghost s0 = *self;
        let removed = self.offered_ip.remove_lapsed(now);
        let ghost s1 = *self;
        let mut i: usize = 0;
        while i < removed.len()
            invariant
                i <= removed@.len(),
                self.same_setup(&s0),
                self.network_len == s0.network_len,
                self.offered_ip == s1.offered_ip,
                self.allocated_host@.finite(),
                self.offered_ip.view() == kept_part(m0, now),
                self.offered_ip.wf(),
                forall|r: int|
                    0 <= r < removed@.len() ==> crate::lease_table::is_lapsed_value(
                        m0,
                        now,
                        #[trigger] removed@[r],
                    ),
                self.allocated_host@ == a0.difference(
                    Set::new(|ip: u32| exists|j: int| 0 <= j < i && (#[trigger] removed@[j]).ip == ip),
                ),
            decreases removed@.len() - i,
        {
            let _ = self.allocated_host.remove(&removed[i].ip);
            proof {
                let next = Set::new(|ip: u32| exists|j: int| 0 <= j < i + 1 && (#[trigger] removed@[j]).ip == ip);
                let prev = Set::new(|ip: u32| exists|j: int| 0 <= j < i && (#[trigger] removed@[j]).ip == ip);
                assert(next =~= prev.insert(removed@[i as int].ip));
                assert(self.allocated_host@ =~= a0.difference(next));
            }
            i += 1;
        }
        proof {
            let got = Set::new(|ip: u32| exists|j: int| 0 <= j < removed@.len() && (#[trigger] removed@[j]).ip == ip);
            assert forall|ip: u32| got.contains(ip) implies v4_freed(m0, now).contains(ip) by {
                let j = choose|j: int| 0 <= j < removed@.len() && (#[trigger] removed@[j]).ip == ip;
                assert(crate::lease_table::is_lapsed_value(m0, now, removed@[j]));
            }
            assert forall|ip: u32| v4_freed(m0, now).contains(ip) implies got.contains(ip) by {
                let k = choose|k: Seq<u8>| #[trigger] m0.contains_key(k) && m0[k].lapsed(now) && m0[k].ip == ip;
                assert(crate::lease_table::lapsed_part(m0, now).contains_key(k));
                assert(removed@.contains(m0[k]));
                let j = choose|j: int| 0 <= j < removed@.len() && removed@[j] == m0[k];
                assert(removed@[j].ip == ip);
            }
            assert(got =~= v4_freed(m0, now));
            if any_lapsed(m0, now) {
                let k = choose|k: Seq<u8>| #[trigger] m0.contains_key(k) && m0[k].lapsed(now);
                assert(crate::lease_table::lapsed_part(m0, now).contains_key(k));
                assert(removed@.contains(m0[k]));
            }
            if removed@.len() > 0 {
                assert(crate::lease_table::is_lapsed_value(m0, now, removed@[0]));
            }
            let m = self.offered_ip.view();
            assert forall|k: Seq<u8>| #[trigger] m.contains_key(k) && !m[k].is_static
                implies self.allocated_host@.contains(m[k].ip) by {
                assert(m0.contains_key(k) && m0[k] == m[k]);
                if v4_freed(m0, now).contains(m[k].ip) {
                    let k2 = choose|k2: Seq<u8>| #[trigger] m0.contains_key(k2) && m0[k2].lapsed(now) && m0[k2].ip == m[k].ip;
                    assert(m0.contains_key(k2));
                }
            }
            assert forall|k: Seq<u8>| #[trigger] m.contains_key(k) implies m[k].mac.octets_seq() == k by {
                assert(m0.contains_key(k) && m0[k] == m[k]);
            }
            assert forall|k1: Seq<u8>, k2: Seq<u8>|
                #[trigger] m.contains_key(k1) && #[trigger] m.contains_key(k2) && k1 != k2
                    && !m[k1].is_static && !m[k2].is_static implies m[k1].ip != m[k2].ip by {
                assert(m0.contains_key(k1) && m0[k1] == m[k1]);
                assert(m0.contains_key(k2) && m0[k2] == m[k2]);
            }
        }
        removed.len() > 0
    }

    /// Drops the dynamic leases that have run out, by the server's clock.
    pub fn clean_expire_ip(&mut self) -> (r: bool)
        requires
            old(self).wf(),
        ensures
            final(self).wf(),
            final(self).same_setup(old(self)),
            exists|now: u64|
                {
                    &&& r == any_lapsed(old(self).offered_ip.view(), now)
                    &&& final(self).offered_ip.view() == kept_part(old(self).offered_ip.view(), now)
                    &&& final(self).allocated_host@ == old(self).allocated_host@.difference(
                        v4_freed(old(self).offered_ip.view(), now),
                    )
                },
    {
        let now = elapsed_secs(&self.relative_boot_time);
        self.clean_expire_ip_at(now)
    }

    fn record_offer(&mut self, now: u64, mac: MacAddr, address: u32)
        requires
            old(self).wf(),
            !old(self).allocated_host@.contains(address),
            !old(self).offered_ip.view().contains_key(mac.octets_seq()),
        ensures
            final(self).wf(),
            final(self).same_setup(old(self)),
            final(self).allocated_host@ == old(self).allocated_host@.insert(address),
            final(self).offered_ip.view() == old(self).offered_ip.view().insert(
                mac.octets_seq(),
                DHCPv4ServerOfferedCache {
                    mac,
                    ip: address,
                    relative_offer_time: now,
                    valid_time: DHCPV4_OFFER_VALID_TIME,
                    is_static: false,
                },
            ),
    {
        let ghost m0 = self.offered_ip.view();
        let cache = DHCPv4ServerOfferedCache {
            mac,
            ip: address,
            relative_offer_time: now,
            valid_time: DHCPV4_OFFER_VALID_TIME,
            is_static: false,
        };
        self.offered_ip.insert(mac.octets_vec(), cache);
        let _ = self.allocated_host.insert(address);
        proof {
            let m = self.offered_ip.view();
            let key = mac.octets_seq();
            assert forall|k: Seq<u8>| #[trigger] m.contains_key(k) implies m[k].mac.octets_seq() == k by {
                if k != key {
                    assert(m0.contains_key(k));
                }
            }
            assert forall|k: Seq<u8>| #[trigger] m.contains_key(k) && !m[k].is_static
                implies self.allocated_host@.contains(m[k].ip) by {
                if k != key {
                    assert(m0.contains_key(k));
                }
            }
            assert forall|k1: Seq<u8>, k2: Seq<u8>|
                #[trigger] m.contains_key(k1) && #[trigger] m.contains_key(k2) && k1 != k2
                    && !m[k1].is_static && !m[k2].is_static implies m[k1].ip != m[k2].ip by {
                if k1 != key && k2 != key {
                    assert(m0.contains_key(k1) && m0.contains_key(k2));
                } else if k1 == key {
                    assert(m0.contains_key(k2));
                } else {
                    assert(m0.contains_key(k1));
                }
            }
        }
    }

    /// Offers an address to `mac` at time `now`, probing from `seed`.
    ///
    /// A client that holds a lease keeps its address. Any other client gets
    /// the first free address along the probe: seed values `seed`,
    /// `seed + 1`, ..., each reduced modulo the range and stepped from the
    /// start of the range inside its network. When the pool counts as full,
    /// the leases lapsed at `now` are swept first; nothing is offered if none
    /// had lapsed, or if the pool still counts as full and the first probe is
    /// taken, or if every seed value up to the largest one is taken (going
    /// further would overflow the seed), or with an empty range. The seed is
    /// the checksum of the client's MAC address.
    pub fn offer_ip_at(&mut self, now: u64, mac: &MacAddr, seed: u32) -> (r: Option<u32>)
        requires
            old(self).wf(),
        ensures
            final(self).wf(),
            final(self).same_setup(old(self)),
            old(self).offered_ip.view().contains_key(mac.octets_seq()) ==> r == Some(
                old(self).offered_ip.view()[mac.octets_seq()].ip,
            ) && final(self).offered_ip.view() == old(self).offered_ip.view()
                && final(self).allocated_host@ == old(self).allocated_host@,
            !old(self).offered_ip.view().contains_key(mac.octets_seq()) && (old(self).range_capacity == 0 || old(self).sweep_fails(now)) ==> r is None && final(self).offered_ip.view() == old(self).offered_ip.view() && final(self).allocated_host@
                == old(self).allocated_host@,
            !old(self).offered_ip.view().contains_key(mac.octets_seq()) && old(self).range_capacity
                > 0 && !old(self).sweep_fails(now) ==> {
                let s = *old(self);
                let a1 = s.alloc_after_sweep(now);
                let m1 = s.offered_after_sweep(now);
                let cap = s.range_capacity;
                match r {
                    Some(address) => {
                        &&& exists|k: nat|
                            {
                                &&& v4_first_free(a1, s.ip_range_start, s.network_len, cap, seed, k)
                                &&& address == v4_slot(s.ip_range_start, s.network_len, cap, seed + k)
                                &&& a1.len() == cap ==> k == 0
                            }
                        &&& final(self).allocated_host@ == a1.insert(address)
                        &&& final(self).offered_ip.view() == m1.insert(
                            mac.octets_seq(),
                            DHCPv4ServerOfferedCache {
                                mac: *mac,
                                ip: address,
                                relative_offer_time: now,
                                valid_time: DHCPV4_OFFER_VALID_TIME,
                                is_static: false,
                            },
                        )
                    },
                    None => {
                        &&& a1.len() == cap ==> a1.contains(
                            v4_slot(s.ip_range_start, s.network_len, cap, seed as int),
                        )
                        &&& a1.len() != cap ==> forall|j: nat|
                            seed + j <= u32::MAX ==> a1.contains(
                                #[trigger] v4_slot(s.ip_range_start, s.network_len, cap, seed + j),
                            )
                        &&& final(self).allocated_host@ == a1
                        &&& final(self).offered_ip.view() == m1
                    },
                }
            },
            v4_offer_made(*old(self), *final(self), now, *mac, seed, r),
    {
        if let Some(cache) = self.offered_ip.get(&mac.octets_vec()) {
            return Some(cache.ip);
        }
        let ghost s0 = *self;
        let cap = self.range_capacity;
        let start = self.ip_range_start;
        let len = self.network_len;
        if self.allocated_host.len() as u64 == cap as u64 {
            if !self.clean_expire_ip_at(now) {
                proof {
                    let m0 = s0.offered_ip.view();
                    assert(kept_part(m0, now) =~= m0);
                    assert(v4_freed(m0, now) =~= Set::empty());
                    assert(self.allocated_host@ =~= s0.allocated_host@);
                }
                return None;
            }
            if self.allocated_host.len() as u64 == cap as u64 {
                let address = inet_overflowing_add(start, len, seed % cap);
                if self.allocated_host.contains(&address) {
                    return None;
                }
                self.record_offer(now, *mac, address);
                proof {
                    let a1 = s0.alloc_after_sweep(now);
                    assert(v4_first_free(a1, start, len, cap, seed, 0));
                    assert(address == v4_slot(start, len, cap, seed + 0));
                }
                return Some(address);
            }
        }
        if cap == 0 {
            return None;
        }
        let ghost a1 = self.allocated_host@;
        assert(a1 == s0.alloc_after_sweep(now));
        assert(a1.len() != cap);
        let mut probe: u32 = seed;
        let ghost mut k: nat = 0;
        loop
            invariant
                s0 == *old(self),
                !s0.offered_ip.view().contains_key(mac.octets_seq()),
                !s0.sweep_fails(now),
                a1 == s0.alloc_after_sweep(now),
                a1.len() != cap,
                self.wf(),
                self.same_setup(&s0),
                self.allocated_host@ == a1,
                self.offered_ip.view() == s0.offered_after_sweep(now),
                !self.offered_ip.view().contains_key(mac.octets_seq()),
                cap == s0.range_capacity,
                start == s0.ip_range_start,
                len == s0.network_len,
                len <= 32,
                cap > 0,
                probe == seed + k,
                forall|j: nat| j < k ==> a1.contains(#[trigger] v4_slot(start, len, cap, seed + j)),
            decreases u32::MAX - probe,
        {
            let address = inet_overflowing_add(start, len, probe % cap);
            assert(address == v4_slot(start, len, cap, seed + k));
            if !self.allocated_host.contains(&address) {
                self.record_offer(now, *mac, address);
                proof {
                    assert(v4_first_free(a1, start, len, cap, seed, k));
                }
                return Some(address);
            }
            if probe == u32::MAX {
                proof {
                    assert forall|j: nat| seed + j <= u32::MAX implies a1.contains(
                        #[trigger] v4_slot(start, len, cap, seed + j),
                    ) by {
                        if j == k {
                        } else {
                            assert(j < k);
                        }
                    }
                }
                return None;
            }
            proof {
                k = k + 1;
            }
            probe = probe + 1;
        }
    }

    /// Offers an address to `mac`, probing from `seed`, by the server's clock:
    /// what `offer_ip_at` does at the time the clock gave.
    pub fn offer_ip(&mut self, mac: &MacAddr, seed: u32) -> (r: Option<u32>)
        requires
            old(self).wf(),
        ensures
            final(self).wf(),
            final(self).same_setup(old(self)),
            old(self).offered_ip.view().contains_key(mac.octets_seq()) ==> r == Some(
                old(self).offered_ip.view()[mac.octets_seq()].ip,
            ),
            r matches Some(ip) ==> final(self).offered_ip.view().contains_key(mac.octets_seq())
                && final(self).offered_ip.view()[mac.octets_seq()].ip == ip,
            exists|now: u64| v4_offer_made(*old(self), *final(self), now, *mac, seed, r),
    {
        let now = elapsed_secs(&self.relative_boot_time);
        let r = self.offer_ip_at(now, mac, seed);
        assert(v4_offer_made(*old(self), *self, now, *mac, seed, r));
        r
    }
}

/// What acknowledging a REQUEST of `ip` by `mac` at `now` did, from `s0`
/// to `f`, with answer `r`: where the client holds a lease of that very
/// address, the lease is stamped `now` and, unless static, gets the
/// server's lease time; elsewise nothing changes. The marked addresses
/// stay.
pub open spec fn v4_ack_made(s0: DHCPv4Server, f: DHCPv4Server, now: u64, mac: MacAddr, ip: u32, r: bool) -> bool {
    &&& f.allocated_host@ == s0.allocated_host@
    &&& r == (s0.offered_ip.view().contains_key(mac.octets_seq())
        && s0.offered_ip.view()[mac.octets_seq()].ip == ip)
    &&& !r ==> f.offered_ip.view() == s0.offered_ip.view()
    &&& r ==> {
        let c0 = s0.offered_ip.view()[mac.octets_seq()];
        f.offered_ip.view() == s0.offered_ip.view().insert(
            mac.octets_seq(),
            DHCPv4ServerOfferedCache {
                relative_offer_time: now,
                valid_time: if c0.is_static {
                    c0.valid_time
                } else {
                    s0.address_lease_time
                },
                ..c0
            },
        )
    }
}

impl DHCPv4Server {
    /// Acknowledges a REQUEST of `ip_addr` by `mac` at `now`: the client
    /// must hold a lease of that very address. The lease is stamped with
    /// `now` and, unless static, gets the server's lease time.
    pub fn ack_request_at(&mut self, now: u64, mac_addr: &MacAddr, ip_addr: u32) -> (r: bool)
        requires
            old(self).wf(),
        ensures
            final(self).wf(),
            final(self).same_setup(old(self)),
            final(self).allocated_host@ == old(self).allocated_host@,
            r == (old(self).offered_ip.view().contains_key(mac_addr.octets_seq())
                && old(self).offered_ip.view()[mac_addr.octets_seq()].ip == ip_addr),
            !r ==> final(self).offered_ip.view() == old(self).offered_ip.view(),
            r ==> {
                let c0 = old(self).offered_ip.view()[mac_addr.octets_seq()];
                final(self).offered_ip.view() == old(self).offered_ip.view().insert(
                    mac_addr.octets_seq(),
                    DHCPv4ServerOfferedCache {
                        relative_offer_time: now,
                        valid_time: if c0.is_static {
                            c0.valid_time
                        } else {
                            old(self).address_lease_time
                        },
                        ..c0
                    },
                )
            },
            v4_ack_made(*old(self), *final(self), now, *mac_addr, ip_addr, r),
    {
        let key = mac_addr.octets_vec();
        let ghost m0 = self.offered_ip.view();
        let found = match self.offered_ip.get(&key) {
            Some(c) => Some(*c),
            None => None,
        };
        match found {
            Some(cache) => {
                if cache.ip == ip_addr {
                    let mut updated = cache;
                    if !updated.is_static {
                        updated.valid_time = self.address_lease_time;
                    }
                    updated.relative_offer_time = now;
                    let ghost kv = key@;
                    self.offered_ip.insert(key, updated);
                    proof {
                        let m = self.offered_ip.view();
                        assert forall|k: Seq<u8>| #[trigger] m.contains_key(k) implies m[k].mac.octets_seq() == k by {
                            assert(m0.contains_key(k));
                        }
                        assert forall|k: Seq<u8>| #[trigger] m.contains_key(k) && !m[k].is_static
                            implies self.allocated_host@.contains(m[k].ip) by {
                            assert(m0.contains_key(k));
                        }
                        assert forall|k1: Seq<u8>, k2: Seq<u8>|
                            #[trigger] m.contains_key(k1) && #[trigger] m.contains_key(k2) && k1 != k2
                                && !m[k1].is_static && !m[k2].is_static implies m[k1].ip != m[k2].ip by {
                            assert(m0.contains_key(k1) && m0.contains_key(k2));
                        }
                    }
                    true
                } else {
                    false
                }
            },
            None => false,
        }
    }

    /// Acknowledges a REQUEST, by the server's clock: what `ack_request_at`
    /// does at the time the clock gave.
    pub fn ack_request(&mut self, mac_addr: &MacAddr, ip_addr: u32) -> (r: bool)
        requires
            old(self).wf(),
        ensures
            final(self).wf(),
            final(self).same_setup(old(self)),
            r == (old(self).offered_ip.view().contains_key(mac_addr.octets_seq())
                && old(self).offered_ip.view()[mac_addr.octets_seq()].ip == ip_addr),
            final(self).offered_ip.view().dom() == old(self).offered_ip.view().dom(),
            exists|now: u64| v4_ack_made(*old(self), *final(self), now, *mac_addr, ip_addr, r),
    {
        let now = elapsed_secs(&self.relative_boot_time);
        let r = self.ack_request_at(now, mac_addr, ip_addr);
        assert(v4_ack_made(*old(self), *self, now, *mac_addr, ip_addr, r));
        r
    }

    /// The leases as the status page shows them at time `now`, one item
    /// per lease in the order the table holds them.
    pub fn get_offered_info_at(&self, now: u64) -> (r: DHCPv4OfferInfo)
        requires
            self.wf(),
        ensures
            r.relative_boot_time == now,
            r.offered_ips@.len() == self.offered_ip.entry_seq().len(),
            forall|i: int|
                0 <= i < r.offered_ips@.len() ==> {
                    let c = (#[trigger] self.offered_ip.entry_seq()[i]).1;
                    r.offered_ips@[i] == DHCPv4OfferInfoItem {
                        mac: c.mac,
                        ip: c.ip,
                        relative_active_time: c.relative_offer_time,
                        expire_time: c.valid_time,
                    }
                },
    {
        let leases = self.offered_ip.as_slice();
        let mut offered_ips: Vec<DHCPv4OfferInfoItem> = Vec::new();
        let mut i: usize = 0;
        while i < leases.len()
            invariant
                i <= leases@.len(),
                leases@ == self.offered_ip.entry_seq(),
                offered_ips@.len() == i,
                forall|j: int|
                    0 <= j < i ==> {
                        let c = (#[trigger] leases@[j]).1;
                        offered_ips@[j] == DHCPv4OfferInfoItem {
                            mac: c.mac,
                            ip: c.ip,
                            relative_active_time: c.relative_offer_time,
                            expire_time: c.valid_time,
                        }
                    },
            decreases leases@.len() - i,
        {
            let c = leases[i].1;
            offered_ips.push(
                DHCPv4OfferInfoItem {
                    mac: c.mac,
                    ip: c.ip,
                    relative_active_time: c.relative_offer_time,
                    expire_time: c.valid_time,
                },
            );
            i += 1;
        }
        DHCPv4OfferInfo { relative_boot_time: now, offered_ips }
    }

    /// The leases as the status page shows them, by the server's clock.
    pub fn get_offered_info(&self) -> (r: DHCPv4OfferInfo)
        requires
            self.wf(),
        ensures
            r.offered_ips@.len() == self.offered_ip.entry_seq().len(),
            forall|i: int|
                0 <= i < r.offered_ips@.len() ==> {
                    let c = (#[trigger] self.offered_ip.entry_seq()[i]).1;
                    r.offered_ips@[i] == DHCPv4OfferInfoItem {
                        mac: c.mac,
                        ip: c.ip,
                        relative_active_time: c.relative_offer_time,
                        expire_time: c.valid_time,
                    }
                },
    {
        let now = elapsed_secs(&self.relative_boot_time);
        self.get_offered_info_at(now)
    }
}

/// The DHCP server settings of a LAN interface; addresses are 32-bit
/// numbers.
#[derive(Clone, Copy, Debug, PartialEq, Eq, Structural)]
pub struct DhcpServerIpv4Config {
    pub ip_range_start: u32,
    pub ip_range_end: Option<u32>,
    pub server_ip_addr: u32,
    pub network_mask: u8,
}

/// The first address the LAN's DHCP range starts at by default:
/// 192.168.5.100.
pub const LANDSCAPE_DEFAULE_LAN_DHCP_RANGE_START: u32 = 0xc0a8_0564;

/// The LAN address of the server by default: 192.168.5.1.
pub const LANDSCAPE_DEFAULE_LAN_DHCP_SERVER_IP: u32 = 0xc0a8_0501;

/// The length of the LAN's network by default.
pub const LANDSCAPE_DEFAULT_LAN_DHCP_SERVER_NETMASK: u8 = 24;

impl Default for DhcpServerIpv4Config {
    /// The LAN defaults: the range from the default start to the end of its
    /// network, served from the default server address.
    fn default() -> (r: Self)
        ensures
            r.ip_range_start == LANDSCAPE_DEFAULE_LAN_DHCP_RANGE_START,
            r.ip_range_end is None,
            r.server_ip_addr == LANDSCAPE_DEFAULE_LAN_DHCP_SERVER_IP,
            r.network_mask == LANDSCAPE_DEFAULT_LAN_DHCP_SERVER_NETMASK,
    {
        DhcpServerIpv4Config {
            ip_range_start: LANDSCAPE_DEFAULE_LAN_DHCP_RANGE_START,
            ip_range_end: None,
            server_ip_addr: LANDSCAPE_DEFAULE_LAN_DHCP_SERVER_IP,
            network_mask: LANDSCAPE_DEFAULT_LAN_DHCP_SERVER_NETMASK,
        }
    }
}

/// The host bits of a network of length `network_mask` (below 32 wide).
pub open spec fn host_bits(network_mask: u8) -> u32 {
    ((1u32 << ((32 - network_mask) as u32)) - 1) as u32
}

/// The last address of a range that has no end set: the address of the
/// start's network plus the size of the network less one.
pub open spec fn default_range_end(start: u32, network_mask: u8) -> int {
    (start & !host_bits(network_mask)) + host_bits(network_mask)
}

impl DhcpServerIpv4Config {
    /// The number of addresses in the range, both ends included.
    pub fn get_range_capacity(&self) -> (r: u32)
        requires
            self.ip_range_end is None ==> 0 < self.network_mask <= 32,
            self.ip_range_end matches Some(end) ==> self.ip_range_start <= end && end
                - self.ip_range_start < u32::MAX,
        ensures
            r == match self.ip_range_end {
                Some(end) => end - self.ip_range_start + 1,
                None => default_range_end(self.ip_range_start, self.network_mask) - self.ip_range_start + 1,
            },
    {
        match self.ip_range_end {
            Some(end) => end - self.ip_range_start + 1,
            None => {
                let shift: u32 = (32 - self.network_mask) as u32;
                let start = self.ip_range_start;
                assert(shift < 32 ==> (1u32 << shift) >= 1) by (bit_vector);
                let low: u32 = (1u32 << shift) - 1;
                assert(low == host_bits(self.network_mask));
                assert((start & !low) + low == (start | low) && (start | low) >= start
                    && (start | low) - start <= low && low < 0x8000_0000u32) by (bit_vector)
                    requires
                        shift < 32,
                        low == (1u32 << shift) - 1,
                ;
                let end = (start & !low) + low;
                end - start + 1
            },
        }
    }
}

/// Every address that the probe tries lies in the network of the start of
/// the range: it shares the start's network part.
pub proof fn law_probe_stays_in_network(start: u32, len: u8, cap: u32, seed: int)
    requires
        len <= 32,
    ensures
        v4_slot(start, len, cap, seed) & !host_mask(len) == start & !host_mask(len),
{
    let step = (seed % (cap as int)) as u32;
    let h = host_mask(len);
    let sum = start.wrapping_add(step);
    assert(((sum & h) | (start & !h)) & !h == start & !h) by (bit_vector);
}

/// No two dynamic leases share an address, and every dynamic lease's
/// address is marked allocated.
pub proof fn law_v4_leases_distinct(s: DHCPv4Server, k1: Seq<u8>, k2: Seq<u8>)
    requires
        s.wf(),
    ensures
        s.offered_ip.view().contains_key(k1) && s.offered_ip.view().contains_key(k2) && k1 != k2
            && !s.offered_ip.view()[k1].is_static && !s.offered_ip.view()[k2].is_static
            ==> s.offered_ip.view()[k1].ip != s.offered_ip.view()[k2].ip,
        s.offered_ip.view().contains_key(k1) && !s.offered_ip.view()[k1].is_static
            ==> s.allocated_host@.contains(s.offered_ip.view()[k1].ip),
{
}

/// The UDP port of DHCPv4 clients.
pub const DHCP_V4_CLIENT_PORT: u16 = 68;

/// The limited broadcast address, 255.255.255.255.
pub const IPV4_BROADCAST: u32 = 0xffff_ffff;

/// A DHCPv4 message from a client, as far as the server reads it: its
/// operation, its message type (option 53), the fields a reply echoes, the
/// address asked for (option 50) and the port it came from.
#[derive(Clone, Copy, Debug, PartialEq, Eq, Structural)]
pub struct DhcpV4Message {
    pub op: u8,
    pub message_type: u8,
    pub xid: u32,
    pub secs: u16,
    pub flags: u16,
    pub chaddr: MacAddr,
    pub requested_ip: Option<u32>,
    pub source_port: u16,
}

#[derive(Clone, Copy, Debug, PartialEq, Eq, Structural)]
pub enum DhcpV4ReplyKind {
    Offer,
    Ack,
    Nak,
}

/// A reply of the server and where it goes.
#[derive(Clone, Copy, Debug, PartialEq, Eq, Structural)]
pub struct DhcpV4Reply {
    pub kind: DhcpV4ReplyKind,
    pub xid: u32,
    pub secs: u16,
    pub flags: u16,
    pub yiaddr: u32,
    pub chaddr: MacAddr,
    pub dest_ip: u32,
    pub dest_port: u16,
}

pub const DHCP_DISCOVER: u8 = 1;

pub const DHCP_REQUEST: u8 = 3;

pub const DHCP_RELEASE: u8 = 7;

/// Message types the server has an answer for, or knowingly ignores:
/// DISCOVER, OFFER, REQUEST, RELEASE and codes outside those of DHCP. The
/// other DHCP message types are not handled at all.
pub open spec fn handled_message_type(t: u8) -> bool {
    t == 1 || t == 2 || t == 3 || t == 7 || t == 0 || t > 18
}

/// A reply with the echoed fields of `m`.
pub open spec fn reply_to(m: DhcpV4Message, kind: DhcpV4ReplyKind, yiaddr: u32, dest_ip: u32, dest_port: u16) -> DhcpV4Reply {
    DhcpV4Reply { kind, xid: m.xid, secs: m.secs, flags: m.flags, yiaddr, chaddr: m.chaddr, dest_ip, dest_port }
}

/// The client asked for a broadcast reply (the top bit of its flags).
pub open spec fn wants_broadcast(flags: u16) -> bool {
    flags >= 0x8000
}

/// The address an answer offers, if it is an answer at all.
pub open spec fn offered_addr(r: Option<DhcpV4Reply>) -> Option<u32> {
    match r {
        Some(rep) => Some(rep.yiaddr),
        None => None,
    }
}

/// What answering the message `msg` at `now`, probing from `seed`, did,
/// from `s0` to `f`, with answer `r` (see `handle_dhcp_message_at`): a
/// DISCOVER is answered with an OFFER of what the pool offers the client,
/// and none where it offers nothing; a REQUEST naming an address is
/// acknowledged as `v4_ack_made` says, with an ACK or a NAK; anything else
/// gets no answer and changes nothing.
pub open spec fn v4_message_handled(
    s0: DHCPv4Server,
    f: DHCPv4Server,
    now: u64,
    msg: DhcpV4Message,
    seed: u32,
    r: Option<DhcpV4Reply>,
) -> bool {
    &&& msg.op != 1 || (msg.message_type != 1 && msg.message_type != 3) ==> r is None && f == s0
    &&& msg.op == 1 && msg.message_type == 1 ==> {
        &&& v4_offer_made(s0, f, now, msg.chaddr, seed, offered_addr(r))
        &&& r matches Some(rep) ==> rep == reply_to(
            msg,
            DhcpV4ReplyKind::Offer,
            rep.yiaddr,
            IPV4_BROADCAST,
            DHCP_V4_CLIENT_PORT,
        )
    }
    &&& msg.op == 1 && msg.message_type == 3 && msg.requested_ip is None ==> r is None && f == s0
    &&& msg.op == 1 && msg.message_type == 3 && msg.requested_ip is Some ==> {
        let ip = msg.requested_ip->0;
        let acked = s0.offered_ip.view().contains_key(msg.chaddr.octets_seq())
            && s0.offered_ip.view()[msg.chaddr.octets_seq()].ip == ip;
        let port = if wants_broadcast(msg.flags) {
            DHCP_V4_CLIENT_PORT
        } else {
            msg.source_port
        };
        &&& v4_ack_made(s0, f, now, msg.chaddr, ip, acked)
        &&& acked ==> r == Some(reply_to(msg, DhcpV4ReplyKind::Ack, ip, IPV4_BROADCAST, port))
        &&& !acked ==> r == Some(reply_to(msg, DhcpV4ReplyKind::Nak, 0, IPV4_BROADCAST, port))
    }
}

impl DHCPv4Server {
    /// Answers a client's message at `now`: a DISCOVER gets an OFFER of
    /// the address the pool gives the client (none when the pool is full),
    /// broadcast to the client port; a REQUEST naming an address gets an
    /// ACK of it where the client holds a lease of that address, else a
    /// NAK of no address, sent to the broadcast address on the client port
    /// it asked for, or on the port it came from; a REQUEST naming no
    /// address, a RELEASE, a reply and any other operation get no answer.
    pub fn handle_dhcp_message_at(&mut self, now: u64, msg: &DhcpV4Message, seed: u32) -> (r: Option<DhcpV4Reply>)
        requires
            old(self).wf(),
            msg.op == 1 ==> handled_message_type(msg.message_type),
        ensures
            final(self).wf(),
            msg.op != 1 || (msg.message_type != 1 && msg.message_type != 3) ==> r is None && *final(self) == *old(self),
            msg.op == 1 && msg.message_type == 1 ==> match r {
                Some(reply) => reply == reply_to(*msg, DhcpV4ReplyKind::Offer, reply.yiaddr, IPV4_BROADCAST, DHCP_V4_CLIENT_PORT)
                    && final(self).offered_ip.view().contains_key(msg.chaddr.octets_seq())
                    && final(self).offered_ip.view()[msg.chaddr.octets_seq()].ip == reply.yiaddr
                    && (old(self).offered_ip.view().contains_key(msg.chaddr.octets_seq()) ==> reply.yiaddr == old(self).offered_ip.view()[msg.chaddr.octets_seq()].ip),
                None => !old(self).offered_ip.view().contains_key(msg.chaddr.octets_seq()),
            },
            msg.op == 1 && msg.message_type == 3 && msg.requested_ip is None ==> r is None && *final(self) == *old(self),
            msg.op == 1 && msg.message_type == 3 && msg.requested_ip is Some ==> {
                let ip = msg.requested_ip->0;
                let acked = old(self).offered_ip.view().contains_key(msg.chaddr.octets_seq())
                    && old(self).offered_ip.view()[msg.chaddr.octets_seq()].ip == ip;
                let port = if wants_broadcast(msg.flags) { DHCP_V4_CLIENT_PORT } else { msg.source_port };
                &&& final(self).offered_ip.view().dom() == old(self).offered_ip.view().dom()
                &&& final(self).allocated_host@ == old(self).allocated_host@
                &&& acked ==> r == Some(reply_to(*msg, DhcpV4ReplyKind::Ack, ip, IPV4_BROADCAST, port))
                &&& !acked ==> r == Some(reply_to(*msg, DhcpV4ReplyKind::Nak, 0, IPV4_BROADCAST, port))
            },
            v4_message_handled(*old(self), *final(self), now, *msg, seed, r),
    {
        if msg.op != 1 {
            return None;
        }
        if msg.message_type == DHCP_DISCOVER {
            match self.offer_ip_at(now, &msg.chaddr, seed) {
                Some(ip) => Some(DhcpV4Reply {
                    kind: DhcpV4ReplyKind::Offer,
                    xid: msg.xid,
                    secs: msg.secs,
                    flags: msg.flags,
                    yiaddr: ip,
                    chaddr: msg.chaddr,
                    dest_ip: IPV4_BROADCAST,
                    dest_port: DHCP_V4_CLIENT_PORT,
                }),
                None => None,
            }
        } else if msg.message_type == DHCP_REQUEST {
            match msg.requested_ip {
                None => None,
                Some(ip) => {
                    let acked = self.ack_request_at(now, &msg.chaddr, ip);
                    let port = if msg.flags >= 0x8000 {
                        DHCP_V4_CLIENT_PORT
                    } else {
                        msg.source_port
                    };
                    Some(DhcpV4Reply {
                        kind: if acked {
                            DhcpV4ReplyKind::Ack
                        } else {
                            DhcpV4ReplyKind::Nak
                        },
                        xid: msg.xid,
                        secs: msg.secs,
                        flags: msg.flags,
                        yiaddr: if acked {
                            ip
                        } else {
                            0
                        },
                        chaddr: msg.chaddr,
                        dest_ip: IPV4_BROADCAST,
                        dest_port: port,
                    })
                },
            }
        } else {
            None
        }
    }
}

impl DHCPv4Server {
    /// Answers a client's message by the server's clock: what
    /// `handle_dhcp_message_at` does at the time the clock gave.
    pub fn handle_dhcp_message(&mut self, msg: &DhcpV4Message, seed: u32) -> (r: Option<DhcpV4Reply>)
        requires
            old(self).wf(),
            msg.op == 1 ==> handled_message_type(msg.message_type),
        ensures
            final(self).wf(),
            msg.op != 1 || (msg.message_type != 1 && msg.message_type != 3) ==> r is None,
            msg.op == 1 && msg.message_type == 3 && msg.requested_ip is Some ==> {
                let ip = msg.requested_ip->0;
                let acked = old(self).offered_ip.view().contains_key(msg.chaddr.octets_seq())
                    && old(self).offered_ip.view()[msg.chaddr.octets_seq()].ip == ip;
                let port = if wants_broadcast(msg.flags) { DHCP_V4_CLIENT_PORT } else { msg.source_port };
                &&& acked ==> r == Some(reply_to(*msg, DhcpV4ReplyKind::Ack, ip, IPV4_BROADCAST, port))
                &&& !acked ==> r == Some(reply_to(*msg, DhcpV4ReplyKind::Nak, 0, IPV4_BROADCAST, port))
            },
            msg.op == 1 && msg.message_type == 1 ==> match r {
                Some(reply) => reply == reply_to(*msg, DhcpV4ReplyKind::Offer, reply.yiaddr, IPV4_BROADCAST, DHCP_V4_CLIENT_PORT)
                    && final(self).offered_ip.view().contains_key(msg.chaddr.octets_seq())
                    && final(self).offered_ip.view()[msg.chaddr.octets_seq()].ip == reply.yiaddr,
                None => !old(self).offered_ip.view().contains_key(msg.chaddr.octets_seq()),
            },
            exists|now: u64| v4_message_handled(*old(self), *final(self), now, *msg, seed, r),
    {
        let now = elapsed_secs(&self.relative_boot_time);
        let r = self.handle_dhcp_message_at(now, msg, seed);
        assert(v4_message_handled(*old(self), *self, now, *msg, seed, r));
        r
    }
}

} // verus!
