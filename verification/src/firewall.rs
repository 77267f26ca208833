//! The firewall service, its per-interface settings, and the rule set it
//! installs: each enabled rule item, expanded port by port, marked with its
//! rule's mark, and the change from one rule set to the next.
use std::collections::BTreeMap;
use vstd::prelude::*;

verus! {

/// The firewall service; it keeps no state of its own.
#[derive(Clone, Copy, Debug)]
pub struct FirewallService;

/// Whether the firewall runs on an interface.
#[derive(Clone, Debug)]
pub struct FirewallServiceConfig {
    pub iface_name: String,
    pub enable: bool,
}

impl FirewallServiceConfig {
    /// The key under which the settings are stored: the interface's name.
    pub fn get_store_key(&self) -> (r: String)
        ensures
            r@ == self.iface_name@,
    {
        self.iface_name.clone()
    }
}

/// The address of a rule item.
#[derive(Clone, Copy, Debug, PartialEq, Eq, Structural)]
pub enum RuleAddress {
    V4(u32),
    V6(u128),
}

/// One installed match: protocol (if any), local port (if any), and
/// address prefix.
#[derive(Clone, Copy, Debug, PartialEq, Eq, Structural)]
pub struct FirewallRuleItem {
    pub ip_protocol: Option<u8>,
    pub local_port: Option<u16>,
    pub address: RuleAddress,
    pub ip_prefixlen: u8,
}

/// An inclusive range of ports.
#[derive(Clone, Copy, Debug, PartialEq, Eq, Structural)]
pub struct PortRange {
    pub start: u16,
    pub end: u16,
}

/// An item of a rule as configured: its local ports as a range.
#[derive(Clone, Copy, Debug, PartialEq, Eq, Structural)]
pub struct FirewallRuleItemConfig {
    pub ip_protocol: Option<u8>,
    pub local_port: Option<PortRange>,
    pub address: RuleAddress,
    pub ip_prefixlen: u8,
}

/// A configured rule: its items all get its mark; of two rules that match
/// the same item, the one of the higher index (the later of equal ones)
/// wins.
#[derive(Clone, Debug)]
pub struct FirewallRuleConfig {
    pub index: u32,
    pub enable: bool,
    pub mark: u32,
    pub items: Vec<FirewallRuleItemConfig>,
}

/// An installed item and its mark.
#[derive(Clone, Copy, Debug, PartialEq, Eq, Structural)]
pub struct FirewallRuleMark {
    pub mark: u32,
    pub item: FirewallRuleItem,
}

/// The number under which an item is installed: its address, family,
/// prefix length, protocol and port, each kept apart.
pub open spec fn key_of(it: FirewallRuleItem) -> (u128, u8, u8, u16, u32) {
    (
        match it.address {
            RuleAddress::V4(a) => a as u128,
            RuleAddress::V6(a) => a,
        },
        match it.address {
            RuleAddress::V4(_) => 4u8,
            RuleAddress::V6(_) => 6u8,
        },
        it.ip_prefixlen,
        match it.ip_protocol {
            None => 0u16,
            Some(p) => (p + 1) as u16,
        },
        match it.local_port {
            None => 0u32,
            Some(p) => (p + 1) as u32,
        },
    )
}

/// Two items with the same number are the same item.
pub proof fn lemma_key_of_injective(a: FirewallRuleItem, b: FirewallRuleItem)
    requires
        key_of(a) == key_of(b),
    ensures
        a == b,
{
}

fn item_key(it: &FirewallRuleItem) -> (k: (u128, u8, u8, u16, u32))
    ensures
        k == key_of(*it),
{
    let a = match it.address {
        RuleAddress::V4(a) => a as u128,
        RuleAddress::V6(a) => a,
    };
    let f: u8 = match it.address {
        RuleAddress::V4(_) => 4,
        RuleAddress::V6(_) => 6,
    };
    let p: u16 = match it.ip_protocol {
        None => 0,
        Some(p) => p as u16 + 1,
    };
    let l: u32 = match it.local_port {
        None => 0,
        Some(l) => l as u32 + 1,
    };
    (a, f, it.ip_prefixlen, p, l)
}

/// An installed item with its mark and the index of the rule it came from.
pub type MarkEntry = (FirewallRuleItem, u32, u32);

/// The marks once `it` is marked `mark` by a rule of index `index`, later
/// than every rule seen so far: it wins unless the item's mark came from a
/// rule of higher index.
pub open spec fn set_mark(
    m: Map<(u128, u8, u8, u16, u32), MarkEntry>,
    it: FirewallRuleItem,
    mark: u32,
    index: u32,
) -> Map<(u128, u8, u8, u16, u32), MarkEntry> {
    let k = key_of(it);
    if m.contains_key(k) && m[k].2 > index {
        m
    } else {
        m.insert(k, (it, mark, index))
    }
}

/// The item that a configured item makes for local port `p` (or none).
pub open spec fn item_for(c: FirewallRuleItemConfig, p: Option<u16>) -> FirewallRuleItem {
    FirewallRuleItem {
        ip_protocol: c.ip_protocol,
        local_port: p,
        address: c.address,
        ip_prefixlen: c.ip_prefixlen,
    }
}

/// The marks once the ports `lo` up to `hi` (exclusive) of `c` are marked.
pub open spec fn ports_marked(
    m: Map<(u128, u8, u8, u16, u32), MarkEntry>,
    c: FirewallRuleItemConfig,
    mark: u32,
    index: u32,
    lo: int,
    hi: int,
) -> Map<(u128, u8, u8, u16, u32), MarkEntry>
    decreases hi - lo,
{
    if hi <= lo {
        m
    } else {
        set_mark(
            ports_marked(m, c, mark, index, lo, hi - 1),
            item_for(c, Some((hi - 1) as u16)),
            mark,
            index,
        )
    }
}

/// The marks once configured item `c` is marked: without ports, the item
/// itself; with a range, each port of it; with a range that ends before it
/// starts, nothing.
pub open spec fn item_marked(
    m: Map<(u128, u8, u8, u16, u32), MarkEntry>,
    c: FirewallRuleItemConfig,
    mark: u32,
    index: u32,
) -> Map<(u128, u8, u8, u16, u32), MarkEntry> {
    match c.local_port {
        None => set_mark(m, item_for(c, None), mark, index),
        Some(r) => if r.start <= r.end {
            ports_marked(m, c, mark, index, r.start as int, r.end + 1)
        } else {
            m
        },
    }
}

/// The marks once the first `n` items of a rule are marked.
pub open spec fn items_marked(
    m: Map<(u128, u8, u8, u16, u32), MarkEntry>,
    items: Seq<FirewallRuleItemConfig>,
    mark: u32,
    index: u32,
    n: int,
) -> Map<(u128, u8, u8, u16, u32), MarkEntry>
    decreases n,
{
    if n <= 0 {
        m
    } else {
        item_marked(items_marked(m, items, mark, index, n - 1), items[n - 1], mark, index)
    }
}

/// The marks of the first `n` rules, taken in order; disabled rules mark
/// nothing.
pub open spec fn rules_marked(rules: Seq<FirewallRuleConfig>, n: int) -> Map<
    (u128, u8, u8, u16, u32),
    MarkEntry,
>
    decreases n,
{
    if n <= 0 {
        Map::empty()
    } else {
        let m = rules_marked(rules, n - 1);
        let r = rules[n - 1];
        if r.enable {
            items_marked(m, r.items@, r.mark, r.index, r.items@.len() as int)
        } else {
            m
        }
    }
}

/// Item numbers are ordered as the map needs.
proof fn lemma_key_laws()
    ensures
        vstd::std_specs::btree::key_obeys_cmp_spec::<(u128, u8, u8, u16, u32)>(),
{
    broadcast use vstd::std_specs::btree::group_btree_axioms;
    broadcast use vstd::laws_cmp::group_laws_cmp;

}

/// Numbers in increasing order are distinct.
proof fn lemma_increasing_keys_distinct(ks: Seq<(u128, u8, u8, u16, u32)>)
    requires
        vstd::std_specs::btree::increasing_seq(ks),
    ensures
        ks.no_duplicates(),
{
    broadcast use vstd::std_specs::btree::group_btree_axioms;
    broadcast use vstd::laws_cmp::group_laws_cmp;

    assert forall|a: int, b: int| 0 <= a < b < ks.len() implies ks[a] != ks[b] by {
        assert(vstd::std_specs::cmp::OrdSpec::cmp_spec(&ks[a], &ks[b]) is Less);
    }
}

fn mark_item(
    m: &mut BTreeMap<(u128, u8, u8, u16, u32), MarkEntry>,
    it: FirewallRuleItem,
    mark: u32,
    index: u32,
)
    ensures
        final(m)@ == set_mark(old(m)@, it, mark, index),
{
    broadcast use vstd::std_specs::btree::group_btree_axioms;

    proof {
        lemma_key_laws();
    }
    let k = item_key(&it);
    let keep = match m.get(&k) {
        Some(e) => e.2 > index,
        None => false,
    };
    if !keep {
        let _ = m.insert(k, (it, mark, index));
    }
}

fn port_of(p: u32) -> (r: u16)
    requires
        p <= u16::MAX,
    ensures
        r == p,
{
    p as u16
}

fn range_end(r: PortRange) -> (e: u32)
    ensures
        e == r.end + 1,
{
    r.end as u32 + 1
}

fn mark_item_config(
    m: &mut BTreeMap<(u128, u8, u8, u16, u32), MarkEntry>,
    c: FirewallRuleItemConfig,
    mark: u32,
    index: u32,
)
    ensures
        final(m)@ == item_marked(old(m)@, c, mark, index),
{
    match c.local_port {
        None => {
            mark_item(
                m,
                FirewallRuleItem {
                    ip_protocol: c.ip_protocol,
                    local_port: None,
                    address: c.address,
                    ip_prefixlen: c.ip_prefixlen,
                },
                mark,
                index,
            );
        },
        Some(r) => {
            if r.start <= r.end {
                let ghost m0 = m@;
                let end = range_end(r);
                let mut p: u32 = range_end(PortRange { start: 0, end: r.start }) - 1;
                while p < end
                    invariant
                        r.start <= p <= end,
                        end == r.end + 1,
                        end <= 65536,
                        m@ == ports_marked(m0, c, mark, index, r.start as int, p as int),
                    decreases end - p,
                {
                    mark_item(
                        m,
                        FirewallRuleItem {
                            ip_protocol: c.ip_protocol,
                            local_port: Some(port_of(p)),
                            address: c.address,
                            ip_prefixlen: c.ip_prefixlen,
                        },
                        mark,
                        index,
                    );
                    p = p + 1;
                }
            }
        },
    }
}

/// The items of the enabled rules, each with the mark of the rule of
/// highest index (the later of equal ones) that has it; a range of ports
/// stands for each of its ports. Rules are taken in the order given.
pub fn firewall_rule_into_hash(rules: &[FirewallRuleConfig]) -> (m: BTreeMap<
    (u128, u8, u8, u16, u32),
    MarkEntry,
>)
    ensures
        m@ == rules_marked(rules@, rules@.len() as int),
{
    broadcast use vstd::std_specs::btree::group_btree_axioms;

    let mut m: BTreeMap<(u128, u8, u8, u16, u32), MarkEntry> = BTreeMap::new();
    let mut i: usize = 0;
    while i < rules.len()
        invariant
            i <= rules@.len(),
            m@ == rules_marked(rules@, i as int),
        decreases rules@.len() - i,
    {
        let rule = &rules[i];
        if rule.enable {
            let ghost m0 = m@;
            let mut j: usize = 0;
            while j < rule.items.len()
                invariant
                    j <= rule.items@.len(),
                    m@ == items_marked(m0, rule.items@, rule.mark, rule.index, j as int),
                decreases rule.items@.len() - j,
            {
                mark_item_config(&mut m, rule.items[j], rule.mark, rule.index);
                j = j + 1;
            }
        }
        i = i + 1;
    }
    m
}

/// The installed items that the next set has the same mark for.
pub open spec fn unchanged_keys(
    new: Map<(u128, u8, u8, u16, u32), MarkEntry>,
    old: Map<(u128, u8, u8, u16, u32), MarkEntry>,
) -> Set<(u128, u8, u8, u16, u32)> {
    new.dom().filter(|k: (u128, u8, u8, u16, u32)| old.contains_key(k) && old[k].1 == new[k].1)
}

/// The items of `old` under keys `ks` that `new` no longer has, in the
/// order of `ks`.
pub open spec fn dropped_items(
    new: Map<(u128, u8, u8, u16, u32), MarkEntry>,
    old: Map<(u128, u8, u8, u16, u32), MarkEntry>,
    ks: Seq<(u128, u8, u8, u16, u32)>,
) -> Seq<FirewallRuleItem>
    decreases ks.len(),
{
    if ks.len() == 0 {
        Seq::empty()
    } else {
        let rest = dropped_items(new, old, ks.drop_last());
        if new.contains_key(ks.last()) {
            rest
        } else {
            rest.push(old[ks.last()].0)
        }
    }
}

/// Takes out of `new_rules` what is installed already with the same mark,
/// and hands back the installed items that `new_rules` no longer has, in
/// the order of their numbers.
pub fn find_delete_rule_keys(
    new_rules: &mut BTreeMap<(u128, u8, u8, u16, u32), MarkEntry>,
    old_rules: &BTreeMap<(u128, u8, u8, u16, u32), MarkEntry>,
) -> (deletes: Vec<FirewallRuleItem>)
    ensures
        final(new_rules)@ == old(new_rules)@.remove_keys(unchanged_keys(old(new_rules)@, old_rules@)),
        exists|ks: Seq<(u128, u8, u8, u16, u32)>|
            #![trigger dropped_items(old(new_rules)@, old_rules@, ks)]
            {
                &&& ks.no_duplicates()
                &&& ks.to_set() == old_rules@.dom()
                &&& deletes@ == dropped_items(old(new_rules)@, old_rules@, ks)
            },
{
    broadcast use vstd::std_specs::btree::group_btree_axioms;

    proof {
        lemma_key_laws();
    }
    let ghost n0 = new_rules@;
    let ghost o0 = old_rules@;
    let mut deletes: Vec<FirewallRuleItem> = Vec::new();
    let entries = old_rules.iter();
    let ghost r0 = vstd::std_specs::iter::IteratorSpec::remaining(&entries);
    let ghost ks = r0.map_values(|kv: (&(u128, u8, u8, u16, u32), &MarkEntry)| *kv.0);
    proof {
        assert(r0.len() == o0.dom().len());
        assert(vstd::std_specs::btree::increasing_seq(ks));
        lemma_increasing_keys_distinct(ks);
    }
    for (k, e) in it: entries
        invariant
            ks.no_duplicates(),
            it.seq() == r0,
            ks == r0.map_values(|kv: (&(u128, u8, u8, u16, u32), &MarkEntry)| *kv.0),
            forall|i: int| 0 <= i < r0.len() ==> o0.contains_key(*(#[trigger] r0[i]).0) && o0[*r0[i].0] == *r0[i].1,
            deletes@ == dropped_items(n0, o0, ks.take(it.index() as int)),
            new_rules@ == n0.remove_keys(unchanged_keys(n0, o0).intersect(ks.take(it.index() as int).to_set())),
    {
        let ghost i = it.index();
        proof {
            let t1 = ks.take(i + 1);
            assert(t1.drop_last() =~= ks.take(i as int));
            assert(t1.last() == *k);
            assert(ks[i as int] == *k);
            assert(!ks.take(i as int).to_set().contains(*k)) by {
                if ks.take(i as int).to_set().contains(*k) {
                    let j = choose|j: int| 0 <= j < i && ks.take(i as int)[j] == *k;
                    assert(ks[j] == ks[i as int]);
                }
            }
            assert(new_rules@.contains_key(*k) == n0.contains_key(*k));
        }
        let found = match new_rules.get(k) {
            Some(n) => Some(n.1),
            None => None,
        };
        match found {
            Some(mark) => {
                if mark == e.1 {
                    let _ = new_rules.remove(k);
                }
            },
            None => {
                deletes.push(e.0);
            },
        }
        proof {
            let done = ks.take(i + 1).to_set();
            assert(done =~= ks.take(i as int).to_set().insert(*k));
            assert(new_rules@ =~= n0.remove_keys(unchanged_keys(n0, o0).intersect(done)));
        }
    }
    proof {
        assert(ks.take(r0.len() as int) =~= ks);
        assert(vstd::std_specs::btree::increasing_seq(ks));
        lemma_increasing_keys_distinct(ks);
        assert forall|x: (u128, u8, u8, u16, u32)| ks.to_set().contains(x) <==> o0.dom().contains(x) by {
            if o0.contains_key(x) {
                assert(r0.contains((&x, &o0[x])));
                let i = choose|i: int| 0 <= i < r0.len() && r0[i] == (&x, &o0[x]);
                assert(ks[i] == x);
            }
        }
        assert(ks.to_set() =~= o0.dom());
        assert(unchanged_keys(n0, o0).intersect(ks.to_set()) =~= unchanged_keys(n0, o0));
    }
    deletes
}

/// The installed form of an entry: its item and mark.
pub open spec fn mark_of(e: MarkEntry) -> FirewallRuleMark {
    FirewallRuleMark { mark: e.1, item: e.0 }
}

/// The entries of `m` under keys `ks`, in that order, as installed marks.
pub open spec fn marks_in(m: Map<(u128, u8, u8, u16, u32), MarkEntry>, ks: Seq<(u128, u8, u8, u16, u32)>) -> Seq<FirewallRuleMark> {
    ks.map_values(|k: (u128, u8, u8, u16, u32)| mark_of(m[k]))
}

/// The entries as installed marks, in the order of their numbers.
pub fn convert_mark_map_to_vec_mark(value: &BTreeMap<(u128, u8, u8, u16, u32), MarkEntry>) -> (r: Vec<FirewallRuleMark>)
    ensures
        exists|ks: Seq<(u128, u8, u8, u16, u32)>|
            #![trigger marks_in(value@, ks)]
            {
                &&& ks.no_duplicates()
                &&& ks.to_set() == value@.dom()
                &&& r@ == marks_in(value@, ks)
            },
{
    broadcast use vstd::std_specs::btree::group_btree_axioms;

    proof {
        lemma_key_laws();
    }
    let ghost m0 = value@;
    let mut r: Vec<FirewallRuleMark> = Vec::new();
    let entries = value.iter();
    let ghost r0 = vstd::std_specs::iter::IteratorSpec::remaining(&entries);
    let ghost ks = r0.map_values(|kv: (&(u128, u8, u8, u16, u32), &MarkEntry)| *kv.0);
    proof {
        assert(r0.len() == m0.dom().len());
        assert(vstd::std_specs::btree::increasing_seq(ks));
        lemma_increasing_keys_distinct(ks);
    }
    for (k, e) in it: entries
        invariant
            it.seq() == r0,
            ks == r0.map_values(|kv: (&(u128, u8, u8, u16, u32), &MarkEntry)| *kv.0),
            forall|i: int| 0 <= i < r0.len() ==> m0.contains_key(*(#[trigger] r0[i]).0) && m0[*r0[i].0] == *r0[i].1,
            r@ == marks_in(m0, ks.take(it.index() as int)),
    {
        let ghost i = it.index();
        r.push(FirewallRuleMark { mark: e.1, item: e.0 });
        proof {
            assert(r@ =~= marks_in(m0, ks.take(i + 1)));
        }
    }
    proof {
        assert(ks.take(r0.len() as int) =~= ks);
        assert forall|x: (u128, u8, u8, u16, u32)| ks.to_set().contains(x) <==> m0.dom().contains(x) by {
            if m0.contains_key(x) {
                assert(r0.contains((&x, &m0[x])));
                let i = choose|i: int| 0 <= i < r0.len() && r0[i] == (&x, &m0[x]);
                assert(ks[i] == x);
            }
        }
        assert(ks.to_set() =~= m0.dom());
    }
    r
}

/// What to install and what to take out to go from one rule set to the
/// next.
pub struct FirewallRuleUpdate {
    pub add: Vec<FirewallRuleMark>,
    pub delete: Vec<FirewallRuleItem>,
}

/// The change from the installed rules `old_rules` to `rules`: every item
/// of the new set whose mark is new or changed is installed, and every
/// installed item the new set no longer has is taken out; items with an
/// unchanged mark are left alone.
pub fn update_firewall_rules(rules: &[FirewallRuleConfig], old_rules: &[FirewallRuleConfig]) -> (r:
    FirewallRuleUpdate)
    ensures
        ({
            let new = rules_marked(rules@, rules@.len() as int);
            let old = rules_marked(old_rules@, old_rules@.len() as int);
            &&& exists|ks: Seq<(u128, u8, u8, u16, u32)>|
                #![trigger marks_in(new.remove_keys(unchanged_keys(new, old)), ks)]
                {
                    &&& ks.no_duplicates()
                    &&& ks.to_set() == new.remove_keys(unchanged_keys(new, old)).dom()
                    &&& r.add@ == marks_in(new.remove_keys(unchanged_keys(new, old)), ks)
                }
            &&& exists|ks: Seq<(u128, u8, u8, u16, u32)>|
                #![trigger dropped_items(new, old, ks)]
                {
                    &&& ks.no_duplicates()
                    &&& ks.to_set() == old.dom()
                    &&& r.delete@ == dropped_items(new, old, ks)
                }
        }),
{
    let mut new_rules = firewall_rule_into_hash(rules);
    let old = firewall_rule_into_hash(old_rules);
    let delete = find_delete_rule_keys(&mut new_rules, &old);
    let add = convert_mark_map_to_vec_mark(&new_rules);
    FirewallRuleUpdate { add, delete }
}

/// Every entry of a mark map sits under the number of its own item.
pub open spec fn keyed_by_item(m: Map<(u128, u8, u8, u16, u32), MarkEntry>) -> bool {
    forall|k: (u128, u8, u8, u16, u32)| #[trigger] m.contains_key(k) ==> key_of(m[k].0) == k
}

proof fn lemma_ports_keyed(m: Map<(u128, u8, u8, u16, u32), MarkEntry>, c: FirewallRuleItemConfig, mark: u32, index: u32, lo: int, hi: int)
    requires
        keyed_by_item(m),
    ensures
        keyed_by_item(ports_marked(m, c, mark, index, lo, hi)),
    decreases hi - lo,
{
    if hi > lo {
        lemma_ports_keyed(m, c, mark, index, lo, hi - 1);
    }
}

proof fn lemma_items_keyed(m: Map<(u128, u8, u8, u16, u32), MarkEntry>, items: Seq<FirewallRuleItemConfig>, mark: u32, index: u32, n: int)
    requires
        keyed_by_item(m),
    ensures
        keyed_by_item(items_marked(m, items, mark, index, n)),
    decreases n,
{
    if n > 0 {
        lemma_items_keyed(m, items, mark, index, n - 1);
        let m1 = items_marked(m, items, mark, index, n - 1);
        let c = items[n - 1];
        match c.local_port {
            None => {},
            Some(r) => {
                if r.start <= r.end {
                    lemma_ports_keyed(m1, c, mark, index, r.start as int, r.end + 1);
                }
            },
        }
    }
}

/// The mark map of any rule set holds each item under its own number, so
/// that it is a map from items to marks.
pub proof fn law_marks_keyed_by_item(rules: Seq<FirewallRuleConfig>, n: int)
    ensures
        keyed_by_item(rules_marked(rules, n)),
    decreases n,
{
    if n > 0 {
        law_marks_keyed_by_item(rules, n - 1);
        let r = rules[n - 1];
        if r.enable {
            lemma_items_keyed(rules_marked(rules, n - 1), r.items@, r.mark, r.index, r.items@.len() as int);
        }
    }
}

/// Taking out what the new set no longer has and installing what it
/// changed turns the installed set into the new one: the same items, each
/// with its new mark.
pub proof fn law_update_reaches_new_rules(
    new: Map<(u128, u8, u8, u16, u32), MarkEntry>,
    old: Map<(u128, u8, u8, u16, u32), MarkEntry>,
)
    ensures
        ({
            let kept = old.remove_keys(old.dom().difference(new.dom()));
            let after = kept.union_prefer_right(new.remove_keys(unchanged_keys(new, old)));
            &&& after.dom() == new.dom()
            &&& forall|k: (u128, u8, u8, u16, u32)| #[trigger] new.contains_key(k) ==> after[k].1 == new[k].1
        }),
{
    let kept = old.remove_keys(old.dom().difference(new.dom()));
    let adds = new.remove_keys(unchanged_keys(new, old));
    let after = kept.union_prefer_right(adds);
    assert(after.dom() =~= new.dom());
}

/// Configured item `c` stands for item `it`.
pub open spec fn config_covers(c: FirewallRuleItemConfig, it: FirewallRuleItem) -> bool {
    &&& it.ip_protocol == c.ip_protocol
    &&& it.address == c.address
    &&& it.ip_prefixlen == c.ip_prefixlen
    &&& match c.local_port {
        None => it.local_port is None,
        Some(r) => r.start <= r.end && it.local_port is Some && r.start <= it.local_port->0 <= r.end,
    }
}

/// Rule `r` is enabled and one of its items stands for `it`.
pub open spec fn rule_covers(r: FirewallRuleConfig, it: FirewallRuleItem) -> bool {
    r.enable && exists|j: int| 0 <= j < r.items@.len() && config_covers(#[trigger] r.items@[j], it)
}

/// Every entry of `m1` is in `m2`, from a rule of index no lower.
pub open spec fn grows(m1: Map<(u128, u8, u8, u16, u32), MarkEntry>, m2: Map<(u128, u8, u8, u16, u32), MarkEntry>) -> bool {
    forall|k: (u128, u8, u8, u16, u32)| #[trigger] m1.contains_key(k) ==> m2.contains_key(k) && m2[k].2 >= m1[k].2
}

/// Every entry of `m2` is an entry of `m1` or the mark and index
/// (`mark`, `index`) of an item that `c` stands for.
pub open spec fn from_config(
    m2: Map<(u128, u8, u8, u16, u32), MarkEntry>,
    m1: Map<(u128, u8, u8, u16, u32), MarkEntry>,
    c: FirewallRuleItemConfig,
    mark: u32,
    index: u32,
) -> bool {
    forall|k: (u128, u8, u8, u16, u32)| #[trigger] m2.contains_key(k) ==> (m1.contains_key(k) && m2[k] == m1[k]) || (
    config_covers(c, m2[k].0) && m2[k].1 == mark && m2[k].2 == index)
}

proof fn lemma_ports_cover(
    m: Map<(u128, u8, u8, u16, u32), MarkEntry>,
    c: FirewallRuleItemConfig,
    mark: u32,
    index: u32,
    lo: int,
    hi: int,
)
    requires
        c.local_port is Some,
        c.local_port->0.start == lo,
        lo <= hi <= c.local_port->0.end + 1,
        c.local_port->0.start <= c.local_port->0.end,
    ensures
        grows(m, ports_marked(m, c, mark, index, lo, hi)),
        from_config(ports_marked(m, c, mark, index, lo, hi), m, c, mark, index),
        forall|p: int|
            lo <= p < hi ==> #[trigger] ports_marked(m, c, mark, index, lo, hi).contains_key(
                key_of(item_for(c, Some(p as u16))),
            ) && ports_marked(m, c, mark, index, lo, hi)[key_of(item_for(c, Some(p as u16)))].2
                >= index,
    decreases hi - lo,
{
    if hi > lo {
        lemma_ports_cover(m, c, mark, index, lo, hi - 1);
        let m1 = ports_marked(m, c, mark, index, lo, hi - 1);
        let m2 = ports_marked(m, c, mark, index, lo, hi);
        assert forall|p: int| lo <= p < hi implies #[trigger] m2.contains_key(key_of(item_for(c, Some(p as u16))))
            && m2[key_of(item_for(c, Some(p as u16)))].2 >= index by {
            if p < hi - 1 {
                assert(m1.contains_key(key_of(item_for(c, Some(p as u16)))));
            }
        }
        assert forall|k: (u128, u8, u8, u16, u32)| #[trigger] m2.contains_key(k) implies (m.contains_key(k) && m2[k] == m[k]) || (
        config_covers(c, m2[k].0) && m2[k].1 == mark && m2[k].2 == index) by {
            if m1.contains_key(k) && m2[k] == m1[k] {
                assert(m1.contains_key(k));
            }
        }
        assert forall|k: (u128, u8, u8, u16, u32)| #[trigger] m.contains_key(k) implies m2.contains_key(k) && m2[k].2 >= m[k].2 by {
            assert(m1.contains_key(k));
        }
    }
}

proof fn lemma_item_cover(m: Map<(u128, u8, u8, u16, u32), MarkEntry>, c: FirewallRuleItemConfig, mark: u32, index: u32)
    ensures
        grows(m, item_marked(m, c, mark, index)),
        from_config(item_marked(m, c, mark, index), m, c, mark, index),
        forall|it: FirewallRuleItem|
            config_covers(c, it) ==> #[trigger] item_marked(m, c, mark, index).contains_key(key_of(it))
                && item_marked(m, c, mark, index)[key_of(it)].2 >= index,
{
    match c.local_port {
        None => {
            assert forall|it: FirewallRuleItem| config_covers(c, it) implies #[trigger] item_marked(m, c, mark, index).contains_key(key_of(it))
                && item_marked(m, c, mark, index)[key_of(it)].2 >= index by {
                assert(it == item_for(c, None));
            }
        },
        Some(r) => {
            if r.start <= r.end {
                lemma_ports_cover(m, c, mark, index, r.start as int, r.end + 1);
                assert forall|it: FirewallRuleItem| config_covers(c, it) implies #[trigger] item_marked(m, c, mark, index).contains_key(key_of(it))
                    && item_marked(m, c, mark, index)[key_of(it)].2 >= index by {
                    let p = it.local_port->0 as int;
                    assert(it == item_for(c, Some(p as u16)));
                }
            }
        },
    }
}

proof fn lemma_items_cover(
    m: Map<(u128, u8, u8, u16, u32), MarkEntry>,
    r: FirewallRuleConfig,
    n: int,
)
    requires
        r.enable,
        0 <= n <= r.items@.len(),
    ensures
        grows(m, items_marked(m, r.items@, r.mark, r.index, n)),
        forall|k: (u128, u8, u8, u16, u32)| #[trigger] items_marked(m, r.items@, r.mark, r.index, n).contains_key(k) ==> (m.contains_key(k)
            && items_marked(m, r.items@, r.mark, r.index, n)[k] == m[k]) || (rule_covers(r, items_marked(m, r.items@, r.mark, r.index, n)[k].0)
            && items_marked(m, r.items@, r.mark, r.index, n)[k].1 == r.mark && items_marked(m, r.items@, r.mark, r.index, n)[k].2 == r.index),
        forall|it: FirewallRuleItem|
            (exists|j: int| 0 <= j < n && config_covers(#[trigger] r.items@[j], it)) ==> #[trigger] items_marked(m, r.items@, r.mark, r.index, n).contains_key(key_of(it))
                && items_marked(m, r.items@, r.mark, r.index, n)[key_of(it)].2 >= r.index,
    decreases n,
{
    if n > 0 {
        lemma_items_cover(m, r, n - 1);
        let m1 = items_marked(m, r.items@, r.mark, r.index, n - 1);
        let m2 = items_marked(m, r.items@, r.mark, r.index, n);
        let c = r.items@[n - 1];
        lemma_item_cover(m1, c, r.mark, r.index);
        assert forall|k: (u128, u8, u8, u16, u32)| #[trigger] m.contains_key(k) implies m2.contains_key(k) && m2[k].2 >= m[k].2 by {
            assert(m1.contains_key(k));
        }
        assert forall|k: (u128, u8, u8, u16, u32)| #[trigger] m2.contains_key(k) implies (m.contains_key(k) && m2[k] == m[k]) || (
        rule_covers(r, m2[k].0) && m2[k].1 == r.mark && m2[k].2 == r.index) by {
            if m1.contains_key(k) && m2[k] == m1[k] {
                assert(m1.contains_key(k));
            } else {
                assert(config_covers(c, m2[k].0));
            }
        }
        assert forall|it: FirewallRuleItem| (exists|j: int| 0 <= j < n && config_covers(#[trigger] r.items@[j], it)) implies #[trigger] m2.contains_key(key_of(it))
            && m2[key_of(it)].2 >= r.index by {
            let j = choose|j: int| 0 <= j < n && config_covers(#[trigger] r.items@[j], it);
            if j < n - 1 {
                assert(m1.contains_key(key_of(it)));
            }
        }
    }
}

/// Each installed item carries the mark of an enabled rule that covers it,
/// and no enabled rule that covers it has a higher index: the rule of
/// highest index wins (of rules of equal index, the later one).
pub proof fn law_highest_index_rule_wins(rules: Seq<FirewallRuleConfig>, n: int)
    requires
        0 <= n <= rules.len(),
    ensures
        forall|k: (u128, u8, u8, u16, u32)| #[trigger] rules_marked(rules, n).contains_key(k) ==> exists|i: int|
            0 <= i < n && rule_covers(#[trigger] rules[i], rules_marked(rules, n)[k].0) && rules_marked(rules, n)[k].1
                == rules[i].mark && rules_marked(rules, n)[k].2 == rules[i].index,
        forall|i: int, it: FirewallRuleItem|
            0 <= i < n && #[trigger] rule_covers(rules[i], it) ==> #[trigger] rules_marked(rules, n).contains_key(key_of(it))
                && rules_marked(rules, n)[key_of(it)].2 >= rules[i].index,
    decreases n,
{
    if n > 0 {
        law_highest_index_rule_wins(rules, n - 1);
        let m1 = rules_marked(rules, n - 1);
        let m2 = rules_marked(rules, n);
        let r = rules[n - 1];
        if r.enable {
            lemma_items_cover(m1, r, r.items@.len() as int);
            assert forall|k: (u128, u8, u8, u16, u32)| #[trigger] m2.contains_key(k) implies exists|i: int|
                0 <= i < n && rule_covers(#[trigger] rules[i], m2[k].0) && m2[k].1 == rules[i].mark && m2[k].2 == rules[i].index by {
                if m1.contains_key(k) && m2[k] == m1[k] {
                    let i = choose|i: int| 0 <= i < n - 1 && rule_covers(#[trigger] rules[i], m1[k].0) && m1[k].1 == rules[i].mark && m1[k].2 == rules[i].index;
                    assert(rule_covers(rules[i], m2[k].0));
                } else {
                    assert(rule_covers(rules[n - 1], m2[k].0));
                }
            }
            assert forall|i: int, it: FirewallRuleItem| 0 <= i < n && #[trigger] rule_covers(rules[i], it) implies #[trigger] m2.contains_key(key_of(it))
                && m2[key_of(it)].2 >= rules[i].index by {
                if i < n - 1 {
                    assert(m1.contains_key(key_of(it)));
                }
            }
        } else {
            assert forall|i: int, it: FirewallRuleItem| 0 <= i < n && #[trigger] rule_covers(rules[i], it) implies #[trigger] m2.contains_key(key_of(it))
                && m2[key_of(it)].2 >= rules[i].index by {
                assert(i < n - 1);
            }
        }
    }
}

} // verus!
