//! The dynamic DNS redirects that other services publish: batches of
//! records, each under a scope (every flow, or one flow) and the id of its
//! source. A batch replaces the earlier batch of its scope and source; an
//! empty batch withdraws it. Every change is announced as an event.
use vstd::prelude::*;
use vstd::string::{StrSliceExecFns, StringExecFns};

verus! {

/// The flows that a dynamic redirect applies to.
#[derive(Clone, Copy, Debug, PartialEq, Eq, Structural)]
pub enum DynamicDnsRedirectScope {
    Global,
    Flow(u32),
}

impl DynamicDnsRedirectScope {
    /// A global batch applies to every flow, a flow's batch to that flow.
    pub open spec fn covers_flow(self, flow_id: u32) -> bool {
        match self {
            DynamicDnsRedirectScope::Global => true,
            DynamicDnsRedirectScope::Flow(f) => f == flow_id,
        }
    }

    pub fn applies_to_flow(&self, flow_id: u32) -> (r: bool)
        ensures
            r == self.covers_flow(flow_id),
    {
        match self {
            DynamicDnsRedirectScope::Global => true,
            DynamicDnsRedirectScope::Flow(f) => *f == flow_id,
        }
    }
}

/// The records that one source publishes for one scope.
pub struct DynamicDnsRedirectBatch<R> {
    pub scope: DynamicDnsRedirectScope,
    pub source_id: String,
    pub records: Vec<R>,
}

/// A change that the DNS service is told of.
#[derive(Clone, Debug, PartialEq, Eq)]
pub enum DnsEvent {
    /// The configured redirects of one flow (or of all) changed.
    RedirectsChanged { flow_id: Option<u32> },
    /// The dynamic redirects of one source changed, for one flow (or all).
    DynamicRedirectsChanged { flow_id: Option<u32>, source_id: String },
}

/// `a` comes before `b` in the order of their characters, a prefix first.
pub open spec fn lex_lt(a: Seq<char>, b: Seq<char>) -> bool
    decreases a.len(),
{
    if a.len() == 0 {
        b.len() > 0
    } else if b.len() == 0 {
        false
    } else if a[0] != b[0] {
        (a[0] as int) < (b[0] as int)
    } else {
        lex_lt(a.drop_first(), b.drop_first())
    }
}

proof fn lemma_lex_irreflexive(a: Seq<char>)
    ensures
        !lex_lt(a, a),
    decreases a.len(),
{
    if a.len() > 0 {
        lemma_lex_irreflexive(a.drop_first());
    }
}

proof fn lemma_lex_transitive(a: Seq<char>, b: Seq<char>, c: Seq<char>)
    requires
        lex_lt(a, b),
        lex_lt(b, c),
    ensures
        lex_lt(a, c),
    decreases a.len(),
{
    if a.len() > 0 && b.len() > 0 && c.len() > 0 && a[0] == b[0] && b[0] == c[0] {
        lemma_lex_transitive(a.drop_first(), b.drop_first(), c.drop_first());
    }
}

proof fn lemma_lex_total(a: Seq<char>, b: Seq<char>)
    ensures
        a == b || lex_lt(a, b) || lex_lt(b, a),
    decreases a.len(),
{
    if a.len() > 0 && b.len() > 0 && a[0] == b[0] {
        lemma_lex_total(a.drop_first(), b.drop_first());
        if a.drop_first() == b.drop_first() {
            assert(a =~= seq![a[0]] + a.drop_first());
            assert(b =~= seq![b[0]] + b.drop_first());
        }
    } else if a.len() == 0 && b.len() == 0 {
        assert(a =~= b);
    }
}

proof fn lemma_lex_asymmetric(a: Seq<char>, b: Seq<char>)
    requires
        lex_lt(a, b),
    ensures
        !lex_lt(b, a),
{
    if lex_lt(b, a) {
        lemma_lex_transitive(a, b, a);
        lemma_lex_irreflexive(a);
    }
}

/// Whether `a` sorts before `b`, character by character.
pub fn str_lt(a: &str, b: &str) -> (r: bool)
    ensures
        r == lex_lt(a@, b@),
{
    let n = a.unicode_len();
    let m = b.unicode_len();
    let mut i: usize = 0;
    proof {
        assert(a@.skip(0) =~= a@);
        assert(b@.skip(0) =~= b@);
    }
    while i < n && i < m && a.get_char(i) == b.get_char(i)
        invariant
            n == a@.len(),
            m == b@.len(),
            i <= n,
            i <= m,
            lex_lt(a@, b@) == lex_lt(a@.skip(i as int), b@.skip(i as int)),
        decreases n - i,
    {
        proof {
            let sa = a@.skip(i as int);
            let sb = b@.skip(i as int);
            assert(sa.drop_first() =~= a@.skip(i + 1));
            assert(sb.drop_first() =~= b@.skip(i + 1));
        }
        i = i + 1;
    }
    if i == n {
        i < m
    } else if i == m {
        false
    } else {
        let ca = a.get_char(i);
        let cb = b.get_char(i);
        (ca as u32) < (cb as u32)
    }
}

fn str_eq(a: &str, b: &str) -> (r: bool)
    ensures
        r == (a@ == b@),
{
    let n = a.unicode_len();
    if n != b.unicode_len() {
        return false;
    }
    let mut i: usize = 0;
    while i < n
        invariant
            n == a@.len(),
            n == b@.len(),
            i <= n,
            forall|j: int| 0 <= j < i ==> a@[j] == b@[j],
        decreases n - i,
    {
        if a.get_char(i) != b.get_char(i) {
            return false;
        }
        i += 1;
    }
    assert(a@ =~= b@);
    true
}

pub open spec fn scope_rank(s: DynamicDnsRedirectScope) -> int {
    match s {
        DynamicDnsRedirectScope::Global => 0,
        DynamicDnsRedirectScope::Flow(_) => 1,
    }
}

pub open spec fn scope_flow(s: DynamicDnsRedirectScope) -> int {
    match s {
        DynamicDnsRedirectScope::Global => 0,
        DynamicDnsRedirectScope::Flow(f) => f as int,
    }
}

/// The order of batches: global ones first, then by flow, then by source.
pub open spec fn key_lt(
    s1: DynamicDnsRedirectScope,
    id1: Seq<char>,
    s2: DynamicDnsRedirectScope,
    id2: Seq<char>,
) -> bool {
    ||| scope_rank(s1) < scope_rank(s2)
    ||| scope_rank(s1) == scope_rank(s2) && scope_flow(s1) < scope_flow(s2)
    ||| scope_rank(s1) == scope_rank(s2) && scope_flow(s1) == scope_flow(s2) && lex_lt(id1, id2)
}

pub open spec fn batch_lt<R>(a: DynamicDnsRedirectBatch<R>, b: DynamicDnsRedirectBatch<R>) -> bool {
    key_lt(a.scope, a.source_id@, b.scope, b.source_id@)
}

/// The batch is of scope `s` and source `id`.
pub open spec fn has_key<R>(b: DynamicDnsRedirectBatch<R>, s: DynamicDnsRedirectScope, id: Seq<char>) -> bool {
    b.scope == s && b.source_id@ == id
}

proof fn lemma_key_order(
    s1: DynamicDnsRedirectScope,
    id1: Seq<char>,
    s2: DynamicDnsRedirectScope,
    id2: Seq<char>,
    s3: DynamicDnsRedirectScope,
    id3: Seq<char>,
)
    ensures
        !key_lt(s1, id1, s1, id1),
        key_lt(s1, id1, s2, id2) && key_lt(s2, id2, s3, id3) ==> key_lt(s1, id1, s3, id3),
        (s1 == s2 && id1 == id2) || key_lt(s1, id1, s2, id2) || key_lt(s2, id2, s1, id1),
        key_lt(s1, id1, s2, id2) ==> !key_lt(s2, id2, s1, id1),
{
    lemma_lex_irreflexive(id1);
    if lex_lt(id1, id2) && lex_lt(id2, id3) {
        lemma_lex_transitive(id1, id2, id3);
    }
    lemma_lex_total(id1, id2);
    if lex_lt(id1, id2) {
        lemma_lex_asymmetric(id1, id2);
    }
    if scope_rank(s1) == scope_rank(s2) && scope_flow(s1) == scope_flow(s2) {
        assert(s1 == s2);
    }
}

/// The batches in order, each key once.
pub open spec fn batches_sorted<R>(s: Seq<DynamicDnsRedirectBatch<R>>) -> bool {
    forall|i: int, j: int| 0 <= i < j < s.len() ==> batch_lt(#[trigger] s[i], #[trigger] s[j])
}

/// The dynamic redirect batches held for the DNS service, in the order in
/// which they are listed: by key, each key once.
pub struct DNSRedirectService<R> {
    dynamic_batches: Vec<DynamicDnsRedirectBatch<R>>,
}

impl<R> View for DNSRedirectService<R> {
    type V = Seq<DynamicDnsRedirectBatch<R>>;

    /// The batches in listing order.
    closed spec fn view(&self) -> Seq<DynamicDnsRedirectBatch<R>> {
        self.dynamic_batches@
    }
}

impl<R> DNSRedirectService<R> {
    /// The batches stay in key order, each key once.
    #[verifier::type_invariant]
    closed spec fn batches_in_order(&self) -> bool {
        batches_sorted(self.dynamic_batches@)
    }
}

/// The batches once `b` is set: the batch of its scope and source
/// replaced by it, or put in its place in the order; or, for an empty
/// batch, withdrawn.
pub open spec fn batches_after_set<R>(
    s: Seq<DynamicDnsRedirectBatch<R>>,
    b: DynamicDnsRedirectBatch<R>,
    p: int,
) -> Seq<DynamicDnsRedirectBatch<R>> {
    let found = p < s.len() && has_key(s[p], b.scope, b.source_id@);
    if b.records@.len() == 0 {
        if found {
            s.remove(p)
        } else {
            s
        }
    } else if found {
        s.update(p, b)
    } else {
        s.insert(p, b)
    }
}

/// The place of a batch of key (`scope`, `id`) in `s`: after every batch
/// that sorts before it.
pub open spec fn place_of<R>(s: Seq<DynamicDnsRedirectBatch<R>>, scope: DynamicDnsRedirectScope, id: Seq<char>, p: int) -> bool {
    &&& 0 <= p <= s.len()
    &&& forall|i: int| 0 <= i < p ==> key_lt(#[trigger] s[i].scope, s[i].source_id@, scope, id)
    &&& forall|i: int| p <= i < s.len() ==> !key_lt(#[trigger] s[i].scope, s[i].source_id@, scope, id)
}

/// The event that a change of the dynamic batches of `source_id` under
/// `scope` raises.
pub open spec fn dynamic_change_event(scope: DynamicDnsRedirectScope, source_id: Seq<char>, e: DnsEvent) -> bool {
    e matches DnsEvent::DynamicRedirectsChanged { flow_id, source_id: sid } && sid@ == source_id
        && flow_id == match scope {
        DynamicDnsRedirectScope::Global => None,
        DynamicDnsRedirectScope::Flow(f) => Some(f),
    }
}

/// The batches of `s` that apply to flow `flow_id`, in order.
pub open spec fn flow_batches<R>(s: Seq<DynamicDnsRedirectBatch<R>>, flow_id: u32) -> Seq<DynamicDnsRedirectBatch<R>>
    decreases s.len(),
{
    if s.len() == 0 {
        Seq::empty()
    } else {
        let r = flow_batches(s.drop_last(), flow_id);
        if s.last().scope.covers_flow(flow_id) {
            r.push(s.last())
        } else {
            r
        }
    }
}

impl<R> DNSRedirectService<R> {
    pub fn new() -> (r: Self)
        ensures
            r@.len() == 0,
    {
        DNSRedirectService { dynamic_batches: Vec::new() }
    }

    /// Where a batch of key (`scope`, `id`) stands or would stand.
    fn find_place(&self, scope: DynamicDnsRedirectScope, id: &str) -> (p: usize)
        requires
            batches_sorted(self.dynamic_batches@),
        ensures
            place_of(self.dynamic_batches@, scope, id@, p as int),
    {
        let ghost s = self.dynamic_batches@;
        let mut p: usize = 0;
        while p < self.dynamic_batches.len()
            invariant
                s == self.dynamic_batches@,
                batches_sorted(s),
                p <= s.len(),
                forall|i: int| 0 <= i < p ==> key_lt(#[trigger] s[i].scope, s[i].source_id@, scope, id@),
            decreases s.len() - p,
        {
            let b = &self.dynamic_batches[p];
            let before = if b.scope == scope {
                str_lt(b.source_id.as_str(), id)
            } else {
                match (b.scope, scope) {
                    (DynamicDnsRedirectScope::Global, _) => true,
                    (DynamicDnsRedirectScope::Flow(_), DynamicDnsRedirectScope::Global) => false,
                    (DynamicDnsRedirectScope::Flow(f1), DynamicDnsRedirectScope::Flow(f2)) => f1 < f2,
                }
            };
            if !before {
                proof {
                    assert(!key_lt(s[p as int].scope, s[p as int].source_id@, scope, id@));
                    assert forall|i: int| p <= i < s.len() implies !key_lt(
                        #[trigger] s[i].scope,
                        s[i].source_id@,
                        scope,
                        id@,
                    ) by {
                        if i > p {
                            assert(batch_lt(s[p as int], s[i]));
                            lemma_key_order(
                                s[p as int].scope,
                                s[p as int].source_id@,
                                s[i].scope,
                                s[i].source_id@,
                                scope,
                                id@,
                            );
                            if key_lt(s[i].scope, s[i].source_id@, scope, id@) {
                                assert(key_lt(s[p as int].scope, s[p as int].source_id@, scope, id@));
                            }
                        }
                    }
                }
                return p;
            }
            assert(key_lt(s[p as int].scope, s[p as int].source_id@, scope, id@));
            p = p + 1;
        }
        p
    }

    /// Sets `batch` as the batch of its scope and source (withdrawing it
    /// where it has no record), and gives back the event that announces
    /// the change. The batches stay in order, each key once.
    pub fn set_dynamic_batch(&mut self, batch: DynamicDnsRedirectBatch<R>) -> (e: DnsEvent)
        ensures
            batches_sorted(old(self)@),
            batches_sorted(final(self)@),
            exists|p: int|
                place_of(old(self)@, batch.scope, batch.source_id@, p)
                    && final(self)@ == batches_after_set(
                    old(self)@,
                    batch,
                    p,
                ),
            dynamic_change_event(batch.scope, batch.source_id@, e),
    {
        proof {
            use_type_invariant(&*self);
        }
        let ghost s = self.dynamic_batches@;
        let ghost b0 = batch;
        let scope = batch.scope;
        let source_id = String::from_str(batch.source_id.as_str());
        let p = self.find_place(scope, batch.source_id.as_str());
        let mut batches: Vec<DynamicDnsRedirectBatch<R>> = Vec::new();
        std::mem::swap(&mut batches, &mut self.dynamic_batches);
        let found = p < batches.len() && batches[p].scope == scope
            && str_eq(batches[p].source_id.as_str(), batch.source_id.as_str());
        proof {
            assert(found == (p < s.len() && has_key(s[p as int], b0.scope, b0.source_id@)));
        }
        if batch.records.len() == 0 {
            if found {
                let _ = batches.remove(p);
                proof {
                    let t = batches@;
                    assert forall|i: int, j: int| 0 <= i < j < t.len() implies batch_lt(
                        #[trigger] t[i],
                        #[trigger] t[j],
                    ) by {
                        let i2 = if i < p { i } else { i + 1 };
                        let j2 = if j < p { j } else { j + 1 };
                        assert(t[i] == s[i2] && t[j] == s[j2]);
                    }
                }
            }
        } else if found {
            batches.set(p, batch);
            proof {
                let t = batches@;
                assert forall|i: int, j: int| 0 <= i < j < t.len() implies batch_lt(
                    #[trigger] t[i],
                    #[trigger] t[j],
                ) by {
                    if i == p {
                        assert(batch_lt(s[i], s[j]));
                    } else if j == p {
                        assert(batch_lt(s[i], s[j]));
                    }
                }
            }
        } else {
            batches.insert(p, batch);
            proof {
                let t = batches@;
                assert forall|i: int, j: int| 0 <= i < j < t.len() implies batch_lt(
                    #[trigger] t[i],
                    #[trigger] t[j],
                ) by {
                    if i < p && j < p {
                        assert(t[i] == s[i] && t[j] == s[j]);
                    } else if i < p && j == p {
                    } else if i < p && j > p {
                        assert(t[i] == s[i] && t[j] == s[j - 1]);
                        lemma_key_order(
                            s[i].scope,
                            s[i].source_id@,
                            b0.scope,
                            b0.source_id@,
                            s[j - 1].scope,
                            s[j - 1].source_id@,
                        );
                        if j - 1 == p {
                            assert(!key_lt(s[p as int].scope, s[p as int].source_id@, b0.scope, b0.source_id@));
                        }
                    } else if i == p {
                        assert(t[j] == s[j - 1]);
                        assert(!key_lt(s[j - 1].scope, s[j - 1].source_id@, b0.scope, b0.source_id@));
                        lemma_key_order(
                            b0.scope,
                            b0.source_id@,
                            s[j - 1].scope,
                            s[j - 1].source_id@,
                            b0.scope,
                            b0.source_id@,
                        );
                    } else {
                        assert(t[i] == s[i - 1] && t[j] == s[j - 1]);
                    }
                }
            }
        }
        proof {
            assert(batches@ == batches_after_set(s, b0, p as int));
        }
        self.dynamic_batches = batches;
        proof {
            assert(self@ == batches_after_set(s, b0, p as int));
            assert(place_of(old(self)@, b0.scope, b0.source_id@, p as int));
        }
        let flow_id = match scope {
            DynamicDnsRedirectScope::Global => None,
            DynamicDnsRedirectScope::Flow(f) => Some(f),
        };
        DnsEvent::DynamicRedirectsChanged { flow_id, source_id }
    }

    /// Every batch, global ones first, then by flow, then by source.
    pub fn list_dynamic_batches(&self) -> (r: &[DynamicDnsRedirectBatch<R>])
        ensures
            r@ == self@,
            batches_sorted(self@),
    {
        proof {
            use_type_invariant(self);
        }
        self.dynamic_batches.as_slice()
    }

    /// The batches that apply to flow `flow_id`, in the listing order.
    pub fn list_flow_dynamic_batches(&self, flow_id: u32) -> (r: Vec<&DynamicDnsRedirectBatch<R>>)
        ensures
            r@.map_values(|b: &DynamicDnsRedirectBatch<R>| *b) == flow_batches(self@, flow_id),
    {
        let mut r: Vec<&DynamicDnsRedirectBatch<R>> = Vec::new();
        let mut i: usize = 0;
        while i < self.dynamic_batches.len()
            invariant
                i <= self.dynamic_batches@.len(),
                r@.map_values(|b: &DynamicDnsRedirectBatch<R>| *b) == flow_batches(
                    self.dynamic_batches@.take(i as int),
                    flow_id,
                ),
            decreases self.dynamic_batches@.len() - i,
        {
            let ghost before = r@;
            assert(self.dynamic_batches@.take(i + 1).drop_last() =~= self.dynamic_batches@.take(i as int));
            if self.dynamic_batches[i].scope.applies_to_flow(flow_id) {
                r.push(&self.dynamic_batches[i]);
                assert(r@.map_values(|b: &DynamicDnsRedirectBatch<R>| *b) =~= before.map_values(
                    |b: &DynamicDnsRedirectBatch<R>| *b,
                ).push(self.dynamic_batches@[i as int]));
            }
            i = i + 1;
        }
        assert(self.dynamic_batches@.take(self.dynamic_batches@.len() as int) =~= self.dynamic_batches@);
        r
    }
}

/// The events that the deletion of a configured redirect raises: one for
/// each flow it applied to, or one for every flow where it applied to all.
pub fn delete_one_config_events(apply_flows: &[u32]) -> (r: Vec<DnsEvent>)
    ensures
        apply_flows@.len() == 0 ==> r@ == seq![(DnsEvent::RedirectsChanged { flow_id: None })],
        apply_flows@.len() > 0 ==> r@.len() == apply_flows@.len() && forall|i: int|
            0 <= i < r@.len() ==> #[trigger] r@[i] == (DnsEvent::RedirectsChanged {
                flow_id: Some(apply_flows@[i]),
            }),
{
    let mut r: Vec<DnsEvent> = Vec::new();
    if apply_flows.len() == 0 {
        r.push(DnsEvent::RedirectsChanged { flow_id: None });
        return r;
    }
    let mut i: usize = 0;
    while i < apply_flows.len()
        invariant
            i <= apply_flows@.len(),
            r@.len() == i,
            forall|k: int|
                0 <= k < i ==> #[trigger] r@[k] == (DnsEvent::RedirectsChanged {
                    flow_id: Some(apply_flows@[k]),
                }),
        decreases apply_flows@.len() - i,
    {
        r.push(DnsEvent::RedirectsChanged { flow_id: Some(apply_flows[i]) });
        i = i + 1;
    }
    r
}

/// The event that an update of one or many configured redirects raises:
/// every flow is told.
pub fn update_config_event() -> (e: DnsEvent)
    ensures
        e == (DnsEvent::RedirectsChanged { flow_id: None }),
{
    DnsEvent::RedirectsChanged { flow_id: None }
}

proof fn lemma_found_at_place<R>(
    s: Seq<DynamicDnsRedirectBatch<R>>,
    scope: DynamicDnsRedirectScope,
    id: Seq<char>,
    p: int,
    i: int,
)
    requires
        batches_sorted(s),
        place_of(s, scope, id, p),
        0 <= i < s.len(),
        has_key(s[i], scope, id),
    ensures
        i == p,
{
    lemma_key_order(scope, id, scope, id, scope, id);
    if i < p {
        assert(key_lt(s[i].scope, s[i].source_id@, scope, id));
    } else if i > p {
        assert(batch_lt(s[p], s[i]));
        assert(!key_lt(s[p].scope, s[p].source_id@, scope, id));
        lemma_key_order(s[p].scope, s[p].source_id@, scope, id, scope, id);
    }
}

/// Setting a batch that has records makes it the one batch of its scope and
/// source; every batch of another scope or source stays.
pub proof fn law_set_batch_is_listed<R>(s: Seq<DynamicDnsRedirectBatch<R>>, b: DynamicDnsRedirectBatch<R>, p: int)
    requires
        batches_sorted(s),
        place_of(s, b.scope, b.source_id@, p),
        b.records@.len() > 0,
    ensures
        batches_after_set(s, b, p).contains(b),
        forall|i: int|
            0 <= i < batches_after_set(s, b, p).len() && has_key(
                #[trigger] batches_after_set(s, b, p)[i],
                b.scope,
                b.source_id@,
            ) ==> batches_after_set(s, b, p)[i] == b,
        forall|i: int|
            0 <= i < s.len() && !has_key(#[trigger] s[i], b.scope, b.source_id@) ==> batches_after_set(
                s,
                b,
                p,
            ).contains(s[i]),
{
    let t = batches_after_set(s, b, p);
    let found = p < s.len() && has_key(s[p], b.scope, b.source_id@);
    assert(t[p] == b);
    assert forall|i: int|
        0 <= i < t.len() && has_key(#[trigger] t[i], b.scope, b.source_id@) implies t[i] == b by {
        if i != p {
            if found {
                assert(t[i] == s[i]);
                lemma_found_at_place(s, b.scope, b.source_id@, p, i);
            } else {
                let i2 = if i < p { i } else { i - 1 };
                assert(t[i] == s[i2]);
                if i2 == p {
                    assert(has_key(s[p], b.scope, b.source_id@));
                }
                lemma_found_at_place(s, b.scope, b.source_id@, p, i2);
            }
        }
    }
    assert forall|i: int| 0 <= i < s.len() && !has_key(#[trigger] s[i], b.scope, b.source_id@) implies t.contains(s[i]) by {
        if found {
            assert(i != p);
            assert(t[i] == s[i]);
        } else {
            let i2 = if i < p { i } else { i + 1 };
            assert(t[i2] == s[i]);
        }
    }
}

/// Setting a batch with no record withdraws the batch of its scope and
/// source; every batch of another scope or source stays.
pub proof fn law_empty_batch_withdraws<R>(s: Seq<DynamicDnsRedirectBatch<R>>, b: DynamicDnsRedirectBatch<R>, p: int)
    requires
        batches_sorted(s),
        place_of(s, b.scope, b.source_id@, p),
        b.records@.len() == 0,
    ensures
        forall|i: int|
            0 <= i < batches_after_set(s, b, p).len() ==> !has_key(
                #[trigger] batches_after_set(s, b, p)[i],
                b.scope,
                b.source_id@,
            ),
        forall|i: int|
            0 <= i < s.len() && !has_key(#[trigger] s[i], b.scope, b.source_id@) ==> batches_after_set(
                s,
                b,
                p,
            ).contains(s[i]),
{
    let t = batches_after_set(s, b, p);
    let found = p < s.len() && has_key(s[p], b.scope, b.source_id@);
    assert forall|i: int| 0 <= i < t.len() implies !has_key(#[trigger] t[i], b.scope, b.source_id@) by {
        let i2 = if found && i >= p { i + 1 } else { i };
        assert(t[i] == s[i2]);
        if has_key(s[i2], b.scope, b.source_id@) {
            lemma_found_at_place(s, b.scope, b.source_id@, p, i2);
        }
    }
    assert forall|i: int| 0 <= i < s.len() && !has_key(#[trigger] s[i], b.scope, b.source_id@) implies t.contains(s[i]) by {
        if found {
            assert(i != p);
            let i2 = if i < p { i } else { i - 1 };
            assert(t[i2] == s[i]);
        } else {
            assert(t[i] == s[i]);
        }
    }
}

/// The listing holds at most one batch per scope and source: the one last
/// set for it (see `law_set_batch_is_listed`).
pub proof fn law_listing_one_batch_per_source<R>(s: Seq<DynamicDnsRedirectBatch<R>>)
    requires
        batches_sorted(s),
    ensures
        forall|i: int, j: int|
            0 <= i < j < s.len() ==> !has_key(#[trigger] s[i], s[j].scope, #[trigger] s[j].source_id@),
{
    assert forall|i: int, j: int| 0 <= i < j < s.len() implies !has_key(
        #[trigger] s[i],
        s[j].scope,
        #[trigger] s[j].source_id@,
    ) by {
        assert(batch_lt(s[i], s[j]));
        lemma_key_order(s[i].scope, s[i].source_id@, s[j].scope, s[j].source_id@, s[j].scope, s[j].source_id@);
    }
}

/// The batch last set for (`scope`, `id`) among `bs`, if any.
pub open spec fn latest_set<R>(
    bs: Seq<DynamicDnsRedirectBatch<R>>,
    scope: DynamicDnsRedirectScope,
    id: Seq<char>,
) -> Option<DynamicDnsRedirectBatch<R>>
    decreases bs.len(),
{
    if bs.len() == 0 {
        None
    } else if has_key(bs.last(), scope, id) {
        Some(bs.last())
    } else {
        latest_set(bs.drop_last(), scope, id)
    }
}

/// `s` lists, for each scope and source, exactly the batch last set for it
/// among `bs` where that batch has records, and nothing else.
pub open spec fn lists_latest<R>(s: Seq<DynamicDnsRedirectBatch<R>>, bs: Seq<DynamicDnsRedirectBatch<R>>) -> bool {
    &&& forall|i: int|
        0 <= i < s.len() ==> latest_set(bs, #[trigger] s[i].scope, s[i].source_id@) == Some(s[i])
            && s[i].records@.len() > 0
    &&& forall|scope: DynamicDnsRedirectScope, id: Seq<char>|
        (#[trigger] latest_set(bs, scope, id)) is Some && latest_set(bs, scope, id).unwrap().records@.len()
            > 0 ==> s.contains(latest_set(bs, scope, id).unwrap())
}

proof fn lemma_latest_set_has_key<R>(
    bs: Seq<DynamicDnsRedirectBatch<R>>,
    scope: DynamicDnsRedirectScope,
    id: Seq<char>,
)
    ensures
        latest_set(bs, scope, id) matches Some(b) ==> has_key(b, scope, id),
    decreases bs.len(),
{
    if bs.len() > 0 && !has_key(bs.last(), scope, id) {
        lemma_latest_set_has_key(bs.drop_last(), scope, id);
    }
}

proof fn lemma_after_set_from<R>(s: Seq<DynamicDnsRedirectBatch<R>>, b: DynamicDnsRedirectBatch<R>, p: int, i: int)
    requires
        place_of(s, b.scope, b.source_id@, p),
        0 <= i < batches_after_set(s, b, p).len(),
    ensures
        batches_after_set(s, b, p)[i] == b || s.contains(batches_after_set(s, b, p)[i]),
{
    let t = batches_after_set(s, b, p);
    let found = p < s.len() && has_key(s[p], b.scope, b.source_id@);
    if b.records@.len() == 0 {
        if found {
            let i2 = if i < p { i } else { i + 1 };
            assert(t[i] == s[i2]);
        } else {
            assert(t[i] == s[i]);
        }
    } else if found {
        if i != p {
            assert(t[i] == s[i]);
        }
    } else {
        if i < p {
            assert(t[i] == s[i]);
        } else if i > p {
            assert(t[i] == s[i - 1]);
        }
    }
}

proof fn lemma_set_keeps_latest<R>(
    s: Seq<DynamicDnsRedirectBatch<R>>,
    bs: Seq<DynamicDnsRedirectBatch<R>>,
    b: DynamicDnsRedirectBatch<R>,
    p: int,
)
    requires
        batches_sorted(s),
        place_of(s, b.scope, b.source_id@, p),
        lists_latest(s, bs),
    ensures
        lists_latest(batches_after_set(s, b, p), bs.push(b)),
{
    let t = batches_after_set(s, b, p);
    let bs2 = bs.push(b);
    assert(bs2.drop_last() =~= bs);
    if b.records@.len() > 0 {
        law_set_batch_is_listed(s, b, p);
    } else {
        law_empty_batch_withdraws(s, b, p);
    }
    assert forall|i: int| 0 <= i < t.len() implies latest_set(bs2, #[trigger] t[i].scope, t[i].source_id@)
        == Some(t[i]) && t[i].records@.len() > 0 by {
        lemma_after_set_from(s, b, p, i);
        if has_key(t[i], b.scope, b.source_id@) {
            assert(t[i] == b);
        } else if t[i] != b {
            let j = choose|j: int| 0 <= j < s.len() && s[j] == t[i];
            assert(latest_set(bs, s[j].scope, s[j].source_id@) == Some(s[j]));
        }
    }
    assert forall|scope: DynamicDnsRedirectScope, id: Seq<char>|
        (#[trigger] latest_set(bs2, scope, id)) is Some && latest_set(bs2, scope, id).unwrap().records@.len()
            > 0 implies t.contains(latest_set(bs2, scope, id).unwrap()) by {
        if has_key(b, scope, id) {
            let c = latest_set(bs2, scope, id).unwrap();
            assert(c == b);
        } else {
            let c = latest_set(bs2, scope, id).unwrap();
            assert(latest_set(bs, scope, id) == Some(c));
            lemma_latest_set_has_key(bs, scope, id);
            assert(s.contains(c));
            let j = choose|j: int| 0 <= j < s.len() && s[j] == c;
            assert(!has_key(s[j], b.scope, b.source_id@));
        }
    }
}

/// After any run of settings from a fresh service, the listing holds, for
/// each scope and source, exactly the batch last set for it where that
/// batch has records, and nothing else (each state of the run being the
/// one `set_dynamic_batch` leaves: in order, the batch put at its place).
pub proof fn law_listing_after_sets<R>(
    bs: Seq<DynamicDnsRedirectBatch<R>>,
    ss: Seq<Seq<DynamicDnsRedirectBatch<R>>>,
    ps: Seq<int>,
)
    requires
        ss.len() == bs.len() + 1,
        ps.len() == bs.len(),
        ss[0].len() == 0,
        forall|i: int|
            0 <= i < bs.len() ==> batches_sorted(#[trigger] ss[i]) && place_of(
                ss[i],
                bs[i].scope,
                bs[i].source_id@,
                ps[i],
            ) && ss[i + 1] == batches_after_set(ss[i], bs[i], ps[i]),
    ensures
        lists_latest(ss[bs.len() as int], bs),
    decreases bs.len(),
{
    if bs.len() == 0 {
        assert forall|scope: DynamicDnsRedirectScope, id: Seq<char>|
            (#[trigger] latest_set(bs, scope, id)) is Some && latest_set(bs, scope, id).unwrap().records@.len()
                > 0 implies ss[0].contains(latest_set(bs, scope, id).unwrap()) by {
        }
    } else {
        let n = bs.len() - 1;
        let bs0 = bs.drop_last();
        let ss0 = ss.drop_last();
        let ps0 = ps.drop_last();
        assert forall|i: int| 0 <= i < bs0.len() implies batches_sorted(#[trigger] ss0[i]) && place_of(
            ss0[i],
            bs0[i].scope,
            bs0[i].source_id@,
            ps0[i],
        ) && ss0[i + 1] == batches_after_set(ss0[i], bs0[i], ps0[i]) by {
            assert(batches_sorted(ss[i]));
        }
        law_listing_after_sets(bs0, ss0, ps0);
        assert(batches_sorted(ss[n]));
        assert(bs0.push(bs[n]) =~= bs);
        lemma_set_keeps_latest(ss[n], bs0, bs[n], ps[n]);
    }
}

} // verus!
