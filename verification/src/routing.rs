//! Source selection: which providers to try for an endpoint, in what order,
//! and how a routed call falls back from one provider to the next.
use vstd::prelude::*;
use vstd::string::*;
use crate::source::{
    covers, endpoint_name, kind_code, kind_retryable, lemma_name_rank_is_name_order, name_rank,
    provider_name, CapabilitySet, Endpoint, EnvelopeError, HealthState, HealthStatus, ProviderId,
    SourceError, SourceErrorKind,
};
use crate::text::{decimal, decimal_string};

verus! {

/// Source selection strategy for routing.
#[derive(Debug, Clone)]
pub enum SourceStrategy {
    Auto,
    Priority(Vec<ProviderId>),
    Strict(ProviderId),
}

impl SourceStrategy {
    /// Whether the strategy forbids falling back to another source.
    pub fn is_strict(&self) -> (r: bool)
        ensures
            r == (*self is Strict),
    {
        match self {
            SourceStrategy::Strict(_) => true,
            _ => false,
        }
    }
}

/// An adapter as the router knows it: its provider and the endpoints it serves.
#[derive(Debug, Clone, Copy, PartialEq, Eq, Structural)]
pub struct SourceRegistration {
    pub id: ProviderId,
    pub capabilities: CapabilitySet,
}

/// Capabilities registered for `p`: the last registration for `p` wins.
pub open spec fn reg_lookup(s: Seq<SourceRegistration>, p: ProviderId) -> Option<CapabilitySet>
    decreases s.len(),
{
    if s.len() == 0 {
        None
    } else if s.last().id == p {
        Some(s.last().capabilities)
    } else {
        reg_lookup(s.drop_last(), p)
    }
}

/// No provider is registered twice.
pub open spec fn distinct_ids(s: Seq<SourceRegistration>) -> bool {
    forall|i: int, j: int| 0 <= i < j < s.len() ==> s[i].id != s[j].id
}

/// No provider occurs twice.
pub open spec fn no_dups(s: Seq<ProviderId>) -> bool {
    forall|i: int, j: int| 0 <= i < j < s.len() ==> s[i] != s[j]
}

proof fn lemma_reg_lookup_push(s: Seq<SourceRegistration>, e: SourceRegistration, p: ProviderId)
    ensures
        reg_lookup(s.push(e), p) == if e.id == p {
            Some(e.capabilities)
        } else {
            reg_lookup(s, p)
        },
{
    assert(s.push(e).drop_last() =~= s);
}

/// With distinct ids, the lookup finds the one registration for `p`.
proof fn lemma_reg_lookup_index(s: Seq<SourceRegistration>, p: ProviderId)
    requires
        distinct_ids(s),
    ensures
        reg_lookup(s, p) is None <==> forall|i: int| 0 <= i < s.len() ==> s[i].id != p,
        forall|i: int| 0 <= i < s.len() && s[i].id == p ==> reg_lookup(s, p) == Some(s[i].capabilities),
    decreases s.len(),
{
    if s.len() > 0 {
        let t = s.drop_last();
        assert(distinct_ids(t));
        lemma_reg_lookup_index(t, p);
        assert forall|i: int| 0 <= i < s.len() && s[i].id == p implies reg_lookup(s, p) == Some(
            s[i].capabilities,
        ) by {
            if i < s.len() - 1 {
                assert(t[i] == s[i]);
            }
        }
        if s.last().id != p {
            assert forall|i: int| 0 <= i < t.len() implies t[i] == s[i] by {}
        }
    }
}

/// Adapter registry and routing engine.
pub struct SourceRouter {
    adapters: Vec<SourceRegistration>,
}

impl SourceRouter {
    #[verifier::type_invariant]
    closed spec fn inv(self) -> bool {
        distinct_ids(self.adapters@)
    }

    /// The capabilities of the adapter registered for `p`, if any.
    pub closed spec fn capabilities_of(&self, p: ProviderId) -> Option<CapabilitySet> {
        reg_lookup(self.adapters@, p)
    }

    /// Whether an adapter is registered for `p`.
    pub open spec fn is_registered(&self, p: ProviderId) -> bool {
        self.capabilities_of(p) is Some
    }

    /// Whether `p` is registered and serves `endpoint`.
    pub open spec fn serves(&self, p: ProviderId, endpoint: Endpoint) -> bool {
        match self.capabilities_of(p) {
            Some(c) => covers(c, endpoint),
            None => false,
        }
    }

    /// A router over `adapters`; when a provider is given twice, the later
    /// registration replaces the earlier one.
    pub fn new(adapters: Vec<SourceRegistration>) -> (r: Self)
        ensures
            forall|p: ProviderId| #[trigger] r.capabilities_of(p) == reg_lookup(adapters@, p),
    {
        let mut out: Vec<SourceRegistration> = Vec::new();
        let n = adapters.len();
        let mut i: usize = 0;
        while i < n
            invariant
                n == adapters.len(),
                i <= n,
                distinct_ids(out@),
                forall|p: ProviderId| #[trigger] reg_lookup(out@, p) == reg_lookup(
                    adapters@.take(i as int),
                    p,
                ),
            decreases n - i,
        {
            let reg = adapters[i];
            let ghost before = out@;
            let mut kept: Vec<SourceRegistration> = Vec::new();
            let m = out.len();
            let mut j: usize = 0;
            while j < m
                invariant
                    m == out.len(),
                    out@ == before,
                    distinct_ids(before),
                    j <= m,
                    distinct_ids(kept@),
                    forall|a: int| 0 <= a < kept.len() ==> (#[trigger] kept@[a]).id != reg.id,
                    forall|a: int, b: int|
                        0 <= a < kept.len() && j <= b < m ==> (#[trigger] kept@[a]).id != (
                        #[trigger] before[b]).id,
                    forall|p: ProviderId| p != reg.id ==> #[trigger] reg_lookup(kept@, p)
                        == reg_lookup(before.take(j as int), p),
                decreases m - j,
            {
                let e = out[j];
                let ghost kb = kept@;
                if e.id != reg.id {
                    kept.push(e);
                    proof {
                        assert forall|p: ProviderId| p != reg.id implies #[trigger] reg_lookup(
                            kept@,
                            p,
                        ) == reg_lookup(before.take(j + 1), p) by {
                            lemma_reg_lookup_push(kb, e, p);
                            assert(before.take(j + 1) =~= before.take(j as int).push(before[j as int]));
                            lemma_reg_lookup_push(before.take(j as int), before[j as int], p);
                        }
                    }
                } else {
                    proof {
                        assert forall|p: ProviderId| p != reg.id implies #[trigger] reg_lookup(
                            kept@,
                            p,
                        ) == reg_lookup(before.take(j + 1), p) by {
                            assert(before.take(j + 1) =~= before.take(j as int).push(before[j as int]));
                            lemma_reg_lookup_push(before.take(j as int), before[j as int], p);
                        }
                    }
                }
                j = j + 1;
            }
            let ghost kb = kept@;
            kept.push(reg);
            proof {
                assert(before.take(m as int) =~= before);
                assert forall|p: ProviderId| #[trigger] reg_lookup(kept@, p) == reg_lookup(
                    adapters@.take(i + 1),
                    p,
                ) by {
                    lemma_reg_lookup_push(kb, reg, p);
                    assert(adapters@.take(i + 1) =~= adapters@.take(i as int).push(adapters@[i as int]));
                    lemma_reg_lookup_push(adapters@.take(i as int), adapters@[i as int], p);
                }
            }
            out = kept;
            i = i + 1;
        }
        assert(adapters@.take(n as int) =~= adapters@);
        SourceRouter { adapters: out }
    }

    /// The registered adapters.
    pub fn registrations(&self) -> (r: &Vec<SourceRegistration>)
        ensures
            distinct_ids(r@),
            forall|p: ProviderId| #[trigger] self.capabilities_of(p) == reg_lookup(r@, p),
    {
        proof {
            use_type_invariant(self);
        }
        &self.adapters
    }

    /// The capabilities of the adapter registered for `p`, if any.
    pub fn capabilities(&self, p: ProviderId) -> (r: Option<CapabilitySet>)
        ensures
            r == self.capabilities_of(p),
    {
        proof {
            use_type_invariant(self);
        }
        let n = self.adapters.len();
        let mut i: usize = n;
        assert(self.adapters@.take(n as int) =~= self.adapters@);
        while i > 0
            invariant
                i <= n,
                n == self.adapters@.len(),
                reg_lookup(self.adapters@, p) == reg_lookup(self.adapters@.take(i as int), p),
            decreases i,
        {
            let ghost t = self.adapters@.take(i as int);
            assert(t.drop_last() =~= self.adapters@.take(i - 1));
            if self.adapters[i - 1].id == p {
                return Some(self.adapters[i - 1].capabilities);
            }
            i = i - 1;
        }
        None
    }
}

} // verus!

verus! {

/// The providers of `s` in order, each kept only where it first occurs.
pub open spec fn dedupe(s: Seq<ProviderId>) -> Seq<ProviderId>
    decreases s.len(),
{
    if s.len() == 0 {
        Seq::empty()
    } else {
        let d = dedupe(s.drop_last());
        if d.contains(s.last()) {
            d
        } else {
            d.push(s.last())
        }
    }
}

/// `dedupe` keeps exactly the providers of its input, once each.
pub proof fn lemma_dedupe(s: Seq<ProviderId>)
    ensures
        no_dups(dedupe(s)),
        forall|p: ProviderId| dedupe(s).contains(p) <==> s.contains(p),
    decreases s.len(),
{
    if s.len() > 0 {
        let t = s.drop_last();
        lemma_dedupe(t);
        let d = dedupe(t);
        assert forall|p: ProviderId| s.contains(p) <==> (t.contains(p) || p == s.last()) by {
            if s.contains(p) {
                let i = choose|i: int| 0 <= i < s.len() && s[i] == p;
                if i < s.len() - 1 {
                    assert(t[i] == p);
                }
            }
            if t.contains(p) {
                let i = choose|i: int| 0 <= i < t.len() && t[i] == p;
                assert(s[i] == p);
            }
            if p == s.last() {
                assert(s[s.len() - 1] == p);
            }
        }
        if !d.contains(s.last()) {
            let e = d.push(s.last());
            assert forall|p: ProviderId| e.contains(p) <==> (d.contains(p) || p == s.last()) by {
                if e.contains(p) {
                    let i = choose|i: int| 0 <= i < e.len() && e[i] == p;
                    if i < d.len() {
                        assert(d[i] == p);
                    }
                }
                if d.contains(p) {
                    let i = choose|i: int| 0 <= i < d.len() && d[i] == p;
                    assert(e[i] == p);
                }
                if p == s.last() {
                    assert(e[e.len() - 1] == p);
                }
            }
        }
    }
}

/// Whether `p` occurs in `v`.
pub fn contains_provider(v: &Vec<ProviderId>, p: ProviderId) -> (r: bool)
    ensures
        r == v@.contains(p),
{
    let n = v.len();
    let mut i: usize = 0;
    while i < n
        invariant
            n == v.len(),
            i <= n,
            forall|j: int| 0 <= j < i ==> v@[j] != p,
        decreases n - i,
    {
        if v[i] == p {
            return true;
        }
        i = i + 1;
    }
    false
}

/// `chain` with repeated providers removed, first occurrences kept in order.
pub fn dedupe_chain(chain: &Vec<ProviderId>) -> (r: Vec<ProviderId>)
    ensures
        r@ == dedupe(chain@),
        no_dups(r@),
        forall|p: ProviderId| r@.contains(p) <==> chain@.contains(p),
{
    let mut out: Vec<ProviderId> = Vec::new();
    let n = chain.len();
    let mut i: usize = 0;
    while i < n
        invariant
            n == chain.len(),
            i <= n,
            out@ == dedupe(chain@.take(i as int)),
        decreases n - i,
    {
        let p = chain[i];
        assert(chain@.take(i + 1).drop_last() =~= chain@.take(i as int));
        if !contains_provider(&out, p) {
            out.push(p);
        }
        i = i + 1;
    }
    assert(chain@.take(n as int) =~= chain@);
    proof {
        lemma_dedupe(chain@);
    }
    out
}

/// The health reported for `p`: the last report for `p` wins.
pub open spec fn health_lookup(hs: Seq<(ProviderId, HealthStatus)>, p: ProviderId) -> Option<
    HealthStatus,
>
    decreases hs.len(),
{
    if hs.len() == 0 {
        None
    } else if hs.last().0 == p {
        Some(hs.last().1)
    } else {
        health_lookup(hs.drop_last(), p)
    }
}

/// The health reported for `p` in `hs`, if any.
pub fn health_of(hs: &Vec<(ProviderId, HealthStatus)>, p: ProviderId) -> (r: Option<HealthStatus>)
    ensures
        r == health_lookup(hs@, p),
{
    let n = hs.len();
    let mut i: usize = n;
    assert(hs@.take(n as int) =~= hs@);
    while i > 0
        invariant
            i <= n,
            n == hs@.len(),
            health_lookup(hs@, p) == health_lookup(hs@.take(i as int), p),
        decreases i,
    {
        let ghost t = hs@.take(i as int);
        assert(t.drop_last() =~= hs@.take(i - 1));
        if hs[i - 1].0 == p {
            return Some(hs[i - 1].1);
        }
        i = i - 1;
    }
    None
}

/// The preference score of a source in automatic routing: serving the
/// endpoint is worth 1000, health adds 250 (healthy), 100 (degraded) or 0,
/// available rate budget adds 150, and the source's own score is added.
pub open spec fn auto_score(h: HealthStatus) -> int {
    1000 + match h.state {
        HealthState::Healthy => 250int,
        HealthState::Degraded => 100int,
        HealthState::Unhealthy => 0int,
    } + if h.rate_available {
        150int
    } else {
        0int
    } + h.score as int
}

/// Computes `auto_score`.
pub fn auto_score_of(h: HealthStatus) -> (r: i32)
    ensures
        r as int == auto_score(h),
{
    let health_score: i32 = match h.state {
        HealthState::Healthy => 250,
        HealthState::Degraded => 100,
        HealthState::Unhealthy => 0,
    };
    let rate_score: i32 = if h.rate_available {
        150
    } else {
        0
    };
    1000 + health_score + rate_score + h.score as i32
}

/// Order of automatic routing: higher score first, ties broken by name.
pub open spec fn ranks_before(a: (ProviderId, int), b: (ProviderId, int)) -> bool {
    a.1 > b.1 || (a.1 == b.1 && name_rank(a.0) < name_rank(b.0))
}

/// Entries are in `ranks_before` order.
pub open spec fn sorted_entries(s: Seq<(ProviderId, i32)>) -> bool {
    forall|i: int, j: int|
        0 <= i < j < s.len() ==> ranks_before((s[i].0, s[i].1 as int), (s[j].0, s[j].1 as int))
}

/// Inserts `x` into the sorted entries `v`, keeping them sorted.
fn insert_ranked(v: &mut Vec<(ProviderId, i32)>, x: (ProviderId, i32))
    requires
        sorted_entries(old(v)@),
        forall|i: int| 0 <= i < old(v)@.len() ==> old(v)@[i].0 != x.0,
    ensures
        sorted_entries(final(v)@),
        exists|k: int| 0 <= k <= old(v)@.len() && final(v)@ == old(v)@.insert(k, x),
{
    let n = v.len();
    let mut k: usize = 0;
    while k < n && !(x.1 > v[k].1 || (x.1 == v[k].1 && x.0.rank() < v[k].0.rank()))
        invariant
            n == v.len(),
            k <= n,
            forall|i: int|
                0 <= i < k ==> ranks_before((v@[i].0, v@[i].1 as int), (x.0, x.1 as int)),
            forall|i: int| 0 <= i < v@.len() ==> v@[i].0 != x.0,
        decreases n - k,
    {
        proof {
            if v@[k as int].1 == x.1 {
                if name_rank(v@[k as int].0) == name_rank(x.0) {
                    lemma_name_rank_is_name_order(v@[k as int].0, x.0);
                }
            }
        }
        k = k + 1;
    }
    let ghost before = v@;
    v.insert(k, x);
    proof {
        assert(v@ == before.insert(k as int, x));
        assert forall|i: int, j: int| 0 <= i < j < v@.len() implies ranks_before(
            (v@[i].0, v@[i].1 as int),
            (v@[j].0, v@[j].1 as int),
        ) by {
            if j < k {
            } else if j == k {
            } else if i < k {
                assert(v@[j] == before[j - 1]);
                assert(ranks_before((x.0, x.1 as int), (before[k as int].0, before[k as int].1 as int)));
                if k < j - 1 {
                    assert(ranks_before(
                        (before[k as int].0, before[k as int].1 as int),
                        (before[j - 1].0, before[j - 1].1 as int),
                    ));
                }
            } else if i == k {
                assert(v@[j] == before[j - 1]);
                assert(ranks_before((x.0, x.1 as int), (before[k as int].0, before[k as int].1 as int)));
                if k < j - 1 {
                    assert(ranks_before(
                        (before[k as int].0, before[k as int].1 as int),
                        (before[j - 1].0, before[j - 1].1 as int),
                    ));
                }
            } else {
                assert(v@[i] == before[i - 1]);
                assert(v@[j] == before[j - 1]);
            }
        }
    }
}

/// The providers of the entries, in order.
pub open spec fn entry_ids(s: Seq<(ProviderId, i32)>) -> Seq<ProviderId> {
    s.map_values(|e: (ProviderId, i32)| e.0)
}

fn ids_of_entries(v: &Vec<(ProviderId, i32)>) -> (r: Vec<ProviderId>)
    ensures
        r@ == entry_ids(v@),
{
    let mut out: Vec<ProviderId> = Vec::new();
    let n = v.len();
    let mut i: usize = 0;
    while i < n
        invariant
            n == v.len(),
            i <= n,
            out@ == entry_ids(v@.take(i as int)),
        decreases n - i,
    {
        out.push(v[i].0);
        assert(entry_ids(v@.take(i + 1)) =~= entry_ids(v@.take(i as int)).push(v@[i as int].0));
        i = i + 1;
    }
    assert(v@.take(n as int) =~= v@);
    out
}

/// Every registered provider has a health report.
pub open spec fn health_covers(router: &SourceRouter, hs: Seq<(ProviderId, HealthStatus)>) -> bool {
    forall|p: ProviderId| router.is_registered(p) ==> (#[trigger] health_lookup(hs, p)) is Some
}

/// The automatic source order for `endpoint`: exactly the registered
/// providers that serve it, best `auto_score` first, ties by name.
pub open spec fn is_auto_chain(
    router: &SourceRouter,
    endpoint: Endpoint,
    hs: Seq<(ProviderId, HealthStatus)>,
    c: Seq<ProviderId>,
) -> bool {
    &&& forall|p: ProviderId| c.contains(p) <==> router.serves(p, endpoint)
    &&& no_dups(c)
    &&& forall|i: int, j: int|
        0 <= i < j < c.len() ==> ranks_before(
            (c[i], auto_score(health_lookup(hs, c[i]).unwrap())),
            (c[j], auto_score(health_lookup(hs, c[j]).unwrap())),
        )
}

/// Providers registered with `router`, ordered by name.
pub open spec fn is_name_sorted_registry(router: &SourceRouter, c: Seq<ProviderId>) -> bool {
    &&& forall|p: ProviderId| c.contains(p) <==> router.is_registered(p)
    &&& no_dups(c)
    &&& forall|i: int, j: int| 0 <= i < j < c.len() ==> name_rank(c[i]) < name_rank(c[j])
}

impl SourceRouter {
    /// Ranks the registered providers that serve `endpoint` for automatic
    /// routing, given a health report of each registered provider.
    pub fn auto_chain(&self, endpoint: Endpoint, health: &Vec<(ProviderId, HealthStatus)>) -> (r: Vec<
        ProviderId,
    >)
        requires
            health_covers(self, health@),
        ensures
            is_auto_chain(self, endpoint, health@, r@),
    {
        proof {
            use_type_invariant(self);
        }
        let regs = &self.adapters;
        let n = regs.len();
        let mut scored: Vec<(ProviderId, i32)> = Vec::new();
        let mut i: usize = 0;
        while i < n
            invariant
                n == regs@.len(),
                regs@ == self.adapters@,
                distinct_ids(regs@),
                health_covers(self, health@),
                i <= n,
                sorted_entries(scored@),
                forall|a: int| 0 <= a < scored@.len() ==> (#[trigger] scored@[a]).1 as int == auto_score(
                    health_lookup(health@, scored@[a].0).unwrap(),
                ),
                forall|p: ProviderId| entry_ids(scored@).contains(p) <==> exists|j: int|
                    0 <= j < i && (#[trigger] regs@[j]).id == p && covers(regs@[j].capabilities, endpoint),
                no_dups(entry_ids(scored@)),
            decreases n - i,
        {
            let reg = regs[i];
            proof {
                lemma_reg_lookup_index(regs@, reg.id);
            }
            if reg.capabilities.supports(endpoint) {
                let h = health_of(health, reg.id);
                let h = match h {
                    Some(h) => h,
                    None => {
                        assert(false);
                        HealthStatus::new(HealthState::Unhealthy, false, 0)
                    },
                };
                let score = auto_score_of(h);
                let ghost before = scored@;
                proof {
                    assert forall|a: int| 0 <= a < before.len() implies before[a].0 != reg.id by {
                        assert(entry_ids(before)[a] == before[a].0);
                        assert(entry_ids(before).contains(before[a].0));
                        let j = choose|j: int|
                            0 <= j < i && (#[trigger] regs@[j]).id == before[a].0 && covers(
                                regs@[j].capabilities,
                                endpoint,
                            );
                    }
                }
                insert_ranked(&mut scored, (reg.id, score));
                proof {
                    let k = choose|k: int| 0 <= k <= before.len() && scored@ == before.insert(k, (reg.id, score));
                    assert(entry_ids(scored@) =~= entry_ids(before).insert(k, reg.id));
                    assert forall|p: ProviderId| entry_ids(scored@).contains(p) <==> exists|j: int|
                        0 <= j < i + 1 && (#[trigger] regs@[j]).id == p && covers(
                            regs@[j].capabilities,
                            endpoint,
                        ) by {
                        if entry_ids(scored@).contains(p) {
                            let a = choose|a: int| 0 <= a < scored@.len() && entry_ids(scored@)[a] == p;
                            if a != k {
                                let b = if a < k { a } else { a - 1 };
                                assert(entry_ids(before)[b] == p);
                                assert(entry_ids(before).contains(p));
                            } else {
                                assert(regs@[i as int].id == p);
                            }
                        }
                        if exists|j: int|
                            0 <= j < i + 1 && (#[trigger] regs@[j]).id == p && covers(
                                regs@[j].capabilities,
                                endpoint,
                            ) {
                            let j = choose|j: int|
                                0 <= j < i + 1 && (#[trigger] regs@[j]).id == p && covers(
                                    regs@[j].capabilities,
                                    endpoint,
                                );
                            if j == i {
                                assert(entry_ids(scored@)[k] == p);
                            } else {
                                assert(entry_ids(before).contains(p));
                                let b = choose|b: int| 0 <= b < before.len() && entry_ids(before)[b] == p;
                                if b < k {
                                    assert(entry_ids(scored@)[b] == p);
                                } else {
                                    assert(entry_ids(scored@)[b + 1] == p);
                                }
                            }
                        }
                    }
                    assert forall|x: int, y: int|
                        0 <= x < y < entry_ids(scored@).len() implies entry_ids(scored@)[x]
                        != entry_ids(scored@)[y] by {
                        assert(ranks_before(
                            (scored@[x].0, scored@[x].1 as int),
                            (scored@[y].0, scored@[y].1 as int),
                        ));
                        if scored@[x].0 == scored@[y].0 {
                            assert(name_rank(scored@[x].0) == name_rank(scored@[y].0));
                        }
                    }
                    assert forall|a: int| 0 <= a < scored@.len() implies (#[trigger] scored@[a]).1 as int
                        == auto_score(health_lookup(health@, scored@[a].0).unwrap()) by {
                        if a < k {
                            assert(scored@[a] == before[a]);
                        } else if a > k {
                            assert(scored@[a] == before[a - 1]);
                        }
                    }
                }
            } else {
                proof {
                    assert forall|p: ProviderId| entry_ids(scored@).contains(p) <==> exists|j: int|
                        0 <= j < i + 1 && (#[trigger] regs@[j]).id == p && covers(
                            regs@[j].capabilities,
                            endpoint,
                        ) by {
                        if exists|j: int|
                            0 <= j < i + 1 && (#[trigger] regs@[j]).id == p && covers(
                                regs@[j].capabilities,
                                endpoint,
                            ) {
                            let j = choose|j: int|
                                0 <= j < i + 1 && (#[trigger] regs@[j]).id == p && covers(
                                    regs@[j].capabilities,
                                    endpoint,
                                );
                            assert(j != i);
                        }
                    }
                }
            }
            i = i + 1;
        }
        let r = ids_of_entries(&scored);
        proof {
            assert forall|p: ProviderId| r@.contains(p) <==> self.serves(p, endpoint) by {
                lemma_reg_lookup_index(regs@, p);
                if self.serves(p, endpoint) {
                    let c = reg_lookup(regs@, p).unwrap();
                    if forall|j: int| 0 <= j < n ==> regs@[j].id != p {
                    } else {
                        let j = choose|j: int| 0 <= j < n && regs@[j].id == p;
                        assert(regs@[j].capabilities == c);
                    }
                }
                if r@.contains(p) {
                    let j = choose|j: int|
                        0 <= j < n && (#[trigger] regs@[j]).id == p && covers(regs@[j].capabilities, endpoint);
                    assert(reg_lookup(regs@, p) == Some(regs@[j].capabilities));
                }
            }
            assert forall|x: int, y: int| 0 <= x < y < r@.len() implies ranks_before(
                (r@[x], auto_score(health_lookup(health@, r@[x]).unwrap())),
                (r@[y], auto_score(health_lookup(health@, r@[y]).unwrap())),
            ) by {
                assert(r@[x] == scored@[x].0);
                assert(r@[y] == scored@[y].0);
                assert(scored@[x].1 as int == auto_score(health_lookup(health@, scored@[x].0).unwrap()));
                assert(scored@[y].1 as int == auto_score(health_lookup(health@, scored@[y].0).unwrap()));
            }
        }
        r
    }
}

} // verus!

verus! {

/// The providers tried for a strategy before any fallback: the automatic
/// order, the priority list without repeats, or the one strict provider.
pub open spec fn is_plan(
    router: &SourceRouter,
    endpoint: Endpoint,
    strategy: SourceStrategy,
    hs: Seq<(ProviderId, HealthStatus)>,
    c: Seq<ProviderId>,
) -> bool {
    match strategy {
        SourceStrategy::Auto => is_auto_chain(router, endpoint, hs, c),
        SourceStrategy::Priority(v) => c == dedupe(v@),
        SourceStrategy::Strict(p) => c == seq![p],
    }
}

impl SourceRouter {
    /// The registered providers ordered by name.
    pub fn sorted_registered_sources(&self) -> (r: Vec<ProviderId>)
        ensures
            is_name_sorted_registry(self, r@),
    {
        proof {
            use_type_invariant(self);
        }
        let regs = &self.adapters;
        let n = regs.len();
        let mut scored: Vec<(ProviderId, i32)> = Vec::new();
        let mut i: usize = 0;
        while i < n
            invariant
                n == regs@.len(),
                regs@ == self.adapters@,
                distinct_ids(regs@),
                i <= n,
                sorted_entries(scored@),
                forall|a: int| 0 <= a < scored@.len() ==> (#[trigger] scored@[a]).1 == 0,
                forall|p: ProviderId| entry_ids(scored@).contains(p) <==> exists|j: int|
                    0 <= j < i && (#[trigger] regs@[j]).id == p,
            decreases n - i,
        {
            let reg = regs[i];
            let ghost before = scored@;
            proof {
                assert forall|a: int| 0 <= a < before.len() implies before[a].0 != reg.id by {
                    assert(entry_ids(before)[a] == before[a].0);
                    assert(entry_ids(before).contains(before[a].0));
                    let j = choose|j: int| 0 <= j < i && (#[trigger] regs@[j]).id == before[a].0;
                }
            }
            insert_ranked(&mut scored, (reg.id, 0));
            proof {
                let k = choose|k: int| 0 <= k <= before.len() && scored@ == before.insert(k, (reg.id, 0i32));
                assert(entry_ids(scored@) =~= entry_ids(before).insert(k, reg.id));
                assert forall|p: ProviderId| entry_ids(scored@).contains(p) <==> exists|j: int|
                    0 <= j < i + 1 && (#[trigger] regs@[j]).id == p by {
                    if entry_ids(scored@).contains(p) {
                        let a = choose|a: int| 0 <= a < scored@.len() && entry_ids(scored@)[a] == p;
                        if a != k {
                            let b = if a < k { a } else { a - 1 };
                            assert(entry_ids(before)[b] == p);
                            assert(entry_ids(before).contains(p));
                        } else {
                            assert(regs@[i as int].id == p);
                        }
                    }
                    if exists|j: int| 0 <= j < i + 1 && (#[trigger] regs@[j]).id == p {
                        let j = choose|j: int| 0 <= j < i + 1 && (#[trigger] regs@[j]).id == p;
                        if j == i {
                            assert(entry_ids(scored@)[k] == p);
                        } else {
                            assert(entry_ids(before).contains(p));
                            let b = choose|b: int| 0 <= b < before.len() && entry_ids(before)[b] == p;
                            if b < k {
                                assert(entry_ids(scored@)[b] == p);
                            } else {
                                assert(entry_ids(scored@)[b + 1] == p);
                            }
                        }
                    }
                }
                assert forall|a: int| 0 <= a < scored@.len() implies (#[trigger] scored@[a]).1 == 0 by {
                    if a < k {
                        assert(scored@[a] == before[a]);
                    } else if a > k {
                        assert(scored@[a] == before[a - 1]);
                    }
                }
            }
            i = i + 1;
        }
        let r = ids_of_entries(&scored);
        proof {
            assert forall|p: ProviderId| r@.contains(p) <==> self.is_registered(p) by {
                lemma_reg_lookup_index(regs@, p);
                if r@.contains(p) {
                    let j = choose|j: int| 0 <= j < n && (#[trigger] regs@[j]).id == p;
                }
            }
            assert forall|x: int, y: int| 0 <= x < y < r@.len() implies name_rank(r@[x]) < name_rank(
                r@[y],
            ) by {
                assert(r@[x] == scored@[x].0);
                assert(r@[y] == scored@[y].0);
                assert(scored@[x].1 == 0 && scored@[y].1 == 0);
                assert(ranks_before((scored@[x].0, scored@[x].1 as int), (scored@[y].0, scored@[y].1 as int)));
            }
            assert forall|x: int, y: int| 0 <= x < y < r@.len() implies r@[x] != r@[y] by {
                assert(name_rank(r@[x]) < name_rank(r@[y]));
            }
        }
        r
    }

    /// The providers to try for `strategy` at `endpoint`, before fallback.
    pub fn plan_sources(
        &self,
        endpoint: Endpoint,
        strategy: &SourceStrategy,
        health: &Vec<(ProviderId, HealthStatus)>,
    ) -> (r: Vec<ProviderId>)
        requires
            health_covers(self, health@),
        ensures
            is_plan(self, endpoint, *strategy, health@, r@),
    {
        match strategy {
            SourceStrategy::Auto => self.auto_chain(endpoint, health),
            SourceStrategy::Priority(priority) => dedupe_chain(priority),
            SourceStrategy::Strict(provider) => {
                let mut v: Vec<ProviderId> = Vec::new();
                v.push(*provider);
                assert(v@ =~= seq![*provider]);
                v
            },
        }
    }

    /// The source chain reported for a strategy: its plan, or every
    /// registered provider by name when the plan is empty.
    pub fn source_chain_for_strategy(
        &self,
        endpoint: Endpoint,
        strategy: &SourceStrategy,
        health: &Vec<(ProviderId, HealthStatus)>,
    ) -> (r: Vec<ProviderId>)
        requires
            health_covers(self, health@),
        ensures
            (exists|c: Seq<ProviderId>| is_plan(self, endpoint, *strategy, health@, c) && c.len() > 0)
                ==> is_plan(self, endpoint, *strategy, health@, r@),
            (forall|c: Seq<ProviderId>| is_plan(self, endpoint, *strategy, health@, c) ==> c.len() == 0)
                ==> is_name_sorted_registry(self, r@),
    {
        let chain = self.plan_sources(endpoint, strategy, health);
        if chain.len() == 0 {
            proof {
                lemma_plan_length(self, endpoint, *strategy, health@, chain@);
            }
            self.sorted_registered_sources()
        } else {
            proof {
                lemma_plan_length(self, endpoint, *strategy, health@, chain@);
            }
            chain
        }
    }

    /// What the `sources` command shows for `provider`, given its current
    /// health; nothing when no adapter is registered for it.
    pub fn snapshot(&self, provider: ProviderId, health: HealthStatus) -> (r: Option<SourceSnapshot>)
        ensures
            match r {
                Some(s) => self.capabilities_of(provider) == Some(s.capabilities) && s.id == provider
                    && s.health == health,
                None => !self.is_registered(provider),
            },
    {
        match self.capabilities(provider) {
            Some(c) => Some(SourceSnapshot { id: provider, capabilities: c, health }),
            None => None,
        }
    }
}

/// All plans of a strategy have the same length.
pub proof fn lemma_plan_length(
    router: &SourceRouter,
    endpoint: Endpoint,
    strategy: SourceStrategy,
    hs: Seq<(ProviderId, HealthStatus)>,
    c: Seq<ProviderId>,
)
    requires
        is_plan(router, endpoint, strategy, hs, c),
    ensures
        forall|d: Seq<ProviderId>| is_plan(router, endpoint, strategy, hs, d) ==> d.len() == c.len(),
{
    assert forall|d: Seq<ProviderId>| is_plan(router, endpoint, strategy, hs, d) implies d.len()
        == c.len() by {
        if strategy is Auto {
            lemma_same_members_same_len(c, d);
        }
    }
}

/// Two duplicate-free sequences with the same members have the same length.
pub proof fn lemma_same_members_same_len(c: Seq<ProviderId>, d: Seq<ProviderId>)
    requires
        no_dups(c),
        no_dups(d),
        forall|p: ProviderId| c.contains(p) <==> d.contains(p),
    ensures
        c.len() == d.len(),
{
    c.unique_seq_to_set();
    d.unique_seq_to_set();
    assert(c.to_set() =~= d.to_set());
}

/// Source snapshot used by the `sources` command.
#[derive(Debug, Clone, Copy)]
pub struct SourceSnapshot {
    pub id: ProviderId,
    pub capabilities: CapabilitySet,
    pub health: HealthStatus,
}

/// The status label of a health report.
pub open spec fn status_label_of(h: HealthStatus) -> Seq<char> {
    if !h.rate_available {
        "rate_limited"@
    } else {
        match h.state {
            HealthState::Healthy => "healthy"@,
            HealthState::Degraded => "degraded"@,
            HealthState::Unhealthy => "unhealthy"@,
        }
    }
}

impl SourceSnapshot {
    /// Whether the source may be used: anything but unhealthy.
    pub fn available(self) -> (r: bool)
        ensures
            r == (self.health.state != HealthState::Unhealthy),
    {
        self.health.state != HealthState::Unhealthy
    }

    /// `rate_limited` when the rate budget is spent, else the health state.
    pub fn status_label(self) -> (r: &'static str)
        ensures
            r@ == status_label_of(self.health),
    {
        if !self.health.rate_available {
            return "rate_limited";
        }
        match self.health.state {
            HealthState::Healthy => "healthy",
            HealthState::Degraded => "degraded",
            HealthState::Unhealthy => "unhealthy",
        }
    }
}

} // verus!

verus! {

/// Successful routed call.
#[derive(Debug, Clone)]
pub struct RouteSuccess<T> {
    pub data: T,
    pub selected_source: ProviderId,
    pub source_chain: Vec<ProviderId>,
    pub warnings: Vec<String>,
    pub errors: Vec<EnvelopeError>,
    pub latency_ms: u64,
}

/// Failed routed call after exhausting candidates.
#[derive(Debug, Clone)]
pub struct RouteFailure {
    pub source_chain: Vec<ProviderId>,
    pub warnings: Vec<String>,
    pub errors: Vec<EnvelopeError>,
    pub latency_ms: u64,
}

/// `e` reports `error` of kind `kind` with message `message` from `p`.
pub open spec fn reports(e: EnvelopeError, p: ProviderId, kind: SourceErrorKind, message: Seq<char>) -> bool {
    &&& e.code@ == kind_code(kind)
    &&& e.message@ == message
    &&& e.source == Some(p)
    &&& e.retryable == kind_retryable(kind)
}

/// The error recorded for a planned provider that cannot serve the request:
/// it is not registered, or does not support the endpoint.
pub open spec fn reports_skip(router: &SourceRouter, endpoint: Endpoint, p: ProviderId, e: EnvelopeError) -> bool {
    if !router.is_registered(p) {
        reports(
            e,
            p,
            SourceErrorKind::Unavailable,
            "no adapter is registered for source '"@ + provider_name(p) + "'"@,
        )
    } else {
        reports(
            e,
            p,
            SourceErrorKind::UnsupportedEndpoint,
            "endpoint '"@ + endpoint_name(endpoint) + "' is not supported by this source"@,
        )
    }
}

/// The error recorded for a candidate whose health check refuses it: an
/// unhealthy source, or one without rate budget.
pub open spec fn reports_refusal(h: HealthStatus, p: ProviderId, e: EnvelopeError) -> bool {
    if h.state == HealthState::Unhealthy {
        reports(e, p, SourceErrorKind::Unavailable, "source health check reported unhealthy"@)
    } else {
        reports(e, p, SourceErrorKind::RateLimited, "source has no rate budget available"@)
    }
}

/// The warning of a call that succeeded after `failures` failed attempts.
pub open spec fn fallback_warning(p: ProviderId, failures: nat) -> Seq<char> {
    "source fallback succeeded with '"@ + provider_name(p) + "' after "@ + decimal(failures)
        + " failed attempt(s)"@
}

/// The warning of a call for which every source failed.
pub open spec fn exhausted_warning(endpoint: Endpoint) -> Seq<char> {
    "all sources failed for endpoint '"@ + endpoint_name(endpoint) + "'"@
}

/// The error reported when no source could even be tried.
pub open spec fn reports_no_candidate(endpoint: Endpoint, e: EnvelopeError) -> bool {
    &&& e.code@ == "source.no_candidate"@
    &&& e.message@ == "no source candidates available for endpoint '"@ + endpoint_name(endpoint)
        + "'"@
    &&& e.source is None
    &&& !e.retryable
}

/// The progress of one routed call: which planned providers were tried, the
/// errors met so far, and whether a candidate awaits its health check or
/// invocation.
pub struct RouteSession {
    endpoint: Endpoint,
    strict: bool,
    planned: Vec<ProviderId>,
    next: usize,
    source_chain: Vec<ProviderId>,
    errors: Vec<EnvelopeError>,
    awaiting: bool,
    stopped: bool,
}

impl RouteSession {
    pub closed spec fn endpoint(&self) -> Endpoint {
        self.endpoint
    }

    /// The call may not fall back to another provider.
    pub closed spec fn strict(&self) -> bool {
        self.strict
    }

    pub closed spec fn planned(&self) -> Seq<ProviderId> {
        self.planned@
    }

    /// How many planned providers have been taken up.
    pub closed spec fn taken(&self) -> nat {
        self.next as nat
    }

    pub closed spec fn chain(&self) -> Seq<ProviderId> {
        self.source_chain@
    }

    pub closed spec fn errors(&self) -> Seq<EnvelopeError> {
        self.errors@
    }

    /// The last provider of the chain passed the registry checks and has not
    /// failed yet.
    pub closed spec fn awaiting(&self) -> bool {
        self.awaiting
    }

    /// A strict call failed: no further provider may be tried.
    pub closed spec fn stopped(&self) -> bool {
        self.stopped
    }

    /// The session's invariant: the chain is the taken prefix of the plan,
    /// each chain entry but an awaiting last one produced exactly one error
    /// naming it, and a strict call stops at its first error.
    pub closed spec fn wf(&self) -> bool {
        &&& self.next <= self.planned@.len()
        &&& self.source_chain@ == self.planned@.take(self.next as int)
        &&& self.errors@.len() + (if self.awaiting { 1int } else { 0int }) == self.source_chain@.len()
        &&& forall|i: int| 0 <= i < self.errors@.len() ==> (#[trigger] self.errors@[i]).source == Some(
            self.source_chain@[i],
        )
        &&& self.stopped ==> self.strict
        &&& (self.strict && self.errors@.len() > 0) ==> self.stopped
        &&& (self.strict) ==> self.planned@.len() == 1
    }

    /// Starts routing a call to `endpoint` with `strategy`.
    pub fn start(
        router: &SourceRouter,
        endpoint: Endpoint,
        strategy: &SourceStrategy,
        health: &Vec<(ProviderId, HealthStatus)>,
    ) -> (s: Self)
        requires
            health_covers(router, health@),
        ensures
            s.wf(),
            s.endpoint() == endpoint,
            s.strict() == (*strategy is Strict),
            is_plan(router, endpoint, *strategy, health@, s.planned()),
            s.taken() == 0,
            s.chain().len() == 0,
            s.errors().len() == 0,
            !s.awaiting(),
            !s.stopped(),
    {
        let planned = router.plan_sources(endpoint, strategy, health);
        let s = RouteSession {
            endpoint,
            strict: strategy.is_strict(),
            planned,
            next: 0,
            source_chain: Vec::new(),
            errors: Vec::new(),
            awaiting: false,
            stopped: false,
        };
        assert(s.source_chain@ =~= s.planned@.take(0));
        s
    }

    /// Takes up planned providers until one is registered and serves the
    /// endpoint, recording an error for each one passed over; a strict call
    /// stops at the first such error.
    pub fn next_candidate(&mut self, router: &SourceRouter) -> (r: Option<ProviderId>)
        requires
            old(self).wf(),
            !old(self).awaiting(),
        ensures
            final(self).wf(),
            final(self).endpoint() == old(self).endpoint(),
            final(self).strict() == old(self).strict(),
            final(self).planned() == old(self).planned(),
            old(self).taken() <= final(self).taken(),
            old(self).stopped() ==> *final(self) == *old(self) && r is None,
            final(self).errors().len() >= old(self).errors().len(),
            forall|i: int| 0 <= i < old(self).errors().len() ==> final(self).errors()[i] == old(self).errors()[i],
            forall|i: int| old(self).errors().len() <= i < final(self).errors().len() ==> reports_skip(
                router,
                old(self).endpoint(),
                final(self).chain()[i],
                #[trigger] final(self).errors()[i],
            ),
            forall|i: int|
                old(self).errors().len() <= i < final(self).errors().len() ==> !router.serves(
                    #[trigger] final(self).chain()[i],
                    old(self).endpoint(),
                ),
            r is Some <==> final(self).awaiting(),
            r matches Some(p) ==> p == final(self).chain().last() && router.serves(p, old(self).endpoint()),
            (r is None && !final(self).stopped()) ==> final(self).taken() == final(self).planned().len(),
            final(self).stopped() ==> (old(self).stopped() || final(self).errors().len() == old(self).errors().len() + 1),
    {
        if self.stopped {
            return None;
        }
        let ghost old_errors = self.errors@;
        let n = self.planned.len();
        while self.next < n
            invariant
                self.wf(),
                !self.awaiting,
                !self.stopped,
                n == self.planned@.len(),
                self.endpoint == old(self).endpoint,
                self.strict == old(self).strict,
                !old(self).stopped,
                self.planned@ == old(self).planned@,
                old(self).next <= self.next,
                self.errors@.len() >= old_errors.len(),
                old_errors == old(self).errors@,
                forall|i: int| 0 <= i < old_errors.len() ==> self.errors@[i] == old_errors[i],
                forall|i: int| old_errors.len() <= i < self.errors@.len() ==> reports_skip(
                    router,
                    self.endpoint,
                    self.source_chain@[i],
                    #[trigger] self.errors@[i],
                ),
                forall|i: int|
                    old_errors.len() <= i < self.errors@.len() ==> !router.serves(
                        #[trigger] self.source_chain@[i],
                        self.endpoint,
                    ),
            decreases n - self.next,
        {
            let p = self.planned[self.next];
            let ghost chain_before = self.source_chain@;
            let ghost errors_before = self.errors@;
            self.source_chain.push(p);
            self.next = self.next + 1;
            assert(self.source_chain@ =~= self.planned@.take(self.next as int));
            let caps = router.capabilities(p);
            let err = match caps {
                None => Some(SourceError::adapter_not_registered(p)),
                Some(c) => if c.supports(self.endpoint) {
                    None
                } else {
                    Some(SourceError::unsupported_endpoint(self.endpoint))
                },
            };
            match err {
                None => {
                    self.awaiting = true;
                    return Some(p);
                },
                Some(e) => {
                    let env = EnvelopeError::from_source(p, &e);
                    self.errors.push(env);
                    assert(self.errors@[self.errors@.len() - 1] == env);
                    assert(self.source_chain@[self.errors@.len() - 1] == p);
                    if self.strict {
                        self.stopped = true;
                        return None;
                    }
                },
            }
        }
        None
    }

    /// Decides, from a candidate's health report, whether to invoke it; a
    /// refused candidate gets an error and a strict call stops.
    pub fn check_health(&mut self, health: HealthStatus) -> (r: bool)
        requires
            old(self).wf(),
            old(self).awaiting(),
        ensures
            final(self).wf(),
            r == (health.state != HealthState::Unhealthy && health.rate_available),
            r ==> *final(self) == *old(self),
            !r ==> {
                &&& final(self).endpoint() == old(self).endpoint()
                &&& final(self).strict() == old(self).strict()
                &&& final(self).planned() == old(self).planned()
                &&& final(self).taken() == old(self).taken()
                &&& final(self).chain() == old(self).chain()
                &&& final(self).errors().drop_last() == old(self).errors()
                &&& final(self).errors().len() == old(self).errors().len() + 1
                &&& reports_refusal(health, old(self).chain().last(), final(self).errors().last())
                &&& !final(self).awaiting()
                &&& final(self).stopped() == (old(self).stopped() || old(self).strict())
            },
    {
        let p = self.source_chain[self.source_chain.len() - 1];
        let err = if health.state == HealthState::Unhealthy {
            Some(SourceError::unavailable("source health check reported unhealthy"))
        } else if !health.rate_available {
            Some(SourceError::rate_limited("source has no rate budget available"))
        } else {
            None
        };
        match err {
            None => true,
            Some(e) => {
                self.record(p, &e);
                false
            },
        }
    }

    /// Records that the awaiting candidate failed with `error`.
    pub fn record_failure(&mut self, error: &SourceError)
        requires
            old(self).wf(),
            old(self).awaiting(),
        ensures
            final(self).wf(),
            final(self).endpoint() == old(self).endpoint(),
            final(self).strict() == old(self).strict(),
            final(self).planned() == old(self).planned(),
            final(self).taken() == old(self).taken(),
            final(self).chain() == old(self).chain(),
            final(self).errors().drop_last() == old(self).errors(),
            final(self).errors().len() == old(self).errors().len() + 1,
            reports(final(self).errors().last(), old(self).chain().last(), error.kind, error.message@),
            !final(self).awaiting(),
            final(self).stopped() == (old(self).stopped() || old(self).strict()),
    {
        let p = self.source_chain[self.source_chain.len() - 1];
        self.record(p, error);
    }

    fn record(&mut self, p: ProviderId, error: &SourceError)
        requires
            old(self).wf(),
            old(self).awaiting(),
            p == old(self).chain().last(),
        ensures
            final(self).wf(),
            final(self).endpoint() == old(self).endpoint(),
            final(self).strict() == old(self).strict(),
            final(self).planned() == old(self).planned(),
            final(self).taken() == old(self).taken(),
            final(self).chain() == old(self).chain(),
            final(self).errors().drop_last() == old(self).errors(),
            final(self).errors().len() == old(self).errors().len() + 1,
            reports(final(self).errors().last(), p, error.kind, error.message@),
            !final(self).awaiting(),
            final(self).stopped() == (old(self).stopped() || old(self).strict()),
    {
        let env = EnvelopeError::from_source(p, error);
        let ghost before = self.errors@;
        self.errors.push(env);
        assert(self.errors@.drop_last() =~= before);
        self.awaiting = false;
        if self.strict {
            self.stopped = true;
        }
    }

    /// The result of a call whose awaiting candidate returned `data`.
    pub fn succeed<T>(self, data: T, latency_ms: u64) -> (r: RouteSuccess<T>)
        requires
            self.wf(),
            self.awaiting(),
        ensures
            r.data == data,
            r.selected_source == self.chain().last(),
            r.source_chain@ == self.chain(),
            r.errors@ == self.errors(),
            r.errors@.len() + 1 == r.source_chain@.len(),
            forall|i: int| 0 <= i < r.errors@.len() ==> (#[trigger] r.errors@[i]).source == Some(r.source_chain@[i]),
            self.errors().len() == 0 ==> r.warnings@.len() == 0,
            self.errors().len() > 0 ==> r.warnings@.len() == 1 && r.warnings@[0]@ == fallback_warning(
                self.chain().last(),
                self.errors().len(),
            ),
            r.latency_ms == latency_ms,
    {
        let provider = self.source_chain[self.source_chain.len() - 1];
        let mut warnings: Vec<String> = Vec::new();
        if self.errors.len() > 0 {
            let mut w = String::from_str("source fallback succeeded with '");
            w.append(provider.as_str());
            w.append("' after ");
            let count = decimal_string(self.errors.len() as u64);
            w.append(count.as_str());
            w.append(" failed attempt(s)");
            warnings.push(w);
        }
        RouteSuccess {
            data,
            selected_source: provider,
            source_chain: self.source_chain,
            warnings,
            errors: self.errors,
            latency_ms,
        }
    }

    /// The result of a call for which no candidate succeeded. When nothing
    /// was tried, the reported chain is the strategy's chain (replanned with
    /// `health`); when no error was met, a no-candidate error is reported.
    pub fn fail(
        self,
        router: &SourceRouter,
        strategy: &SourceStrategy,
        health: &Vec<(ProviderId, HealthStatus)>,
        latency_ms: u64,
    ) -> (r: RouteFailure)
        requires
            self.wf(),
            !self.awaiting(),
            health_covers(router, health@),
        ensures
            self.chain().len() > 0 ==> r.source_chain@ == self.chain(),
            self.chain().len() > 0 ==> r.errors@.len() == r.source_chain@.len(),
            self.chain().len() > 0 ==> forall|i: int|
                0 <= i < r.errors@.len() ==> (#[trigger] r.errors@[i]).source == Some(
                    r.source_chain@[i],
                ),
            self.chain().len() == 0 ==> ((exists|c: Seq<ProviderId>|
                is_plan(router, self.endpoint(), *strategy, health@, c) && c.len() > 0)
                ==> is_plan(router, self.endpoint(), *strategy, health@, r.source_chain@)),
            self.chain().len() == 0 ==> ((forall|c: Seq<ProviderId>|
                is_plan(router, self.endpoint(), *strategy, health@, c) ==> c.len() == 0)
                ==> is_name_sorted_registry(router, r.source_chain@)),
            self.errors().len() > 0 ==> r.errors@ == self.errors(),
            self.errors().len() == 0 ==> r.errors@.len() == 1 && reports_no_candidate(
                self.endpoint(),
                r.errors@[0],
            ),
            r.warnings@.len() == 1,
            r.warnings@[0]@ == exhausted_warning(self.endpoint()),
            r.latency_ms == latency_ms,
    {
        let source_chain = if self.source_chain.len() == 0 {
            router.source_chain_for_strategy(self.endpoint, strategy, health)
        } else {
            self.source_chain
        };
        let mut errors = self.errors;
        if errors.len() == 0 {
            let mut m = String::from_str("no source candidates available for endpoint '");
            m.append(self.endpoint.as_str());
            m.append("'");
            errors.push(
                EnvelopeError {
                    code: String::from_str("source.no_candidate"),
                    message: m,
                    source: None,
                    retryable: false,
                },
            );
        }
        let mut w = String::from_str("all sources failed for endpoint '");
        w.append(self.endpoint.as_str());
        w.append("'");
        let mut warnings: Vec<String> = Vec::new();
        warnings.push(w);
        RouteFailure { source_chain, warnings, errors, latency_ms }
    }

    /// The providers taken up so far.
    pub fn source_chain(&self) -> (r: &Vec<ProviderId>)
        ensures
            r@ == self.chain(),
    {
        &self.source_chain
    }
}

/// A strict call never falls back: its plan names one provider, so it tries
/// at most that one and reports at most one error.
pub proof fn law_strict_never_falls_back(s: RouteSession)
    requires
        s.wf(),
        s.strict(),
    ensures
        s.planned().len() == 1,
        s.chain().len() <= 1,
        s.errors().len() <= 1,
{
}

/// Every error of a session names the provider it came from, in the order
/// the providers were tried: one error per provider tried, except for a
/// provider still awaiting its call.
pub proof fn law_errors_follow_chain(s: RouteSession)
    requires
        s.wf(),
    ensures
        s.errors().len() <= s.chain().len(),
        !s.awaiting() ==> s.errors().len() == s.chain().len(),
        s.awaiting() ==> s.errors().len() + 1 == s.chain().len(),
        forall|i: int| 0 <= i < s.errors().len() ==> (#[trigger] s.errors()[i]).source == Some(
            s.chain()[i],
        ),
        s.chain() == s.planned().take(s.taken() as int),
{
}

/// Automatic routing only plans providers that serve the endpoint, each
/// once.
pub proof fn law_auto_chain_serves_endpoint(
    router: &SourceRouter,
    endpoint: Endpoint,
    hs: Seq<(ProviderId, HealthStatus)>,
    c: Seq<ProviderId>,
)
    requires
        is_auto_chain(router, endpoint, hs, c),
    ensures
        forall|i: int| 0 <= i < c.len() ==> router.serves(#[trigger] c[i], endpoint),
        no_dups(c),
{
    assert forall|i: int| 0 <= i < c.len() implies router.serves(#[trigger] c[i], endpoint) by {
        assert(c.contains(c[i]));
    }
}

proof fn lemma_drop_first_members(c: Seq<ProviderId>, p: ProviderId)
    requires
        c.len() > 0,
        no_dups(c),
    ensures
        c.drop_first().contains(p) <==> (c.contains(p) && p != c[0]),
{
    if c.drop_first().contains(p) {
        let k = choose|k: int| 0 <= k < c.drop_first().len() && c.drop_first()[k] == p;
        assert(c[k + 1] == p);
    }
    if c.contains(p) && p != c[0] {
        let k = choose|k: int| 0 <= k < c.len() && c[k] == p;
        assert(k != 0);
        assert(c.drop_first()[k - 1] == p);
    }
}

/// Two duplicate-free sequences with the same members, both ordered by the
/// same asymmetric relation, are equal.
proof fn lemma_sorted_unique(
    c: Seq<ProviderId>,
    d: Seq<ProviderId>,
    lt: spec_fn(ProviderId, ProviderId) -> bool,
)
    requires
        forall|x: ProviderId, y: ProviderId| #[trigger] lt(x, y) ==> !lt(y, x),
        forall|p: ProviderId| c.contains(p) <==> d.contains(p),
        no_dups(c),
        no_dups(d),
        forall|i: int, j: int| 0 <= i < j < c.len() ==> lt(c[i], c[j]),
        forall|i: int, j: int| 0 <= i < j < d.len() ==> lt(d[i], d[j]),
    ensures
        c == d,
    decreases c.len(),
{
    if c.len() == 0 {
        if d.len() > 0 {
            assert(d.contains(d[0]));
        }
        assert(c =~= d);
    } else {
        assert(c.contains(c[0]));
        let j = choose|j: int| 0 <= j < d.len() && d[j] == c[0];
        assert(d.contains(d[0]));
        let i = choose|i: int| 0 <= i < c.len() && c[i] == d[0];
        if j > 0 {
            assert(d[0] != d[j]);
            assert(lt(c[0], c[i]));
            assert(lt(d[0], d[j]));
        }
        let c1 = c.drop_first();
        let d1 = d.drop_first();
        assert forall|p: ProviderId| c1.contains(p) <==> d1.contains(p) by {
            lemma_drop_first_members(c, p);
            lemma_drop_first_members(d, p);
        }
        assert forall|x: int, y: int| 0 <= x < y < c1.len() implies lt(c1[x], c1[y]) by {
            assert(c1[x] == c[x + 1] && c1[y] == c[y + 1]);
        }
        assert forall|x: int, y: int| 0 <= x < y < d1.len() implies lt(d1[x], d1[y]) by {
            assert(d1[x] == d[x + 1] && d1[y] == d[y + 1]);
        }
        assert forall|x: int, y: int| 0 <= x < y < c1.len() implies c1[x] != c1[y] by {
            assert(c1[x] == c[x + 1] && c1[y] == c[y + 1]);
        }
        assert forall|x: int, y: int| 0 <= x < y < d1.len() implies d1[x] != d1[y] by {
            assert(d1[x] == d[x + 1] && d1[y] == d[y + 1]);
        }
        lemma_sorted_unique(c1, d1, lt);
        assert(c =~= seq![c[0]] + c1);
        assert(d =~= seq![d[0]] + d1);
    }
}

/// A strategy determines its plan: two plans for the same router,
/// endpoint, strategy and health reports are the same sequence. Likewise
/// the name-ordered registry is determined by the router.
pub proof fn law_plan_is_unique(
    router: &SourceRouter,
    endpoint: Endpoint,
    strategy: SourceStrategy,
    hs: Seq<(ProviderId, HealthStatus)>,
    c: Seq<ProviderId>,
    d: Seq<ProviderId>,
)
    requires
        is_plan(router, endpoint, strategy, hs, c),
        is_plan(router, endpoint, strategy, hs, d),
    ensures
        c == d,
{
    match strategy {
        SourceStrategy::Auto => {
            let lt = |x: ProviderId, y: ProviderId|
                ranks_before(
                    (x, auto_score(health_lookup(hs, x).unwrap())),
                    (y, auto_score(health_lookup(hs, y).unwrap())),
                );
            lemma_sorted_unique(c, d, lt);
        },
        _ => {},
    }
}

/// The registered providers in name order form one sequence.
pub proof fn law_name_sorted_registry_unique(
    router: &SourceRouter,
    c: Seq<ProviderId>,
    d: Seq<ProviderId>,
)
    requires
        is_name_sorted_registry(router, c),
        is_name_sorted_registry(router, d),
    ensures
        c == d,
{
    let lt = |x: ProviderId, y: ProviderId| name_rank(x) < name_rank(y);
    lemma_sorted_unique(c, d, lt);
}


/// Automatic routing prefers rate budget: of two health reports that differ
/// only in whether rate budget is available, the one with budget scores
/// exactly 150 more, and so ranks before the other whatever the names.
/// Health counts 150 between healthy and degraded and 100 between degraded
/// and unhealthy, the source's own score counts point for point, and an
/// unhealthy source without budget or score of its own scores 1000.
pub proof fn law_auto_score_parts(h: HealthStatus, a: ProviderId, b: ProviderId)
    ensures
        auto_score(HealthStatus { rate_available: true, ..h }) == auto_score(
            HealthStatus { rate_available: false, ..h },
        ) + 150,
        ranks_before(
            (a, auto_score(HealthStatus { rate_available: true, ..h })),
            (b, auto_score(HealthStatus { rate_available: false, ..h })),
        ),
        auto_score(HealthStatus { state: HealthState::Healthy, ..h }) == auto_score(
            HealthStatus { state: HealthState::Degraded, ..h },
        ) + 150,
        auto_score(HealthStatus { state: HealthState::Degraded, ..h }) == auto_score(
            HealthStatus { state: HealthState::Unhealthy, ..h },
        ) + 100,
        h.score < u16::MAX ==> auto_score(HealthStatus { score: (h.score + 1) as u16, ..h })
            == auto_score(h) + 1,
        auto_score(
            HealthStatus { state: HealthState::Unhealthy, rate_available: false, score: 0 },
        ) == 1000,
{
}

/// Automatic routing puts the best-scored source first: along an automatic
/// chain the auto scores never rise, and sources with equal scores follow
/// name order.
pub proof fn law_auto_chain_best_first(
    router: &SourceRouter,
    endpoint: Endpoint,
    hs: Seq<(ProviderId, HealthStatus)>,
    c: Seq<ProviderId>,
)
    requires
        is_auto_chain(router, endpoint, hs, c),
    ensures
        forall|i: int, j: int|
            0 <= i < j < c.len() ==> auto_score(health_lookup(hs, #[trigger] c[i]).unwrap())
                >= auto_score(health_lookup(hs, #[trigger] c[j]).unwrap()),
        forall|i: int, j: int|
            0 <= i < j < c.len() && auto_score(health_lookup(hs, #[trigger] c[i]).unwrap())
                == auto_score(health_lookup(hs, #[trigger] c[j]).unwrap()) ==> name_rank(c[i])
                < name_rank(c[j]),
{
    assert forall|i: int, j: int| 0 <= i < j < c.len() implies auto_score(
        health_lookup(hs, #[trigger] c[i]).unwrap(),
    ) >= auto_score(health_lookup(hs, #[trigger] c[j]).unwrap()) by {
        assert(ranks_before(
            (c[i], auto_score(health_lookup(hs, c[i]).unwrap())),
            (c[j], auto_score(health_lookup(hs, c[j]).unwrap())),
        ));
    }
    assert forall|i: int, j: int|
        0 <= i < j < c.len() && auto_score(health_lookup(hs, #[trigger] c[i]).unwrap())
            == auto_score(health_lookup(hs, #[trigger] c[j]).unwrap()) implies name_rank(c[i])
        < name_rank(c[j]) by {
        assert(ranks_before(
            (c[i], auto_score(health_lookup(hs, c[i]).unwrap())),
            (c[j], auto_score(health_lookup(hs, c[j]).unwrap())),
        ));
    }
}

} // verus!
