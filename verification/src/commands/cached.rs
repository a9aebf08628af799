//! What a set of decisions amounts to.
use vstd::hash_map::StringHashMap;
use vstd::prelude::*;

use crate::compact_trace::{grown, lemma_interned_grows};
use crate::intern::{id_of, interned, is_table, StringInterner};
use crate::metrics::MetricsSummary;
use crate::number::{larger, Real};
use crate::policy::{PolicyDecision, SolverMetadata};
use crate::text::same;
use crate::words::{texts, Lines};

verus! {

/// A key with the size of its object.
#[derive(Debug)]
pub struct KeySize {
    pub cache_key: String,
    pub size_bytes: u64,
}

/// The size under a key among the first `n` entries; of two with one key the later counts.
pub open spec fn size_under(sizes: Seq<KeySize>, key: Seq<char>, n: int) -> Option<u64>
    decreases n,
{
    if n <= 0 {
        None
    } else if sizes[n - 1].cache_key@ == key {
        Some(sizes[n - 1].size_bytes)
    } else {
        size_under(sizes, key, n - 1)
    }
}

/// The sizes by key.
pub fn sizes_by_key(sizes: &Vec<KeySize>) -> (r: StringHashMap<u64>)
    ensures
        forall|k: Seq<char>| #[trigger]
            r@.contains_key(k) == (size_under(sizes@, k, sizes@.len() as int) is Some),
        forall|k: Seq<char>| #[trigger]
            r@.contains_key(k) ==> size_under(sizes@, k, sizes@.len() as int) == Some(r@[k]),
{
    let mut map: StringHashMap<u64> = StringHashMap::new();
    let mut i: usize = 0;
    while i < sizes.len()
        invariant
            i <= sizes@.len(),
            forall|k: Seq<char>| #[trigger]
                map@.contains_key(k) == (size_under(sizes@, k, i as int) is Some),
            forall|k: Seq<char>| #[trigger]
                map@.contains_key(k) ==> size_under(sizes@, k, i as int) == Some(map@[k]),
        decreases sizes@.len() - i,
    {
        map.insert(sizes[i].cache_key.clone(), sizes[i].size_bytes);
        i = i + 1;
    }
    map
}

/// The bytes that the first `n` decisions put into the cache. An object of unknown size counts as
/// empty.
pub open spec fn bytes_cached(decisions: Seq<PolicyDecision>, sizes: Seq<KeySize>, n: int) -> nat
    decreases n,
{
    if n <= 0 {
        0
    } else {
        let d = decisions[n - 1];
        bytes_cached(decisions, sizes, n - 1) + if d.cache {
            match size_under(sizes, d.cache_key@, sizes.len() as int) {
                Some(size) => size as nat,
                None => 0,
            }
        } else {
            0
        }
    }
}

proof fn lemma_bytes_grow(
    decisions: Seq<PolicyDecision>,
    sizes: Seq<KeySize>,
    m: int,
    n: int,
)
    requires
        0 <= m <= n,
    ensures
        bytes_cached(decisions, sizes, m) <= bytes_cached(decisions, sizes, n),
    decreases n - m,
{
    if m < n {
        lemma_bytes_grow(decisions, sizes, m, n - 1);
    }
}

/// The bytes that decisions put into the cache, joined with the sizes by key. There is no answer
/// where the sum cannot be counted in 64 bits.
pub fn cached_bytes(decisions: &Vec<PolicyDecision>, sizes: &Vec<KeySize>) -> (r: Option<u64>)
    ensures
        r == (if bytes_cached(decisions@, sizes@, decisions@.len() as int) <= u64::MAX {
            Some(bytes_cached(decisions@, sizes@, decisions@.len() as int) as u64)
        } else {
            None
        }),
{
    let map = sizes_by_key(sizes);
    let mut total: u64 = 0;
    let mut i: usize = 0;
    while i < decisions.len()
        invariant
            i <= decisions@.len(),
            forall|k: Seq<char>| #[trigger]
                map@.contains_key(k) == (size_under(sizes@, k, sizes@.len() as int) is Some),
            forall|k: Seq<char>| #[trigger]
                map@.contains_key(k) ==> size_under(sizes@, k, sizes@.len() as int) == Some(map@[k]),
            total == bytes_cached(decisions@, sizes@, i as int),
        decreases decisions@.len() - i,
    {
        proof {
            lemma_bytes_grow(decisions@, sizes@, i + 1, decisions@.len() as int);
        }
        if decisions[i].cache {
            let size: u64 = match map.get(decisions[i].cache_key.as_str()) {
                Some(n) => *n,
                None => 0,
            };
            match total.checked_add(size) {
                Some(sum) => {
                    total = sum;
                },
                None => {
                    return None;
                },
            }
        }
        i = i + 1;
    }
    Some(total)
}

/// The keys that the first `n` decisions put into the cache.
pub open spec fn keys_cached(decisions: Seq<PolicyDecision>, n: int) -> Seq<Seq<char>>
    decreases n,
{
    if n <= 0 {
        Seq::empty()
    } else if decisions[n - 1].cache {
        keys_cached(decisions, n - 1).push(decisions[n - 1].cache_key@)
    } else {
        keys_cached(decisions, n - 1)
    }
}

/// The keys that decisions put into the cache.
pub fn cached_keys(decisions: &Vec<PolicyDecision>) -> (r: Vec<String>)
    ensures
        texts(r@) == keys_cached(decisions@, decisions@.len() as int),
{
    let mut keys = Lines::new();
    let mut i: usize = 0;
    while i < decisions.len()
        invariant
            i <= decisions@.len(),
            keys.list() == keys_cached(decisions@, i as int),
        decreases decisions@.len() - i,
    {
        if decisions[i].cache {
            keys = keys.with(decisions[i].cache_key.clone());
        }
        i = i + 1;
    }
    keys.done()
}

/// How many objects decisions put into the cache.
pub fn cached_count(decisions: &Vec<PolicyDecision>) -> (r: usize)
    ensures
        r == keys_cached(decisions@, decisions@.len() as int).len(),
{
    let mut count: usize = 0;
    let mut i: usize = 0;
    while i < decisions.len()
        invariant
            i <= decisions@.len(),
            count <= i,
            count == keys_cached(decisions@, i as int).len(),
        decreases decisions@.len() - i,
    {
        if decisions[i].cache {
            count = count + 1;
        }
        i = i + 1;
    }
    count
}

/// The strings of a list after the first `n` keys have been interned.
pub open spec fn interned_keys(list: Seq<Seq<char>>, keys: Seq<Seq<char>>, n: int) -> Seq<
    Seq<char>,
>
    decreases n,
{
    if n <= 0 {
        list
    } else {
        interned(interned_keys(list, keys, n - 1), keys[n - 1])
    }
}

/// The ids of the keys that decisions put into the cache, in a trace whose strings the interner
/// holds.
pub fn cached_ids(decisions: &Vec<PolicyDecision>, interner: &mut StringInterner) -> (r: Vec<u32>)
    ensures
        final(interner)@ == interned_keys(
            old(interner)@,
            keys_cached(decisions@, decisions@.len() as int),
            keys_cached(decisions@, decisions@.len() as int).len() as int,
        ),
        r@.len() == keys_cached(decisions@, decisions@.len() as int).len(),
        forall|i: int|
            0 <= i < r@.len() ==> #[trigger] r@[i] == id_of(
                final(interner)@,
                keys_cached(decisions@, decisions@.len() as int)[i],
            ),
{
    let keys = cached_keys(decisions);
    let ghost all = texts(keys@);
    let ghost start = interner@;
    let mut ids: Vec<u32> = Vec::new();
    let mut i: usize = 0;
    while i < keys.len()
        invariant
            i <= keys@.len(),
            all == texts(keys@),
            interner@ == interned_keys(start, all, i as int),
            i > 0 ==> is_table(interner@),
            ids@.len() == i,
            forall|k: int| 0 <= k < i ==> interner@.contains(#[trigger] all[k]),
            forall|k: int| 0 <= k < i ==> #[trigger] ids@[k] == id_of(interner@, all[k]),
        decreases keys@.len() - i,
    {
        let ghost before = interner@;
        let id: u32 = interner.intern(keys[i].as_str());
        let ghost done = ids@;
        ids.push(id);
        proof {
            lemma_interned_grows(before, all[i as int]);
            assert forall|k: int| 0 <= k < i + 1 implies #[trigger] ids@[k] == id_of(
                interner@,
                all[k],
            ) by {
                if k < i {
                    assert(before.contains(all[k]));
                    assert(ids@[k] == done[k]);
                }
            }
            assert forall|k: int| 0 <= k < i + 1 implies interner@.contains(#[trigger] all[k]) by {
                if k < i {
                    assert(before.contains(all[k]));
                }
            }
        }
        i = i + 1;
    }
    assert(all.len() == keys@.len());
    ids
}

/// Two keys that are used together, and how much that is worth.
#[derive(Debug)]
pub struct KeyPair {
    pub key_a: String,
    pub key_b: String,
    pub weight: Real,
}

/// Two objects by their positions, and how much it is worth to cache both.
#[derive(Debug, Clone, Copy, PartialEq, Eq, Structural)]
pub struct PairwiseInteraction {
    pub i: u32,
    pub j: u32,
    pub weight: Real,
}

/// The position of a key among the first `n`, counted in 32 bits; of two positions the later
/// counts.
pub open spec fn position_under(keys: Seq<Seq<char>>, key: Seq<char>, n: int) -> Option<u32>
    decreases n,
{
    if n <= 0 {
        None
    } else if keys[n - 1] == key {
        Some(((n - 1) % 0x1_0000_0000) as u32)
    } else {
        position_under(keys, key, n - 1)
    }
}

/// The interactions of the first `n` pairs both of whose keys are known.
pub open spec fn interactions_of(pairs: Seq<KeyPair>, keys: Seq<Seq<char>>, n: int) -> Seq<
    PairwiseInteraction,
>
    decreases n,
{
    if n <= 0 {
        Seq::empty()
    } else {
        let p = pairs[n - 1];
        let before = interactions_of(pairs, keys, n - 1);
        match (
            position_under(keys, p.key_a@, keys.len() as int),
            position_under(keys, p.key_b@, keys.len() as int),
        ) {
            (Some(i), Some(j)) => before.push(PairwiseInteraction { i, j, weight: p.weight }),
            _ => before,
        }
    }
}

/// The interactions of the pairs both of whose keys are known. `keys` are those of the objects, in
/// their order.
pub fn pairs_to_interactions(pairs: &Vec<KeyPair>, keys: &Vec<String>) -> (r: Vec<
    PairwiseInteraction,
>)
    ensures
        r@ == interactions_of(pairs@, texts(keys@), pairs@.len() as int),
{
    let ghost all = texts(keys@);
    let mut map: StringHashMap<u32> = StringHashMap::new();
    let mut k: usize = 0;
    while k < keys.len()
        invariant
            k <= keys@.len(),
            all == texts(keys@),
            forall|s: Seq<char>| #[trigger]
                map@.contains_key(s) == (position_under(all, s, k as int) is Some),
            forall|s: Seq<char>| #[trigger]
                map@.contains_key(s) ==> position_under(all, s, k as int) == Some(map@[s]),
        decreases keys@.len() - k,
    {
        let count: u64 = k as u64;
        map.insert(keys[k].clone(), (count % 0x1_0000_0000) as u32);
        k = k + 1;
    }
    assert(all.len() == keys@.len());
    let mut out: Vec<PairwiseInteraction> = Vec::new();
    let mut n: usize = 0;
    while n < pairs.len()
        invariant
            n <= pairs@.len(),
            forall|s: Seq<char>| #[trigger]
                map@.contains_key(s) == (position_under(all, s, all.len() as int) is Some),
            forall|s: Seq<char>| #[trigger]
                map@.contains_key(s) ==> position_under(all, s, all.len() as int) == Some(map@[s]),
            out@ == interactions_of(pairs@, all, n as int),
        decreases pairs@.len() - n,
    {
        match (map.get(pairs[n].key_a.as_str()), map.get(pairs[n].key_b.as_str())) {
            (Some(i), Some(j)) => {
                out.push(PairwiseInteraction { i: *i, j: *j, weight: pairs[n].weight });
            },
            _ => {},
        }
        n = n + 1;
    }
    out
}

/// The bytes and the capacity whose quotient is how far a cache is used; nothing where the
/// capacity is zero and the quotient counts as zero. What the solver says goes before what was
/// counted.
pub open spec fn utilization_of(
    solver: Option<SolverMetadata>,
    counted: u64,
    capacity: u64,
) -> Option<(u64, u64)> {
    let (bytes, of) = match solver {
        Some(meta) => (meta.cached_bytes, meta.capacity_bytes),
        None => (counted, capacity),
    };
    if of > 0 {
        Some((bytes, of))
    } else {
        None
    }
}

/// The bytes and the capacity whose quotient is how far a cache is used.
pub fn utilization_terms(
    solver: Option<&SolverMetadata>,
    counted: u64,
    capacity: u64,
) -> (r: Option<(u64, u64)>)
    ensures
        r == utilization_of(
            match solver {
                Some(meta) => Some(*meta),
                None => None,
            },
            counted,
            capacity,
        ),
{
    let (bytes, of) = match solver {
        Some(meta) => (meta.cached_bytes, meta.capacity_bytes),
        None => (counted, capacity),
    };
    if of > 0 {
        Some((bytes, of))
    } else {
        None
    }
}

/// The metrics of a replay with what the solver says of itself.
pub open spec fn with_diagnostics(
    metrics: MetricsSummary,
    solver: Option<SolverMetadata>,
    utilization: Real,
) -> MetricsSummary {
    match solver {
        Some(meta) => MetricsSummary {
            solve_time_ms: meta.solve_time_ms,
            optimality_gap: meta.optimality_gap,
            capacity_utilization: utilization,
            ..metrics
        },
        None => MetricsSummary { capacity_utilization: utilization, ..metrics },
    }
}

/// The metrics of a replay with what the solver says of itself. `utilization` is how far the cache
/// is used.
pub fn complete_metrics(
    metrics: MetricsSummary,
    solver: Option<&SolverMetadata>,
    utilization: Real,
) -> (r: MetricsSummary)
    ensures
        r == with_diagnostics(
            metrics,
            match solver {
                Some(meta) => Some(*meta),
                None => None,
            },
            utilization,
        ),
{
    let mut done = metrics;
    match solver {
        Some(meta) => {
            done.solve_time_ms = meta.solve_time_ms;
            done.optimality_gap = meta.optimality_gap;
        },
        None => {},
    }
    done.capacity_utilization = utilization;
    done
}

/// The name of the policy whose decisions come from the greedy solver.
pub const GREEDY_POLICY: &'static str = "EconomicGreedy";

/// The number 0.000000000001.
pub const SMALLEST_OBJECTIVE: u64 = 0x3d71_9799_812d_ea11;

/// A policy with its metrics.
#[derive(Debug)]
pub struct NamedMetrics {
    pub name: String,
    pub metrics: MetricsSummary,
}

/// The metrics of the greedy policy with what its solver says, other metrics as they are. The gap
/// to the optimum counts where the optimum is above a smallest objective.
pub open spec fn with_greedy_diagnostics(
    name: Seq<char>,
    metrics: MetricsSummary,
    solve_time_ms: u64,
    utilization: Real,
    optimum: Option<Real>,
    gap: Real,
) -> MetricsSummary {
    if name == GREEDY_POLICY@ {
        MetricsSummary {
            solve_time_ms,
            capacity_utilization: utilization,
            optimality_gap: if optimum is Some && larger(
                optimum->Some_0,
                Real { bits: SMALLEST_OBJECTIVE },
            ) {
                Some(gap)
            } else {
                metrics.optimality_gap
            },
            ..metrics
        }
    } else {
        metrics
    }
}

/// Fills in what the greedy solver says of itself. `optimum` is the objective that the exact
/// solver reached, where it was asked, and `gap` how far the greedy one stays behind it.
pub fn fill_greedy(
    results: &Vec<NamedMetrics>,
    solve_time_ms: u64,
    utilization: Real,
    optimum: Option<Real>,
    gap: Real,
) -> (r: Vec<NamedMetrics>)
    ensures
        r@.len() == results@.len(),
        forall|i: int|
            0 <= i < r@.len() ==> (#[trigger] r@[i]).name@ == results@[i].name@ && r@[i].metrics
                == with_greedy_diagnostics(
                results@[i].name@,
                results@[i].metrics,
                solve_time_ms,
                utilization,
                optimum,
                gap,
            ),
{
    let counts = match optimum {
        Some(x) => x.exceeds(Real { bits: SMALLEST_OBJECTIVE }),
        None => false,
    };
    let mut out: Vec<NamedMetrics> = Vec::new();
    let mut i: usize = 0;
    while i < results.len()
        invariant
            i <= results@.len(),
            counts == (optimum is Some && larger(
                optimum->Some_0,
                Real { bits: SMALLEST_OBJECTIVE },
            )),
            out@.len() == i,
            forall|k: int|
                0 <= k < i ==> (#[trigger] out@[k]).name@ == results@[k].name@ && out@[k].metrics
                    == with_greedy_diagnostics(
                    results@[k].name@,
                    results@[k].metrics,
                    solve_time_ms,
                    utilization,
                    optimum,
                    gap,
                ),
        decreases results@.len() - i,
    {
        let mut metrics = results[i].metrics;
        if same(results[i].name.as_str(), GREEDY_POLICY) {
            metrics.solve_time_ms = solve_time_ms;
            metrics.capacity_utilization = utilization;
            if counts {
                metrics.optimality_gap = Some(gap);
            }
        }
        out.push(NamedMetrics { name: results[i].name.clone(), metrics });
        i = i + 1;
    }
    out
}

/// Decisions that cache nothing put no bytes into the cache, and no keys.
pub proof fn no_cached_decision_means_no_bytes(
    decisions: Seq<PolicyDecision>,
    sizes: Seq<KeySize>,
    n: int,
)
    requires
        0 <= n <= decisions.len(),
        forall|i: int| 0 <= i < n ==> !(#[trigger] decisions[i]).cache,
    ensures
        bytes_cached(decisions, sizes, n) == 0,
        keys_cached(decisions, n).len() == 0,
    decreases n,
{
    if n > 0 {
        no_cached_decision_means_no_bytes(decisions, sizes, n - 1);
        assert(!decisions[n - 1].cache);
    }
}

/// A key has the size that is given for it last, and none where none is given.
pub proof fn the_last_size_counts(sizes: Seq<KeySize>, key: Seq<char>, n: int, i: int)
    requires
        0 <= n <= sizes.len(),
        -1 <= i < n,
        i >= 0 ==> sizes[i].cache_key@ == key,
        forall|k: int| i < k < n ==> (#[trigger] sizes[k]).cache_key@ != key,
    ensures
        i >= 0 ==> size_under(sizes, key, n) == Some(sizes[i].size_bytes),
        i < 0 ==> size_under(sizes, key, n) is None,
    decreases n,
{
    if n > 0 && n - 1 > i {
        assert(sizes[n - 1].cache_key@ != key);
        the_last_size_counts(sizes, key, n - 1, i);
    }
}

/// The decisions to cache, as a filter.
pub open spec fn to_cache() -> spec_fn(PolicyDecision) -> bool {
    |d: PolicyDecision| d.cache
}

/// The bytes of a list of keys, each as large as it was last given, or of no size.
pub open spec fn bytes_under(keys: Seq<Seq<char>>, sizes: Seq<KeySize>) -> nat
    decreases keys.len(),
{
    if keys.len() == 0 {
        0
    } else {
        bytes_under(keys.drop_last(), sizes) + (match size_under(
            sizes,
            keys.last(),
            sizes.len() as int,
        ) {
            Some(size) => size as nat,
            None => 0,
        })
    }
}

/// What is cached are the keys of the decisions to cache, in order, and the bytes cached are those
/// of exactly these keys.
pub proof fn what_is_cached_is_what_was_decided(
    decisions: Seq<PolicyDecision>,
    sizes: Seq<KeySize>,
    n: int,
)
    requires
        0 <= n <= decisions.len(),
    ensures
        keys_cached(decisions, n) == decisions.take(n).filter(to_cache()).map_values(
            |d: PolicyDecision| d.cache_key@,
        ),
        bytes_cached(decisions, sizes, n) == bytes_under(keys_cached(decisions, n), sizes),
    decreases n,
{
    reveal(Seq::filter);
    let key = |d: PolicyDecision| d.cache_key@;
    if n > 0 {
        what_is_cached_is_what_was_decided(decisions, sizes, n - 1);
        assert(decisions.take(n).drop_last() =~= decisions.take(n - 1));
        assert(decisions.take(n).last() == decisions[n - 1]);
        assert(keys_cached(decisions, n) =~= decisions.take(n).filter(to_cache()).map_values(key));
        let before = keys_cached(decisions, n - 1);
        if decisions[n - 1].cache {
            assert(keys_cached(decisions, n).drop_last() =~= before);
        }
    } else {
        assert(keys_cached(decisions, n) =~= decisions.take(n).filter(to_cache()).map_values(key));
    }
}

proof fn lemma_position(keys: Seq<Seq<char>>, key: Seq<char>, n: int)
    requires
        0 <= n <= keys.len(),
        keys.len() <= 0x1_0000_0000,
    ensures
        position_under(keys, key, n) matches Some(p) ==> p < n && keys[p as int] == key && (forall|
            k: int,
        |
            p < k < n ==> #[trigger] keys[k] != key),
        position_under(keys, key, n) is None <==> !keys.take(n).contains(key),
    decreases n,
{
    if n > 0 {
        lemma_position(keys, key, n - 1);
        let fewer = keys.take(n - 1);
        let more = keys.take(n);
        if keys[n - 1] == key {
            assert(more[n - 1] == key);
        }
        if fewer.contains(key) {
            let i = choose|i: int| 0 <= i < fewer.len() && fewer[i] == key;
            assert(more[i] == key);
        }
        if more.contains(key) && keys[n - 1] != key {
            let i = choose|i: int| 0 <= i < more.len() && more[i] == key;
            assert(fewer[i] == key);
        }
    }
}

/// An interaction stands for a pair: its positions are those of the pair's two keys, and its weight
/// is that of the pair.
pub open spec fn interaction_for(
    x: PairwiseInteraction,
    pair: KeyPair,
    keys: Seq<Seq<char>>,
) -> bool {
    &&& x.i < keys.len() && keys[x.i as int] == pair.key_a@
    &&& x.j < keys.len() && keys[x.j as int] == pair.key_b@
    &&& x.weight == pair.weight
}

/// Both keys of a pair are known.
pub open spec fn both_known(keys: Seq<Seq<char>>) -> spec_fn(KeyPair) -> bool {
    |pair: KeyPair| keys.contains(pair.key_a@) && keys.contains(pair.key_b@)
}

/// Every pair of known keys has its interaction, in the order of the pairs, and no other pair has
/// one.
pub proof fn known_pairs_interact(pairs: Seq<KeyPair>, keys: Seq<Seq<char>>, n: int)
    requires
        0 <= n <= pairs.len(),
        keys.len() <= 0x1_0000_0000,
    ensures
        interactions_of(pairs, keys, n).len() == pairs.take(n).filter(both_known(keys)).len(),
        forall|k: int|
            0 <= k < interactions_of(pairs, keys, n).len() ==> interaction_for(
                #[trigger] interactions_of(pairs, keys, n)[k],
                pairs.take(n).filter(both_known(keys))[k],
                keys,
            ),
    decreases n,
{
    reveal(Seq::filter);
    if n > 0 {
        known_pairs_interact(pairs, keys, n - 1);
        let pair = pairs[n - 1];
        assert(pairs.take(n).drop_last() =~= pairs.take(n - 1));
        assert(pairs.take(n).last() == pair);
        lemma_position(keys, pair.key_a@, keys.len() as int);
        lemma_position(keys, pair.key_b@, keys.len() as int);
        assert(keys.take(keys.len() as int) =~= keys);
        let before = interactions_of(pairs, keys, n - 1);
        let all = interactions_of(pairs, keys, n);
        let known = pairs.take(n).filter(both_known(keys));
        let fewer = pairs.take(n - 1).filter(both_known(keys));
        assert forall|k: int| 0 <= k < all.len() implies interaction_for(
            #[trigger] all[k],
            known[k],
            keys,
        ) by {
            if k < before.len() {
                assert(all[k] == before[k]);
                assert(known[k] == fewer[k]);
            }
        }
    }
}

/// The share of the capacity that is used is what the solver says of its own run, and what was
/// counted where no solver ran. Of no capacity there is no share.
pub proof fn the_solver_tells_the_utilization(
    solver: Option<SolverMetadata>,
    counted: u64,
    capacity: u64,
)
    ensures
        solver matches Some(meta) && meta.capacity_bytes > 0 ==> utilization_of(
            solver,
            counted,
            capacity,
        ) == Some((solver->Some_0.cached_bytes, solver->Some_0.capacity_bytes)),
        solver is None && capacity > 0 ==> utilization_of(solver, counted, capacity) == Some(
            (counted, capacity),
        ),
        utilization_of(solver, counted, capacity) is None <==> (if solver is Some {
            solver->Some_0.capacity_bytes == 0
        } else {
            capacity == 0
        }),
{
}

/// Two sets of metrics agree on what a replay measured.
pub open spec fn same_measurements(a: MetricsSummary, b: MetricsSummary) -> bool {
    &&& a.total_requests == b.total_requests
    &&& a.cache_hits == b.cache_hits
    &&& a.cache_misses == b.cache_misses
    &&& a.hit_ratio == b.hit_ratio
    &&& a.total_bytes_served == b.total_bytes_served
    &&& a.bytes_from_cache == b.bytes_from_cache
    &&& a.byte_hit_ratio == b.byte_hit_ratio
    &&& a.origin_egress_bytes == b.origin_egress_bytes
    &&& a.estimated_cost_savings == b.estimated_cost_savings
    &&& a.policy_objective_value == b.policy_objective_value
    &&& a.stale_serve_count == b.stale_serve_count
    &&& a.stale_serve_rate == b.stale_serve_rate
    &&& a.policy_churn == b.policy_churn
}

/// Diagnostics are added to what a replay measured and change nothing of it. The time and the gap
/// are the solver's.
pub proof fn diagnostics_leave_measurements(
    metrics: MetricsSummary,
    solver: Option<SolverMetadata>,
    utilization: Real,
)
    ensures
        ({
            let r = with_diagnostics(metrics, solver, utilization);
            &&& same_measurements(r, metrics)
            &&& r.capacity_utilization == utilization
            &&& solver is Some ==> r.solve_time_ms == solver->Some_0.solve_time_ms
                && r.optimality_gap == solver->Some_0.optimality_gap
            &&& solver is None ==> r.solve_time_ms == metrics.solve_time_ms && r.optimality_gap
                == metrics.optimality_gap
        }),
{
}

/// Only the row of the greedy policy gets diagnostics, and they change nothing of what was
/// measured. It gets a gap where there is an optimum above the smallest objective that counts.
pub proof fn only_the_greedy_row_is_filled(
    name: Seq<char>,
    metrics: MetricsSummary,
    solve_time_ms: u64,
    utilization: Real,
    optimum: Option<Real>,
    gap: Real,
)
    ensures
        ({
            let r = with_greedy_diagnostics(
                name,
                metrics,
                solve_time_ms,
                utilization,
                optimum,
                gap,
            );
            &&& same_measurements(r, metrics)
            &&& name != "EconomicGreedy"@ ==> r == metrics
            &&& name == "EconomicGreedy"@ ==> r.solve_time_ms == solve_time_ms
                && r.capacity_utilization == utilization
            &&& name == "EconomicGreedy"@ && optimum is Some && larger(
                optimum->Some_0,
                Real { bits: 0x3d71_9799_812d_ea11 },
            ) ==> r.optimality_gap == Some(gap)
            &&& optimum is None || !larger(
                optimum->Some_0,
                Real { bits: 0x3d71_9799_812d_ea11 },
            ) ==> r.optimality_gap == metrics.optimality_gap
        }),
{
}

/// Interning keys keeps every string and its id, and holds every key afterwards.
pub proof fn interned_keys_are_held(list: Seq<Seq<char>>, keys: Seq<Seq<char>>, n: int)
    requires
        is_table(list),
        0 <= n <= keys.len(),
    ensures
        grown(list, interned_keys(list, keys, n)),
        forall|i: int| 0 <= i < n ==> interned_keys(list, keys, n).contains(#[trigger] keys[i]),
    decreases n,
{
    if n > 0 {
        interned_keys_are_held(list, keys, n - 1);
        let before = interned_keys(list, keys, n - 1);
        lemma_interned_grows(before, keys[n - 1]);
        assert forall|i: int| 0 <= i < n implies interned_keys(list, keys, n).contains(
            #[trigger] keys[i],
        ) by {
            if i < n - 1 {
                assert(before.contains(keys[i]));
            }
        }
    }
}

} // verus!
