//! The scores that an admission script carries with it, by normalised cache key.
use vstd::hash_map::StringHashMap;
use vstd::prelude::*;

use crate::intern::interned;
use crate::json::{
    distinct_names, fields_view, lemma_pairs_map_entry, lemma_pairs_map_key, pairs_map,
    FloatNumber, Json, JsonView,
};
use crate::keys::{normal_key, normalize};
use crate::number::{larger, Real};
use crate::policy_ir::CacheKeyRule;
use crate::words::texts;

verus! {

/// A number, and what it is rounded to four decimals, where that is a number too.
pub struct Measured {
    pub exact: FloatNumber,
    pub rounded: Option<FloatNumber>,
}

/// What a [`Measured`] says.
pub struct Weight {
    pub value: Real,
    pub rounded: Option<Real>,
}

/// What a key weighs at least.
pub open spec fn zero_weight() -> Weight {
    Weight { value: Real::spec_zero(), rounded: Some(Real::spec_zero()) }
}

/// The number zero as scripts list it.
pub struct ZeroNumber {
    number: FloatNumber,
}

impl ZeroNumber {
    #[verifier::type_invariant]
    spec fn is_zero(self) -> bool {
        self.number.bits_view() == 0
    }

    /// The number, where it is zero.
    pub fn new(number: FloatNumber) -> (r: Option<ZeroNumber>)
        ensures
            r is Some <==> number.bits_view() == 0,
    {
        if number.bits() == 0 {
            Some(ZeroNumber { number })
        } else {
            None
        }
    }

    fn measured(&self) -> (r: Measured)
        ensures
            measured_view(r) == zero_weight(),
    {
        proof {
            use_type_invariant(self);
        }
        Measured { exact: self.number.copy(), rounded: Some(self.number.copy()) }
    }
}

/// What the optimiser found out about a cache key.
pub struct ScoredKey {
    pub cache_key: String,
    pub size_bytes: u64,
    pub score: Measured,
    /// The score by the size in bytes. Counts only where the size is not zero.
    pub density: Measured,
}

/// What a number and its rounded form say.
pub open spec fn measured_view(m: Measured) -> Weight {
    Weight {
        value: Real { bits: m.exact.bits_view() },
        rounded: match m.rounded {
            Some(r) => Some(Real { bits: r.bits_view() }),
            None => None,
        },
    }
}

/// The number that a script lists for a weight above a threshold: the rounded one, unless it is no
/// longer above the threshold.
pub open spec fn listed(w: Weight, threshold: Real) -> Real {
    match w.rounded {
        Some(r) => if larger(r, threshold) {
            r
        } else {
            w.value
        },
        None => w.value,
    }
}

impl Measured {
    fn value(&self) -> (r: Real)
        ensures
            r == measured_view(*self).value,
    {
        Real { bits: self.exact.bits() }
    }

    fn listed_above(&self, threshold: Real) -> (r: Json)
        ensures
            r@ == JsonView::Float(listed(measured_view(*self), threshold).bits),
    {
        match &self.rounded {
            Some(r) => {
                if (Real { bits: r.bits() }).exceeds(threshold) {
                    Json::Float(r.copy())
                } else {
                    Json::Float(self.exact.copy())
                }
            },
            None => Json::Float(self.exact.copy()),
        }
    }
}

/// What a decision weighs: its density where that is asked for and the size is known, else its
/// score.
pub open spec fn weight(d: ScoredKey, by_density: bool) -> Weight {
    if by_density && d.size_bytes > 0 {
        measured_view(d.density)
    } else {
        measured_view(d.score)
    }
}

/// The weights after a decision of weight `w` on the key `k`: the larger one counts, and none is
/// below zero.
pub open spec fn raised(
    weights: Map<Seq<char>, Weight>,
    k: Seq<char>,
    w: Weight,
) -> Map<Seq<char>, Weight> {
    let so_far = if weights.contains_key(k) {
        weights[k]
    } else {
        zero_weight()
    };
    weights.insert(
        k,
        if larger(w.value, so_far.value) {
            w
        } else {
            so_far
        },
    )
}

/// The weight of each normalised key after the first `n` decisions. None is below zero.
pub open spec fn best_weights(
    decisions: Seq<ScoredKey>,
    n: int,
    rules: Seq<CacheKeyRule>,
    by_density: bool,
) -> Map<Seq<char>, Weight>
    decreases n,
{
    if n <= 0 {
        Map::empty()
    } else {
        raised(
            best_weights(decisions, n - 1, rules, by_density),
            normal_key(decisions[n - 1].cache_key@, rules),
            weight(decisions[n - 1], by_density),
        )
    }
}

/// The normalised keys of the first `n` decisions, each where it comes first.
pub open spec fn key_order(
    decisions: Seq<ScoredKey>,
    n: int,
    rules: Seq<CacheKeyRule>,
) -> Seq<Seq<char>>
    decreases n,
{
    if n <= 0 {
        Seq::empty()
    } else {
        interned(
            key_order(decisions, n - 1, rules),
            normal_key(decisions[n - 1].cache_key@, rules),
        )
    }
}

/// Those of the keys whose weight is above a threshold.
pub open spec fn selected(
    keys: Seq<Seq<char>>,
    weights: Map<Seq<char>, Weight>,
    threshold: Real,
) -> Seq<Seq<char>>
    decreases keys.len(),
{
    if keys.len() == 0 {
        Seq::empty()
    } else {
        let before = selected(keys.drop_last(), weights, threshold);
        let k = keys[keys.len() - 1];
        if weights.contains_key(k) && larger(weights[k].value, threshold) {
            before.push(k)
        } else {
            before
        }
    }
}

/// What a script lists of the weights above a threshold.
pub open spec fn weights_above(
    weights: Map<Seq<char>, Weight>,
    threshold: Real,
) -> Map<Seq<char>, JsonView> {
    Map::new(
        |k: Seq<char>| weights.contains_key(k) && larger(weights[k].value, threshold),
        |k: Seq<char>| JsonView::Float(listed(weights[k], threshold).bits),
    )
}

struct ScoreEntry {
    key: String,
    number: Measured,
}

/// What the entries hold.
spec fn entries_view(entries: Seq<ScoreEntry>) -> Seq<(Seq<char>, Weight)> {
    Seq::new(entries.len(), |i: int| (entries[i].key@, measured_view(entries[i].number)))
}

/// The keys of the entries.
spec fn entry_keys(entries: Seq<ScoreEntry>) -> Seq<Seq<char>> {
    Seq::new(entries.len(), |i: int| entries[i].key@)
}

/// The largest weight of each normalised key.
pub struct ScoreMap {
    entries: Vec<ScoreEntry>,
}

impl View for ScoreMap {
    type V = Map<Seq<char>, Weight>;

    closed spec fn view(&self) -> Map<Seq<char>, Weight> {
        pairs_map(entries_view(self.entries@))
    }
}

/// Replacing the value of a pair replaces the value of its name.
proof fn lemma_pairs_map_update<V>(pairs: Seq<(Seq<char>, V)>, i: int, v: V)
    requires
        distinct_names(pairs),
        0 <= i < pairs.len(),
    ensures
        distinct_names(pairs.update(i, (pairs[i].0, v))),
        pairs_map(pairs.update(i, (pairs[i].0, v))) == pairs_map(pairs).insert(pairs[i].0, v),
    decreases pairs.len(),
{
    let k = pairs[i].0;
    let changed = pairs.update(i, (k, v));
    assert forall|a: int, b: int| 0 <= a < b < changed.len() implies (#[trigger] changed[a]).0 != (
    #[trigger] changed[b]).0 by {
        assert(pairs[a].0 != pairs[b].0);
    }
    let n = pairs.len() - 1;
    let front = pairs.drop_last();
    if i < n {
        assert forall|a: int, b: int| 0 <= a < b < n implies (#[trigger] front[a]).0 != (
        #[trigger] front[b]).0 by {
            assert(pairs[a].0 != pairs[b].0);
        }
        lemma_pairs_map_update(front, i, v);
        assert(changed.drop_last() =~= front.update(i, (k, v)));
        assert(pairs[i].0 != pairs[n].0);
        assert(pairs_map(changed) =~= pairs_map(pairs).insert(k, v));
    } else {
        assert(changed.drop_last() =~= front);
        assert(pairs_map(changed) =~= pairs_map(pairs).insert(k, v));
    }
}

/// The pairs above a threshold.
spec fn pairs_above(pairs: Seq<(Seq<char>, Weight)>, threshold: Real) -> Seq<
    (Seq<char>, JsonView),
>
    decreases pairs.len(),
{
    if pairs.len() == 0 {
        Seq::empty()
    } else {
        let before = pairs_above(pairs.drop_last(), threshold);
        if larger(pairs.last().1.value, threshold) {
            before.push(
                (pairs.last().0, JsonView::Float(listed(pairs.last().1, threshold).bits)),
            )
        } else {
            before
        }
    }
}

proof fn lemma_pairs_above(pairs: Seq<(Seq<char>, Weight)>, threshold: Real)
    requires
        distinct_names(pairs),
    ensures
        pairs_map(pairs_above(pairs, threshold)) == weights_above(pairs_map(pairs), threshold),
    decreases pairs.len(),
{
    if pairs.len() == 0 {
        assert(weights_above(pairs_map(pairs), threshold) =~= Map::<
            Seq<char>,
            JsonView,
        >::empty());
    } else {
        let front = pairs.drop_last();
        let n = pairs.len() - 1;
        assert forall|a: int, b: int| 0 <= a < b < n implies (#[trigger] front[a]).0 != (
        #[trigger] front[b]).0 by {
            assert(pairs[a].0 != pairs[b].0);
        }
        lemma_pairs_above(front, threshold);
        let k = pairs.last().0;
        lemma_pairs_map_key(front, k);
        if pairs_map(front).contains_key(k) {
            let i = choose|i: int| 0 <= i < front.len() && (#[trigger] front[i]).0 == k;
            assert(pairs[i].0 != pairs[n].0);
        }
        if larger(pairs.last().1.value, threshold) {
            let shorter = pairs_above(front, threshold);
            let longer = pairs_above(pairs, threshold);
            assert(longer.drop_last() =~= shorter);
            assert(weights_above(pairs_map(pairs), threshold) =~= weights_above(
                pairs_map(front),
                threshold,
            ).insert(k, JsonView::Float(listed(pairs.last().1, threshold).bits)));
        } else {
            assert(weights_above(pairs_map(pairs), threshold) =~= weights_above(
                pairs_map(front),
                threshold,
            ));
        }
    }
}

/// The index finds the entry of each key.
spec fn finds(index: Map<Seq<char>, usize>, entries: Seq<ScoreEntry>) -> bool {
    &&& forall|k: Seq<char>| #[trigger]
        index.contains_key(k) ==> index[k] < entries.len() && entries[index[k] as int].key@ == k
    &&& forall|i: int|
        0 <= i < entries.len() ==> index.contains_key((#[trigger] entries[i]).key@)
}

impl ScoreMap {
    #[verifier::type_invariant]
    spec fn keys_are_distinct(self) -> bool {
        distinct_names(entries_view(self.entries@))
    }

    /// The keys, each where a decision about it came first.
    pub closed spec fn order(self) -> Seq<Seq<char>> {
        entry_keys(self.entries@)
    }

    /// Collects the largest weight of each normalised key. None is below zero.
    pub fn collect(
        decisions: Vec<ScoredKey>,
        rules: &Vec<CacheKeyRule>,
        by_density: bool,
        zero: &ZeroNumber,
    ) -> (r: ScoreMap)
        ensures
            r@ == best_weights(decisions@, decisions@.len() as int, rules@, by_density),
            r.order() == key_order(decisions@, decisions@.len() as int, rules@),
    {
        let ghost all = decisions@;
        let mut index: StringHashMap<usize> = StringHashMap::new();
        let mut entries: Vec<ScoreEntry> = Vec::new();
        for d in it: decisions.into_iter()
            invariant
                it.seq() == all,
                distinct_names(entries_view(entries@)),
                finds(index@, entries@),
                entry_keys(entries@) == key_order(all, it.index(), rules@),
                pairs_map(entries_view(entries@)) == best_weights(
                    all,
                    it.index(),
                    rules@,
                    by_density,
                ),
        {
            let ghost before = entries_view(entries@);
            let ghost order = entry_keys(entries@);
            let ghost weights = pairs_map(before);
            let ghost w = weight(d, by_density);
            let key = normalize(d.cache_key.as_str(), rules);
            let ghost k = key@;
            let candidate = if by_density && d.size_bytes > 0 {
                d.density
            } else {
                d.score
            };
            proof {
                assert(d == all[it.index()]);
                lemma_pairs_map_key(before, k);
            }
            match index.get(key.as_str()) {
                Some(found) => {
                    let i: usize = *found;
                    proof {
                        assert(before[i as int].0 == k);
                        assert(order[i as int] == k);
                        lemma_pairs_map_entry(before, i as int);
                    }
                    if candidate.value().exceeds(entries[i].number.value()) {
                        proof {
                            lemma_pairs_map_update(before, i as int, w);
                        }
                        entries.set(i, ScoreEntry { key, number: candidate });
                        proof {
                            assert(entries_view(entries@) =~= before.update(i as int, (k, w)));
                            assert(entry_keys(entries@) =~= order);
                        }
                    } else {
                        proof {
                            assert(weights.insert(k, weights[k]) =~= weights);
                        }
                    }
                },
                None => {
                    proof {
                        if order.contains(k) {
                            assert(entries@[order.index_of(k)].key@ == k);
                        }
                        if weights.contains_key(k) {
                            let i = choose|i: int|
                                0 <= i < before.len() && (#[trigger] before[i]).0 == k;
                            assert(entries@[i].key@ == k);
                        }
                    }
                    let number = if candidate.value().exceeds(Real::zero()) {
                        candidate
                    } else {
                        zero.measured()
                    };
                    let ghost added = (k, measured_view(number));
                    let ghost old_entries = entries@;
                    index.insert(key.clone(), entries.len());
                    entries.push(ScoreEntry { key, number });
                    proof {
                        let after = entries_view(entries@);
                        assert(after =~= before.push(added));
                        assert(entry_keys(entries@) =~= order.push(k));
                        assert(after.drop_last() =~= before);
                        assert forall|a: int, b: int| 0 <= a < b < after.len() implies (
                        #[trigger] after[a]).0 != (#[trigger] after[b]).0 by {
                            if b < before.len() {
                                assert(before[a].0 != before[b].0);
                            } else {
                                assert(before[a].0 != k);
                            }
                        }
                        assert forall|i: int| 0 <= i < entries@.len() implies index@.contains_key(
                            (#[trigger] entries@[i]).key@,
                        ) by {
                            if i < old_entries.len() {
                                assert(entries@[i] == old_entries[i]);
                            }
                        }
                    }
                },
            }
        }
        ScoreMap { entries }
    }

    /// The keys whose weight is above a threshold.
    pub fn keys_above(&self, threshold: Real) -> (r: Vec<String>)
        ensures
            texts(r@) == selected(self.order(), self@, threshold),
    {
        let ghost pairs = entries_view(self.entries@);
        let ghost order = entry_keys(self.entries@);
        let mut keys: Vec<String> = Vec::new();
        let mut i: usize = 0;
        proof {
            use_type_invariant(self);
            assert(texts(keys@) =~= selected(order.take(0), self@, threshold));
        }
        while i < self.entries.len()
            invariant
                i <= self.entries@.len(),
                pairs == entries_view(self.entries@),
                order == entry_keys(self.entries@),
                distinct_names(pairs),
                texts(keys@) == selected(order.take(i as int), self@, threshold),
            decreases self.entries@.len() - i,
        {
            let ghost before = texts(keys@);
            let e = &self.entries[i];
            proof {
                assert(order.take(i + 1).drop_last() =~= order.take(i as int));
                assert(order.take(i + 1)[i as int] == pairs[i as int].0);
                lemma_pairs_map_entry(pairs, i as int);
            }
            if e.number.value().exceeds(threshold) {
                keys.push(e.key.clone());
                assert(texts(keys@) =~= before.push(e.key@));
            }
            i = i + 1;
        }
        assert(order.take(order.len() as int) =~= order);
        keys
    }

    /// What a script lists of the weights above a threshold, as an object. Every number in it is
    /// above the threshold.
    pub fn above(&self, threshold: Real) -> (r: Json)
        ensures
            r@ == JsonView::Object(weights_above(self@, threshold)),
            forall|k: Seq<char>| #[trigger]
                r@->Object_0.contains_key(k) ==> r@->Object_0[k] is Float && larger(
                    Real { bits: r@->Object_0[k]->Float_0 },
                    threshold,
                ),
    {
        let ghost pairs = entries_view(self.entries@);
        let mut fields: Vec<(String, Json)> = Vec::new();
        let mut i: usize = 0;
        assert(fields_view(fields@) =~= pairs_above(pairs.take(0), threshold));
        while i < self.entries.len()
            invariant
                i <= self.entries@.len(),
                pairs == entries_view(self.entries@),
                fields_view(fields@) == pairs_above(pairs.take(i as int), threshold),
            decreases self.entries@.len() - i,
        {
            let ghost before = fields_view(fields@);
            let e = &self.entries[i];
            proof {
                assert(pairs.take(i + 1).drop_last() =~= pairs.take(i as int));
                assert(pairs.take(i + 1).last() == pairs[i as int]);
            }
            if e.number.value().exceeds(threshold) {
                let number = e.number.listed_above(threshold);
                let ghost shown = number@;
                fields.push((e.key.clone(), number));
                assert(fields_view(fields@) =~= before.push((e.key@, shown)));
            }
            i = i + 1;
        }
        proof {
            use_type_invariant(self);
            assert(pairs.take(pairs.len() as int) =~= pairs);
            lemma_pairs_above(pairs, threshold);
        }
        Json::Object(fields)
    }
}

/// Decision `i` is about the key `k`.
pub open spec fn about(
    decisions: Seq<ScoredKey>,
    i: int,
    rules: Seq<CacheKeyRule>,
    k: Seq<char>,
) -> bool {
    normal_key(decisions[i].cache_key@, rules) == k
}

/// Exactly the keys that some decision is about have a weight. It is no smaller than zero and than
/// the weight of any decision about the key, and it is zero or the weight of one of them.
pub proof fn weights_are_maxima(
    decisions: Seq<ScoredKey>,
    n: int,
    rules: Seq<CacheKeyRule>,
    by_density: bool,
    k: Seq<char>,
)
    requires
        0 <= n <= decisions.len(),
    ensures
        ({
            let weights = best_weights(decisions, n, rules, by_density);
            &&& weights.contains_key(k) <==> exists|i: int|
                0 <= i < n && about(decisions, i, rules, k)
            &&& weights.contains_key(k) ==> {
                &&& !larger(Real::spec_zero(), weights[k].value)
                &&& forall|i: int|
                    0 <= i < n && #[trigger] about(decisions, i, rules, k) ==> !larger(
                        weight(decisions[i], by_density).value,
                        weights[k].value,
                    )
                &&& weights[k] == zero_weight() || exists|i: int|
                    0 <= i < n && #[trigger] about(decisions, i, rules, k) && weight(
                        decisions[i],
                        by_density,
                    ) == weights[k]
            }
        }),
    decreases n,
{
    if n > 0 {
        weights_are_maxima(decisions, n - 1, rules, by_density, k);
        let before = best_weights(decisions, n - 1, rules, by_density);
        let after = best_weights(decisions, n, rules, by_density);
        if about(decisions, n - 1, rules, k) {
            assert(after.contains_key(k));
        } else {
            assert(after.contains_key(k) == before.contains_key(k));
            assert(before.contains_key(k) ==> after[k] == before[k]);
        }
    }
}

/// Exactly the keys whose weight is above the threshold are listed, and the number that is listed
/// for one is above the threshold as well, so that comparing it with the threshold admits the key.
/// Where the threshold is not below zero, no number that is listed is zero.
pub proof fn listed_scores_exceed_the_threshold(
    weights: Map<Seq<char>, Weight>,
    threshold: Real,
    k: Seq<char>,
)
    ensures
        weights_above(weights, threshold).contains_key(k) <==> weights.contains_key(k) && larger(
            weights[k].value,
            threshold,
        ),
        weights_above(weights, threshold).contains_key(k) ==> {
            &&& weights_above(weights, threshold)[k] is Float
            &&& larger(
                Real { bits: weights_above(weights, threshold)[k]->Float_0 },
                threshold,
            )
            &&& !larger(Real::spec_zero(), threshold) ==> larger(
                Real { bits: weights_above(weights, threshold)[k]->Float_0 },
                Real::spec_zero(),
            )
        },
{
}

/// A policy that goes by density weighs a key by its score per byte, where its object has bytes.
/// Any other key is weighed by its score.
pub proof fn keys_are_weighed_by_score_or_density(d: ScoredKey, by_density: bool)
    ensures
        by_density && d.size_bytes != 0 ==> weight(d, by_density).value.bits
            == d.density.exact.bits_view(),
        !by_density || d.size_bytes == 0 ==> weight(d, by_density).value.bits
            == d.score.exact.bits_view(),
        by_density && d.size_bytes != 0 ==> (weight(d, by_density).rounded is Some
            <==> d.density.rounded is Some),
        by_density && d.size_bytes != 0 && d.density.rounded is Some ==> weight(
            d,
            by_density,
        ).rounded->Some_0.bits == d.density.rounded->Some_0.bits_view(),
        !by_density || d.size_bytes == 0 ==> (weight(d, by_density).rounded is Some
            <==> d.score.rounded is Some),
        (!by_density || d.size_bytes == 0) && d.score.rounded is Some ==> weight(
            d,
            by_density,
        ).rounded->Some_0.bits == d.score.rounded->Some_0.bits_view(),
{
}

/// A score is shown rounded, unless rounding takes it down to the threshold: then it is shown as it
/// is, so that it stays above.
pub proof fn scores_are_shown_rounded(
    weights: Map<Seq<char>, Weight>,
    threshold: Real,
    k: Seq<char>,
)
    requires
        weights.contains_key(k),
        larger(weights[k].value, threshold),
    ensures
        weights[k].rounded is Some && larger(weights[k].rounded->Some_0, threshold)
            ==> weights_above(weights, threshold)[k] == JsonView::Float(
            weights[k].rounded->Some_0.bits,
        ),
        weights[k].rounded is None || !larger(
            weights[k].rounded->Some_0,
            threshold,
        ) ==> weights_above(
            weights,
            threshold,
        )[k] == JsonView::Float(weights[k].value.bits),
{
}

/// The keys of a policy's scores are listed once each, and they are the keys that have a weight.
pub proof fn every_weighed_key_is_listed_once(
    decisions: Seq<ScoredKey>,
    n: int,
    rules: Seq<CacheKeyRule>,
    by_density: bool,
    k: Seq<char>,
)
    requires
        0 <= n <= decisions.len(),
    ensures
        key_order(decisions, n, rules).no_duplicates(),
        key_order(decisions, n, rules).contains(k) <==> best_weights(
            decisions,
            n,
            rules,
            by_density,
        ).contains_key(k),
        key_order(decisions, n, rules).contains(k) <==> exists|i: int|
            0 <= i < n && #[trigger] about(decisions, i, rules, k),
    decreases n,
{
    if n > 0 {
        every_weighed_key_is_listed_once(decisions, n - 1, rules, by_density, k);
        let before = key_order(decisions, n - 1, rules);
        let last = normal_key(decisions[n - 1].cache_key@, rules);
        every_weighed_key_is_listed_once(decisions, n - 1, rules, by_density, last);
        let all = key_order(decisions, n, rules);
        if !before.contains(last) {
            assert(all == before.push(last));
            assert(all[before.len() as int] == last);
            if before.contains(k) {
                let i = choose|i: int| 0 <= i < before.len() && before[i] == k;
                assert(all[i] == k);
            }
            if all.contains(k) && k != last {
                let i = choose|i: int| 0 <= i < all.len() && all[i] == k;
                assert(before[i] == k);
            }
            assert forall|i: int, j: int|
                0 <= i < all.len() && 0 <= j < all.len() && i != j implies all[i] != all[j] by {
                if i < before.len() && j < before.len() {
                    assert(before[i] != before[j]);
                } else if i < before.len() {
                    assert(before.contains(before[i]));
                } else {
                    assert(before.contains(before[j]));
                }
            }
        }
        weights_are_maxima(decisions, n, rules, by_density, k);
        if k == last {
            assert(about(decisions, n - 1, rules, k));
        }
        if exists|i: int| 0 <= i < n - 1 && #[trigger] about(decisions, i, rules, k) {
            let i = choose|i: int| 0 <= i < n - 1 && #[trigger] about(decisions, i, rules, k);
            assert(about(decisions, i, rules, k));
        }
    }
}

/// A key that is worth nothing weighs zero, rounded or not.
pub proof fn worthless_keys_weigh_zero()
    ensures
        zero_weight().value.bits == 0,
        zero_weight().rounded matches Some(r) && r.bits == 0,
{
}

} // verus!
