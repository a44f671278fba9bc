//! The learning layer over config-driven routing: the models of a route are
//! reordered by their ranking scores, under-sampled models keep their
//! configured order after the well-sampled ones, and an exploration pick can
//! move an under-sampled model to the front.

use vstd::prelude::*;
use crate::engine::router::{spec_render_model_id, ModelId, ModelSpec};
use crate::text::str_eq;

verus! {

/// A model of a route and, when it has enough ratings to take part in
/// ranking, the order key of its score (a larger key is a better score).
#[derive(Debug)]
pub struct RankedModel {
    pub model: ModelId,
    pub score_key: Option<u64>,
}

/// Whether the model at position `i` of a route comes before the one at
/// position `j` once ranked: scored models before unscored ones, scored
/// ones by key, larger first, and otherwise in their configured order.
pub open spec fn ranks_before(items: Seq<RankedModel>, i: int, j: int) -> bool {
    match (items[i].score_key, items[j].score_key) {
        (Some(a), Some(b)) => a > b || (a == b && i < j),
        (Some(_), None) => true,
        (None, Some(_)) => false,
        (None, None) => i < j,
    }
}

/// `order` lists each position of `items` once, in ranked order.
pub open spec fn is_ranked_order(items: Seq<RankedModel>, order: Seq<usize>) -> bool {
    &&& order.len() == items.len()
    &&& order.no_duplicates()
    &&& forall|p: int| 0 <= p < order.len() ==> (order[p] as int) < items.len()
    &&& forall|p: int, q: int|
        0 <= p < q < order.len() ==> ranks_before(items, order[p] as int, order[q] as int)
}

proof fn lemma_ranks_before_total(items: Seq<RankedModel>, i: int, j: int)
    requires
        i != j,
    ensures
        ranks_before(items, i, j) || ranks_before(items, j, i),
        !(ranks_before(items, i, j) && ranks_before(items, j, i)),
{
}

proof fn lemma_ranks_before_transitive(items: Seq<RankedModel>, i: int, j: int, k: int)
    requires
        ranks_before(items, i, j),
        ranks_before(items, j, k),
    ensures
        ranks_before(items, i, k),
{
}

fn ranks_before_exec(items: &Vec<RankedModel>, i: usize, j: usize) -> (res: bool)
    requires
        i < items.len(),
        j < items.len(),
    ensures
        res == ranks_before(items@, i as int, j as int),
{
    match (items[i].score_key, items[j].score_key) {
        (Some(a), Some(b)) => a > b || (a == b && i < j),
        (Some(_), None) => true,
        (None, Some(_)) => false,
        (None, None) => i < j,
    }
}

/// The positions of `items` in ranked order: scored models by score,
/// best first, ties in configured order; then the unscored models in
/// configured order.
pub fn ranked_order(items: &Vec<RankedModel>) -> (order: Vec<usize>)
    ensures
        is_ranked_order(items@, order@),
        forall|p: int, q: int|
            0 <= p < order@.len() && 0 <= q < order@.len() && (items@[#[trigger] order@[p] as int].score_key
                matches Some(a) && items@[#[trigger] order@[q] as int].score_key matches Some(b)
                && a > b) ==> p < q,
{
    let n = items.len();
    let mut order: Vec<usize> = Vec::new();
    let mut j: usize = 0;
    while j < n
        invariant
            n == items.len(),
            j <= n,
            order.len() == j,
            order@.no_duplicates(),
            forall|x: usize| (x < j) <==> order@.contains(x),
            forall|p: int| 0 <= p < order.len() ==> (order@[p] as int) < j,
            forall|p: int, q: int|
                0 <= p < q < order.len() ==> ranks_before(items@, order@[p] as int, order@[q] as int),
        decreases n - j,
    {
        let mut pos: usize = 0;
        while pos < order.len() && !ranks_before_exec(items, j, order[pos])
            invariant
                n == items.len(),
                j < n,
                pos <= order.len(),
                forall|p: int| 0 <= p < order.len() ==> (order@[p] as int) < j,
                forall|p: int| 0 <= p < pos ==> !ranks_before(items@, j as int, order@[p] as int),
            decreases order.len() - pos,
        {
            pos += 1;
        }
        let ghost before = order@;
        proof {
            assert forall|p: int| 0 <= p < pos implies ranks_before(
                items@,
                before[p] as int,
                j as int,
            ) by {
                lemma_ranks_before_total(items@, before[p] as int, j as int);
            }
            if pos < before.len() {
                assert forall|q: int| pos <= q < before.len() implies ranks_before(
                    items@,
                    j as int,
                    before[q] as int,
                ) by {
                    if q > pos {
                        lemma_ranks_before_transitive(
                            items@,
                            j as int,
                            before[pos as int] as int,
                            before[q] as int,
                        );
                    }
                }
            }
        }
        order.insert(pos, j);
        proof {
            assert(order@ =~= before.insert(pos as int, j));
            assert forall|x: usize| (x < j + 1) <==> order@.contains(x) by {
                if x < j {
                    if before.contains(x) {
                        let k = choose|k: int| 0 <= k < before.len() && before[k] == x;
                        if k < pos {
                            assert(order@[k] == x);
                        } else {
                            assert(order@[k + 1] == x);
                        }
                    }
                } else if x == j {
                    assert(order@[pos as int] == x);
                }
                if order@.contains(x) {
                    let k = choose|k: int| 0 <= k < order@.len() && order@[k] == x;
                    if k < pos {
                        assert(before[k] == x);
                    } else if k > pos {
                        assert(before[k - 1] == x);
                    }
                }
            }
            assert forall|p: int, q: int| 0 <= p < q < order@.len() implies order@[p] != order@[q] by {
                if p < pos && q < pos {
                } else if p < pos && q == pos {
                } else if p < pos {
                    assert(order@[q] == before[q - 1]);
                } else if p == pos {
                    assert(order@[q] == before[q - 1]);
                } else {
                    assert(order@[p] == before[p - 1]);
                    assert(order@[q] == before[q - 1]);
                }
            }
            assert forall|p: int, q: int| 0 <= p < q < order@.len() implies ranks_before(
                items@,
                order@[p] as int,
                order@[q] as int,
            ) by {
                if q < pos {
                } else if q == pos {
                } else if p < pos {
                    assert(order@[q] == before[q - 1]);
                } else if p == pos {
                    assert(order@[q] == before[q - 1]);
                } else {
                    assert(order@[p] == before[p - 1]);
                    assert(order@[q] == before[q - 1]);
                }
            }
        }
        j += 1;
    }
    proof {
        law_ranked_order_follows_scores(items@, order@);
    }
    order
}

/// The models of a route, reordered by ranking (see `ranked_order`).
pub fn reorder_by_score(items: &Vec<RankedModel>) -> (res: Vec<ModelId>)
    ensures
        exists|order: Seq<usize>|
            is_ranked_order(items@, order) && res@.len() == order.len() && forall|p: int|
                0 <= p < order.len() ==> #[trigger] res@[p] == items@[order[p] as int].model,
{
    let order = ranked_order(items);
    let mut res: Vec<ModelId> = Vec::new();
    let mut p: usize = 0;
    while p < order.len()
        invariant
            is_ranked_order(items@, order@),
            p <= order.len(),
            res@.len() == p,
            forall|k: int| 0 <= k < p ==> #[trigger] res@[k] == items@[order@[k] as int].model,
        decreases order.len() - p,
    {
        res.push(items[order[p]].model.clone());
        p += 1;
    }
    res
}

proof fn lemma_increasing_from_below(order: Seq<usize>, p: int)
    requires
        0 <= p < order.len(),
        forall|a: int, b: int| 0 <= a < b < order.len() ==> order[a] < order[b],
    ensures
        order[p] >= p,
    decreases p,
{
    if p > 0 {
        lemma_increasing_from_below(order, p - 1);
    }
}

proof fn lemma_increasing_from_above(order: Seq<usize>, n: int, p: int)
    requires
        0 <= p < order.len(),
        order.len() == n,
        forall|a: int| 0 <= a < order.len() ==> (order[a] as int) < n,
        forall|a: int, b: int| 0 <= a < b < order.len() ==> order[a] < order[b],
    ensures
        order[p] <= p,
    decreases n - p,
{
    if p + 1 < n {
        lemma_increasing_from_above(order, n, p + 1);
    }
}

/// While no model of a route has enough ratings to be ranked, ranking
/// keeps the configured order.
pub proof fn law_cold_start_keeps_order(items: Seq<RankedModel>, order: Seq<usize>)
    requires
        forall|i: int| 0 <= i < items.len() ==> (#[trigger] items[i]).score_key is None,
        is_ranked_order(items, order),
    ensures
        forall|p: int| 0 <= p < order.len() ==> order[p] == p,
{
    assert forall|a: int, b: int| 0 <= a < b < order.len() implies order[a] < order[b] by {
        assert(ranks_before(items, order[a] as int, order[b] as int));
        assert(items[order[a] as int].score_key is None);
        assert(items[order[b] as int].score_key is None);
    }
    assert forall|p: int| 0 <= p < order.len() implies order[p] == p by {
        lemma_increasing_from_below(order, p);
        lemma_increasing_from_above(order, items.len() as int, p);
    }
}

/// A ranked order follows the scores: a model with a larger score key comes
/// first; a scored model comes before an unscored one; models with equal
/// keys, and unscored models, keep their configured order.
pub proof fn law_ranked_order_follows_scores(items: Seq<RankedModel>, order: Seq<usize>)
    requires
        is_ranked_order(items, order),
    ensures
        forall|p: int, q: int|
            0 <= p < order.len() && 0 <= q < order.len() ==> {
                &&& (items[#[trigger] order[p] as int].score_key matches Some(a)
                    && items[#[trigger] order[q] as int].score_key matches Some(b) && a > b) ==> p < q
                &&& (items[order[p] as int].score_key is Some && items[order[q] as int].score_key
                    is None) ==> p < q
                &&& (items[order[p] as int].score_key == items[order[q] as int].score_key
                    && order[p] < order[q]) ==> p < q
            },
{
    assert forall|p: int, q: int| 0 <= p < order.len() && 0 <= q < order.len() implies {
        &&& (items[#[trigger] order[p] as int].score_key matches Some(a)
            && items[#[trigger] order[q] as int].score_key matches Some(b) && a > b) ==> p < q
        &&& (items[order[p] as int].score_key is Some && items[order[q] as int].score_key
            is None) ==> p < q
        &&& (items[order[p] as int].score_key == items[order[q] as int].score_key
            && order[p] < order[q]) ==> p < q
    } by {
        if q < p {
            assert(ranks_before(items, order[q] as int, order[p] as int));
        }
    }
}

/// How many ratings a model has, by its "provider/model" name.
#[derive(Debug)]
pub struct SampleCount {
    pub model_id: String,
    pub sample_count: u32,
}

/// Whether the first entry for `model` counts at least `min_samples`
/// ratings.
pub open spec fn spec_well_sampled(model: ModelId, counts: Seq<SampleCount>, min_samples: u32) -> bool {
    exists|i: int|
        0 <= i < counts.len() && counts[i].model_id@ == spec_render_model_id(model@) && counts[i].sample_count
            >= min_samples && forall|j: int|
            0 <= j < i ==> counts[j].model_id@ != spec_render_model_id(model@)
}

/// Whether a model has enough ratings to take part in ranking.
pub fn is_well_sampled(model: &ModelId, counts: &Vec<SampleCount>, min_samples: u32) -> (res: bool)
    ensures
        res == spec_well_sampled(*model, counts@, min_samples),
{
    let name = model.as_str();
    let mut i: usize = 0;
    while i < counts.len()
        invariant
            i <= counts.len(),
            name@ == spec_render_model_id(model@),
            forall|j: int| 0 <= j < i ==> counts@[j].model_id@ != spec_render_model_id(model@),
        decreases counts.len() - i,
    {
        if str_eq(counts[i].model_id.as_str(), name.as_str()) {
            let ok = counts[i].sample_count >= min_samples;
            proof {
                if !ok {
                    assert forall|k: int|
                        0 <= k < counts@.len() && counts@[k].model_id@ == spec_render_model_id(model@)
                            && counts@[k].sample_count >= min_samples implies exists|j: int|
                        0 <= j < k && counts@[j].model_id@ == spec_render_model_id(model@) by {
                        assert(k != i);
                        if k < i {
                        } else {
                            assert(0 <= i < k && counts@[i as int].model_id@ == spec_render_model_id(model@));
                        }
                    }
                }
            }
            return ok;
        }
        i += 1;
    }
    false
}

/// The models not well sampled, in order: the candidates for exploration.
pub fn under_sampled(models: &Vec<ModelId>, well_sampled: &Vec<bool>) -> (res: Vec<ModelId>)
    requires
        models.len() == well_sampled.len(),
    ensures
        res@ == under_sampled_of(models@, well_sampled@),
{
    let mut res: Vec<ModelId> = Vec::new();
    let mut i: usize = 0;
    while i < models.len()
        invariant
            models.len() == well_sampled.len(),
            i <= models.len(),
            res@ == under_sampled_of(models@.take(i as int), well_sampled@.take(i as int)),
        decreases models.len() - i,
    {
        assert(models@.take(i + 1).drop_last() =~= models@.take(i as int));
        assert(well_sampled@.take(i + 1).drop_last() =~= well_sampled@.take(i as int));
        if !well_sampled[i] {
            res.push(models[i].clone());
        }
        i += 1;
    }
    assert(models@.take(models.len() as int) =~= models@);
    assert(well_sampled@.take(models.len() as int) =~= well_sampled@);
    res
}

/// The models whose flag says they are not well sampled.
pub open spec fn under_sampled_of(models: Seq<ModelId>, well: Seq<bool>) -> Seq<ModelId>
    decreases models.len(),
{
    if models.len() == 0 || well.len() == 0 {
        Seq::empty()
    } else {
        let prev = under_sampled_of(models.drop_last(), well.drop_last());
        if well.last() {
            prev
        } else {
            prev.push(models.last())
        }
    }
}

/// `models` without any copy of `m`.
pub open spec fn without_model(models: Seq<ModelId>, m: ModelId) -> Seq<ModelId>
    decreases models.len(),
{
    if models.len() == 0 {
        Seq::empty()
    } else {
        let prev = without_model(models.drop_last(), m);
        if models.last()@ == m@ {
            prev
        } else {
            prev.push(models.last())
        }
    }
}

/// The identifiers of a list of models, as text.
pub open spec fn model_views(ms: Seq<ModelId>) -> Seq<(Seq<char>, Seq<char>)> {
    ms.map_values(|m: ModelId| m@)
}

proof fn lemma_without_absent(ms: Seq<ModelId>, m: ModelId)
    requires
        forall|j: int| 0 <= j < ms.len() ==> (#[trigger] ms[j])@ != m@,
    ensures
        without_model(ms, m) == ms,
    decreases ms.len(),
{
    if ms.len() > 0 {
        lemma_without_absent(ms.drop_last(), m);
        assert(ms.last() == ms[ms.len() - 1]);
        assert(ms.drop_last().push(ms.last()) =~= ms);
    }
}

/// With no model listed twice, taking the explored model (at position `i`)
/// out of the reordered models leaves the others in their order; so the
/// route that ranking makes with an exploration pick lists the same models
/// as the reordered ones, the pick first.
pub proof fn law_explored_route_keeps_the_models(reordered: Seq<ModelId>, m: ModelId, i: int)
    requires
        model_views(reordered).no_duplicates(),
        0 <= i < reordered.len(),
        reordered[i]@ == m@,
    ensures
        model_views(without_model(reordered, m)) == model_views(reordered).remove(i),
        (seq![m@] + model_views(without_model(reordered, m))).to_multiset() == model_views(
            reordered,
        ).to_multiset(),
    decreases reordered.len(),
{
    let v = model_views(reordered);
    let r = reordered.drop_last();
    let n = reordered.len() - 1;
    assert(model_views(r) =~= v.drop_last());
    assert(v.drop_last().no_duplicates());
    if i == n {
        assert forall|j: int| 0 <= j < r.len() implies (#[trigger] r[j])@ != m@ by {
            assert(v[j] == r[j]@);
            assert(v[n] == m@);
        }
        lemma_without_absent(r, m);
        assert(reordered.last()@ == m@);
        assert(v.remove(i) =~= v.drop_last());
    } else {
        assert(v[i] == m@ && v[n] == reordered.last()@);
        assert(reordered.last()@ != m@);
        law_explored_route_keeps_the_models(r, m, i);
        assert(model_views(without_model(reordered, m)) =~= model_views(without_model(r, m)).push(
            reordered.last()@,
        ));
        assert(v.remove(i) =~= v.drop_last().remove(i).push(v[n]));
    }
    broadcast use vstd::seq_lib::group_to_multiset_ensures;
    assert(seq![m@] + v.remove(i) =~= v.remove(i).insert(0, m@));
    assert(v.remove(i).insert(0, m@).to_multiset() =~= v.remove(i).to_multiset().insert(m@));
    assert(v.remove(i).to_multiset() =~= v.to_multiset().remove(v[i]));
    assert(v.to_multiset().count(m@) > 0) by {
        assert(v.contains(v[i]));
    }
}

/// The route that ranking makes of a config-driven route: with an
/// exploration pick, the picked model first and the reordered models
/// without it after; otherwise the reordered models in order. The spending
/// limit is kept. An empty reordering leaves the route as it is.
pub fn apply_ranking(spec: ModelSpec, reordered: Vec<ModelId>, explored: Option<ModelId>) -> (res:
    ModelSpec)
    ensures
        ranking_applied(spec, reordered@, explored, res),
        reordered@.len() > 0 && model_views(reordered@).no_duplicates() && (explored matches Some(m)
            ==> model_views(reordered@).contains(m@)) ==> model_views(route_models(res)).to_multiset()
            == model_views(reordered@).to_multiset(),
{
    let ghost models = reordered@;
    let ghost pick = explored;
    let res = apply_ranking_to(spec, reordered, explored);
    proof {
        if models.len() > 0 && model_views(models).no_duplicates() {
            match pick {
                Some(m) => {
                    if model_views(models).contains(m@) {
                        let i = choose|i: int| 0 <= i < models.len() && model_views(models)[i] == m@;
                        law_explored_route_keeps_the_models(models, m, i);
                        assert(model_views(route_models(res)) =~= seq![m@] + model_views(
                            without_model(models, m),
                        ));
                    }
                },
                None => {
                    assert(route_models(res) =~= models);
                },
            }
        }
    }
    res
}

/// Whether `res` is the route that ranking makes of `spec` from the
/// reordered models and the exploration pick: with a pick, the picked model
/// first and the reordered models without it after; otherwise the
/// reordered models in order; the spending limit kept; and `spec` itself
/// when there are no reordered models.
pub open spec fn ranking_applied(
    spec: ModelSpec,
    reordered: Seq<ModelId>,
    explored: Option<ModelId>,
    res: ModelSpec,
) -> bool {
    &&& res.budget_limit == spec.budget_limit
    &&& reordered.len() == 0 ==> res == spec
    &&& reordered.len() > 0 ==> match explored {
        Some(m) => res.model_id == m && res.fallback_chain@ == without_model(reordered, m),
        None => res.model_id == reordered[0] && res.fallback_chain@ == reordered.skip(1),
    }
}

/// Ranking a route whose models are listed once each, with its models
/// reordered (as `ranked_models` gives them) and an exploration pick among
/// them, keeps the spending limit and lists the same models, once each.
pub proof fn law_ranked_route_keeps_the_models(
    spec: ModelSpec,
    reordered: Seq<ModelId>,
    explored: Option<ModelId>,
    res: ModelSpec,
)
    requires
        model_views(route_models(spec)).no_duplicates(),
        model_views(reordered).to_multiset() == model_views(route_models(spec)).to_multiset(),
        explored matches Some(m) ==> model_views(reordered).contains(m@),
        ranking_applied(spec, reordered, explored, res),
    ensures
        res.budget_limit == spec.budget_limit,
        model_views(route_models(res)).to_multiset() == model_views(route_models(spec)).to_multiset(),
        model_views(route_models(res)).no_duplicates(),
{
    broadcast use vstd::seq_lib::group_to_multiset_ensures;

    let r = model_views(reordered);
    let sm = model_views(route_models(spec));
    assert(r.len() == sm.len()) by {
        assert(r.to_multiset().len() == r.len());
        assert(sm.to_multiset().len() == sm.len());
    }
    sm.lemma_multiset_has_no_duplicates();
    r.lemma_multiset_has_no_duplicates_conv();
    match explored {
        Some(m) => {
            let i = choose|i: int| 0 <= i < reordered.len() && r[i] == m@;
            law_explored_route_keeps_the_models(reordered, m, i);
            assert(model_views(route_models(res)) =~= seq![m@] + model_views(
                without_model(reordered, m),
            ));
        },
        None => {
            assert(route_models(res) =~= reordered);
        },
    }
    let out = model_views(route_models(res));
    assert forall|x: (Seq<char>, Seq<char>)| out.to_multiset().contains(x) implies out.to_multiset().count(x) == 1 by {
        assert(sm.to_multiset().contains(x));
    }
    out.lemma_multiset_has_no_duplicates_conv();
}

fn apply_ranking_to(spec: ModelSpec, reordered: Vec<ModelId>, explored: Option<ModelId>) -> (res:
    ModelSpec)
    ensures
        ranking_applied(spec, reordered@, explored, res),
{
    if reordered.len() == 0 {
        return spec;
    }
    match explored {
        Some(m) => {
            let mut rest: Vec<ModelId> = Vec::new();
            let mut i: usize = 0;
            while i < reordered.len()
                invariant
                    i <= reordered.len(),
                    rest@ == without_model(reordered@.take(i as int), m),
                decreases reordered.len() - i,
            {
                assert(reordered@.take(i + 1).drop_last() =~= reordered@.take(i as int));
                if !(reordered[i] == m) {
                    rest.push(reordered[i].clone());
                }
                i += 1;
            }
            assert(reordered@.take(reordered.len() as int) =~= reordered@);
            ModelSpec { model_id: m, fallback_chain: rest, budget_limit: spec.budget_limit }
        },
        None => {
            let mut rest: Vec<ModelId> = Vec::new();
            let mut i: usize = 1;
            while i < reordered.len()
                invariant
                    1 <= i <= reordered.len(),
                    rest@ == reordered@.subrange(1, i as int),
                decreases reordered.len() - i,
            {
                rest.push(reordered[i].clone());
                assert(rest@ =~= reordered@.subrange(1, i + 1));
                i += 1;
            }
            let first = reordered[0].clone();
            ModelSpec { model_id: first, fallback_chain: rest, budget_limit: spec.budget_limit }
        },
    }
}

/// The models of a route: the chosen one, then its fallbacks.
pub open spec fn route_models(spec: ModelSpec) -> Seq<ModelId> {
    seq![spec.model_id] + spec.fallback_chain@
}

/// Whether `items` are the models of `spec`'s route, in order, each with
/// the score key at its position in `keys` (none past the end of `keys`).
pub open spec fn are_route_items(spec: ModelSpec, keys: Seq<Option<u64>>, items: Seq<RankedModel>) -> bool {
    &&& items.len() == route_models(spec).len()
    &&& forall|i: int|
        0 <= i < items.len() ==> {
            &&& (#[trigger] items[i]).model == route_models(spec)[i]
            &&& items[i].score_key == if i < keys.len() {
                keys[i]
            } else {
                None
            }
        }
}

/// A sequence laid out in the order of a permutation `order` of its
/// positions has the same elements, as many times each.
proof fn lemma_permuted_multiset<A>(s: Seq<A>, order: Seq<usize>, t: Seq<A>)
    requires
        order.len() == s.len(),
        t.len() == s.len(),
        order.no_duplicates(),
        forall|p: int| 0 <= p < order.len() ==> (order[p] as int) < s.len(),
        forall|p: int| 0 <= p < t.len() ==> #[trigger] t[p] == s[order[p] as int],
    ensures
        t.to_multiset() == s.to_multiset(),
    decreases s.len(),
{
    broadcast use vstd::seq_lib::group_to_multiset_ensures;

    if s.len() == 0 {
        assert(t =~= s);
    } else {
        let n = s.len() - 1;
        let k = order[n] as int;
        let order2 = Seq::new(
            n as nat,
            |p: int|
                if order[p] as int > k {
                    (order[p] - 1) as usize
                } else {
                    order[p]
                },
        );
        let s2 = s.remove(k);
        let t2 = t.drop_last();
        assert forall|p: int| 0 <= p < n implies order[p] as int != k by {
            assert(order[p] != order[n]);
        }
        assert forall|p: int, q: int| 0 <= p < order2.len() && 0 <= q < order2.len() && p != q
            implies order2[p] != order2[q] by {
            assert(order[p] != order[q]);
            assert(order[p] as int != k && order[q] as int != k);
        }
        assert forall|p: int| 0 <= p < t2.len() implies #[trigger] t2[p] == s2[order2[p] as int] by {
            assert(t[p] == s[order[p] as int]);
            assert(order[p] as int != k);
        }
        lemma_permuted_multiset(s2, order2, t2);
        assert(t2.push(t[n]) =~= t);
        assert(t[n] == s[k]);
    }
}

/// The models of a route reordered by ranking, each with the score key at
/// its position in `score_keys` (see `reorder_by_score`): the same models
/// as the route's, as many times each, and none twice where the route has
/// none twice.
pub fn ranked_models(spec: &ModelSpec, score_keys: &Vec<Option<u64>>) -> (res: Vec<ModelId>)
    ensures
        exists|items: Seq<RankedModel>, order: Seq<usize>|
            are_route_items(*spec, score_keys@, items) && is_ranked_order(items, order)
                && res@.len() == order.len() && forall|p: int|
                0 <= p < order.len() ==> #[trigger] res@[p] == items[order[p] as int].model,
        model_views(res@).to_multiset() == model_views(route_models(*spec)).to_multiset(),
        model_views(route_models(*spec)).no_duplicates() ==> model_views(res@).no_duplicates(),
{
    let ghost models = route_models(*spec);
    let mut items: Vec<RankedModel> = Vec::new();
    let first_key = if score_keys.len() > 0 {
        score_keys[0]
    } else {
        None
    };
    items.push(RankedModel { model: spec.model_id.clone(), score_key: first_key });
    let mut i: usize = 0;
    while i < spec.fallback_chain.len()
        invariant
            models == route_models(*spec),
            i <= spec.fallback_chain.len(),
            items@.len() == i + 1,
            forall|k: int|
                0 <= k <= i ==> {
                    &&& (#[trigger] items@[k]).model == models[k]
                    &&& items@[k].score_key == if k < score_keys@.len() {
                        score_keys@[k]
                    } else {
                        None
                    }
                },
        decreases spec.fallback_chain.len() - i,
    {
        let key = if i + 1 < score_keys.len() {
            score_keys[i + 1]
        } else {
            None
        };
        items.push(RankedModel { model: spec.fallback_chain[i].clone(), score_key: key });
        i += 1;
    }
    assert(are_route_items(*spec, score_keys@, items@));
    let res = reorder_by_score(&items);
    proof {
        let order = choose|order: Seq<usize>|
            is_ranked_order(items@, order) && res@.len() == order.len() && forall|p: int|
                0 <= p < order.len() ==> #[trigger] res@[p] == items@[order[p] as int].model;
        let s = model_views(models);
        let t = model_views(res@);
        assert forall|p: int| 0 <= p < t.len() implies #[trigger] t[p] == s[order[p] as int] by {
            assert(res@[p] == items@[order[p] as int].model);
        }
        lemma_permuted_multiset(s, order, t);
        if s.no_duplicates() {
            assert forall|p: int, q: int| 0 <= p < t.len() && 0 <= q < t.len() && p != q
                implies t[p] != t[q] by {
                assert(t[p] == s[order[p] as int] && t[q] == s[order[q] as int]);
                assert(order[p] != order[q]);
            }
        }
    }
    res
}

} // verus!
