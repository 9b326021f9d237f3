//! The engine's governing laws, stated and proved once over the spec
//! pipeline that the executable functions are pinned to.

use crate::combos::{combo_wf, lemma_combos_wf, spec_combos, strictly_ascending};
use crate::effect::{all_effects, lemma_all_effects_complete, Effect};
use crate::engine::{
    all_pos_combos, candidates_upto, covered_by, desires, effects_subset, is_candidate,
    meets_desired, not_covered, of_size, only_desired, lemma_candidates_wf, potions_from_combos,
    select_members, spec_accepted_potions, spec_accepts, spec_candidates, spec_potential_potions,
    spec_pruned, spec_search,
};
use crate::ingredient::Ingredient;
use crate::potion::{
    combo_in_range, members_with_effect, resolved_upto, spec_resolved, PotionView,
};
use vstd::prelude::*;

verus! {

/// The resolved effects among the first `k` entries of `all_effects` are
/// exactly the effects listed there that at least two members carry.
proof fn lemma_resolved_upto_contains(list: Seq<Ingredient>, combo: Seq<usize>, k: int, e: Effect)
    requires
        0 <= k <= all_effects().len(),
    ensures
        resolved_upto(list, combo, k).contains(e) <==> ((exists|i: int|
            0 <= i < k && all_effects()[i] == e) && members_with_effect(list, combo, e) >= 2),
    decreases k,
{
    if k > 0 {
        lemma_resolved_upto_contains(list, combo, k - 1, e);
        let prev = resolved_upto(list, combo, k - 1);
        let ae = all_effects();
        if members_with_effect(list, combo, ae[k - 1]) >= 2 {
            let cur = prev.push(ae[k - 1]);
            assert(resolved_upto(list, combo, k) == cur);
            if cur.contains(e) {
                let j = choose|j: int| 0 <= j < cur.len() && cur[j] == e;
                if j < prev.len() {
                    assert(prev[j] == e);
                    assert(prev.contains(e));
                } else {
                    assert(ae[k - 1] == e);
                }
            }
            if prev.contains(e) {
                let j = choose|j: int| 0 <= j < prev.len() && prev[j] == e;
                assert(cur[j] == e);
                assert(cur.contains(e));
            }
            if ae[k - 1] == e {
                assert(cur[prev.len() as int] == e);
                assert(cur.contains(e));
            }
        }
    }
}

/// The stacking rule: an effect manifests in a combination's potion iff
/// at least two of the combination's members carry it. In particular an
/// effect carried by exactly one member never appears.
pub proof fn lemma_stacking_rule(list: Seq<Ingredient>, combo: Seq<usize>, e: Effect)
    ensures
        spec_resolved(list, combo).contains(e) <==> members_with_effect(list, combo, e) >= 2,
{
    lemma_resolved_upto_contains(list, combo, all_effects().len() as int, e);
    lemma_all_effects_complete(e);
    if all_effects().contains(e) {
        let i = choose|i: int| 0 <= i < all_effects().len() && all_effects()[i] == e;
        assert(exists|j: int| 0 <= j < all_effects().len() && all_effects()[j] == e);
    }
}

/// For a 2-ingredient combination the resolved effects are exactly the
/// intersection of the two members' effect sets.
pub proof fn lemma_pair_resolution(list: Seq<Ingredient>, combo: Seq<usize>, e: Effect)
    requires
        combo.len() == 2,
    ensures
        spec_resolved(list, combo).contains(e) <==> (list[combo[0] as int].spec_has_effect(e)
            && list[combo[1] as int].spec_has_effect(e)),
{
    lemma_stacking_rule(list, combo, e);
    let one = combo.drop_last();
    assert(one.len() == 1);
    assert(one.last() == combo[0]);
    assert(one.drop_last().len() == 0);
    assert(members_with_effect(list, one.drop_last(), e) == 0);
    assert(members_with_effect(list, one, e) == if list[combo[0] as int].spec_has_effect(e) {
        1int
    } else {
        0int
    });
    assert(combo.last() == combo[1]);
}

/// For a 2-ingredient combination the resolved effect set equals the
/// intersection of the two members' effect sets.
pub proof fn lemma_pair_resolution_set(list: Seq<Ingredient>, combo: Seq<usize>)
    requires
        combo.len() == 2,
    ensures
        spec_resolved(list, combo).to_set() == list[combo[0] as int].effects@.to_set().intersect(
            list[combo[1] as int].effects@.to_set(),
        ),
{
    let left = spec_resolved(list, combo).to_set();
    let right = list[combo[0] as int].effects@.to_set().intersect(
        list[combo[1] as int].effects@.to_set(),
    );
    assert forall|e: Effect| left.contains(e) <==> right.contains(e) by {
        lemma_pair_resolution(list, combo, e);
    }
    assert(left =~= right);
}

/// The effects the desired-effect slots ask for, as a set.
pub open spec fn desired_effect_set(d: Seq<Option<Effect>>) -> Set<Effect> {
    Set::new(|e: Effect| desires(d, e))
}

/// A potion is well formed when it has 2 to 4 members, none repeated.
pub open spec fn potion_wf(pv: PotionView) -> bool {
    &&& 2 <= pv.ingredients.len() <= 4
    &&& pv.ingredients.no_duplicates()
}

/// Selecting members by a strictly ascending position tuple out of a
/// strictly ascending member list keeps the indices strictly ascending.
proof fn lemma_select_ascending(members: Seq<usize>, c: Seq<usize>)
    requires
        strictly_ascending(members),
        strictly_ascending(c),
        combo_in_range(c, members.len() as int),
    ensures
        select_members(members, c).len() == c.len(),
        strictly_ascending(select_members(members, c)),
{
    let sel = select_members(members, c);
    assert forall|i: int, j: int| 0 <= i < j < sel.len() implies sel[i] < sel[j] by {
        assert(c[i] < c[j]);
        assert(sel[i] == members[c[i] as int]);
        assert(sel[j] == members[c[j] as int]);
    }
}

/// A strictly ascending sequence repeats no entry.
proof fn lemma_ascending_no_duplicates(s: Seq<usize>)
    requires
        strictly_ascending(s),
    ensures
        s.no_duplicates(),
{
    assert forall|i: int, j: int|
        0 <= i < s.len() && 0 <= j < s.len() && i != j implies s[i] != s[j] by {
        if i < j {
            assert(s[i] < s[j]);
        } else {
            assert(s[j] < s[i]);
        }
    }
}

/// Every potion the combination stage produces is well formed.
proof fn lemma_potions_from_combos_wf(
    list: Seq<Ingredient>,
    members: Seq<usize>,
    d: Seq<Option<Effect>>,
    combos: Seq<Seq<usize>>,
)
    requires
        strictly_ascending(members),
        combo_in_range(members, list.len() as int),
        forall|t: int|
            0 <= t < combos.len() ==> {
                &&& 2 <= (#[trigger] combos[t]).len() <= 4
                &&& strictly_ascending(combos[t])
                &&& combo_in_range(combos[t], members.len() as int)
            },
    ensures
        forall|i: int|
            0 <= i < potions_from_combos(list, members, d, combos).len() ==> {
                &&& potion_wf(#[trigger] potions_from_combos(list, members, d, combos)[i])
                &&& combo_in_range(
                    potions_from_combos(list, members, d, combos)[i].ingredients,
                    list.len() as int,
                )
            },
    decreases combos.len(),
{
    if combos.len() > 0 {
        lemma_potions_from_combos_wf(list, members, d, combos.drop_last());
        let c = combos.last();
        assert(2 <= c.len() <= 4 && strictly_ascending(c) && combo_in_range(
            c,
            members.len() as int,
        ));
        lemma_select_ascending(members, c);
        lemma_ascending_no_duplicates(select_members(members, c));
        let sel = select_members(members, c);
        assert forall|t: int| 0 <= t < sel.len() implies #[trigger] sel[t] < list.len() by {
            assert(sel[t] == members[c[t] as int]);
        }
        let prev = potions_from_combos(list, members, d, combos.drop_last());
        let cur = potions_from_combos(list, members, d, combos);
        assert forall|i: int| 0 <= i < cur.len() implies {
            &&& potion_wf(cur[i])
            &&& combo_in_range(cur[i].ingredients, list.len() as int)
        } by {
            if i < prev.len() {
                assert(cur[i] == prev[i]);
            }
        }
    }
}

/// Every tuple the three-size enumeration yields has 2 to 4 strictly
/// ascending in-range positions.
proof fn lemma_all_pos_combos_wf(m: int)
    requires
        0 <= m <= usize::MAX,
    ensures
        forall|t: int|
            0 <= t < all_pos_combos(m).len() ==> {
                &&& 2 <= (#[trigger] all_pos_combos(m)[t]).len() <= 4
                &&& strictly_ascending(all_pos_combos(m)[t])
                &&& combo_in_range(all_pos_combos(m)[t], m)
            },
{
    lemma_combos_wf(m, 0, 2);
    lemma_combos_wf(m, 0, 3);
    lemma_combos_wf(m, 0, 4);
    let s2 = spec_combos(m, 0, 2);
    let s3 = spec_combos(m, 0, 3);
    let s4 = spec_combos(m, 0, 4);
    assert forall|t: int| 0 <= t < all_pos_combos(m).len() implies {
        &&& 2 <= (#[trigger] all_pos_combos(m)[t]).len() <= 4
        &&& strictly_ascending(all_pos_combos(m)[t])
        &&& combo_in_range(all_pos_combos(m)[t], m)
    } by {
        let c = all_pos_combos(m)[t];
        if t < s2.len() {
            assert(c == s2[t]);
            assert(combo_wf(c, m, 0, 2));
        } else if t < s2.len() + s3.len() {
            assert(c == s3[t - s2.len()]);
            assert(combo_wf(c, m, 0, 3));
        } else {
            assert(c == s4[t - s2.len() - s3.len()]);
            assert(combo_wf(c, m, 0, 4));
        }
    }
}

/// Every potion the pruner returns comes from its input.
proof fn lemma_pruned_elements(s: Seq<PotionView>)
    ensures
        forall|i: int|
            0 <= i < spec_pruned(s).len() ==> s.contains(#[trigger] spec_pruned(s)[i]),
{
    let g2 = of_size(s, 2);
    let g3 = of_size(s, 3);
    let g4 = of_size(s, 4);
    let g3s = not_covered(g3, g2);
    let g4a = not_covered(g4, g2);
    let g4s = not_covered(g4a, g3s);
    assert forall|i: int| 0 <= i < spec_pruned(s).len() implies s.contains(
        #[trigger] spec_pruned(s)[i],
    ) by {
        let pv = spec_pruned(s)[i];
        if i < g2.len() {
            assert(g2.contains(pv));
            g2.lemma_filter_contains_rev(|x: PotionView| x.ingredients.len() == 2, pv);
            assert(s.contains(pv)) by {
                s.lemma_filter_contains_rev(|x: PotionView| x.ingredients.len() == 2, pv);
            }
        } else if i < g2.len() + g3s.len() {
            assert(pv == g3s[i - g2.len()]);
            assert(g3s.contains(pv));
            g3.lemma_filter_contains_rev(|x: PotionView| !covered_by(x, g2), pv);
            s.lemma_filter_contains_rev(|x: PotionView| x.ingredients.len() == 3, pv);
        } else {
            assert(pv == g4s[i - g2.len() - g3s.len()]);
            assert(g4s.contains(pv));
            g4a.lemma_filter_contains_rev(|x: PotionView| !covered_by(x, g3s), pv);
            g4.lemma_filter_contains_rev(|x: PotionView| !covered_by(x, g2), pv);
            s.lemma_filter_contains_rev(|x: PotionView| x.ingredients.len() == 4, pv);
        }
    }
}

/// Every potion the search returns comes from the validated stage, and so
/// satisfies the validator's rule.
proof fn lemma_search_elements(list: Seq<Ingredient>, d: Seq<Option<Effect>>, allow_extra: bool)
    ensures
        forall|i: int|
            0 <= i < spec_search(list, d, allow_extra).len() ==> {
                let pv = #[trigger] spec_search(list, d, allow_extra)[i];
                &&& spec_potential_potions(list, spec_candidates(list, d), d).contains(pv)
                &&& spec_accepts(pv.effects, d, allow_extra)
            },
{
    let members = spec_candidates(list, d);
    let potentials = spec_potential_potions(list, members, d);
    let accepted = spec_accepted_potions(potentials, d, allow_extra);
    let pred = |pv: PotionView| spec_accepts(pv.effects, d, allow_extra);
    lemma_pruned_elements(accepted);
    assert forall|i: int| 0 <= i < spec_search(list, d, allow_extra).len() implies {
        let pv = #[trigger] spec_search(list, d, allow_extra)[i];
        &&& potentials.contains(pv)
        &&& spec_accepts(pv.effects, d, allow_extra)
    } by {
        let pv = spec_search(list, d, allow_extra)[i];
        assert(accepted.contains(pv));
        let j = choose|j: int| 0 <= j < accepted.len() && accepted[j] == pv;
        potentials.lemma_filter_pred(pred, j);
        potentials.lemma_filter_contains_rev(pred, pv);
    }
}

/// Every potion the search returns has 2 to 4 members, none repeated,
/// each a valid index into the catalog.
pub proof fn lemma_search_potions_wf(list: Seq<Ingredient>, d: Seq<Option<Effect>>, allow_extra: bool)
    requires
        list.len() <= usize::MAX,
    ensures
        forall|i: int|
            0 <= i < spec_search(list, d, allow_extra).len() ==> {
                &&& potion_wf(#[trigger] spec_search(list, d, allow_extra)[i])
                &&& combo_in_range(
                    spec_search(list, d, allow_extra)[i].ingredients,
                    list.len() as int,
                )
            },
{
    let members = spec_candidates(list, d);
    lemma_candidates_wf(list, d, list.len() as int);
    lemma_all_pos_combos_wf(members.len() as int);
    lemma_potions_from_combos_wf(list, members, d, all_pos_combos(members.len() as int));
    lemma_search_elements(list, d, allow_extra);
    let potentials = spec_potential_potions(list, members, d);
    assert forall|i: int| 0 <= i < spec_search(list, d, allow_extra).len() implies {
        &&& potion_wf(#[trigger] spec_search(list, d, allow_extra)[i])
        &&& combo_in_range(spec_search(list, d, allow_extra)[i].ingredients, list.len() as int)
    } by {
        let pv = spec_search(list, d, allow_extra)[i];
        assert(potentials.contains(pv));
        let j = choose|j: int| 0 <= j < potentials.len() && potentials[j] == pv;
    }
}

/// Asking for nothing produces nothing: with no desired effect there are
/// no candidate ingredients and the search result is empty.
pub proof fn lemma_empty_desired(list: Seq<Ingredient>, d: Seq<Option<Effect>>, allow_extra: bool)
    requires
        forall|e: Effect| !desires(d, e),
    ensures
        spec_search(list, d, allow_extra) == Seq::<PotionView>::empty(),
{
    lemma_no_candidates(list, d, list.len() as int);
    let members = spec_candidates(list, d);
    assert(members.len() == 0);
    assert(spec_combos(0, 0, 2).len() == 0);
    assert(spec_combos(0, 0, 3).len() == 0);
    assert(spec_combos(0, 0, 4).len() == 0);
    assert(all_pos_combos(0).len() == 0);
    let potentials = spec_potential_potions(list, members, d);
    assert(potentials.len() == 0);
    let pred = |pv: PotionView| spec_accepts(pv.effects, d, allow_extra);
    let accepted = spec_accepted_potions(potentials, d, allow_extra);
    potentials.lemma_filter_len(pred);
    assert(accepted.len() == 0);
    accepted.lemma_filter_len(|x: PotionView| x.ingredients.len() == 2);
    accepted.lemma_filter_len(|x: PotionView| x.ingredients.len() == 3);
    accepted.lemma_filter_len(|x: PotionView| x.ingredients.len() == 4);
    let g2 = of_size(accepted, 2);
    let g3 = of_size(accepted, 3);
    let g4 = of_size(accepted, 4);
    g3.lemma_filter_len(|x: PotionView| !covered_by(x, g2));
    let g3s = not_covered(g3, g2);
    g4.lemma_filter_len(|x: PotionView| !covered_by(x, g2));
    let g4a = not_covered(g4, g2);
    g4a.lemma_filter_len(|x: PotionView| !covered_by(x, g3s));
    assert(spec_search(list, d, allow_extra) =~= Seq::<PotionView>::empty());
}

/// With no desired effect no ingredient is a candidate.
proof fn lemma_no_candidates(list: Seq<Ingredient>, d: Seq<Option<Effect>>, n: int)
    requires
        forall|e: Effect| !desires(d, e),
    ensures
        candidates_upto(list, d, n).len() == 0,
    decreases n,
{
    if n > 0 {
        lemma_no_candidates(list, d, n - 1);
        assert(!is_candidate(list[n - 1], d));
    }
}

/// Every potion the search returns exhibits all desired effects; under
/// the strict policy its effects are exactly the desired ones.
pub proof fn lemma_search_satisfies_desired(
    list: Seq<Ingredient>,
    d: Seq<Option<Effect>>,
    allow_extra: bool,
)
    ensures
        forall|i: int|
            0 <= i < spec_search(list, d, allow_extra).len() ==> meets_desired(
                (#[trigger] spec_search(list, d, allow_extra)[i]).effects,
                d,
            ),
        !allow_extra ==> forall|i: int|
            0 <= i < spec_search(list, d, allow_extra).len() ==> only_desired(
                (#[trigger] spec_search(list, d, allow_extra)[i]).effects,
                d,
            ),
        !allow_extra ==> forall|i: int|
            0 <= i < spec_search(list, d, allow_extra).len()
                ==> (#[trigger] spec_search(list, d, allow_extra)[i]).effects.to_set()
                == desired_effect_set(d),
{
    lemma_search_elements(list, d, allow_extra);
    if !allow_extra {
        assert forall|i: int| 0 <= i < spec_search(list, d, allow_extra).len() implies (
        #[trigger] spec_search(list, d, allow_extra)[i]).effects.to_set() == desired_effect_set(
            d,
        ) by {
            let effs = spec_search(list, d, allow_extra)[i].effects;
            assert forall|e: Effect| effs.to_set().contains(e) <==> desired_effect_set(
                d,
            ).contains(e) by {
                if effs.contains(e) {
                    let t = choose|t: int| 0 <= t < effs.len() && effs[t] == e;
                    assert(desires(d, effs[t]));
                }
                if desires(d, e) {
                    assert(meets_desired(effs, d));
                    assert(effs.contains(e));
                }
            }
            assert(effs.to_set() =~= desired_effect_set(d));
        }
    }
}

/// After pruning no potion's effect set is a subset of a strictly
/// smaller potion's effect set in the result.
pub proof fn lemma_pruned_minimal(s: Seq<PotionView>)
    ensures
        forall|i: int, j: int|
            0 <= i < spec_pruned(s).len() && 0 <= j < spec_pruned(s).len()
                && (#[trigger] spec_pruned(s)[i]).ingredients.len() > (#[trigger] spec_pruned(
                s,
            )[j]).ingredients.len() ==> !effects_subset(
                spec_pruned(s)[i].effects,
                spec_pruned(s)[j].effects,
            ),
{
    let g2 = of_size(s, 2);
    let g3 = of_size(s, 3);
    let g4 = of_size(s, 4);
    let g3s = not_covered(g3, g2);
    let g4a = not_covered(g4, g2);
    let g4s = not_covered(g4a, g3s);
    let r = spec_pruned(s);
    let size2 = |x: PotionView| x.ingredients.len() == 2;
    let size3 = |x: PotionView| x.ingredients.len() == 3;
    let size4 = |x: PotionView| x.ingredients.len() == 4;
    let nc2 = |x: PotionView| !covered_by(x, g2);
    let nc3 = |x: PotionView| !covered_by(x, g3s);
    assert forall|i: int, j: int|
        0 <= i < r.len() && 0 <= j < r.len() && (#[trigger] r[i]).ingredients.len()
            > (#[trigger] r[j]).ingredients.len() implies !effects_subset(
        r[i].effects,
        r[j].effects,
    ) by {
        // sizes of the three parts
        if i < g2.len() {
            s.lemma_filter_pred(size2, i);
            assert(r[i] == g2[i]);
        } else if i < g2.len() + g3s.len() {
            g3.lemma_filter_pred(nc2, i - g2.len());
            let pv = g3s[i - g2.len()];
            assert(g3s.contains(pv));
            g3.lemma_filter_contains_rev(nc2, pv);
            let t = choose|t: int| 0 <= t < g3.len() && g3[t] == pv;
            s.lemma_filter_pred(size3, t);
            assert(r[i] == pv && pv.ingredients.len() == 3 && !covered_by(pv, g2));
        } else {
            g4a.lemma_filter_pred(nc3, i - g2.len() - g3s.len());
            let pv = g4s[i - g2.len() - g3s.len()];
            assert(g4s.contains(pv));
            g4a.lemma_filter_contains_rev(nc3, pv);
            let t = choose|t: int| 0 <= t < g4a.len() && g4a[t] == pv;
            g4.lemma_filter_pred(nc2, t);
            g4.lemma_filter_contains_rev(nc2, pv);
            let u = choose|u: int| 0 <= u < g4.len() && g4[u] == pv;
            s.lemma_filter_pred(size4, u);
            assert(r[i] == pv && pv.ingredients.len() == 4 && !covered_by(pv, g2)
                && !covered_by(pv, g3s));
        }
        if j < g2.len() {
            s.lemma_filter_pred(size2, j);
            assert(r[j] == g2[j] && r[j].ingredients.len() == 2 && g2.contains(r[j]));
        } else if j < g2.len() + g3s.len() {
            let pv = g3s[j - g2.len()];
            assert(g3s.contains(pv));
            g3.lemma_filter_contains_rev(nc2, pv);
            let t = choose|t: int| 0 <= t < g3.len() && g3[t] == pv;
            s.lemma_filter_pred(size3, t);
            assert(r[j] == pv && pv.ingredients.len() == 3 && g3s.contains(r[j]));
        } else {
            let pv = g4s[j - g2.len() - g3s.len()];
            assert(g4s.contains(pv));
            g4a.lemma_filter_contains_rev(nc3, pv);
            let t = choose|t: int| 0 <= t < g4a.len() && g4a[t] == pv;
            g4.lemma_filter_contains_rev(nc2, pv);
            let u = choose|u: int| 0 <= u < g4.len() && g4[u] == pv;
            s.lemma_filter_pred(size4, u);
            assert(r[j] == pv && pv.ingredients.len() == 4);
        }
        // a larger potion in the result survived the filter against the
        // smaller potion's group, so its effects cannot be covered there
        if r[j].ingredients.len() == 2 {
            assert(!covered_by(r[i], g2));
            let w = choose|w: int| 0 <= w < g2.len() && g2[w] == r[j];
            assert(!effects_subset(r[i].effects, g2[w].effects));
        } else {
            assert(r[j].ingredients.len() == 3 && r[i].ingredients.len() == 4);
            assert(!covered_by(r[i], g3s));
            let w = choose|w: int| 0 <= w < g3s.len() && g3s[w] == r[j];
            assert(!effects_subset(r[i].effects, g3s[w].effects));
        }
    }
}

/// After the search no potion's effect set is a subset of a strictly
/// smaller potion's effect set in the result.
pub proof fn lemma_search_minimal(list: Seq<Ingredient>, d: Seq<Option<Effect>>, allow_extra: bool)
    ensures
        forall|i: int, j: int|
            0 <= i < spec_search(list, d, allow_extra).len() && 0 <= j < spec_search(
                list,
                d,
                allow_extra,
            ).len() && (#[trigger] spec_search(list, d, allow_extra)[i]).ingredients.len()
                > (#[trigger] spec_search(list, d, allow_extra)[j]).ingredients.len()
                ==> !effects_subset(
                spec_search(list, d, allow_extra)[i].effects,
                spec_search(list, d, allow_extra)[j].effects,
            ),
{
    let members = spec_candidates(list, d);
    let accepted = spec_accepted_potions(
        spec_potential_potions(list, members, d),
        d,
        allow_extra,
    );
    lemma_pruned_minimal(accepted);
}

/// Determinism: identical catalog, desired effects and policy give the
/// identical ordered result.
pub proof fn lemma_search_deterministic(
    list1: Seq<Ingredient>,
    d1: Seq<Option<Effect>>,
    allow_extra1: bool,
    list2: Seq<Ingredient>,
    d2: Seq<Option<Effect>>,
    allow_extra2: bool,
)
    requires
        list1 == list2,
        d1 == d2,
        allow_extra1 == allow_extra2,
    ensures
        spec_search(list1, d1, allow_extra1) == spec_search(list2, d2, allow_extra2),
{
}

} // verus!
