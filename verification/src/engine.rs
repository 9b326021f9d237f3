//! The synthesis pipeline: candidate selection, combination search,
//! validation against the desired effects, and minimality pruning.

use crate::combos::{combinations, combo_views, lemma_combos_wf, spec_combos, strictly_ascending};
use crate::effect::Effect;
use crate::ingredient::Ingredient;
use crate::potion::{
    combo_in_range, resolve_effects, spec_resolved, views_of, Potion, PotionView,
};
use vstd::prelude::*;

verus! {

/// Whether `d` (the desired-effect slots) asks for effect `e`.
pub open spec fn desires(d: Seq<Option<Effect>>, e: Effect) -> bool {
    d.contains(Some(e))
}

/// An ingredient qualifies as a candidate when it carries at least one
/// desired effect.
pub open spec fn is_candidate(ing: Ingredient, d: Seq<Option<Effect>>) -> bool {
    exists|e: Effect| ing.spec_has_effect(e) && desires(d, e)
}

/// The candidate indices among the first `n` catalog entries, ascending.
pub open spec fn candidates_upto(list: Seq<Ingredient>, d: Seq<Option<Effect>>, n: int) -> Seq<
    usize,
>
    decreases n,
{
    if n <= 0 {
        Seq::empty()
    } else {
        let prev = candidates_upto(list, d, n - 1);
        if is_candidate(list[n - 1], d) {
            prev.push((n - 1) as usize)
        } else {
            prev
        }
    }
}

/// CandidateSelector: the catalog indices of the ingredients that carry
/// at least one desired effect, in catalog order.
pub open spec fn spec_candidates(list: Seq<Ingredient>, d: Seq<Option<Effect>>) -> Seq<usize> {
    candidates_upto(list, d, list.len() as int)
}

/// Candidate indices are strictly ascending and in range of the catalog.
pub proof fn lemma_candidates_wf(list: Seq<Ingredient>, d: Seq<Option<Effect>>, n: int)
    requires
        0 <= n <= list.len(),
        list.len() <= usize::MAX,
    ensures
        strictly_ascending(candidates_upto(list, d, n)),
        candidates_upto(list, d, n).len() <= n,
        forall|i: int|
            0 <= i < candidates_upto(list, d, n).len() ==> #[trigger] candidates_upto(
                list,
                d,
                n,
            )[i] < n,
    decreases n,
{
    if n > 0 {
        lemma_candidates_wf(list, d, n - 1);
    }
}

/// An index stands in the candidate list exactly when it denotes a
/// catalog entry sharing an effect with the desired set.
pub proof fn lemma_candidates_exact(list: Seq<Ingredient>, d: Seq<Option<Effect>>, n: int)
    requires
        0 <= n <= usize::MAX,
    ensures
        forall|x: usize|
            candidates_upto(list, d, n).contains(x) <==> (x < n && is_candidate(
                list[x as int],
                d,
            )),
    decreases n,
{
    if n > 0 {
        lemma_candidates_exact(list, d, n - 1);
        let prev = candidates_upto(list, d, n - 1);
        let cur = candidates_upto(list, d, n);
        assert forall|x: usize|
            cur.contains(x) <==> (x < n && is_candidate(list[x as int], d)) by {
            if is_candidate(list[n - 1], d) {
                assert(cur == prev.push((n - 1) as usize));
                if cur.contains(x) {
                    let j = choose|j: int| 0 <= j < cur.len() && cur[j] == x;
                    if j < prev.len() {
                        assert(prev.contains(x));
                    }
                }
                if prev.contains(x) {
                    let j = choose|j: int| 0 <= j < prev.len() && prev[j] == x;
                    assert(cur[j] == x);
                }
                if x == (n - 1) as usize {
                    assert(cur[prev.len() as int] == x);
                }
            } else {
                assert(cur == prev);
            }
        }
    }
}

/// Whether one of the desired-effect slots holds `e`.
fn desired_contains(desired: &[Option<Effect>; 4], e: Effect) -> (res: bool)
    ensures
        res == desires(desired@, e),
{
    let mut i: usize = 0;
    while i < 4
        invariant
            i <= 4,
            forall|j: int| 0 <= j < i ==> desired@[j] != Some(e),
        decreases 4 - i,
    {
        match desired[i] {
            Some(x) => {
                if x == e {
                    assert(desired@[i as int] == Some(e));
                    return true;
                }
            },
            None => {},
        }
        i += 1;
    }
    false
}

/// Whether the ingredient carries at least one desired effect.
fn shares_desired_effect(ing: &Ingredient, desired: &[Option<Effect>; 4]) -> (res: bool)
    ensures
        res == is_candidate(*ing, desired@),
{
    let mut i: usize = 0;
    while i < ing.effects.len()
        invariant
            i <= ing.effects@.len(),
            forall|j: int| 0 <= j < i ==> !desires(desired@, #[trigger] ing.effects@[j]),
        decreases ing.effects@.len() - i,
    {
        let e = ing.effects[i];
        if desired_contains(desired, e) {
            assert(ing.spec_has_effect(e));
            return true;
        }
        i += 1;
    }
    proof {
        assert forall|e: Effect| !(ing.spec_has_effect(e) && desires(desired@, e)) by {
            if ing.spec_has_effect(e) {
                let j = choose|j: int| 0 <= j < ing.effects@.len() && ing.effects@[j] == e;
                assert(!desires(desired@, ing.effects@[j]));
            }
        }
    }
    false
}

/// CandidateSelector: the catalog indices of the ingredients that carry at
/// least one desired effect, in catalog order. An ingredient sharing no
/// desired effect can never help a combination exhibit a desired effect.
pub fn get_potential_ingredients(
    desired: &[Option<Effect>; 4],
    ingredients: &Vec<Ingredient>,
) -> (res: Vec<usize>)
    ensures
        res@ == spec_candidates(ingredients@, desired@),
{
    let mut res: Vec<usize> = Vec::new();
    let mut i: usize = 0;
    while i < ingredients.len()
        invariant
            i <= ingredients@.len(),
            res@ == candidates_upto(ingredients@, desired@, i as int),
        decreases ingredients@.len() - i,
    {
        if shares_desired_effect(&ingredients[i], desired) {
            res.push(i);
        }
        i += 1;
    }
    res
}

/// The catalog indices a position tuple selects from the member list.
pub open spec fn select_members(members: Seq<usize>, c: Seq<usize>) -> Seq<usize> {
    c.map_values(|p: usize| members[p as int])
}

/// Every desired effect is among `effects`.
pub open spec fn meets_desired(effects: Seq<Effect>, d: Seq<Option<Effect>>) -> bool {
    forall|e: Effect| desires(d, e) ==> effects.contains(e)
}

/// The potions brewed from the position tuples in `combos` (positions
/// into `members`, which holds catalog indices) that exhibit every
/// desired effect, in enumeration order.
pub open spec fn potions_from_combos(
    list: Seq<Ingredient>,
    members: Seq<usize>,
    d: Seq<Option<Effect>>,
    combos: Seq<Seq<usize>>,
) -> Seq<PotionView>
    decreases combos.len(),
{
    if combos.len() == 0 {
        Seq::empty()
    } else {
        let prev = potions_from_combos(list, members, d, combos.drop_last());
        let idxs = select_members(members, combos.last());
        let effs = spec_resolved(list, idxs);
        if meets_desired(effs, d) {
            prev.push(PotionView { ingredients: idxs, effects: effs })
        } else {
            prev
        }
    }
}

/// Every subset of positions `[0, m)` of size 2, 3 or 4, smaller sizes
/// first, each size in lexicographic order.
pub open spec fn all_pos_combos(m: int) -> Seq<Seq<usize>> {
    spec_combos(m, 0, 2) + spec_combos(m, 0, 3) + spec_combos(m, 0, 4)
}

/// CombinationGenerator + EffectResolver + the desired-effect screen:
/// the potions over the members `members` of `list` that exhibit every
/// desired effect.
pub open spec fn spec_potential_potions(
    list: Seq<Ingredient>,
    members: Seq<usize>,
    d: Seq<Option<Effect>>,
) -> Seq<PotionView> {
    potions_from_combos(list, members, d, all_pos_combos(members.len() as int))
}

/// Whether every desired effect is among `effects`.
fn meets_desired_exec(effects: &Vec<Effect>, desired: &[Option<Effect>; 4]) -> (res: bool)
    ensures
        res == meets_desired(effects@, desired@),
{
    let mut i: usize = 0;
    while i < 4
        invariant
            i <= 4,
            forall|j: int|
                0 <= j < i ==> match #[trigger] desired@[j] {
                    Some(e) => effects@.contains(e),
                    None => true,
                },
        decreases 4 - i,
    {
        match desired[i] {
            Some(e) => {
                if !crate::effect::contains_effect(effects, e) {
                    assert(desired@[i as int] == Some(e));
                    assert(desires(desired@, e));
                    return false;
                }
            },
            None => {},
        }
        i += 1;
    }
    proof {
        assert forall|e: Effect| desires(desired@, e) implies effects@.contains(e) by {
            let j = choose|j: int| 0 <= j < desired@.len() && desired@[j] == Some(e);
        }
    }
    true
}

/// CombinationGenerator + EffectResolver + the desired-effect screen.
/// Brews every combination of 2, 3 or 4 distinct members (positions into
/// `members`, whose entries are indices into `ingredients`), and keeps
/// the potions that exhibit every desired effect, smaller combinations
/// first, each size in lexicographic member order.
pub fn create_potential_potions(
    desired: &[Option<Effect>; 4],
    ingredients: &Vec<Ingredient>,
    members: &Vec<usize>,
) -> (res: Vec<Potion>)
    requires
        combo_in_range(members@, ingredients@.len() as int),
    ensures
        views_of(res@) == spec_potential_potions(ingredients@, members@, desired@),
{
    let m = members.len();
    let mut all: Vec<Vec<usize>> = combinations(m, 0, 2);
    let mut c3 = combinations(m, 0, 3);
    let mut c4 = combinations(m, 0, 4);
    let ghost v2 = combo_views(all@);
    let ghost v3 = combo_views(c3@);
    let ghost v4 = combo_views(c4@);
    all.append(&mut c3);
    proof {
        assert(combo_views(all@) =~= v2 + v3);
    }
    all.append(&mut c4);
    proof {
        assert(combo_views(all@) =~= v2 + v3 + v4);
        assert(combo_views(all@) == all_pos_combos(m as int));
        lemma_combos_wf(m as int, 0, 2);
        lemma_combos_wf(m as int, 0, 3);
        lemma_combos_wf(m as int, 0, 4);
        assert forall|t: int| 0 <= t < combo_views(all@).len() implies combo_in_range(
            #[trigger] combo_views(all@)[t],
            m as int,
        ) by {
            let c = combo_views(all@)[t];
            if t < v2.len() {
                assert(c == spec_combos(m as int, 0, 2)[t]);
            } else if t < v2.len() + v3.len() {
                assert(c == spec_combos(m as int, 0, 3)[t - v2.len()]);
            } else {
                assert(c == spec_combos(m as int, 0, 4)[t - v2.len() - v3.len()]);
            }
        }
    }
    let ghost all_views = combo_views(all@);
    let mut res: Vec<Potion> = Vec::new();
    let mut i: usize = 0;
    while i < all.len()
        invariant
            i <= all@.len(),
            all_views == combo_views(all@),
            forall|t: int|
                0 <= t < all_views.len() ==> combo_in_range(#[trigger] all_views[t], m as int),
            m == members@.len(),
            combo_in_range(members@, ingredients@.len() as int),
            views_of(res@) == potions_from_combos(
                ingredients@,
                members@,
                desired@,
                all_views.take(i as int),
            ),
        decreases all@.len() - i,
    {
        let pos = &all[i];
        assert(pos@ == all_views[i as int]);
        let mut idxs: Vec<usize> = Vec::new();
        let mut j: usize = 0;
        while j < pos.len()
            invariant
                j <= pos@.len(),
                combo_in_range(pos@, members@.len() as int),
                combo_in_range(members@, ingredients@.len() as int),
                idxs@ == select_members(members@, pos@.take(j as int)),
            decreases pos@.len() - j,
        {
            let p = pos[j];
            idxs.push(members[p]);
            proof {
                assert(pos@.take(j as int + 1) =~= pos@.take(j as int).push(pos@[j as int]));
                assert(select_members(members@, pos@.take(j as int + 1)) =~= select_members(
                    members@,
                    pos@.take(j as int),
                ).push(members@[pos@[j as int] as int]));
            }
            j += 1;
        }
        proof {
            assert(pos@.take(pos@.len() as int) =~= pos@);
            assert forall|t: int| 0 <= t < idxs@.len() implies #[trigger] idxs@[t]
                < ingredients@.len() by {
                assert(idxs@[t] == members@[pos@[t] as int]);
            }
        }
        let effs = resolve_effects(ingredients, &idxs);
        let ghost prev_views = views_of(res@);
        if meets_desired_exec(&effs, desired) {
            let p = Potion { ingredients: idxs, effects: effs };
            assert(p@ == (PotionView {
                ingredients: select_members(members@, all_views[i as int]),
                effects: spec_resolved(ingredients@, select_members(members@, all_views[i as int])),
            }));
            res.push(p);
            proof {
                assert(views_of(res@) =~= prev_views.push(p@));
            }
        }
        proof {
            assert(all_views.take(i as int + 1).drop_last() =~= all_views.take(i as int));
            assert(all_views.take(i as int + 1).last() == all_views[i as int]);
        }
        i += 1;
    }
    proof {
        assert(all_views.take(all_views.len() as int) =~= all_views);
    }
    res
}

/// No effect beyond the desired ones is among `effects`.
pub open spec fn only_desired(effects: Seq<Effect>, d: Seq<Option<Effect>>) -> bool {
    forall|i: int| 0 <= i < effects.len() ==> desires(d, #[trigger] effects[i])
}

/// PotionValidator's rule: every desired effect manifests and, unless
/// extra effects are allowed, nothing else does.
pub open spec fn spec_accepts(
    effects: Seq<Effect>,
    d: Seq<Option<Effect>>,
    allow_extra: bool,
) -> bool {
    meets_desired(effects, d) && (allow_extra || only_desired(effects, d))
}

/// The potions the validator accepts, in order.
pub open spec fn spec_accepted_potions(
    pvs: Seq<PotionView>,
    d: Seq<Option<Effect>>,
    allow_extra: bool,
) -> Seq<PotionView> {
    pvs.filter(|pv: PotionView| spec_accepts(pv.effects, d, allow_extra))
}

/// PotionValidator: accepts a potion whose effects include every desired
/// effect and, unless `allow_extra` is set, no others.
pub fn validate_potion(potion: &Potion, desired: &[Option<Effect>; 4], allow_extra: bool) -> (res:
    bool)
    ensures
        res == spec_accepts(potion.effects@, desired@, allow_extra),
{
    if !meets_desired_exec(&potion.effects, desired) {
        return false;
    }
    if allow_extra {
        return true;
    }
    let mut i: usize = 0;
    while i < potion.effects.len()
        invariant
            i <= potion.effects@.len(),
            !allow_extra,
            meets_desired(potion.effects@, desired@),
            forall|j: int| 0 <= j < i ==> desires(desired@, #[trigger] potion.effects@[j]),
        decreases potion.effects@.len() - i,
    {
        if !desired_contains(desired, potion.effects[i]) {
            assert(!desires(desired@, potion.effects@[i as int]));
            assert(!only_desired(potion.effects@, desired@));
            return false;
        }
        i += 1;
    }
    true
}

/// Keeps the potions the validator accepts, in order.
pub fn filter_accepted(
    potions: &Vec<Potion>,
    desired: &[Option<Effect>; 4],
    allow_extra: bool,
) -> (res: Vec<Potion>)
    ensures
        views_of(res@) == spec_accepted_potions(views_of(potions@), desired@, allow_extra),
{
    let ghost d = desired@;
    let ghost pred = |pv: PotionView| spec_accepts(pv.effects, d, allow_extra);
    let mut res: Vec<Potion> = Vec::new();
    let mut i: usize = 0;
    while i < potions.len()
        invariant
            i <= potions@.len(),
            d == desired@,
            pred == (|pv: PotionView| spec_accepts(pv.effects, d, allow_extra)),
            views_of(res@) == views_of(potions@).take(i as int).filter(pred),
        decreases potions@.len() - i,
    {
        let ghost prev_views = views_of(res@);
        let ghost pv = views_of(potions@)[i as int];
        if validate_potion(&potions[i], desired, allow_extra) {
            let p = potions[i].duplicate();
            res.push(p);
            proof {
                assert(views_of(res@) =~= prev_views.push(pv));
            }
        }
        proof {
            assert(views_of(potions@).take(i as int + 1) =~= views_of(potions@).take(
                i as int,
            ).push(pv));
            views_of(potions@).take(i as int).lemma_filter_push(pv, pred);
        }
        i += 1;
    }
    proof {
        assert(views_of(potions@).take(potions@.len() as int) =~= views_of(potions@));
    }
    res
}

/// Every effect of `a` also occurs in `b`.
pub open spec fn effects_subset(a: Seq<Effect>, b: Seq<Effect>) -> bool {
    forall|i: int| 0 <= i < a.len() ==> b.contains(#[trigger] a[i])
}

/// Some potion of `group` already covers all of `pv`'s effects.
pub open spec fn covered_by(pv: PotionView, group: Seq<PotionView>) -> bool {
    exists|i: int| 0 <= i < group.len() && effects_subset(pv.effects, #[trigger] group[i].effects)
}

/// The potions with exactly `k` members, in order.
pub open spec fn of_size(pvs: Seq<PotionView>, k: int) -> Seq<PotionView> {
    pvs.filter(|pv: PotionView| pv.ingredients.len() == k)
}

/// The potions of `group` that no potion of `smaller` covers, in order.
pub open spec fn not_covered(group: Seq<PotionView>, smaller: Seq<PotionView>) -> Seq<PotionView> {
    group.filter(|pv: PotionView| !covered_by(pv, smaller))
}

/// MinimalityPruner: 2-member potions stay; a 3- or 4-member potion is
/// dropped when a 2-member potion covers its effects; a surviving
/// 4-member potion is dropped when a surviving 3-member potion covers
/// its effects. Group order is preserved, sizes concatenated ascending.
pub open spec fn spec_pruned(pvs: Seq<PotionView>) -> Seq<PotionView> {
    let g2 = of_size(pvs, 2);
    let g3 = of_size(pvs, 3);
    let g4 = of_size(pvs, 4);
    let g3s = not_covered(g3, g2);
    let g4s = not_covered(not_covered(g4, g2), g3s);
    g2 + g3s + g4s
}

/// Whether every effect of `a` also occurs in `b`.
fn effects_subset_exec(a: &Vec<Effect>, b: &Vec<Effect>) -> (res: bool)
    ensures
        res == effects_subset(a@, b@),
{
    let mut i: usize = 0;
    while i < a.len()
        invariant
            i <= a@.len(),
            forall|j: int| 0 <= j < i ==> b@.contains(#[trigger] a@[j]),
        decreases a@.len() - i,
    {
        if !crate::effect::contains_effect(b, a[i]) {
            return false;
        }
        i += 1;
    }
    true
}

/// Whether some potion of `group` covers all of `p`'s effects.
fn is_covered(p: &Potion, group: &Vec<Potion>) -> (res: bool)
    ensures
        res == covered_by(p@, views_of(group@)),
{
    let mut i: usize = 0;
    while i < group.len()
        invariant
            i <= group@.len(),
            forall|j: int|
                0 <= j < i ==> !effects_subset(p@.effects, #[trigger] views_of(group@)[j].effects),
        decreases group@.len() - i,
    {
        if effects_subset_exec(&p.effects, &group[i].effects) {
            assert(effects_subset(p@.effects, views_of(group@)[i as int].effects));
            return true;
        }
        i += 1;
    }
    false
}

/// The potions with exactly `k` members, in order.
fn filter_by_size(potions: &Vec<Potion>, k: usize) -> (res: Vec<Potion>)
    ensures
        views_of(res@) == of_size(views_of(potions@), k as int),
{
    let ghost pred = |pv: PotionView| pv.ingredients.len() == k as int;
    let mut res: Vec<Potion> = Vec::new();
    let mut i: usize = 0;
    while i < potions.len()
        invariant
            i <= potions@.len(),
            pred == (|pv: PotionView| pv.ingredients.len() == k as int),
            views_of(res@) == views_of(potions@).take(i as int).filter(pred),
        decreases potions@.len() - i,
    {
        let ghost prev_views = views_of(res@);
        let ghost pv = views_of(potions@)[i as int];
        if potions[i].ingredients.len() == k {
            let p = potions[i].duplicate();
            res.push(p);
            proof {
                assert(views_of(res@) =~= prev_views.push(pv));
            }
        }
        proof {
            assert(views_of(potions@).take(i as int + 1) =~= views_of(potions@).take(
                i as int,
            ).push(pv));
            views_of(potions@).take(i as int).lemma_filter_push(pv, pred);
        }
        i += 1;
    }
    proof {
        assert(views_of(potions@).take(potions@.len() as int) =~= views_of(potions@));
    }
    res
}

/// The potions of `group` that no potion of `smaller` covers, in order.
fn retain_not_covered(group: &Vec<Potion>, smaller: &Vec<Potion>) -> (res: Vec<Potion>)
    ensures
        views_of(res@) == not_covered(views_of(group@), views_of(smaller@)),
{
    let ghost sm = views_of(smaller@);
    let ghost pred = |pv: PotionView| !covered_by(pv, sm);
    let mut res: Vec<Potion> = Vec::new();
    let mut i: usize = 0;
    while i < group.len()
        invariant
            i <= group@.len(),
            sm == views_of(smaller@),
            pred == (|pv: PotionView| !covered_by(pv, sm)),
            views_of(res@) == views_of(group@).take(i as int).filter(pred),
        decreases group@.len() - i,
    {
        let ghost prev_views = views_of(res@);
        let ghost pv = views_of(group@)[i as int];
        if !is_covered(&group[i], smaller) {
            let p = group[i].duplicate();
            res.push(p);
            proof {
                assert(views_of(res@) =~= prev_views.push(pv));
            }
        }
        proof {
            assert(views_of(group@).take(i as int + 1) =~= views_of(group@).take(i as int).push(
                pv,
            ));
            views_of(group@).take(i as int).lemma_filter_push(pv, pred);
        }
        i += 1;
    }
    proof {
        assert(views_of(group@).take(group@.len() as int) =~= views_of(group@));
    }
    res
}

/// MinimalityPruner: removes each 3- or 4-member potion whose effects a
/// smaller accepted potion already covers, then returns the groups in
/// ascending size, each group in its input order.
pub fn prune_potions(potions: &Vec<Potion>) -> (res: Vec<Potion>)
    ensures
        views_of(res@) == spec_pruned(views_of(potions@)),
{
    let g2 = filter_by_size(potions, 2);
    let g3 = filter_by_size(potions, 3);
    let g4 = filter_by_size(potions, 4);
    let mut g3s = retain_not_covered(&g3, &g2);
    let g4a = retain_not_covered(&g4, &g2);
    let mut g4s = retain_not_covered(&g4a, &g3s);
    let ghost v2 = views_of(g2@);
    let ghost v3s = views_of(g3s@);
    let ghost v4s = views_of(g4s@);
    let mut res = g2;
    res.append(&mut g3s);
    proof {
        assert(views_of(res@) =~= v2 + v3s);
    }
    res.append(&mut g4s);
    proof {
        assert(views_of(res@) =~= (v2 + v3s) + v4s);
        assert(views_of(res@) == spec_pruned(views_of(potions@)));
    }
    res
}

/// The whole pipeline: candidate selection, combination search over the
/// candidates, validation, and minimality pruning.
pub open spec fn spec_search(
    list: Seq<Ingredient>,
    d: Seq<Option<Effect>>,
    allow_extra: bool,
) -> Seq<PotionView> {
    let members = spec_candidates(list, d);
    spec_pruned(
        spec_accepted_potions(spec_potential_potions(list, members, d), d, allow_extra),
    )
}

/// Searches the catalog for every minimal combination of 2, 3 or 4
/// ingredients whose potion exhibits all desired effects (and, unless
/// `allow_extra` is set, no others). Potions hold indices into
/// `ingredients`; the result is deterministic in its inputs.
pub fn search(
    ingredients: &Vec<Ingredient>,
    desired: &[Option<Effect>; 4],
    allow_extra: bool,
) -> (res: Vec<Potion>)
    ensures
        views_of(res@) == spec_search(ingredients@, desired@, allow_extra),
{
    let n = ingredients.len();
    let members = get_potential_ingredients(desired, ingredients);
    proof {
        assert(ingredients@.len() == n);
        lemma_candidates_wf(ingredients@, desired@, ingredients@.len() as int);
    }
    let pp = create_potential_potions(desired, ingredients, &members);
    let vp = filter_accepted(&pp, desired, allow_extra);
    prune_potions(&vp)
}

} // verus!
