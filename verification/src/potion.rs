//! Potions and the effect-stacking rule.

use crate::effect::{all_effects, Effect};
use crate::ingredient::Ingredient;
use vstd::prelude::*;

verus! {

/// The mathematical content of a potion: the catalog indices of its
/// members and its resolved effects, in the stable display order.
pub struct PotionView {
    pub ingredients: Seq<usize>,
    pub effects: Seq<Effect>,
}

/// A combination of ingredients together with the effects the combination
/// exhibits. Members are indices into the catalog list the potion was
/// brewed from; `effects` is resolved by the stacking rule.
pub struct Potion {
    pub ingredients: Vec<usize>,
    pub effects: Vec<Effect>,
}

impl View for Potion {
    type V = PotionView;

    open spec fn view(&self) -> PotionView {
        PotionView { ingredients: self.ingredients@, effects: self.effects@ }
    }
}

/// The views of a sequence of potions.
pub open spec fn views_of(potions: Seq<Potion>) -> Seq<PotionView> {
    potions.map_values(|p: Potion| p@)
}

/// Every member index of `combo` is below `n`.
pub open spec fn combo_in_range(combo: Seq<usize>, n: int) -> bool {
    forall|i: int| 0 <= i < combo.len() ==> combo[i] < n
}

/// How many members of `combo` carry effect `e`. Each member contributes
/// at most once, however often `e` appears in its record.
pub open spec fn members_with_effect(list: Seq<Ingredient>, combo: Seq<usize>, e: Effect) -> int
    decreases combo.len(),
{
    if combo.len() == 0 {
        0
    } else {
        members_with_effect(list, combo.drop_last(), e) + if list[combo.last() as int].spec_has_effect(e) {
            1int
        } else {
            0int
        }
    }
}

/// The resolved effects among the first `k` entries of `all_effects`:
/// those carried by at least two members of `combo`.
pub open spec fn resolved_upto(list: Seq<Ingredient>, combo: Seq<usize>, k: int) -> Seq<Effect>
    decreases k,
{
    if k <= 0 {
        Seq::empty()
    } else {
        let prev = resolved_upto(list, combo, k - 1);
        if members_with_effect(list, combo, all_effects()[k - 1]) >= 2 {
            prev.push(all_effects()[k - 1])
        } else {
            prev
        }
    }
}

/// The stacking rule: the effects carried by at least two members of
/// `combo`, in the stable display order.
pub open spec fn spec_resolved(list: Seq<Ingredient>, combo: Seq<usize>) -> Seq<Effect> {
    resolved_upto(list, combo, all_effects().len() as int)
}

/// How many members of `combo` carry effect `e`.
fn count_members_with(list: &Vec<Ingredient>, combo: &Vec<usize>, e: Effect) -> (res: usize)
    requires
        combo_in_range(combo@, list@.len() as int),
    ensures
        res == members_with_effect(list@, combo@, e),
        res <= combo@.len(),
{
    let mut count: usize = 0;
    let mut i: usize = 0;
    while i < combo.len()
        invariant
            i <= combo@.len(),
            count <= i,
            count == members_with_effect(list@, combo@.take(i as int), e),
            combo_in_range(combo@, list@.len() as int),
        decreases combo@.len() - i,
    {
        let idx = combo[i];
        proof {
            assert(combo@.take(i as int + 1).drop_last() =~= combo@.take(i as int));
            assert(combo@.take(i as int + 1).last() == combo@[i as int]);
        }
        if list[idx].has_effect(e) {
            count += 1;
        }
        i += 1;
    }
    proof {
        assert(combo@.take(combo@.len() as int) =~= combo@);
    }
    count
}

/// EffectResolver: the effects of the combination `combo`, by the
/// stacking rule, in the stable display order.
pub fn resolve_effects(list: &Vec<Ingredient>, combo: &Vec<usize>) -> (res: Vec<Effect>)
    requires
        combo_in_range(combo@, list@.len() as int),
    ensures
        res@ == spec_resolved(list@, combo@),
{
    let effects = Effect::effects_list();
    let mut res: Vec<Effect> = Vec::new();
    let mut k: usize = 0;
    while k < effects.len()
        invariant
            k <= effects@.len(),
            effects@ == all_effects(),
            res@ == resolved_upto(list@, combo@, k as int),
            combo_in_range(combo@, list@.len() as int),
        decreases effects@.len() - k,
    {
        let e = effects[k];
        let cnt = count_members_with(list, combo, e);
        if cnt >= 2 {
            res.push(e);
        }
        k += 1;
    }
    res
}

impl Potion {
    /// Brews a potion from a combination: the members given by `combo`
    /// (indices into `list`) plus their resolved effects.
    pub fn new_from_combination(list: &Vec<Ingredient>, combo: Vec<usize>) -> (res: Potion)
        requires
            combo_in_range(combo@, list@.len() as int),
        ensures
            res@ == (PotionView { ingredients: combo@, effects: spec_resolved(list@, combo@) }),
    {
        let effects = resolve_effects(list, &combo);
        Potion { ingredients: combo, effects }
    }

    /// An identical potion value.
    pub fn duplicate(&self) -> (res: Potion)
        ensures
            res@ == self@,
    {
        let mut ingredients: Vec<usize> = Vec::new();
        let mut i: usize = 0;
        while i < self.ingredients.len()
            invariant
                i <= self.ingredients@.len(),
                ingredients@ == self.ingredients@.take(i as int),
            decreases self.ingredients@.len() - i,
        {
            ingredients.push(self.ingredients[i]);
            i += 1;
        }
        let mut effects: Vec<Effect> = Vec::new();
        let mut j: usize = 0;
        while j < self.effects.len()
            invariant
                j <= self.effects@.len(),
                effects@ == self.effects@.take(j as int),
            decreases self.effects@.len() - j,
        {
            effects.push(self.effects[j]);
            j += 1;
        }
        proof {
            assert(self.ingredients@.take(self.ingredients@.len() as int) =~= self.ingredients@);
            assert(self.effects@.take(self.effects@.len() as int) =~= self.effects@);
        }
        Potion { ingredients, effects }
    }
}

} // verus!
