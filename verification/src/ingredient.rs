//! Catalog entries: named ingredients carrying up to four distinct effects.

use crate::effect::Effect;
use vstd::prelude::*;

verus! {

/// A named ingredient with its fixed effects. The engine never mutates an
/// ingredient; a catalog is an immutable list of these, and combinations
/// refer to entries by index.
pub struct Ingredient {
    pub name: String,
    pub effects: Vec<Effect>,
}

/// No effect is repeated in `effects`.
pub open spec fn distinct_effects(effects: Seq<Effect>) -> bool {
    forall|i: int, j: int| 0 <= i < j < effects.len() ==> effects[i] != effects[j]
}

impl Ingredient {
    /// A well-formed catalog entry carries at most four effects, none repeated.
    pub open spec fn wf(self) -> bool {
        self.effects@.len() <= 4 && distinct_effects(self.effects@)
    }

    /// Whether this ingredient carries effect `e`.
    pub open spec fn spec_has_effect(self, e: Effect) -> bool {
        self.effects@.contains(e)
    }

    /// Builds a catalog entry, rejecting records with more than four
    /// effects or with a repeated effect. Acting as the validation step
    /// the engine assumes the catalog went through.
    pub fn new(name: String, effects: Vec<Effect>) -> (res: Option<Ingredient>)
        ensures
            match res {
                Some(ing) => {
                    &&& ing.wf()
                    &&& ing.name@ == name@
                    &&& ing.effects@ == effects@
                },
                None => !(effects@.len() <= 4 && distinct_effects(effects@)),
            },
    {
        if effects.len() > 4 {
            return None;
        }
        let mut i: usize = 0;
        while i < effects.len()
            invariant
                i <= effects@.len(),
                forall|a: int, b: int| 0 <= a < b < i ==> effects@[a] != effects@[b],
            decreases effects@.len() - i,
        {
            let mut j: usize = 0;
            while j < i
                invariant
                    j <= i,
                    i < effects@.len(),
                    forall|b: int| 0 <= b < j ==> effects@[b] != effects@[i as int],
                decreases i - j,
            {
                if effects[j] == effects[i] {
                    return None;
                }
                j += 1;
            }
            i += 1;
        }
        Some(Ingredient { name, effects })
    }

    /// Whether this ingredient carries effect `e`.
    pub fn has_effect(&self, e: Effect) -> (res: bool)
        ensures
            res == self.spec_has_effect(e),
    {
        crate::effect::contains_effect(&self.effects, e)
    }
}

} // verus!
