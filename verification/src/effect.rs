//! The fixed enumeration of magical effects.

use vstd::prelude::*;
use vstd::string::StringExecFns;

verus! {

/// A magical property an ingredient can carry. Equality is by identity;
/// the declaration order is the stable display order.
#[derive(Clone, Copy, Debug, PartialEq, Eq, Structural)]
pub enum Effect {
    Fire,
    Water,
    Air,
    Earth,
    Frost,
    Shock,
    Poison,
    Light,
}

/// Every effect, in the stable display order.
pub open spec fn all_effects() -> Seq<Effect> {
    seq![
        Effect::Fire,
        Effect::Water,
        Effect::Air,
        Effect::Earth,
        Effect::Frost,
        Effect::Shock,
        Effect::Poison,
        Effect::Light,
    ]
}

/// `all_effects` really lists every effect.
pub proof fn lemma_all_effects_complete(e: Effect)
    ensures
        all_effects().contains(e),
{
    match e {
        Effect::Fire => assert(all_effects()[0] == e),
        Effect::Water => assert(all_effects()[1] == e),
        Effect::Air => assert(all_effects()[2] == e),
        Effect::Earth => assert(all_effects()[3] == e),
        Effect::Frost => assert(all_effects()[4] == e),
        Effect::Shock => assert(all_effects()[5] == e),
        Effect::Poison => assert(all_effects()[6] == e),
        Effect::Light => assert(all_effects()[7] == e),
    }
}

impl Effect {
    /// The display name of the effect.
    pub open spec fn spec_name(self) -> Seq<char> {
        match self {
            Effect::Fire => "Fire"@,
            Effect::Water => "Water"@,
            Effect::Air => "Air"@,
            Effect::Earth => "Earth"@,
            Effect::Frost => "Frost"@,
            Effect::Shock => "Shock"@,
            Effect::Poison => "Poison"@,
            Effect::Light => "Light"@,
        }
    }

    /// The display name of the effect.
    pub fn name(&self) -> (res: String)
        ensures
            res@ == self.spec_name(),
    {
        match self {
            Effect::Fire => String::from_str("Fire"),
            Effect::Water => String::from_str("Water"),
            Effect::Air => String::from_str("Air"),
            Effect::Earth => String::from_str("Earth"),
            Effect::Frost => String::from_str("Frost"),
            Effect::Shock => String::from_str("Shock"),
            Effect::Poison => String::from_str("Poison"),
            Effect::Light => String::from_str("Light"),
        }
    }

    /// Every effect, in the stable display order.
    pub fn effects_list() -> (res: Vec<Effect>)
        ensures
            res@ == all_effects(),
    {
        let mut res: Vec<Effect> = Vec::new();
        res.push(Effect::Fire);
        res.push(Effect::Water);
        res.push(Effect::Air);
        res.push(Effect::Earth);
        res.push(Effect::Frost);
        res.push(Effect::Shock);
        res.push(Effect::Poison);
        res.push(Effect::Light);
        proof {
            assert(res@ =~= all_effects());
        }
        res
    }
}

/// Whether a sequence of effects contains `e`.
pub fn contains_effect(effects: &Vec<Effect>, e: Effect) -> (res: bool)
    ensures
        res == effects@.contains(e),
{
    let mut i: usize = 0;
    while i < effects.len()
        invariant
            i <= effects@.len(),
            forall|j: int| 0 <= j < i ==> effects@[j] != e,
        decreases effects@.len() - i,
    {
        if effects[i] == e {
            return true;
        }
        i += 1;
    }
    false
}

} // verus!
