//! A potion-synthesis engine for an alchemy crafting domain.
//!
//! Ingredients carry up to four magical effects. A potion is brewed from
//! two to four distinct ingredients; an effect manifests in the potion
//! exactly when at least two of the chosen ingredients carry it (the
//! stacking rule). Given a set of desired effects, the engine selects the
//! ingredients that can contribute, enumerates every combination of two,
//! three or four of them, resolves each combination's effects, keeps the
//! combinations that exhibit all desired effects (and, under the strict
//! policy, nothing else), and finally prunes larger combinations whose
//! effect coverage a smaller accepted combination already subsumes.

pub mod combos;
pub mod effect;
pub mod engine;
pub mod ingredient;
pub mod laws;
pub mod potion;

pub use effect::Effect;
pub use engine::{
    create_potential_potions, filter_accepted, get_potential_ingredients, prune_potions, search,
    validate_potion,
};
pub use ingredient::Ingredient;
pub use potion::{resolve_effects, Potion, PotionView};
