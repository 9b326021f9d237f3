use alchemy_engine::{
    create_potential_potions, filter_accepted, get_potential_ingredients, prune_potions, search,
    validate_potion, Effect, Ingredient, Potion,
};

fn ing(name: &str, effects: &[Effect]) -> Ingredient {
    Ingredient::new(name.to_string(), effects.to_vec()).expect("well-formed ingredient")
}

fn desired2(a: Effect, b: Effect) -> [Option<Effect>; 4] {
    [Some(a), Some(b), None, None]
}

#[test]
fn pair_resolution_is_intersection() {
    // Two ingredients: resolved effects are exactly the shared ones.
    let catalog = vec![
        ing("A", &[Effect::Fire, Effect::Water]),
        ing("B", &[Effect::Fire, Effect::Air]),
    ];
    let combo = vec![0usize, 1usize];
    let resolved = alchemy_engine::resolve_effects(&catalog, &combo);
    assert_eq!(resolved, vec![Effect::Fire]);
}

#[test]
fn single_occurrence_is_suppressed() {
    // An effect carried by exactly one member never manifests.
    let catalog = vec![
        ing("A", &[Effect::Poison, Effect::Water]),
        ing("B", &[Effect::Water, Effect::Light]),
        ing("C", &[Effect::Water]),
    ];
    let combo = vec![0usize, 1usize, 2usize];
    let resolved = alchemy_engine::resolve_effects(&catalog, &combo);
    assert_eq!(resolved, vec![Effect::Water]);
}

#[test]
fn threshold_stays_two_for_larger_combinations() {
    // Each pair shares one effect, so all three manifest in the triple.
    let catalog = vec![
        ing("A", &[Effect::Fire, Effect::Water]),
        ing("B", &[Effect::Fire, Effect::Air]),
        ing("C", &[Effect::Water, Effect::Air]),
    ];
    let combo = vec![0usize, 1usize, 2usize];
    let resolved = alchemy_engine::resolve_effects(&catalog, &combo);
    assert_eq!(resolved, vec![Effect::Fire, Effect::Water, Effect::Air]);
}

#[test]
fn candidate_selection_keeps_only_contributors() {
    let catalog = vec![
        ing("A", &[Effect::Fire, Effect::Water]),
        ing("B", &[Effect::Earth, Effect::Shock]),
        ing("C", &[Effect::Water]),
        ing("D", &[]),
    ];
    let desired = desired2(Effect::Fire, Effect::Water);
    let members = get_potential_ingredients(&desired, &catalog);
    assert_eq!(members, vec![0usize, 2usize]);
}

#[test]
fn empty_desired_effects_give_no_candidates_and_no_potions() {
    let catalog = vec![
        ing("A", &[Effect::Fire, Effect::Water]),
        ing("B", &[Effect::Fire, Effect::Water]),
    ];
    let desired: [Option<Effect>; 4] = [None, None, None, None];
    assert!(get_potential_ingredients(&desired, &catalog).is_empty());
    assert!(search(&catalog, &desired, true).is_empty());
}

#[test]
fn no_matching_ingredient_gives_empty_result() {
    let catalog = vec![ing("A", &[Effect::Earth]), ing("B", &[Effect::Shock])];
    let desired = desired2(Effect::Fire, Effect::Water);
    assert!(search(&catalog, &desired, false).is_empty());
    assert!(search(&catalog, &desired, true).is_empty());
}

#[test]
fn validator_requires_all_desired_effects() {
    let potion = Potion { ingredients: vec![0, 1], effects: vec![Effect::Fire] };
    let desired = desired2(Effect::Fire, Effect::Water);
    assert!(!validate_potion(&potion, &desired, true));
    assert!(!validate_potion(&potion, &desired, false));
}

#[test]
fn validator_policy_governs_extra_effects() {
    let potion = Potion {
        ingredients: vec![0, 1],
        effects: vec![Effect::Fire, Effect::Water, Effect::Air],
    };
    let desired = desired2(Effect::Fire, Effect::Water);
    assert!(validate_potion(&potion, &desired, true));
    assert!(!validate_potion(&potion, &desired, false));

    let exact = Potion { ingredients: vec![0, 1], effects: vec![Effect::Fire, Effect::Water] };
    assert!(validate_potion(&exact, &desired, false));
}

#[test]
fn duplicate_desired_slots_collapse() {
    // Repeating a desired effect over several slots asks for nothing more.
    let catalog = vec![
        ing("D", &[Effect::Fire, Effect::Water]),
        ing("E", &[Effect::Fire, Effect::Water]),
    ];
    let desired = [Some(Effect::Fire), Some(Effect::Fire), Some(Effect::Water), None];
    let result = search(&catalog, &desired, false);
    assert_eq!(result.len(), 1);
    assert_eq!(result[0].ingredients, vec![0usize, 1usize]);
}

#[test]
fn scenario_three_elemental_ingredients() {
    // A={Fire,Water}, B={Fire,Air}, C={Water,Air}; desired {Fire,Water}.
    // Every pair misses a desired effect; the triple resolves all three
    // elemental effects, so it fails the strict policy (Air is extra) but
    // is the single surviving potion when extras are allowed.
    let catalog = vec![
        ing("A", &[Effect::Fire, Effect::Water]),
        ing("B", &[Effect::Fire, Effect::Air]),
        ing("C", &[Effect::Water, Effect::Air]),
    ];
    let desired = desired2(Effect::Fire, Effect::Water);

    let strict = search(&catalog, &desired, false);
    assert!(strict.is_empty());

    let lenient = search(&catalog, &desired, true);
    assert_eq!(lenient.len(), 1);
    assert_eq!(lenient[0].ingredients, vec![0usize, 1usize, 2usize]);
    assert_eq!(lenient[0].effects, vec![Effect::Fire, Effect::Water, Effect::Air]);
}

#[test]
fn scenario_two_matching_ingredients() {
    // D={Fire,Water}, E={Fire,Water}; desired {Fire,Water}, strict policy.
    let catalog = vec![
        ing("D", &[Effect::Fire, Effect::Water]),
        ing("E", &[Effect::Fire, Effect::Water]),
    ];
    let desired = desired2(Effect::Fire, Effect::Water);
    let result = search(&catalog, &desired, false);
    assert_eq!(result.len(), 1);
    assert_eq!(result[0].ingredients, vec![0usize, 1usize]);
    assert_eq!(result[0].effects, vec![Effect::Fire, Effect::Water]);
}

#[test]
fn scenario_larger_combinations_with_same_coverage_are_pruned() {
    // Three interchangeable ingredients: every pair is accepted, and the
    // triple, covering nothing new, is pruned.
    let catalog = vec![
        ing("D", &[Effect::Fire, Effect::Water]),
        ing("E", &[Effect::Fire, Effect::Water]),
        ing("F", &[Effect::Fire, Effect::Water]),
    ];
    let desired = desired2(Effect::Fire, Effect::Water);
    let result = search(&catalog, &desired, false);
    assert_eq!(result.len(), 3);
    assert_eq!(result[0].ingredients, vec![0usize, 1usize]);
    assert_eq!(result[1].ingredients, vec![0usize, 2usize]);
    assert_eq!(result[2].ingredients, vec![1usize, 2usize]);
    for potion in &result {
        assert_eq!(potion.effects, vec![Effect::Fire, Effect::Water]);
    }
}

#[test]
fn pruning_keeps_a_larger_potion_with_new_coverage() {
    // The pair {A,B} yields only Fire; the triple {A,B,C} adds Water and
    // Air, so it is not subsumed and survives.
    let catalog = vec![
        ing("A", &[Effect::Fire, Effect::Water, Effect::Air]),
        ing("B", &[Effect::Fire, Effect::Water, Effect::Shock]),
        ing("C", &[Effect::Fire, Effect::Air, Effect::Shock]),
    ];
    let desired = [Some(Effect::Fire), None, None, None];
    let result = search(&catalog, &desired, true);
    // pairs first, then the triple
    assert_eq!(result.len(), 4);
    assert_eq!(result[0].ingredients, vec![0usize, 1usize]);
    assert_eq!(result[1].ingredients, vec![0usize, 2usize]);
    assert_eq!(result[2].ingredients, vec![1usize, 2usize]);
    assert_eq!(result[3].ingredients, vec![0usize, 1usize, 2usize]);
    assert_eq!(result[3].effects, vec![Effect::Fire, Effect::Water, Effect::Air, Effect::Shock]);
}

#[test]
fn four_ingredients_needed_for_four_effects() {
    // Each desired effect is shared by exactly one pair, so only the full
    // four-ingredient combination exhibits all of them.
    let catalog = vec![
        ing("A", &[Effect::Fire, Effect::Water]),
        ing("B", &[Effect::Fire, Effect::Air]),
        ing("C", &[Effect::Water, Effect::Earth]),
        ing("D", &[Effect::Air, Effect::Earth]),
    ];
    let desired =
        [Some(Effect::Fire), Some(Effect::Water), Some(Effect::Air), Some(Effect::Earth)];
    let result = search(&catalog, &desired, false);
    assert_eq!(result.len(), 1);
    assert_eq!(result[0].ingredients, vec![0usize, 1usize, 2usize, 3usize]);
    assert_eq!(
        result[0].effects,
        vec![Effect::Fire, Effect::Water, Effect::Air, Effect::Earth]
    );
}

#[test]
fn prune_potions_drops_covered_larger_groups() {
    let small = Potion { ingredients: vec![0, 1], effects: vec![Effect::Fire, Effect::Water] };
    let covered3 = Potion { ingredients: vec![0, 1, 2], effects: vec![Effect::Fire] };
    let surviving3 = Potion {
        ingredients: vec![0, 1, 3],
        effects: vec![Effect::Fire, Effect::Air],
    };
    let covered4 = Potion { ingredients: vec![0, 1, 2, 3], effects: vec![Effect::Air] };
    let potions = vec![small, covered3, surviving3, covered4];
    let result = prune_potions(&potions);
    assert_eq!(result.len(), 2);
    assert_eq!(result[0].ingredients, vec![0usize, 1usize]);
    assert_eq!(result[1].ingredients, vec![0usize, 1usize, 3usize]);
}

#[test]
fn create_potential_potions_respects_member_selection() {
    // Only the selected members are combined.
    let catalog = vec![
        ing("A", &[Effect::Fire, Effect::Water]),
        ing("B", &[Effect::Fire, Effect::Water]),
        ing("C", &[Effect::Fire, Effect::Water]),
    ];
    let desired = desired2(Effect::Fire, Effect::Water);
    let members = vec![0usize, 2usize];
    let potions = create_potential_potions(&desired, &catalog, &members);
    assert_eq!(potions.len(), 1);
    assert_eq!(potions[0].ingredients, vec![0usize, 2usize]);
    assert_eq!(potions[0].effects, vec![Effect::Fire, Effect::Water]);
}

#[test]
fn filter_accepted_applies_the_policy() {
    let exact = Potion { ingredients: vec![0, 1], effects: vec![Effect::Fire, Effect::Water] };
    let extra = Potion {
        ingredients: vec![0, 2],
        effects: vec![Effect::Fire, Effect::Water, Effect::Air],
    };
    let desired = desired2(Effect::Fire, Effect::Water);
    let potions = vec![exact, extra];

    let strict = filter_accepted(&potions, &desired, false);
    assert_eq!(strict.len(), 1);
    assert_eq!(strict[0].ingredients, vec![0usize, 1usize]);

    let lenient = filter_accepted(&potions, &desired, true);
    assert_eq!(lenient.len(), 2);
}

#[test]
fn search_is_deterministic() {
    let catalog = vec![
        ing("A", &[Effect::Fire, Effect::Water]),
        ing("B", &[Effect::Fire, Effect::Air]),
        ing("C", &[Effect::Water, Effect::Air]),
        ing("D", &[Effect::Fire, Effect::Water, Effect::Air]),
    ];
    let desired = desired2(Effect::Fire, Effect::Water);
    let first = search(&catalog, &desired, true);
    let second = search(&catalog, &desired, true);
    assert_eq!(first.len(), second.len());
    for (p, q) in first.iter().zip(second.iter()) {
        assert_eq!(p.ingredients, q.ingredients);
        assert_eq!(p.effects, q.effects);
    }
}

#[test]
fn every_result_potion_is_well_formed() {
    let catalog = vec![
        ing("A", &[Effect::Fire, Effect::Water]),
        ing("B", &[Effect::Fire, Effect::Air]),
        ing("C", &[Effect::Water, Effect::Air]),
        ing("D", &[Effect::Fire, Effect::Water, Effect::Air]),
        ing("E", &[Effect::Fire, Effect::Poison]),
    ];
    let desired = desired2(Effect::Fire, Effect::Water);
    let result = search(&catalog, &desired, true);
    assert!(!result.is_empty());
    for potion in &result {
        assert!(2 <= potion.ingredients.len() && potion.ingredients.len() <= 4);
        for i in 0..potion.ingredients.len() {
            assert!(potion.ingredients[i] < catalog.len());
            for j in 0..i {
                assert_ne!(potion.ingredients[i], potion.ingredients[j]);
            }
        }
    }
}

#[test]
fn brewing_a_potion_resolves_its_effects() {
    let catalog = vec![
        ing("A", &[Effect::Frost, Effect::Shock]),
        ing("B", &[Effect::Frost, Effect::Light]),
        ing("C", &[Effect::Shock, Effect::Light]),
    ];
    let potion = Potion::new_from_combination(&catalog, vec![0, 2]);
    assert_eq!(potion.ingredients, vec![0usize, 2usize]);
    assert_eq!(potion.effects, vec![Effect::Shock]);
}

#[test]
fn ingredient_rejects_more_than_four_effects() {
    let effects = vec![Effect::Fire, Effect::Water, Effect::Air, Effect::Earth, Effect::Frost];
    assert!(Ingredient::new("Overfull".to_string(), effects).is_none());
}

#[test]
fn ingredient_rejects_repeated_effects() {
    let effects = vec![Effect::Fire, Effect::Fire];
    assert!(Ingredient::new("Doubled".to_string(), effects).is_none());
}

#[test]
fn effects_list_and_names_are_stable() {
    let all = Effect::effects_list();
    assert_eq!(all.len(), 8);
    assert_eq!(all[0], Effect::Fire);
    assert_eq!(all[1], Effect::Water);
    assert_eq!(all[2], Effect::Air);
    assert_eq!(Effect::Fire.name(), "Fire");
    assert_eq!(Effect::Poison.name(), "Poison");
}
