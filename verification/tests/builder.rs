use production_core::engine::tick;
use production_core::game_builder::{BuildWarning, GameBuilder};
use production_core::ingredient::{Color, IngredientIndex};
use production_core::quantity::Quantity;

fn beige() -> Color {
    Color { red: 245, green: 245, blue: 220 }
}

fn pairs(list: &[(&str, u64)]) -> Vec<(String, Quantity)> {
    list.iter().map(|(id, q)| (String::from(*id), Quantity::new(*q))).collect()
}

#[test]
fn builds_resolved_tables() {
    let (ingredients, recipes, warnings) = GameBuilder::new()
        .add_ingredient(
            String::from("ingr_iron_ore"),
            String::from("Iron Ore"),
            Some(Quantity::new(150_000)),
            beige(),
        )
        .add_ingredient(
            String::from("ingr_iron_ingot"),
            String::from("Iron"),
            Some(Quantity::new(250_000)),
            beige(),
        )
        .add_recipe(
            String::from("reci_mine_iron_ore"),
            pairs(&[]),
            pairs(&[("ingr_iron_ore", 1000)]),
            Quantity::new(200),
            true,
        )
        .add_recipe(
            String::from("reci_smelt_iron"),
            pairs(&[("ingr_iron_ore", 2000)]),
            pairs(&[("ingr_iron_ingot", 2000)]),
            Quantity::new(2000),
            true,
        )
        .build();

    assert!(warnings.is_empty());
    assert_eq!(ingredients.len(), 2);
    assert_eq!(recipes.len(), 2);
    let ore = IngredientIndex(0);
    let ingot = IngredientIndex(1);
    assert_eq!(ingredients.get(ore).name, "Iron Ore");
    assert_eq!(ingredients.get(ore).capacity, Some(Quantity::new(150_000)));
    assert_eq!(ingredients.get(ore).current.millis, 0);
    assert_eq!(ingredients.get(ingot).name, "Iron");

    let miner = production_core::recipe::RecipeIndex(0);
    let smelter = production_core::recipe::RecipeIndex(1);
    assert_eq!(recipes.get_recipe(&miner).output, vec![(ore, Quantity::new(1000))]);
    assert!(recipes.get_recipe(&miner).input.is_empty());
    assert_eq!(recipes.get_recipe(&miner).delay, Quantity::new(200));
    assert_eq!(
        recipes.get_recipe(&smelter).input,
        vec![(ore, Quantity::new(2000))]
    );
    assert_eq!(
        recipes.get_recipe(&smelter).output,
        vec![(ingot, Quantity::new(2000))]
    );
    let holder = recipes.get_recipe_holder(&smelter);
    assert!(!holder.started);
    assert!(holder.automation_enabled);
    assert_eq!(holder.time.millis, 0);
}

#[test]
fn built_tables_run_in_the_engine() {
    let (mut ingredients, mut recipes, warnings) = GameBuilder::new()
        .add_ingredient(String::from("ore"), String::from("Ore"), None, beige())
        .add_recipe(
            String::from("mine"),
            pairs(&[]),
            pairs(&[("ore", 1000)]),
            Quantity::new(200),
            true,
        )
        .build();
    assert!(warnings.is_empty());
    tick(&mut recipes, &mut ingredients, Quantity::new(250));
    tick(&mut recipes, &mut ingredients, Quantity::new(250));
    assert_eq!(ingredients.get(IngredientIndex(0)).current.millis, 1000);
}

#[test]
fn unknown_ingredient_is_reported_and_dropped() {
    let (mut ingredients, mut recipes, warnings) = GameBuilder::new()
        .add_ingredient(String::from("ore"), String::from("Ore"), None, beige())
        .add_recipe(
            String::from("mystery"),
            pairs(&[("unobtainium", 5000)]),
            pairs(&[("ore", 1000)]),
            Quantity::new(100),
            true,
        )
        .build();

    assert_eq!(
        warnings,
        vec![BuildWarning::UnknownIngredient {
            recipe: String::from("mystery"),
            ingredient: String::from("unobtainium"),
        }]
    );
    // the offending pair is dropped, not the recipe: with no inputs left,
    // it simply runs
    let miner = production_core::recipe::RecipeIndex(0);
    assert!(recipes.get_recipe(&miner).input.is_empty());
    tick(&mut recipes, &mut ingredients, Quantity::new(150));
    tick(&mut recipes, &mut ingredients, Quantity::new(150));
    assert_eq!(ingredients.get(IngredientIndex(0)).current.millis, 1000);
}

#[test]
fn duplicate_ids_warn_and_last_wins() {
    let (ingredients, recipes, warnings) = GameBuilder::new()
        .add_ingredient(String::from("ore"), String::from("Old Ore"), None, beige())
        .add_ingredient(String::from("ore"), String::from("New Ore"), None, beige())
        .add_recipe(
            String::from("mine"),
            pairs(&[]),
            pairs(&[("ore", 1000)]),
            Quantity::new(100),
            true,
        )
        .add_recipe(
            String::from("mine"),
            pairs(&[]),
            pairs(&[]),
            Quantity::new(100),
            false,
        )
        .build();

    assert_eq!(
        warnings,
        vec![
            BuildWarning::DuplicateIngredientId(String::from("ore")),
            BuildWarning::DuplicateRecipeId(String::from("mine")),
        ]
    );
    // both declarations are registered; resolution picks the last one
    assert_eq!(ingredients.len(), 2);
    let miner = production_core::recipe::RecipeIndex(0);
    assert_eq!(
        recipes.get_recipe(&miner).output,
        vec![(IngredientIndex(1), Quantity::new(1000))]
    );
    assert_eq!(ingredients.get(IngredientIndex(1)).name, "New Ore");
}

#[test]
fn warning_order_follows_declarations() {
    let (_, _, warnings) = GameBuilder::new()
        .add_ingredient(String::from("a"), String::from("A"), None, beige())
        .add_ingredient(String::from("a"), String::from("A again"), None, beige())
        .add_recipe(
            String::from("r"),
            pairs(&[("missing_in", 1)]),
            pairs(&[("missing_out", 2)]),
            Quantity::new(100),
            true,
        )
        .build();
    assert_eq!(
        warnings,
        vec![
            BuildWarning::DuplicateIngredientId(String::from("a")),
            BuildWarning::UnknownIngredient {
                recipe: String::from("r"),
                ingredient: String::from("missing_in"),
            },
            BuildWarning::UnknownIngredient {
                recipe: String::from("r"),
                ingredient: String::from("missing_out"),
            },
        ]
    );
}

#[test]
fn empty_builder_builds_empty_tables() {
    let (ingredients, recipes, warnings) = GameBuilder::new().build();
    assert_eq!(ingredients.len(), 0);
    assert_eq!(recipes.len(), 0);
    assert!(warnings.is_empty());
}
