use production_core::engine::{request_start, tick};
use production_core::ingredient::{Color, Ingredient, Ingredients, IngredientIndex};
use production_core::quantity::Quantity;
use production_core::recipe::{Recipe, RecipeEvent, RecipeIndex, Recipes};

fn gray() -> Color {
    Color { red: 128, green: 128, blue: 128 }
}

fn stock(name: &str, current: u64, capacity: Option<u64>) -> Ingredient {
    Ingredient {
        name: String::from(name),
        color: gray(),
        current: Quantity::new(current),
        capacity: capacity.map(Quantity::new),
    }
}

fn producer(output: IngredientIndex, amount: u64, delay: u64, automatic: bool) -> Recipe {
    Recipe {
        input: Vec::new(),
        output: vec![(output, Quantity::new(amount))],
        automatic,
        delay: Quantity::new(delay),
    }
}

#[test]
fn simple_production_cycle() {
    // Ore starts empty; an automatic recipe with no inputs, delay 0.2, and
    // one unit of output. The first tick starts the recipe; the next tick,
    // with dt = 0.25 >= 0.2, finishes it and deposits the unit.
    let mut ingredients = Ingredients::default();
    let ore = ingredients.add_ingredient(stock("Ore", 0, None));
    let mut recipes = Recipes::default();
    let r = recipes.add_recipe(producer(ore, 1000, 200, true));

    let events = tick(&mut recipes, &mut ingredients, Quantity::new(250));
    assert_eq!(events, vec![RecipeEvent::StartRecipe(r)]);
    assert!(recipes.get_recipe_holder(&r).started);
    assert_eq!(recipes.get_recipe_holder(&r).time.millis, 0);
    assert_eq!(ingredients.get(ore).current.millis, 0);

    let events = tick(&mut recipes, &mut ingredients, Quantity::new(250));
    // the finished recipe restarts in the same tick: it is still marked
    // running when starts are scanned, so only the finish is emitted now
    assert_eq!(events, vec![RecipeEvent::FinishRecipe(r)]);
    assert!(!recipes.get_recipe_holder(&r).started);
    assert_eq!(recipes.get_recipe_holder(&r).time.millis, 0);
    assert_eq!(ingredients.get(ore).current.millis, 1000);
}

#[test]
fn starvation_never_starts() {
    // a recipe requiring 2.0 Ore with only 1.0 on hand never starts,
    // however long the simulation ticks, until the stock reaches 2.0
    let mut ingredients = Ingredients::default();
    let ore = ingredients.add_ingredient(stock("Ore", 1000, None));
    let mut recipes = Recipes::default();
    let r = recipes.add_recipe(Recipe {
        input: vec![(ore, Quantity::new(2000))],
        output: Vec::new(),
        automatic: true,
        delay: Quantity::new(100),
    });

    for _ in 0..50 {
        let events = tick(&mut recipes, &mut ingredients, Quantity::new(250));
        assert!(events.is_empty());
        assert!(!recipes.get_recipe_holder(&r).started);
        assert_eq!(ingredients.get(ore).current.millis, 1000);
    }

    ingredients.get_mut(ore).add_ingredient(Quantity::new(1000));
    let events = tick(&mut recipes, &mut ingredients, Quantity::new(250));
    assert_eq!(events, vec![RecipeEvent::StartRecipe(r)]);
    assert!(recipes.get_recipe_holder(&r).started);
    assert_eq!(ingredients.get(ore).current.millis, 0);
}

#[test]
fn contested_resource_overcommits_and_floors() {
    // 5.0 Coal, two automatic recipes each requiring 4.0: both see the same
    // pre-tick snapshot, both start, and the second withdrawal floors at
    // zero instead of rejecting — the documented over-commitment
    let mut ingredients = Ingredients::default();
    let coal = ingredients.add_ingredient(stock("Coal", 5000, None));
    let mut recipes = Recipes::default();
    let need_four = |coal: IngredientIndex| Recipe {
        input: vec![(coal, Quantity::new(4000))],
        output: Vec::new(),
        automatic: true,
        delay: Quantity::new(1000),
    };
    let first = recipes.add_recipe(need_four(coal));
    let second = recipes.add_recipe(need_four(coal));

    let events = tick(&mut recipes, &mut ingredients, Quantity::new(100));
    assert_eq!(
        events,
        vec![RecipeEvent::StartRecipe(first), RecipeEvent::StartRecipe(second)]
    );
    assert!(recipes.get_recipe_holder(&first).started);
    assert!(recipes.get_recipe_holder(&second).started);
    assert_eq!(ingredients.get(coal).current.millis, 0);
}

#[test]
fn manual_recipe_waits_for_request() {
    // an automatic=false recipe never self-triggers, no matter how abundant
    // its inputs are; an explicit request starts it through the same gate
    let mut ingredients = Ingredients::default();
    let ore = ingredients.add_ingredient(stock("Ore", 100_000, None));
    let mut recipes = Recipes::default();
    let r = recipes.add_recipe(Recipe {
        input: vec![(ore, Quantity::new(1000))],
        output: Vec::new(),
        automatic: false,
        delay: Quantity::new(500),
    });

    for _ in 0..50 {
        let events = tick(&mut recipes, &mut ingredients, Quantity::new(300));
        assert!(events.is_empty());
        assert!(!recipes.get_recipe_holder(&r).started);
    }
    assert_eq!(ingredients.get(ore).current.millis, 100_000);

    assert!(request_start(&mut recipes, &mut ingredients, r));
    assert!(recipes.get_recipe_holder(&r).started);
    assert_eq!(ingredients.get(ore).current.millis, 99_000);

    // a second request while it runs is refused and changes nothing
    assert!(!request_start(&mut recipes, &mut ingredients, r));
    assert_eq!(ingredients.get(ore).current.millis, 99_000);
}

#[test]
fn request_start_refused_when_unsatisfied() {
    let mut ingredients = Ingredients::default();
    let ore = ingredients.add_ingredient(stock("Ore", 500, None));
    let mut recipes = Recipes::default();
    let r = recipes.add_recipe(Recipe {
        input: vec![(ore, Quantity::new(1000))],
        output: Vec::new(),
        automatic: false,
        delay: Quantity::new(500),
    });
    assert!(!request_start(&mut recipes, &mut ingredients, r));
    assert!(!recipes.get_recipe_holder(&r).started);
    assert_eq!(ingredients.get(ore).current.millis, 500);
}

#[test]
fn automation_toggle_blocks_new_starts_only() {
    // switching automation off never interrupts a running recipe; it only
    // blocks new automatic starts
    let mut ingredients = Ingredients::default();
    let ore = ingredients.add_ingredient(stock("Ore", 0, Some(10_000)));
    let mut recipes = Recipes::default();
    let r = recipes.add_recipe(producer(ore, 1000, 400, true));

    let events = tick(&mut recipes, &mut ingredients, Quantity::new(100));
    assert_eq!(events, vec![RecipeEvent::StartRecipe(r)]);

    recipes.set_automation(r, false);
    let events = tick(&mut recipes, &mut ingredients, Quantity::new(200));
    assert!(events.is_empty());
    let events = tick(&mut recipes, &mut ingredients, Quantity::new(200));
    assert_eq!(events, vec![RecipeEvent::FinishRecipe(r)]);
    assert_eq!(ingredients.get(ore).current.millis, 1000);

    // automation is off: the recipe now rests, inputs or not
    for _ in 0..10 {
        let events = tick(&mut recipes, &mut ingredients, Quantity::new(200));
        assert!(events.is_empty());
        assert!(!recipes.get_recipe_holder(&r).started);
    }

    recipes.set_automation(r, true);
    let events = tick(&mut recipes, &mut ingredients, Quantity::new(200));
    assert_eq!(events, vec![RecipeEvent::StartRecipe(r)]);
}

#[test]
fn timer_accumulates_across_ticks() {
    let mut ingredients = Ingredients::default();
    let ore = ingredients.add_ingredient(stock("Ore", 0, None));
    let mut recipes = Recipes::default();
    let r = recipes.add_recipe(producer(ore, 500, 1000, true));

    tick(&mut recipes, &mut ingredients, Quantity::new(400));
    assert!(recipes.get_recipe_holder(&r).started);
    tick(&mut recipes, &mut ingredients, Quantity::new(400));
    assert_eq!(recipes.get_recipe_holder(&r).time.millis, 400);
    tick(&mut recipes, &mut ingredients, Quantity::new(400));
    assert_eq!(recipes.get_recipe_holder(&r).time.millis, 800);
    let events = tick(&mut recipes, &mut ingredients, Quantity::new(400));
    assert_eq!(events, vec![RecipeEvent::FinishRecipe(r)]);
    assert_eq!(recipes.get_recipe_holder(&r).time.millis, 0);
    assert_eq!(ingredients.get(ore).current.millis, 500);
}

#[test]
fn finishes_are_emitted_before_starts() {
    // the finish group precedes the start group, whatever the registration
    // order: here the later-registered recipe finishes in the same tick in
    // which the earlier-registered one starts
    let mut ingredients = Ingredients::default();
    let ore = ingredients.add_ingredient(stock("Ore", 1000, None));
    let mut recipes = Recipes::default();
    let eater = recipes.add_recipe(Recipe {
        input: vec![(ore, Quantity::new(1000))],
        output: Vec::new(),
        automatic: true,
        delay: Quantity::new(900),
    });
    let miner = recipes.add_recipe(producer(ore, 500, 200, true));

    recipes.set_automation(eater, false);
    let events = tick(&mut recipes, &mut ingredients, Quantity::new(100));
    assert_eq!(events, vec![RecipeEvent::StartRecipe(miner)]);

    recipes.set_automation(eater, true);
    let events = tick(&mut recipes, &mut ingredients, Quantity::new(250));
    assert_eq!(
        events,
        vec![RecipeEvent::FinishRecipe(miner), RecipeEvent::StartRecipe(eater)]
    );
    // the finish deposited 0.5 and the start withdrew 1.0 from the 1.0 held
    assert_eq!(ingredients.get(ore).current.millis, 500);
}

#[test]
fn conversion_recipe_moves_stock() {
    // 2 Ore + 1 Coal -> 2 Iron, as a full start/finish round
    let mut ingredients = Ingredients::default();
    let ore = ingredients.add_ingredient(stock("Ore", 4000, None));
    let coal = ingredients.add_ingredient(stock("Coal", 3000, None));
    let iron = ingredients.add_ingredient(stock("Iron", 0, Some(250_000)));
    let mut recipes = Recipes::default();
    let smelt = recipes.add_recipe(Recipe {
        input: vec![(ore, Quantity::new(2000)), (coal, Quantity::new(1000))],
        output: vec![(iron, Quantity::new(2000))],
        automatic: true,
        delay: Quantity::new(2000),
    });

    let events = tick(&mut recipes, &mut ingredients, Quantity::new(500));
    assert_eq!(events, vec![RecipeEvent::StartRecipe(smelt)]);
    assert_eq!(ingredients.get(ore).current.millis, 2000);
    assert_eq!(ingredients.get(coal).current.millis, 2000);
    assert_eq!(ingredients.get(iron).current.millis, 0);

    for _ in 0..4 {
        tick(&mut recipes, &mut ingredients, Quantity::new(500));
    }
    assert!(!recipes.get_recipe_holder(&smelt).started);
    assert_eq!(ingredients.get(iron).current.millis, 2000);
    assert_eq!(ingredients.get(ore).current.millis, 2000);
    assert_eq!(ingredients.get(coal).current.millis, 2000);

    // the inputs are still covered, so the next tick starts a second round
    let events = tick(&mut recipes, &mut ingredients, Quantity::new(500));
    assert_eq!(events, vec![RecipeEvent::StartRecipe(smelt)]);
    assert_eq!(ingredients.get(ore).current.millis, 0);
    assert_eq!(ingredients.get(coal).current.millis, 1000);
}

#[test]
fn enumerate_walks_registration_order() {
    let mut recipes = Recipes::default();
    let a = recipes.add_recipe(Recipe {
        input: Vec::new(),
        output: Vec::new(),
        automatic: true,
        delay: Quantity::new(100),
    });
    let b = recipes.add_recipe(Recipe {
        input: Vec::new(),
        output: Vec::new(),
        automatic: false,
        delay: Quantity::new(200),
    });
    let listed: Vec<(usize, bool, u64)> = recipes
        .enumerate()
        .into_iter()
        .map(|(ix, holder)| (ix.ix(), holder.recipe.automatic, holder.recipe.delay.millis))
        .collect();
    assert_eq!(listed, vec![(a.ix(), true, 100), (b.ix(), false, 200)]);
}

#[test]
fn recipe_index_round_trip() {
    let mut recipes = Recipes::default();
    let r = recipes.add_recipe(Recipe {
        input: Vec::new(),
        output: Vec::new(),
        automatic: false,
        delay: Quantity::new(1),
    });
    assert_eq!(r.ix(), 0);
    assert_eq!(recipes.len(), 1);
    assert_eq!(RecipeIndex(0).ix(), 0);
    assert!(!recipes.get_recipe(&r).automatic);
    assert!(recipes.get_recipe_holder(&r).automation_enabled);
    recipes.get_recipe_holder_mut(&r).automation_enabled = false;
    assert!(!recipes.get_recipe_holder(&r).automation_enabled);
}
