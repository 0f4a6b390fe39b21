//! The tick driver: once per simulation step it advances the timers of
//! running recipes, decides every start and finish against one consistent
//! snapshot, and then applies the decisions in one deterministic batch,
//! handing the same notification stream to any outside observer.

use vstd::prelude::*;

verus! {

use crate::ingredient::Ingredient;
use crate::ingredient::Ingredients;
use crate::ingredient::IngredientIndex;
use crate::ingredient::spec_deposit;
use crate::ingredient::spec_withdraw;
use crate::quantity::Quantity;
use crate::quantity::spec_saturating_add;
use crate::recipe::Recipe;
use crate::recipe::RecipeEvent;
use crate::recipe::RecipeHolder;
use crate::recipe::RecipeIndex;
use crate::recipe::Recipes;
use crate::recipe::recipe_refs_valid;
use crate::recipe::recipes_refs_valid;
use crate::recipe::spec_can_run_n_times;

// ---------------------------------------------------------------------------
// The tick, as a mathematical function.
//
// A tick decides first and applies second. The decision pass advances the
// timer of every running recipe and collects notifications: finishes for the
// running recipes whose advanced timer reaches their delay, then starts for
// the idle automatic recipes whose inputs the pre-tick store satisfies. The
// apply pass then replays the notifications in emission order against the
// two tables.
// ---------------------------------------------------------------------------

/// One runtime state after its timer advanced by `dt`: the timer moves only
/// while the recipe runs.
pub open spec fn advance_holder(h: RecipeHolder, dt: Quantity) -> RecipeHolder {
    if h.started {
        RecipeHolder { time: Quantity { millis: spec_saturating_add(h.time.millis, dt.millis) }, ..h }
    } else {
        h
    }
}

/// All runtime states after their timers advanced by `dt`.
pub open spec fn advance_all(rs: Seq<RecipeHolder>, dt: Quantity) -> Seq<RecipeHolder> {
    Seq::new(rs.len(), |i: int| advance_holder(rs[i], dt))
}

/// The running recipe completes during this tick: its timer, advanced by
/// `dt`, reaches its delay.
pub open spec fn holder_finishes(h: RecipeHolder, dt: Quantity) -> bool {
    h.started && spec_saturating_add(h.time.millis, dt.millis) >= h.recipe.delay.millis
}

/// The idle recipe self-triggers this tick: it is automatic, its automation
/// toggle is on, and the pre-tick store satisfies its inputs.
pub open spec fn holder_auto_starts(h: RecipeHolder, ingredients: Seq<Ingredient>) -> bool {
    &&& !h.started
    &&& h.recipe.automatic
    &&& h.automation_enabled
    &&& spec_can_run_n_times(h.recipe, ingredients, 1)
}

/// The finish notifications of the first `n` recipes, in registration
/// order.
pub open spec fn finish_events_upto(rs: Seq<RecipeHolder>, dt: Quantity, n: int) -> Seq<
    RecipeEvent,
>
    decreases n,
{
    if n <= 0 {
        Seq::empty()
    } else {
        finish_events_upto(rs, dt, n - 1) + if holder_finishes(rs[n - 1], dt) {
            seq![RecipeEvent::FinishRecipe(RecipeIndex((n - 1) as usize))]
        } else {
            Seq::empty()
        }
    }
}

/// The start notifications of the first `n` recipes, in registration order,
/// all decided against the same pre-tick store.
pub open spec fn start_events_upto(
    rs: Seq<RecipeHolder>,
    ingredients: Seq<Ingredient>,
    n: int,
) -> Seq<RecipeEvent>
    decreases n,
{
    if n <= 0 {
        Seq::empty()
    } else {
        start_events_upto(rs, ingredients, n - 1) + if holder_auto_starts(rs[n - 1], ingredients) {
            seq![RecipeEvent::StartRecipe(RecipeIndex((n - 1) as usize))]
        } else {
            Seq::empty()
        }
    }
}

/// Every notification a tick emits, in emission order: all finishes before
/// all starts, each group in registration order.
pub open spec fn decide_events(
    rs: Seq<RecipeHolder>,
    ingredients: Seq<Ingredient>,
    dt: Quantity,
) -> Seq<RecipeEvent> {
    finish_events_upto(rs, dt, rs.len() as int) + start_events_upto(
        rs,
        ingredients,
        rs.len() as int,
    )
}

/// The slot a notification is about.
pub open spec fn event_target(ev: RecipeEvent) -> nat {
    match ev {
        RecipeEvent::StartRecipe(i) => i@,
        RecipeEvent::FinishRecipe(i) => i@,
    }
}

/// Every notification in the sequence is about a slot below `n`.
pub open spec fn events_valid(evs: Seq<RecipeEvent>, n: nat) -> bool {
    forall|k: int| 0 <= k < evs.len() ==> #[trigger] event_target(evs[k]) < n
}

/// The stocks after the listed amounts were withdrawn, pair by pair in
/// order, each withdrawal flooring at zero.
pub open spec fn withdraw_pairs(
    ings: Seq<Ingredient>,
    pairs: Seq<(IngredientIndex, Quantity)>,
) -> Seq<Ingredient>
    decreases pairs.len(),
{
    if pairs.len() == 0 {
        ings
    } else {
        let prev = withdraw_pairs(ings, pairs.drop_last());
        let ix = pairs.last().0@ as int;
        let amt = pairs.last().1;
        prev.update(
            ix,
            (Ingredient {
                current: Quantity { millis: spec_withdraw(prev[ix].current.millis, amt.millis) },
                ..prev[ix]
            }),
        )
    }
}

/// The stocks after the listed amounts were deposited, pair by pair in
/// order, each deposit clipping at the stock's capacity.
pub open spec fn deposit_pairs(
    ings: Seq<Ingredient>,
    pairs: Seq<(IngredientIndex, Quantity)>,
) -> Seq<Ingredient>
    decreases pairs.len(),
{
    if pairs.len() == 0 {
        ings
    } else {
        let prev = deposit_pairs(ings, pairs.drop_last());
        let ix = pairs.last().0@ as int;
        let amt = pairs.last().1;
        prev.update(
            ix,
            (Ingredient {
                current: Quantity {
                    millis: spec_deposit(prev[ix].current.millis, amt.millis, prev[ix].capacity),
                },
                ..prev[ix]
            }),
        )
    }
}

/// One notification applied against the two tables: a start withdraws the
/// recipe's inputs and marks it running with a fresh timer; a finish
/// deposits the recipe's outputs and resets it to idle.
pub open spec fn apply_event(
    rs: Seq<RecipeHolder>,
    ings: Seq<Ingredient>,
    ev: RecipeEvent,
) -> (Seq<RecipeHolder>, Seq<Ingredient>) {
    match ev {
        RecipeEvent::StartRecipe(i) => {
            let ii = i@ as int;
            (
                rs.update(ii, (RecipeHolder { started: true, time: Quantity { millis: 0 }, ..rs[ii] })),
                withdraw_pairs(ings, rs[ii].recipe.input@),
            )
        },
        RecipeEvent::FinishRecipe(i) => {
            let ii = i@ as int;
            (
                rs.update(ii, (RecipeHolder { started: false, time: Quantity { millis: 0 }, ..rs[ii] })),
                deposit_pairs(ings, rs[ii].recipe.output@),
            )
        },
    }
}

/// A batch of notifications applied in emission order.
pub open spec fn apply_events(
    rs: Seq<RecipeHolder>,
    ings: Seq<Ingredient>,
    evs: Seq<RecipeEvent>,
) -> (Seq<RecipeHolder>, Seq<Ingredient>)
    decreases evs.len(),
{
    if evs.len() == 0 {
        (rs, ings)
    } else {
        let prev = apply_events(rs, ings, evs.drop_last());
        apply_event(prev.0, prev.1, evs.last())
    }
}

/// One whole simulation step: decide every notification against the
/// pre-tick state, advance the timers, then apply the notifications in
/// emission order. Returns the two tables after the step and the emitted
/// notification stream.
pub open spec fn spec_tick(
    rs: Seq<RecipeHolder>,
    ings: Seq<Ingredient>,
    dt: Quantity,
) -> (Seq<RecipeHolder>, Seq<Ingredient>, Seq<RecipeEvent>) {
    let evs = decide_events(rs, ings, dt);
    let applied = apply_events(advance_all(rs, dt), ings, evs);
    (applied.0, applied.1, evs)
}

// ---------------------------------------------------------------------------
// The tick, executed.
// ---------------------------------------------------------------------------

/// Decision pass of one tick: advances the timer of every running recipe by
/// `dt` and returns the notifications this step emits, finishes first, then
/// starts, each group in registration order. Reads the ingredient store but
/// never writes it.
pub fn tick_recipes(recipes: &mut Recipes, ingredients: &Ingredients, dt: Quantity) -> (events:
    Vec<RecipeEvent>)
    requires
        recipes_refs_valid(old(recipes)@, ingredients@.len()),
    ensures
        final(recipes)@ == advance_all(old(recipes)@, dt),
        events@ == decide_events(old(recipes)@, ingredients@, dt),
{
    let ghost rs0 = recipes@;
    let mut events: Vec<RecipeEvent> = Vec::new();
    let n = recipes.len();
    let mut i: usize = 0;
    while i < n
        invariant
            n == rs0.len(),
            i <= n,
            recipes@.len() == rs0.len(),
            forall|k: int| 0 <= k < i ==> recipes@[k] == advance_holder(rs0[k], dt),
            forall|k: int| i <= k < n ==> recipes@[k] == rs0[k],
            events@ == finish_events_upto(rs0, dt, i as int),
        decreases n - i,
    {
        let holder = &mut recipes.recipes[i];
        let mut finished = false;
        if holder.started {
            holder.time = holder.time.saturating_add(dt);
            finished = holder.time.millis >= holder.recipe.delay.millis;
        }
        if finished {
            events.push(RecipeEvent::FinishRecipe(RecipeIndex(i)));
        }
        proof {
            assert(recipes@[i as int] == advance_holder(rs0[i as int], dt));
            assert(events@ =~= finish_events_upto(rs0, dt, i as int + 1));
        }
        i += 1;
    }
    let ghost finishes = events@;
    let mut i: usize = 0;
    while i < n
        invariant
            n == rs0.len(),
            i <= n,
            recipes@ == advance_all(rs0, dt),
            recipes_refs_valid(rs0, ingredients@.len()),
            events@ == finishes + start_events_upto(rs0, ingredients@, i as int),
        decreases n - i,
    {
        let holder = &recipes.recipes[i];
        proof {
            assert(recipes@[i as int] == advance_holder(rs0[i as int], dt));
            assert(holder.recipe == rs0[i as int].recipe);
            assert(recipe_refs_valid(rs0[i as int].recipe, ingredients@.len()));
        }
        if !holder.started && holder.recipe.automatic && holder.automation_enabled
            && holder.recipe.can_run(ingredients) {
            events.push(RecipeEvent::StartRecipe(RecipeIndex(i)));
        }
        proof {
            assert(holder_auto_starts(rs0[i as int], ingredients@) == holder_auto_starts(
                recipes@[i as int],
                ingredients@,
            ));
            assert(events@ =~= finishes + start_events_upto(rs0, ingredients@, i as int + 1));
        }
        i += 1;
    }
    proof {
        assert(events@ =~= decide_events(rs0, ingredients@, dt));
    }
    events
}

/// Apply pass of one tick: replays a batch of notifications in emission
/// order. A start withdraws every input amount (flooring at zero) and marks
/// the recipe running; a finish deposits every output amount (clipping at
/// capacity) and resets the recipe to idle.
pub fn process_recipe_events(
    recipes: &mut Recipes,
    ingredients: &mut Ingredients,
    events: &Vec<RecipeEvent>,
)
    requires
        events_valid(events@, old(recipes)@.len()),
        recipes_refs_valid(old(recipes)@, old(ingredients)@.len()),
    ensures
        (final(recipes)@, final(ingredients)@) == apply_events(
            old(recipes)@,
            old(ingredients)@,
            events@,
        ),
{
    let ghost rs0 = recipes@;
    let ghost ings0 = ingredients@;
    let mut e: usize = 0;
    while e < events.len()
        invariant
            e <= events@.len(),
            events_valid(events@, rs0.len()),
            recipes_refs_valid(rs0, ings0.len()),
            (recipes@, ingredients@) == apply_events(rs0, ings0, events@.take(e as int)),
            recipes@.len() == rs0.len(),
            ingredients@.len() == ings0.len(),
            forall|k: int|
                0 <= k < rs0.len() ==> (#[trigger] recipes@[k]).recipe == rs0[k].recipe,
        decreases events@.len() - e,
    {
        let ghost rs_entry = recipes@;
        let ghost ings_entry = ingredients@;
        match events[e] {
            RecipeEvent::StartRecipe(index) => {
                proof {
                    assert(event_target(events@[e as int]) < rs0.len());
                }
                let ghost pairs = recipes@[index.0 as int].recipe.input@;
                let n_inputs = recipes.recipes[index.0].recipe.input.len();
                let mut j: usize = 0;
                while j < n_inputs
                    invariant
                        j <= pairs.len(),
                        n_inputs == pairs.len(),
                        index.0 < recipes@.len(),
                        recipes@ == rs_entry,
                        recipes@[index.0 as int].recipe.input@ == pairs,
                        recipe_refs_valid(recipes@[index.0 as int].recipe, ings_entry.len()),
                        ingredients@ == withdraw_pairs(ings_entry, pairs.take(j as int)),
                        ingredients@.len() == ings_entry.len(),
                    decreases pairs.len() - j,
                {
                    let (ty, amount) = recipes.recipes[index.0].recipe.input[j];
                    proof {
                        assert(crate::recipe::input_ref_valid(
                            recipes@[index.0 as int].recipe,
                            ings_entry.len(),
                            j as int,
                        ));
                    }
                    let ingredient = ingredients.get_mut(ty);
                    ingredient.spend_ingredient(amount);
                    proof {
                        assert(pairs.take(j as int + 1).drop_last() =~= pairs.take(j as int));
                        assert(pairs.take(j as int + 1).last() == pairs[j as int]);
                        assert(ingredients@ =~= withdraw_pairs(ings_entry, pairs.take(j as int + 1)));
                    }
                    j += 1;
                }
                proof {
                    assert(pairs.take(pairs.len() as int) =~= pairs);
                }
                let holder = &mut recipes.recipes[index.0];
                holder.started = true;
                holder.time = Quantity::new(0);
                proof {
                    assert((recipes@, ingredients@) == apply_event(
                        rs_entry,
                        ings_entry,
                        events@[e as int],
                    ));
                }
            },
            RecipeEvent::FinishRecipe(index) => {
                proof {
                    assert(event_target(events@[e as int]) < rs0.len());
                }
                let ghost pairs = recipes@[index.0 as int].recipe.output@;
                let n_outputs = recipes.recipes[index.0].recipe.output.len();
                let mut j: usize = 0;
                while j < n_outputs
                    invariant
                        j <= pairs.len(),
                        n_outputs == pairs.len(),
                        index.0 < recipes@.len(),
                        recipes@ == rs_entry,
                        recipes@[index.0 as int].recipe.output@ == pairs,
                        recipe_refs_valid(recipes@[index.0 as int].recipe, ings_entry.len()),
                        ingredients@ == deposit_pairs(ings_entry, pairs.take(j as int)),
                        ingredients@.len() == ings_entry.len(),
                    decreases pairs.len() - j,
                {
                    let (ty, amount) = recipes.recipes[index.0].recipe.output[j];
                    proof {
                        assert(crate::recipe::output_ref_valid(
                            recipes@[index.0 as int].recipe,
                            ings_entry.len(),
                            j as int,
                        ));
                    }
                    let ingredient = ingredients.get_mut(ty);
                    ingredient.add_ingredient(amount);
                    proof {
                        assert(pairs.take(j as int + 1).drop_last() =~= pairs.take(j as int));
                        assert(pairs.take(j as int + 1).last() == pairs[j as int]);
                        assert(ingredients@ =~= deposit_pairs(ings_entry, pairs.take(j as int + 1)));
                    }
                    j += 1;
                }
                proof {
                    assert(pairs.take(pairs.len() as int) =~= pairs);
                }
                let holder = &mut recipes.recipes[index.0];
                holder.started = false;
                holder.time = Quantity::new(0);
                proof {
                    assert((recipes@, ingredients@) == apply_event(
                        rs_entry,
                        ings_entry,
                        events@[e as int],
                    ));
                }
            },
        }
        proof {
            assert(events@.take(e as int + 1).drop_last() =~= events@.take(e as int));
            assert(events@.take(e as int + 1).last() == events@[e as int]);
        }
        e += 1;
    }
    proof {
        assert(events@.take(events@.len() as int) =~= events@);
    }
}

/// One whole simulation step: decide, then apply, as `spec_tick` describes.
/// Returns the notification stream this step emitted, for any external
/// observer to drain read-only.
pub fn tick(recipes: &mut Recipes, ingredients: &mut Ingredients, dt: Quantity) -> (events: Vec<
    RecipeEvent,
>)
    requires
        recipes_refs_valid(old(recipes)@, old(ingredients)@.len()),
    ensures
        final(recipes)@ == spec_tick(old(recipes)@, old(ingredients)@, dt).0,
        final(ingredients)@ == spec_tick(old(recipes)@, old(ingredients)@, dt).1,
        events@ == spec_tick(old(recipes)@, old(ingredients)@, dt).2,
{
    let ghost rs0 = recipes@;
    let ghost ings0 = ingredients@;
    let events = tick_recipes(recipes, ingredients, dt);
    proof {
        lemma_decide_events_valid(rs0, ings0, dt);
        assert forall|k: int| 0 <= k < rs0.len() implies recipe_refs_valid(
            (#[trigger] advance_all(rs0, dt)[k]).recipe,
            ings0.len(),
        ) by {
            assert(advance_all(rs0, dt)[k].recipe == rs0[k].recipe);
            assert(recipe_refs_valid(rs0[k].recipe, ings0.len()));
        }
    }
    process_recipe_events(recipes, ingredients, &events);
    events
}

/// A manual start request, delivered between ticks: the same Idle to
/// Running transition an automatic start takes, gated by the same
/// satisfaction check against the current store, but open to manual
/// recipes and to recipes whose automation is off. Returns whether the
/// recipe started; a request for a running or unsatisfied recipe changes
/// nothing.
pub fn request_start(
    recipes: &mut Recipes,
    ingredients: &mut Ingredients,
    index: RecipeIndex,
) -> (started: bool)
    requires
        index@ < old(recipes)@.len(),
        recipes_refs_valid(old(recipes)@, old(ingredients)@.len()),
    ensures
        started == (!old(recipes)@[index@ as int].started && spec_can_run_n_times(
            old(recipes)@[index@ as int].recipe,
            old(ingredients)@,
            1,
        )),
        started ==> (final(recipes)@, final(ingredients)@) == apply_event(
            old(recipes)@,
            old(ingredients)@,
            RecipeEvent::StartRecipe(index),
        ),
        !started ==> final(recipes)@ == old(recipes)@ && final(ingredients)@ == old(
            ingredients,
        )@,
{
    let holder = recipes.get_recipe_holder(&index);
    proof {
        assert(recipe_refs_valid(recipes@[index@ as int].recipe, ingredients@.len()));
    }
    if holder.started || !holder.recipe.can_run(ingredients) {
        return false;
    }
    let ghost rs0 = recipes@;
    let ghost ings0 = ingredients@;
    let mut events: Vec<RecipeEvent> = Vec::new();
    events.push(RecipeEvent::StartRecipe(index));
    proof {
        assert(events@.drop_last() =~= Seq::<RecipeEvent>::empty());
    }
    process_recipe_events(recipes, ingredients, &events);
    proof {
        assert(apply_events(rs0, ings0, events@.drop_last()) == (rs0, ings0));
        assert(events@.last() == RecipeEvent::StartRecipe(index));
        assert((recipes@, ingredients@) == apply_event(rs0, ings0, RecipeEvent::StartRecipe(index)));
    }
    true
}

/// Every notification a decision pass emits is about a registered recipe.
pub proof fn lemma_decide_events_valid(
    rs: Seq<RecipeHolder>,
    ingredients: Seq<Ingredient>,
    dt: Quantity,
)
    ensures
        events_valid(decide_events(rs, ingredients, dt), rs.len()),
{
    lemma_finish_events_upto_valid(rs, dt, rs.len() as int);
    lemma_start_events_upto_valid(rs, ingredients, rs.len() as int);
    assert forall|k: int|
        0 <= k < decide_events(rs, ingredients, dt).len() implies #[trigger] event_target(
        decide_events(rs, ingredients, dt)[k],
    ) < rs.len() by {
        let fs = finish_events_upto(rs, dt, rs.len() as int);
        let ss = start_events_upto(rs, ingredients, rs.len() as int);
        if k < fs.len() {
            assert(event_target(fs[k]) < rs.len());
        } else {
            assert(event_target(ss[k - fs.len()]) < rs.len());
        }
    }
}

proof fn lemma_finish_events_upto_valid(rs: Seq<RecipeHolder>, dt: Quantity, n: int)
    requires
        n <= rs.len(),
    ensures
        events_valid(finish_events_upto(rs, dt, n), rs.len()),
    decreases n,
{
    if n > 0 {
        lemma_finish_events_upto_valid(rs, dt, n - 1);
        assert forall|k: int|
            0 <= k < finish_events_upto(rs, dt, n).len() implies #[trigger] event_target(
            finish_events_upto(rs, dt, n)[k],
        ) < rs.len() by {
            let prev = finish_events_upto(rs, dt, n - 1);
            if k < prev.len() {
                assert(event_target(prev[k]) < rs.len());
            }
        }
    }
}

proof fn lemma_start_events_upto_valid(
    rs: Seq<RecipeHolder>,
    ingredients: Seq<Ingredient>,
    n: int,
)
    requires
        n <= rs.len(),
    ensures
        events_valid(start_events_upto(rs, ingredients, n), rs.len()),
    decreases n,
{
    if n > 0 {
        lemma_start_events_upto_valid(rs, ingredients, n - 1);
        assert forall|k: int|
            0 <= k < start_events_upto(rs, ingredients, n).len() implies #[trigger] event_target(
            start_events_upto(rs, ingredients, n)[k],
        ) < rs.len() by {
            let prev = start_events_upto(rs, ingredients, n - 1);
            if k < prev.len() {
                assert(event_target(prev[k]) < rs.len());
            }
        }
    }
}

} // verus!
