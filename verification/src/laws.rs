//! The guarantees the simulation keeps, stated and proved over the
//! mathematical tick: idle recipes without a reason to start never move,
//! manual recipes never self-trigger, a finish always resets, every table
//! invariant survives every tick, and a successful start/finish round
//! conserves stock exactly.

use vstd::prelude::*;

verus! {

use crate::engine::advance_all;
use crate::engine::advance_holder;
use crate::engine::apply_event;
use crate::engine::apply_events;
use crate::engine::decide_events;
use crate::engine::deposit_pairs;
use crate::engine::event_target;
use crate::engine::events_valid;
use crate::engine::lemma_decide_events_valid;
use crate::engine::finish_events_upto;
use crate::engine::holder_auto_starts;
use crate::engine::holder_finishes;
use crate::engine::spec_tick;
use crate::engine::start_events_upto;
use crate::engine::withdraw_pairs;
use crate::ingredient::Ingredient;
use crate::ingredient::IngredientIndex;
use crate::quantity::Quantity;
use crate::recipe::RecipeEvent;
use crate::recipe::RecipeHolder;
use crate::recipe::RecipeIndex;
use crate::recipe::spec_can_run_n_times;
use crate::recipe::recipe_refs_valid;
use crate::recipe::recipes_refs_valid;

// ---------------------------------------------------------------------------
// What a tick's notification stream can contain.
// ---------------------------------------------------------------------------

/// Every finish notification of a decision pass names a recipe that was
/// running and whose advanced timer reached its delay.
proof fn lemma_finish_events_shape(rs: Seq<RecipeHolder>, dt: Quantity, n: int)
    requires
        n <= rs.len() <= usize::MAX,
    ensures
        forall|k: int|
            0 <= k < finish_events_upto(rs, dt, n).len() ==> {
                let ev = #[trigger] finish_events_upto(rs, dt, n)[k];
                &&& ev matches RecipeEvent::FinishRecipe(_)
                &&& event_target(ev) < n
                &&& holder_finishes(rs[event_target(ev) as int], dt)
            },
    decreases n,
{
    if n > 0 {
        lemma_finish_events_shape(rs, dt, n - 1);
        assert forall|k: int|
            0 <= k < finish_events_upto(rs, dt, n).len() implies {
            let ev = #[trigger] finish_events_upto(rs, dt, n)[k];
            &&& ev matches RecipeEvent::FinishRecipe(_)
            &&& event_target(ev) < n
            &&& holder_finishes(rs[event_target(ev) as int], dt)
        } by {
            let prev = finish_events_upto(rs, dt, n - 1);
            if k < prev.len() {
                assert(prev[k] == finish_events_upto(rs, dt, n)[k]);
            } else {
                if holder_finishes(rs[n - 1], dt) {
                    assert(finish_events_upto(rs, dt, n)[k] == RecipeEvent::FinishRecipe(
                        RecipeIndex((n - 1) as usize),
                    ));
                    assert(event_target(finish_events_upto(rs, dt, n)[k]) == n - 1);
                } else {
                    assert(finish_events_upto(rs, dt, n).len() == prev.len());
                }
            }
        }
    }
}

/// Every start notification of a decision pass names a recipe that was
/// idle, automatic, enabled, and satisfied by the pre-tick store.
proof fn lemma_start_events_shape(rs: Seq<RecipeHolder>, ingredients: Seq<Ingredient>, n: int)
    requires
        n <= rs.len() <= usize::MAX,
    ensures
        forall|k: int|
            0 <= k < start_events_upto(rs, ingredients, n).len() ==> {
                let ev = #[trigger] start_events_upto(rs, ingredients, n)[k];
                &&& ev matches RecipeEvent::StartRecipe(_)
                &&& event_target(ev) < n
                &&& holder_auto_starts(rs[event_target(ev) as int], ingredients)
            },
    decreases n,
{
    if n > 0 {
        lemma_start_events_shape(rs, ingredients, n - 1);
        assert forall|k: int|
            0 <= k < start_events_upto(rs, ingredients, n).len() implies {
            let ev = #[trigger] start_events_upto(rs, ingredients, n)[k];
            &&& ev matches RecipeEvent::StartRecipe(_)
            &&& event_target(ev) < n
            &&& holder_auto_starts(rs[event_target(ev) as int], ingredients)
        } by {
            let prev = start_events_upto(rs, ingredients, n - 1);
            if k < prev.len() {
                assert(prev[k] == start_events_upto(rs, ingredients, n)[k]);
            } else {
                if holder_auto_starts(rs[n - 1], ingredients) {
                    assert(start_events_upto(rs, ingredients, n)[k] == RecipeEvent::StartRecipe(
                        RecipeIndex((n - 1) as usize),
                    ));
                    assert(event_target(start_events_upto(rs, ingredients, n)[k]) == n - 1);
                } else {
                    assert(start_events_upto(rs, ingredients, n).len() == prev.len());
                }
            }
        }
    }
}

/// A batch of notifications that never names slot `i` leaves the runtime
/// state in slot `i` exactly as it was.
proof fn lemma_apply_events_untouched(
    rs: Seq<RecipeHolder>,
    ings: Seq<Ingredient>,
    evs: Seq<RecipeEvent>,
    i: int,
)
    requires
        0 <= i < rs.len(),
        events_valid(evs, rs.len()),
        forall|k: int| 0 <= k < evs.len() ==> #[trigger] event_target(evs[k]) != i,
    ensures
        apply_events(rs, ings, evs).0.len() == rs.len(),
        apply_events(rs, ings, evs).0[i] == rs[i],
    decreases evs.len(),
{
    if evs.len() > 0 {
        assert forall|k: int|
            0 <= k < evs.drop_last().len() implies #[trigger] event_target(
            evs.drop_last()[k],
        ) != i && event_target(evs.drop_last()[k]) < rs.len() by {
            assert(evs.drop_last()[k] == evs[k]);
            assert(event_target(evs[k]) != i);
            assert(event_target(evs[k]) < rs.len());
        }
        lemma_apply_events_untouched(rs, ings, evs.drop_last(), i);
        assert(event_target(evs.last()) != i);
        assert(event_target(evs.last()) < rs.len());
    }
}

/// Applying any batch of notifications whose targets are registered slots
/// keeps the table's length.
pub proof fn lemma_apply_events_len(
    rs: Seq<RecipeHolder>,
    ings: Seq<Ingredient>,
    evs: Seq<RecipeEvent>,
)
    requires
        events_valid(evs, rs.len()),
    ensures
        apply_events(rs, ings, evs).0.len() == rs.len(),
    decreases evs.len(),
{
    if evs.len() > 0 {
        assert forall|k: int|
            0 <= k < evs.drop_last().len() implies #[trigger] event_target(
            evs.drop_last()[k],
        ) < rs.len() by {
            assert(evs.drop_last()[k] == evs[k]);
            assert(event_target(evs[k]) < rs.len());
        }
        lemma_apply_events_len(rs, ings, evs.drop_last());
        assert(event_target(evs.last()) < rs.len());
    }
}

// ---------------------------------------------------------------------------
// Idle recipes stay idle without a reason to start.
// ---------------------------------------------------------------------------

/// An idle recipe that has no reason to start this tick — it is manual,
/// its automation is off, or its inputs are not satisfied — comes out of
/// the tick exactly as it went in, every field kept. In particular a
/// starved recipe never starts, and after a finish reset the recipe rests
/// for as long as nothing satisfies it.
pub proof fn lemma_idle_recipe_stays_idle(
    rs: Seq<RecipeHolder>,
    ings: Seq<Ingredient>,
    dt: Quantity,
    i: int,
)
    requires
        rs.len() <= usize::MAX,
        0 <= i < rs.len(),
        !rs[i].started,
        !holder_auto_starts(rs[i], ings),
    ensures
        spec_tick(rs, ings, dt).0.len() == rs.len(),
        spec_tick(rs, ings, dt).0[i] == rs[i],
{
    let evs = decide_events(rs, ings, dt);
    let advanced = advance_all(rs, dt);
    lemma_finish_events_shape(rs, dt, rs.len() as int);
    lemma_start_events_shape(rs, ings, rs.len() as int);
    let fs = finish_events_upto(rs, dt, rs.len() as int);
    let ss = start_events_upto(rs, ings, rs.len() as int);
    lemma_decide_events_valid(rs, ings, dt);
    assert forall|k: int| 0 <= k < evs.len() implies #[trigger] event_target(evs[k]) != i by {
        if k < fs.len() {
            assert(evs[k] == fs[k]);
            if event_target(evs[k]) == i {
                assert(holder_finishes(rs[i], dt));
            }
        } else {
            assert(evs[k] == ss[k - fs.len()]);
            if event_target(evs[k]) == i {
                assert(holder_auto_starts(rs[i], ings));
            }
        }
    }
    assert(advanced[i] == rs[i]);
    lemma_apply_events_untouched(advanced, ings, evs, i);
}

/// A recipe that is not automatic never leaves Idle on its own: however
/// long the simulation ticks, without an explicit start request its
/// runtime state never changes, no matter how abundant its inputs are.
pub proof fn lemma_automation_gating(
    rs: Seq<RecipeHolder>,
    ings: Seq<Ingredient>,
    dts: Seq<Quantity>,
    i: int,
)
    requires
        rs.len() <= usize::MAX,
        0 <= i < rs.len(),
        !rs[i].started,
        !rs[i].recipe.automatic,
    ensures
        run_ticks(rs, ings, dts).0.len() == rs.len(),
        run_ticks(rs, ings, dts).0[i] == rs[i],
    decreases dts.len(),
{
    if dts.len() > 0 {
        lemma_automation_gating(rs, ings, dts.drop_last(), i);
        let prev = run_ticks(rs, ings, dts.drop_last());
        lemma_idle_recipe_stays_idle(prev.0, prev.1, dts.last(), i);
    }
}

/// The tables after a whole sequence of ticks, one per listed time step.
pub open spec fn run_ticks(
    rs: Seq<RecipeHolder>,
    ings: Seq<Ingredient>,
    dts: Seq<Quantity>,
) -> (Seq<RecipeHolder>, Seq<Ingredient>)
    decreases dts.len(),
{
    if dts.len() == 0 {
        (rs, ings)
    } else {
        let prev = run_ticks(rs, ings, dts.drop_last());
        let t = spec_tick(prev.0, prev.1, dts.last());
        (t.0, t.1)
    }
}

// ---------------------------------------------------------------------------
// A finish resets the recipe, and the reset state is stable.
// ---------------------------------------------------------------------------

/// A finish notification resets the recipe it names: immediately after it
/// is applied, the recipe is idle and its timer reads zero, whatever batch
/// of notifications was applied before it.
pub proof fn lemma_finish_resets(
    rs: Seq<RecipeHolder>,
    ings: Seq<Ingredient>,
    evs: Seq<RecipeEvent>,
    i: RecipeIndex,
)
    requires
        i@ < rs.len(),
        events_valid(evs, rs.len()),
    ensures
        ({
            let prev = apply_events(rs, ings, evs);
            let after = apply_event(prev.0, prev.1, RecipeEvent::FinishRecipe(i));
            &&& !after.0[i@ as int].started
            &&& after.0[i@ as int].time.millis == 0
        }),
{
    lemma_apply_events_len(rs, ings, evs);
}

// ---------------------------------------------------------------------------
// A tick keeps every invariant of the two tables.
// ---------------------------------------------------------------------------

/// Every stock in the sequence respects its capacity.
pub open spec fn ingredients_wf(ings: Seq<Ingredient>) -> bool {
    forall|k: int| 0 <= k < ings.len() ==> (#[trigger] ings[k]).wf()
}

/// Every runtime state in the sequence is well-formed.
pub open spec fn holders_wf(rs: Seq<RecipeHolder>) -> bool {
    forall|k: int| 0 <= k < rs.len() ==> (#[trigger] rs[k]).wf()
}

/// Every pair in the list names a slot below `n`.
pub open spec fn pairs_valid(pairs: Seq<(IngredientIndex, Quantity)>, n: nat) -> bool {
    forall|j: int| 0 <= j < pairs.len() ==> (#[trigger] pairs[j]).0@ < n
}

/// Withdrawing any list of amounts keeps the store's length, every
/// stock's name, colour and capacity, and every capacity invariant:
/// stocks only shrink, and never below zero.
proof fn lemma_withdraw_pairs_wf(ings: Seq<Ingredient>, pairs: Seq<(IngredientIndex, Quantity)>)
    requires
        pairs_valid(pairs, ings.len()),
    ensures
        withdraw_pairs(ings, pairs).len() == ings.len(),
        forall|k: int|
            0 <= k < ings.len() ==> {
                let after = #[trigger] withdraw_pairs(ings, pairs)[k];
                &&& after.name == ings[k].name
                &&& after.color == ings[k].color
                &&& after.capacity == ings[k].capacity
                &&& after.current.millis <= ings[k].current.millis
            },
        ingredients_wf(ings) ==> ingredients_wf(withdraw_pairs(ings, pairs)),
    decreases pairs.len(),
{
    if pairs.len() > 0 {
        assert forall|j: int|
            0 <= j < pairs.drop_last().len() implies (#[trigger] pairs.drop_last()[j]).0@
            < ings.len() by {
            assert(pairs.drop_last()[j] == pairs[j]);
        }
        lemma_withdraw_pairs_wf(ings, pairs.drop_last());
        assert(pairs.last().0@ < ings.len());
    }
}

/// Depositing any list of amounts keeps the store's length, every stock's
/// name, colour and capacity, and every capacity invariant: a deposit
/// clips at the ceiling.
proof fn lemma_deposit_pairs_wf(ings: Seq<Ingredient>, pairs: Seq<(IngredientIndex, Quantity)>)
    requires
        pairs_valid(pairs, ings.len()),
    ensures
        deposit_pairs(ings, pairs).len() == ings.len(),
        forall|k: int|
            0 <= k < ings.len() ==> {
                let after = #[trigger] deposit_pairs(ings, pairs)[k];
                &&& after.name == ings[k].name
                &&& after.color == ings[k].color
                &&& after.capacity == ings[k].capacity
            },
        ingredients_wf(ings) ==> ingredients_wf(deposit_pairs(ings, pairs)),
    decreases pairs.len(),
{
    if pairs.len() > 0 {
        assert forall|j: int|
            0 <= j < pairs.drop_last().len() implies (#[trigger] pairs.drop_last()[j]).0@
            < ings.len() by {
            assert(pairs.drop_last()[j] == pairs[j]);
        }
        lemma_deposit_pairs_wf(ings, pairs.drop_last());
        assert(pairs.last().0@ < ings.len());
    }
}

/// One applied notification keeps both tables' lengths, every recipe's
/// rule and automation toggle, every capacity invariant, and every
/// runtime-state invariant.
proof fn lemma_apply_event_invariants(
    rs: Seq<RecipeHolder>,
    ings: Seq<Ingredient>,
    ev: RecipeEvent,
)
    requires
        event_target(ev) < rs.len(),
        recipes_refs_valid(rs, ings.len()),
    ensures
        ({
            let after = apply_event(rs, ings, ev);
            &&& after.0.len() == rs.len()
            &&& after.1.len() == ings.len()
            &&& forall|k: int|
                0 <= k < rs.len() ==> {
                    let h = #[trigger] after.0[k];
                    &&& h.recipe == rs[k].recipe
                    &&& h.automation_enabled == rs[k].automation_enabled
                }
            &&& holders_wf(rs) ==> holders_wf(after.0)
            &&& ingredients_wf(ings) ==> ingredients_wf(after.1)
            &&& forall|k: int|
                0 <= k < ings.len() ==> (#[trigger] after.1[k]).capacity == ings[k].capacity
        }),
{
    let i = event_target(ev) as int;
    assert(recipe_refs_valid(rs[i].recipe, ings.len()));
    match ev {
        RecipeEvent::StartRecipe(_) => {
            let pairs = rs[i].recipe.input@;
            assert forall|j: int| 0 <= j < pairs.len() implies (#[trigger] pairs[j]).0@
                < ings.len() by {
                assert(crate::recipe::input_ref_valid(rs[i].recipe, ings.len(), j));
            }
            lemma_withdraw_pairs_wf(ings, pairs);
        },
        RecipeEvent::FinishRecipe(_) => {
            let pairs = rs[i].recipe.output@;
            assert forall|j: int| 0 <= j < pairs.len() implies (#[trigger] pairs[j]).0@
                < ings.len() by {
                assert(crate::recipe::output_ref_valid(rs[i].recipe, ings.len(), j));
            }
            lemma_deposit_pairs_wf(ings, pairs);
        },
    }
}

/// A whole batch of applied notifications keeps the same invariants.
proof fn lemma_apply_events_invariants(
    rs: Seq<RecipeHolder>,
    ings: Seq<Ingredient>,
    evs: Seq<RecipeEvent>,
)
    requires
        events_valid(evs, rs.len()),
        recipes_refs_valid(rs, ings.len()),
    ensures
        ({
            let after = apply_events(rs, ings, evs);
            &&& after.0.len() == rs.len()
            &&& after.1.len() == ings.len()
            &&& forall|k: int|
                0 <= k < rs.len() ==> {
                    let h = #[trigger] after.0[k];
                    &&& h.recipe == rs[k].recipe
                    &&& h.automation_enabled == rs[k].automation_enabled
                }
            &&& recipes_refs_valid(after.0, ings.len())
            &&& holders_wf(rs) ==> holders_wf(after.0)
            &&& ingredients_wf(ings) ==> ingredients_wf(after.1)
        }),
    decreases evs.len(),
{
    if evs.len() > 0 {
        assert forall|k: int|
            0 <= k < evs.drop_last().len() implies #[trigger] event_target(
            evs.drop_last()[k],
        ) < rs.len() by {
            assert(evs.drop_last()[k] == evs[k]);
            assert(event_target(evs[k]) < rs.len());
        }
        lemma_apply_events_invariants(rs, ings, evs.drop_last());
        let prev = apply_events(rs, ings, evs.drop_last());
        assert(event_target(evs.last()) < rs.len());
        assert forall|k: int| 0 <= k < prev.0.len() implies recipe_refs_valid(
            (#[trigger] prev.0[k]).recipe,
            prev.1.len(),
        ) by {
            assert(prev.0[k].recipe == rs[k].recipe);
            assert(recipe_refs_valid(rs[k].recipe, ings.len()));
        }
        lemma_apply_event_invariants(prev.0, prev.1, evs.last());
    } else {
        assert forall|k: int| 0 <= k < rs.len() implies recipe_refs_valid(
            (#[trigger] apply_events(rs, ings, evs).0[k]).recipe,
            ings.len(),
        ) by {
            assert(apply_events(rs, ings, evs).0[k] == rs[k]);
        }
    }
}

/// One tick keeps every invariant of the two tables: their lengths, every
/// recipe's rule and automation toggle, every stock's capacity invariant
/// (`0 <= current <= capacity` wherever a capacity is set), and every
/// runtime-state invariant (an idle recipe's timer reads zero). Deposits
/// and withdrawals can therefore never drive any stock outside its
/// bounds, over any number of ticks.
pub proof fn lemma_tick_preserves_invariants(
    rs: Seq<RecipeHolder>,
    ings: Seq<Ingredient>,
    dt: Quantity,
)
    requires
        recipes_refs_valid(rs, ings.len()),
        holders_wf(rs),
        ingredients_wf(ings),
    ensures
        ({
            let t = spec_tick(rs, ings, dt);
            &&& t.0.len() == rs.len()
            &&& t.1.len() == ings.len()
            &&& forall|k: int|
                0 <= k < rs.len() ==> {
                    let h = #[trigger] t.0[k];
                    &&& h.recipe == rs[k].recipe
                    &&& h.automation_enabled == rs[k].automation_enabled
                }
            &&& recipes_refs_valid(t.0, ings.len())
            &&& holders_wf(t.0)
            &&& ingredients_wf(t.1)
        }),
{
    let evs = decide_events(rs, ings, dt);
    let advanced = advance_all(rs, dt);
    lemma_decide_events_valid(rs, ings, dt);
    assert forall|k: int| 0 <= k < advanced.len() implies (#[trigger] advanced[k]).wf()
        && advanced[k].recipe == rs[k].recipe
        && advanced[k].automation_enabled == rs[k].automation_enabled by {
        assert(advanced[k] == advance_holder(rs[k], dt));
        assert(rs[k].wf());
    }
    assert forall|k: int| 0 <= k < advanced.len() implies recipe_refs_valid(
        (#[trigger] advanced[k]).recipe,
        ings.len(),
    ) by {
        assert(advanced[k].recipe == rs[k].recipe);
        assert(recipe_refs_valid(rs[k].recipe, ings.len()));
    }
    lemma_apply_events_invariants(advanced, ings, evs);
}

// ---------------------------------------------------------------------------
// A tick on a store that satisfies nothing changes nothing.
// ---------------------------------------------------------------------------

/// When every recipe is idle and none has a reason to start, a tick is a
/// no-op: it emits no notification and leaves both tables untouched.
pub proof fn lemma_tick_noop(rs: Seq<RecipeHolder>, ings: Seq<Ingredient>, dt: Quantity)
    requires
        rs.len() <= usize::MAX,
        forall|k: int| 0 <= k < rs.len() ==> !(#[trigger] rs[k]).started,
        forall|k: int| 0 <= k < rs.len() ==> !holder_auto_starts(#[trigger] rs[k], ings),
    ensures
        spec_tick(rs, ings, dt).0 == rs,
        spec_tick(rs, ings, dt).1 == ings,
        spec_tick(rs, ings, dt).2 == Seq::<RecipeEvent>::empty(),
{
    let evs = decide_events(rs, ings, dt);
    let fs = finish_events_upto(rs, dt, rs.len() as int);
    let ss = start_events_upto(rs, ings, rs.len() as int);
    lemma_finish_events_shape(rs, dt, rs.len() as int);
    lemma_start_events_shape(rs, ings, rs.len() as int);
    assert(fs.len() == 0) by {
        if fs.len() > 0 {
            let ev = fs[0];
            assert(holder_finishes(rs[event_target(ev) as int], dt));
        }
    }
    assert(ss.len() == 0) by {
        if ss.len() > 0 {
            let ev = ss[0];
            assert(holder_auto_starts(rs[event_target(ev) as int], ings));
        }
    }
    assert(evs =~= Seq::<RecipeEvent>::empty());
    let advanced = advance_all(rs, dt);
    assert forall|k: int| 0 <= k < rs.len() implies advanced[k] == rs[k] by {
        assert(advanced[k] == advance_holder(rs[k], dt));
    }
    assert(advanced =~= rs);
}

/// A starved store stays starved: while every recipe is idle and none has
/// a reason to start — inputs short, automation off, or the recipe manual
/// — any number of ticks emits nothing and changes nothing. A recipe
/// whose inputs fall short therefore never starts until some explicit
/// intervention raises the stocks.
pub proof fn lemma_starvation(rs: Seq<RecipeHolder>, ings: Seq<Ingredient>, dts: Seq<Quantity>)
    requires
        rs.len() <= usize::MAX,
        forall|k: int| 0 <= k < rs.len() ==> !(#[trigger] rs[k]).started,
        forall|k: int| 0 <= k < rs.len() ==> !holder_auto_starts(#[trigger] rs[k], ings),
    ensures
        run_ticks(rs, ings, dts).0 == rs,
        run_ticks(rs, ings, dts).1 == ings,
    decreases dts.len(),
{
    if dts.len() > 0 {
        lemma_starvation(rs, ings, dts.drop_last());
        lemma_tick_noop(rs, ings, dts.last());
    }
}

// ---------------------------------------------------------------------------
// Conservation of stock across one successful start/finish round.
// ---------------------------------------------------------------------------

/// The total stock held across the whole store, in millis.
pub open spec fn total_current(ings: Seq<Ingredient>) -> int
    decreases ings.len(),
{
    if ings.len() == 0 {
        0
    } else {
        total_current(ings.drop_last()) + ings.last().current.millis
    }
}

/// The total amount listed across the pairs, in millis.
pub open spec fn total_amount(pairs: Seq<(IngredientIndex, Quantity)>) -> int
    decreases pairs.len(),
{
    if pairs.len() == 0 {
        0
    } else {
        total_amount(pairs.drop_last()) + pairs.last().1.millis
    }
}

/// No two pairs in the list name the same stock.
pub open spec fn distinct_targets(pairs: Seq<(IngredientIndex, Quantity)>) -> bool {
    forall|j1: int, j2: int|
        0 <= j1 < j2 < pairs.len() ==> (#[trigger] pairs[j1]).0@ != (#[trigger] pairs[j2]).0@
}

/// No withdrawal in the list falls short: at each step of the fold, the
/// stock withdrawn from still holds at least the amount taken.
pub open spec fn withdrawals_exact(
    ings: Seq<Ingredient>,
    pairs: Seq<(IngredientIndex, Quantity)>,
) -> bool
    decreases pairs.len(),
{
    if pairs.len() == 0 {
        true
    } else {
        &&& withdrawals_exact(ings, pairs.drop_last())
        &&& withdraw_pairs(ings, pairs.drop_last())[pairs.last().0@ as int].current.millis
            >= pairs.last().1.millis
    }
}

/// No deposit in the list clips: at each step of the fold, the stock
/// deposited into still has room for the amount added.
pub open spec fn deposits_unclamped(
    ings: Seq<Ingredient>,
    pairs: Seq<(IngredientIndex, Quantity)>,
) -> bool
    decreases pairs.len(),
{
    if pairs.len() == 0 {
        true
    } else {
        let prev = deposit_pairs(ings, pairs.drop_last());
        let ix = pairs.last().0@ as int;
        &&& deposits_unclamped(ings, pairs.drop_last())
        &&& prev[ix].current.millis + pairs.last().1.millis <= crate::ingredient::effective_capacity(
            prev[ix].capacity,
        )
    }
}

/// Replacing one stock changes the total by the difference at that slot.
proof fn lemma_total_update(s: Seq<Ingredient>, j: int, v: Ingredient)
    requires
        0 <= j < s.len(),
    ensures
        total_current(s.update(j, v)) == total_current(s) - s[j].current.millis
            + v.current.millis,
    decreases s.len(),
{
    let su = s.update(j, v);
    if j == s.len() - 1 {
        assert(su.drop_last() =~= s.drop_last());
        assert(su.last() == v);
    } else {
        assert(su.drop_last() =~= s.drop_last().update(j, v));
        assert(su.last() == s.last());
        lemma_total_update(s.drop_last(), j, v);
    }
}

/// Withdrawals that never fall short take exactly their listed total.
proof fn lemma_withdraw_exact_total(
    ings: Seq<Ingredient>,
    pairs: Seq<(IngredientIndex, Quantity)>,
)
    requires
        pairs_valid(pairs, ings.len()),
        withdrawals_exact(ings, pairs),
    ensures
        total_current(withdraw_pairs(ings, pairs)) == total_current(ings) - total_amount(pairs),
    decreases pairs.len(),
{
    if pairs.len() > 0 {
        assert forall|j: int|
            0 <= j < pairs.drop_last().len() implies (#[trigger] pairs.drop_last()[j]).0@
            < ings.len() by {
            assert(pairs.drop_last()[j] == pairs[j]);
        }
        lemma_withdraw_exact_total(ings, pairs.drop_last());
        lemma_withdraw_pairs_wf(ings, pairs.drop_last());
        let prev = withdraw_pairs(ings, pairs.drop_last());
        let ix = pairs.last().0@ as int;
        lemma_total_update(
            prev,
            ix,
            (Ingredient {
                current: Quantity {
                    millis: crate::ingredient::spec_withdraw(
                        prev[ix].current.millis,
                        pairs.last().1.millis,
                    ),
                },
                ..prev[ix]
            }),
        );
    }
}

/// Deposits that never clip add exactly their listed total.
proof fn lemma_deposit_unclamped_total(
    ings: Seq<Ingredient>,
    pairs: Seq<(IngredientIndex, Quantity)>,
)
    requires
        pairs_valid(pairs, ings.len()),
        deposits_unclamped(ings, pairs),
    ensures
        total_current(deposit_pairs(ings, pairs)) == total_current(ings) + total_amount(pairs),
    decreases pairs.len(),
{
    if pairs.len() > 0 {
        assert forall|j: int|
            0 <= j < pairs.drop_last().len() implies (#[trigger] pairs.drop_last()[j]).0@
            < ings.len() by {
            assert(pairs.drop_last()[j] == pairs[j]);
        }
        lemma_deposit_unclamped_total(ings, pairs.drop_last());
        lemma_deposit_pairs_wf(ings, pairs.drop_last());
        let prev = deposit_pairs(ings, pairs.drop_last());
        let ix = pairs.last().0@ as int;
        lemma_total_update(
            prev,
            ix,
            (Ingredient {
                current: Quantity {
                    millis: crate::ingredient::spec_deposit(
                        prev[ix].current.millis,
                        pairs.last().1.millis,
                        prev[ix].capacity,
                    ),
                },
                ..prev[ix]
            }),
        );
    }
}

/// A fold of withdrawals leaves every stock it never names untouched.
proof fn lemma_withdraw_pairs_untouched(
    ings: Seq<Ingredient>,
    pairs: Seq<(IngredientIndex, Quantity)>,
    t: int,
)
    requires
        pairs_valid(pairs, ings.len()),
        0 <= t < ings.len(),
        forall|j: int| 0 <= j < pairs.len() ==> (#[trigger] pairs[j]).0@ != t,
    ensures
        withdraw_pairs(ings, pairs)[t] == ings[t],
    decreases pairs.len(),
{
    if pairs.len() > 0 {
        assert forall|j: int|
            0 <= j < pairs.drop_last().len() implies (#[trigger] pairs.drop_last()[j]).0@
            < ings.len() && pairs.drop_last()[j].0@ != t by {
            assert(pairs.drop_last()[j] == pairs[j]);
        }
        lemma_withdraw_pairs_untouched(ings, pairs.drop_last(), t);
        lemma_withdraw_pairs_wf(ings, pairs.drop_last());
        assert(pairs.last().0@ != t);
    }
}

/// Withdrawals with pairwise-distinct targets, each covered by the
/// starting store, never fall short.
proof fn lemma_distinct_satisfied_exact(
    ings: Seq<Ingredient>,
    pairs: Seq<(IngredientIndex, Quantity)>,
)
    requires
        pairs_valid(pairs, ings.len()),
        distinct_targets(pairs),
        forall|j: int|
            0 <= j < pairs.len() ==> ings[(#[trigger] pairs[j]).0@ as int].current.millis
                >= pairs[j].1.millis,
    ensures
        withdrawals_exact(ings, pairs),
    decreases pairs.len(),
{
    if pairs.len() > 0 {
        let front = pairs.drop_last();
        assert forall|j: int|
            0 <= j < front.len() implies (#[trigger] front[j]).0@ < ings.len()
            && ings[front[j].0@ as int].current.millis >= front[j].1.millis by {
            assert(front[j] == pairs[j]);
        }
        assert forall|j1: int, j2: int|
            0 <= j1 < j2 < front.len() implies (#[trigger] front[j1]).0@ != (
        #[trigger] front[j2]).0@ by {
            assert(front[j1] == pairs[j1]);
            assert(front[j2] == pairs[j2]);
        }
        lemma_distinct_satisfied_exact(ings, front);
        let t = pairs.last().0@ as int;
        assert forall|j: int| 0 <= j < front.len() implies (#[trigger] front[j]).0@ != t as nat by {
            assert(front[j] == pairs[j]);
            assert(pairs[j].0@ != pairs[pairs.len() - 1].0@);
        }
        lemma_withdraw_pairs_untouched(ings, front, t);
        assert(withdraw_pairs(ings, front)[t].current.millis >= pairs.last().1.millis);
    }
}

/// Conservation on success: when a recipe starts — so the pre-tick store
/// satisfied every input — with no input stock named twice, and later
/// finishes with room for every output, and no other recipe touches the
/// store in between, then the total stock changes by exactly the recipe's
/// outputs minus its inputs.
pub proof fn lemma_conservation_on_success(
    rs: Seq<RecipeHolder>,
    ings: Seq<Ingredient>,
    i: RecipeIndex,
)
    requires
        i@ < rs.len(),
        recipe_refs_valid(rs[i@ as int].recipe, ings.len()),
        spec_can_run_n_times(rs[i@ as int].recipe, ings, 1),
        distinct_targets(rs[i@ as int].recipe.input@),
        deposits_unclamped(
            withdraw_pairs(ings, rs[i@ as int].recipe.input@),
            rs[i@ as int].recipe.output@,
        ),
    ensures
        ({
            let started = apply_event(rs, ings, RecipeEvent::StartRecipe(i));
            let finished = apply_event(started.0, started.1, RecipeEvent::FinishRecipe(i));
            total_current(finished.1) == total_current(ings) - total_amount(
                rs[i@ as int].recipe.input@,
            ) + total_amount(rs[i@ as int].recipe.output@)
        }),
{
    let r = rs[i@ as int].recipe;
    let started = apply_event(rs, ings, RecipeEvent::StartRecipe(i));
    assert(started.0[i@ as int].recipe == r);
    assert(started.1 == withdraw_pairs(ings, r.input@));
    assert forall|j: int| 0 <= j < r.input@.len() implies (#[trigger] r.input@[j]).0@
        < ings.len() by {
        assert(crate::recipe::input_ref_valid(r, ings.len(), j));
    }
    assert forall|j: int|
        0 <= j < r.input@.len() implies ings[(#[trigger] r.input@[j]).0@ as int].current.millis
        >= r.input@[j].1.millis by {
        assert(crate::recipe::input_satisfied(r, ings, 1, j));
        assert(r.input@[j].1.millis as int * 1 == r.input@[j].1.millis as int);
    }
    lemma_distinct_satisfied_exact(ings, r.input@);
    lemma_withdraw_exact_total(ings, r.input@);
    lemma_withdraw_pairs_wf(ings, r.input@);
    assert forall|j: int| 0 <= j < r.output@.len() implies (#[trigger] r.output@[j]).0@
        < started.1.len() by {
        assert(crate::recipe::output_ref_valid(r, ings.len(), j));
    }
    lemma_deposit_unclamped_total(started.1, r.output@);
}

} // verus!
