//! The recipe table: timed transformation rules with their per-recipe
//! runtime state, reached through dense, stable handles.

use vstd::prelude::*;

verus! {

use crate::ingredient::Ingredient;
use crate::ingredient::IngredientIndex;
use crate::ingredient::Ingredients;
use crate::quantity::Quantity;

/// A timed transformation rule: it consumes the `input` stocks and, after
/// `delay` seconds, produces the `output` stocks. An automatic recipe
/// self-triggers whenever its inputs are available.
#[derive(Debug)]
pub struct Recipe {
    pub input: Vec<(IngredientIndex, Quantity)>,
    pub output: Vec<(IngredientIndex, Quantity)>,
    pub automatic: bool,
    pub delay: Quantity,
}

/// The input pair `j` of the recipe names a slot below `n_ingredients`.
pub open spec fn input_ref_valid(r: Recipe, n_ingredients: nat, j: int) -> bool {
    r.input@[j].0@ < n_ingredients
}

/// The output pair `j` of the recipe names a slot below `n_ingredients`.
pub open spec fn output_ref_valid(r: Recipe, n_ingredients: nat, j: int) -> bool {
    r.output@[j].0@ < n_ingredients
}

/// Every input and output pair of the recipe names a slot below
/// `n_ingredients`; the recipe can then be evaluated and applied against a
/// store of that size.
pub open spec fn recipe_refs_valid(r: Recipe, n_ingredients: nat) -> bool {
    &&& forall|j: int| 0 <= j < r.input@.len() ==> #[trigger] input_ref_valid(r, n_ingredients, j)
    &&& forall|j: int| 0 <= j < r.output@.len() ==> #[trigger] output_ref_valid(r, n_ingredients, j)
}

/// The stock named by input pair `j` holds at least `n` times the pair's
/// amount.
pub open spec fn input_satisfied(r: Recipe, ingredients: Seq<Ingredient>, n: u32, j: int) -> bool {
    ingredients[r.input@[j].0@ as int].current.millis
        >= r.input@[j].1.millis as int * n as int
}

/// The recipe could run `n` times from the given stocks: every input pair
/// is covered `n` times over. This reads one snapshot of the store and
/// reserves nothing.
pub open spec fn spec_can_run_n_times(r: Recipe, ingredients: Seq<Ingredient>, n: u32) -> bool {
    forall|j: int| 0 <= j < r.input@.len() ==> #[trigger] input_satisfied(r, ingredients, n, j)
}

impl Recipe {
    /// True iff every input stock currently holds at least `n` times the
    /// required amount. The check reads a snapshot of the store; it gives no
    /// reservation or lock.
    pub fn can_run_n_times(&self, ingredients: &Ingredients, n: u32) -> (r: bool)
        requires
            recipe_refs_valid(*self, ingredients@.len()),
        ensures
            r == spec_can_run_n_times(*self, ingredients@, n),
    {
        let mut j: usize = 0;
        while j < self.input.len()
            invariant
                j <= self.input@.len(),
                recipe_refs_valid(*self, ingredients@.len()),
                forall|k: int| 0 <= k < j ==> #[trigger] input_satisfied(*self, ingredients@, n, k),
            decreases self.input@.len() - j,
        {
            let (ty, amount) = self.input[j];
            proof {
                assert(input_ref_valid(*self, ingredients@.len(), j as int));
            }
            let ingredient = ingredients.get(ty);
            proof {
                assert((amount.millis as int) * (n as int) <= u128::MAX) by (nonlinear_arith)
                    requires
                        amount.millis <= u64::MAX,
                        n <= u32::MAX,
                ;
            }
            if (ingredient.current.millis as u128) < (amount.millis as u128) * (n as u128) {
                proof {
                    assert(!input_satisfied(*self, ingredients@, n, j as int));
                }
                return false;
            }
            j += 1;
        }
        true
    }

    /// True iff the recipe could run once from the given stocks.
    #[inline]
    pub fn can_run(&self, ingredients: &Ingredients) -> (r: bool)
        requires
            recipe_refs_valid(*self, ingredients@.len()),
        ensures
            r == spec_can_run_n_times(*self, ingredients@, 1),
    {
        self.can_run_n_times(ingredients, 1)
    }
}

/// A registered recipe together with its runtime state: the elapsed timer,
/// the running flag, and the automation toggle.
#[derive(Debug)]
pub struct RecipeHolder {
    pub recipe: Recipe,
    pub automation_enabled: bool,
    pub time: Quantity,
    pub started: bool,
}

impl RecipeHolder {
    /// The timer only advances while the recipe runs: an idle recipe always
    /// shows an elapsed time of zero.
    pub open spec fn wf(&self) -> bool {
        !self.started ==> self.time.millis == 0
    }

    /// Freshly-initialized runtime state: idle, timer at zero, automation
    /// enabled.
    pub fn from_recipe(recipe: Recipe) -> (r: RecipeHolder)
        ensures
            r.recipe == recipe,
            r.automation_enabled,
            r.time.millis == 0,
            !r.started,
            r.wf(),
    {
        RecipeHolder { recipe, automation_enabled: true, time: Quantity { millis: 0 }, started: false }
    }
}

/// An opaque, stable handle into a recipe table, assigned at registration
/// time and never reused or reassigned.
#[derive(Clone, Copy, Debug, PartialEq, Eq, Hash, Structural)]
pub struct RecipeIndex(pub usize);

impl View for RecipeIndex {
    type V = nat;

    /// The underlying slot in the table.
    open spec fn view(&self) -> nat {
        self.0 as nat
    }
}

impl RecipeIndex {
    /// The underlying slot in the table.
    pub fn ix(&self) -> (r: usize)
        ensures
            r as nat == self@,
    {
        self.0
    }
}

/// An indexed table of recipes and their runtime state. Indices are
/// assigned densely, starting at zero in registration order, and are never
/// reclaimed.
#[derive(Debug)]
pub struct Recipes {
    pub recipes: Vec<RecipeHolder>,
}

impl View for Recipes {
    type V = Seq<RecipeHolder>;

    /// The registered recipes with their runtime state, in registration
    /// order.
    open spec fn view(&self) -> Seq<RecipeHolder> {
        self.recipes@
    }
}

/// Every recipe in the table names only slots below `n_ingredients`.
pub open spec fn recipes_refs_valid(recipes: Seq<RecipeHolder>, n_ingredients: nat) -> bool {
    forall|i: int| 0 <= i < recipes.len()
        ==> recipe_refs_valid((#[trigger] recipes[i]).recipe, n_ingredients)
}

impl Recipes {
    /// Every runtime state in the table is well-formed.
    pub open spec fn wf(&self) -> bool {
        forall|i: int| 0 <= i < self@.len() ==> (#[trigger] self@[i]).wf()
    }

    /// Appends a recipe with freshly-initialized runtime state and returns
    /// its permanent handle.
    pub fn add_recipe(&mut self, recipe: Recipe) -> (ix: RecipeIndex)
        ensures
            final(self)@.len() == old(self)@.len() + 1,
            final(self)@ == old(self)@.push(final(self)@.last()),
            final(self)@.last().recipe == recipe,
            final(self)@.last().automation_enabled,
            final(self)@.last().time.millis == 0,
            !final(self)@.last().started,
            ix@ == old(self)@.len(),
    {
        let i = self.recipes.len();
        let holder = RecipeHolder::from_recipe(recipe);
        self.recipes.push(holder);
        RecipeIndex(i)
    }

    /// The number of registered recipes.
    pub fn len(&self) -> (r: usize)
        ensures
            r == self@.len(),
    {
        self.recipes.len()
    }

    /// The registered recipes with their handles and runtime state, in
    /// registration order — the stable traversal the engine and any
    /// display layer share.
    pub fn enumerate(&self) -> (r: Vec<(RecipeIndex, &RecipeHolder)>)
        ensures
            r@.len() == self@.len(),
            forall|k: int|
                0 <= k < self@.len() ==> (#[trigger] r@[k]).0@ == k && *r@[k].1 == self@[k],
    {
        let mut out: Vec<(RecipeIndex, &RecipeHolder)> = Vec::new();
        let mut k: usize = 0;
        while k < self.recipes.len()
            invariant
                k <= self@.len(),
                out@.len() == k,
                forall|t: int|
                    0 <= t < k ==> (#[trigger] out@[t]).0@ == t && *out@[t].1 == self@[t],
            decreases self@.len() - k,
        {
            out.push((RecipeIndex(k), &self.recipes[k]));
            k += 1;
        }
        out
    }

    /// The immutable rule behind a handle issued by `add_recipe`.
    pub fn get_recipe(&self, index: &RecipeIndex) -> (r: &Recipe)
        requires
            index@ < self@.len(),
        ensures
            *r == self@[index@ as int].recipe,
    {
        &self.get_recipe_holder(index).recipe
    }

    /// The recipe and its runtime state behind a handle issued by
    /// `add_recipe`.
    pub fn get_recipe_holder(&self, index: &RecipeIndex) -> (r: &RecipeHolder)
        requires
            index@ < self@.len(),
        ensures
            *r == self@[index@ as int],
    {
        &self.recipes[index.0]
    }

    /// Mutable access to the recipe and runtime state behind a handle
    /// issued by `add_recipe`.
    pub fn get_recipe_holder_mut(&mut self, index: &RecipeIndex) -> (r: &mut RecipeHolder)
        requires
            index@ < old(self)@.len(),
        ensures
            *r == old(self)@[index@ as int],
            final(self)@ == old(self)@.update(index@ as int, *final(r)),
    {
        &mut self.recipes[index.0]
    }

    /// Toggles whether an automatic recipe is allowed to self-trigger.
    /// Nothing else of the table changes; a recipe already running always
    /// completes.
    pub fn set_automation(&mut self, index: RecipeIndex, enabled: bool)
        requires
            index@ < old(self)@.len(),
        ensures
            final(self)@ == old(self)@.update(
                index@ as int,
                (RecipeHolder { automation_enabled: enabled, ..old(self)@[index@ as int] }),
            ),
    {
        let holder = &mut self.recipes[index.0];
        holder.automation_enabled = enabled;
    }
}

impl Default for Recipes {
    /// An empty table.
    fn default() -> (r: Recipes)
        ensures
            r@ == Seq::<RecipeHolder>::empty(),
    {
        Recipes { recipes: Vec::new() }
    }
}

/// A notification emitted while deciding a tick and consumed both
/// internally, to mutate stock, and externally, for display and feedback.
#[derive(Clone, Copy, Debug, PartialEq, Eq, Structural)]
pub enum RecipeEvent {
    /// The recipe leaves Idle: its inputs are withdrawn and its timer
    /// starts.
    StartRecipe(RecipeIndex),
    /// The recipe completed its delay: its outputs are deposited and its
    /// state is reset to Idle.
    FinishRecipe(RecipeIndex),
}

} // verus!
