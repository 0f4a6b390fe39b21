//! Declarative game content: ingredient and recipe data rows named by
//! string ids, resolved once, at construction time, into the two runtime
//! tables.

use vstd::prelude::*;

verus! {

use crate::ingredient::Color;
use crate::ingredient::Ingredient;
use crate::ingredient::IngredientIndex;
use crate::ingredient::Ingredients;
use crate::quantity::Quantity;
use crate::recipe::Recipe;
use crate::recipe::RecipeHolder;
use crate::recipe::Recipes;
use crate::recipe::recipe_refs_valid;

/// A declared ingredient: a data-table row naming a stock by a string id,
/// before ids are resolved to dense handles.
#[derive(Debug)]
pub struct IngredientDef {
    pub id: String,
    pub name: String,
    pub cap: Option<Quantity>,
    pub color: Color,
}

/// A declared recipe: a data-table row whose input and output stocks are
/// named by string id, before ids are resolved to dense handles.
#[derive(Debug)]
pub struct RecipeDef {
    pub id: String,
    pub input: Vec<(String, Quantity)>,
    pub output: Vec<(String, Quantity)>,
    pub delay: Quantity,
    pub automatic: bool,
}

/// A content error reported while building: construction recovers locally
/// (the duplicate or unresolved entry is dropped or shadowed) and never
/// fails as a whole.
#[derive(Debug, PartialEq, Eq)]
pub enum BuildWarning {
    /// Two ingredient declarations share an id; only the last one added
    /// takes effect for name resolution.
    DuplicateIngredientId(String),
    /// Two recipe declarations share an id; only the last one added takes
    /// effect for name resolution.
    DuplicateRecipeId(String),
    /// A recipe refers to an ingredient id that was never declared; the
    /// offending pair is dropped from that recipe.
    UnknownIngredient { recipe: String, ingredient: String },
}

/// The slot that a string id resolves to: the position of the last
/// declaration carrying that id, if there is one.
pub open spec fn spec_lookup(defs: Seq<IngredientDef>, id: Seq<char>) -> Option<int>
    decreases defs.len(),
{
    if defs.len() == 0 {
        None
    } else if defs.last().id@ == id {
        Some(defs.len() - 1)
    } else {
        spec_lookup(defs.drop_last(), id)
    }
}

/// A declaration before position `i` already carries the id of the
/// declaration at `i`.
pub open spec fn has_earlier_ingredient_id(defs: Seq<IngredientDef>, i: int) -> bool {
    exists|j: int| 0 <= j < i && (#[trigger] defs[j]).id@ == defs[i].id@
}

/// A recipe declaration before position `i` already carries the id of the
/// declaration at `i`.
pub open spec fn has_earlier_recipe_id(defs: Seq<RecipeDef>, i: int) -> bool {
    exists|j: int| 0 <= j < i && (#[trigger] defs[j]).id@ == defs[i].id@
}

/// The stock record that one declaration registers: the declared name,
/// colour and capacity, with an empty stock.
pub open spec fn built_ingredient(def: IngredientDef) -> Ingredient {
    Ingredient {
        name: def.name,
        color: def.color,
        current: Quantity { millis: 0 },
        capacity: def.cap,
    }
}

/// The id-named pairs of one declared recipe side, resolved to handles in
/// order; a pair whose id resolves to nothing is dropped.
pub open spec fn resolve_pairs(
    defs: Seq<IngredientDef>,
    pairs: Seq<(String, Quantity)>,
) -> Seq<(IngredientIndex, Quantity)>
    decreases pairs.len(),
{
    if pairs.len() == 0 {
        Seq::empty()
    } else {
        let rest = resolve_pairs(defs, pairs.drop_last());
        match spec_lookup(defs, pairs.last().0@) {
            None => rest,
            Some(ix) => rest.push((IngredientIndex(ix as usize), pairs.last().1)),
        }
    }
}

/// The duplicate-id warnings of the first `n` ingredient declarations, in
/// declaration order.
pub open spec fn ingredient_warnings_upto(defs: Seq<IngredientDef>, n: int) -> Seq<BuildWarning>
    decreases n,
{
    if n <= 0 {
        Seq::empty()
    } else {
        ingredient_warnings_upto(defs, n - 1) + if has_earlier_ingredient_id(defs, n - 1) {
            seq![BuildWarning::DuplicateIngredientId(defs[n - 1].id)]
        } else {
            Seq::empty()
        }
    }
}

/// The unresolved-id warnings of one declared recipe side, in pair order.
pub open spec fn pair_warnings(
    defs: Seq<IngredientDef>,
    recipe_id: String,
    pairs: Seq<(String, Quantity)>,
) -> Seq<BuildWarning>
    decreases pairs.len(),
{
    if pairs.len() == 0 {
        Seq::empty()
    } else {
        pair_warnings(defs, recipe_id, pairs.drop_last()) + match spec_lookup(
            defs,
            pairs.last().0@,
        ) {
            None => seq![
                (BuildWarning::UnknownIngredient { recipe: recipe_id, ingredient: pairs.last().0 }),
            ],
            Some(ix) => Seq::empty(),
        }
    }
}

/// The warnings of the first `n` recipe declarations, in declaration
/// order: unresolved inputs, then unresolved outputs, then a duplicate-id
/// warning.
pub open spec fn recipe_warnings_upto(
    defs: Seq<IngredientDef>,
    rdefs: Seq<RecipeDef>,
    n: int,
) -> Seq<BuildWarning>
    decreases n,
{
    if n <= 0 {
        Seq::empty()
    } else {
        recipe_warnings_upto(defs, rdefs, n - 1) + pair_warnings(
            defs,
            rdefs[n - 1].id,
            rdefs[n - 1].input@,
        ) + pair_warnings(defs, rdefs[n - 1].id, rdefs[n - 1].output@) + if has_earlier_recipe_id(
            rdefs,
            n - 1,
        ) {
            seq![BuildWarning::DuplicateRecipeId(rdefs[n - 1].id)]
        } else {
            Seq::empty()
        }
    }
}

/// Every warning that building the declared content reports, in report
/// order: ingredient duplicates first, then per-recipe warnings.
pub open spec fn build_warnings(defs: Seq<IngredientDef>, rdefs: Seq<RecipeDef>) -> Seq<
    BuildWarning,
> {
    ingredient_warnings_upto(defs, defs.len() as int) + recipe_warnings_upto(
        defs,
        rdefs,
        rdefs.len() as int,
    )
}

/// The recipe table entry that one declared recipe builds against the
/// declared ingredients: ids resolved to handles, unresolved pairs dropped,
/// runtime state freshly initialized.
pub open spec fn built_holder_matches(
    defs: Seq<IngredientDef>,
    rdef: RecipeDef,
    h: RecipeHolder,
) -> bool {
    &&& h.recipe.input@ == resolve_pairs(defs, rdef.input@)
    &&& h.recipe.output@ == resolve_pairs(defs, rdef.output@)
    &&& h.recipe.automatic == rdef.automatic
    &&& h.recipe.delay == rdef.delay
    &&& h.automation_enabled
    &&& h.time.millis == 0
    &&& !h.started
}

fn lookup_ingredient_ix(defs: &Vec<IngredientDef>, id: &String) -> (r: Option<usize>)
    ensures
        r is Some <==> spec_lookup(defs@, id@) is Some,
        r matches Some(ix) ==> spec_lookup(defs@, id@) == Some(ix as int),
{
    let mut j = defs.len();
    proof {
        assert(defs@.take(j as int) =~= defs@);
    }
    while j > 0
        invariant
            j <= defs@.len(),
            spec_lookup(defs@, id@) == spec_lookup(defs@.take(j as int), id@),
        decreases j,
    {
        j -= 1;
        if defs[j].id == *id {
            proof {
                assert(defs@.take(j as int + 1).last() == defs@[j as int]);
            }
            return Some(j);
        }
        proof {
            assert(defs@.take(j as int + 1).last() == defs@[j as int]);
            assert(defs@.take(j as int + 1).drop_last() =~= defs@.take(j as int));
        }
    }
    None
}

fn ingredient_id_seen_before(defs: &Vec<IngredientDef>, i: usize) -> (r: bool)
    requires
        i < defs@.len(),
    ensures
        r == has_earlier_ingredient_id(defs@, i as int),
{
    let mut j: usize = 0;
    while j < i
        invariant
            j <= i < defs@.len(),
            forall|k: int| 0 <= k < j ==> (#[trigger] defs@[k]).id@ != defs@[i as int].id@,
        decreases i - j,
    {
        if defs[j].id == defs[i].id {
            return true;
        }
        j += 1;
    }
    false
}

fn recipe_id_seen_before(defs: &Vec<RecipeDef>, i: usize) -> (r: bool)
    requires
        i < defs@.len(),
    ensures
        r == has_earlier_recipe_id(defs@, i as int),
{
    let mut j: usize = 0;
    while j < i
        invariant
            j <= i < defs@.len(),
            forall|k: int| 0 <= k < j ==> (#[trigger] defs@[k]).id@ != defs@[i as int].id@,
        decreases i - j,
    {
        if defs[j].id == defs[i].id {
            return true;
        }
        j += 1;
    }
    false
}

/// Collects declarative game content — ingredient and recipe data rows
/// named by string ids — and builds the two runtime tables from it,
/// resolving every id to a dense handle once, at construction time.
#[derive(Debug)]
pub struct GameBuilder {
    pub ingredients: Vec<IngredientDef>,
    pub recipes: Vec<RecipeDef>,
}

impl Default for GameBuilder {
    /// A builder with no content declared yet.
    fn default() -> (r: GameBuilder)
        ensures
            r.ingredients@ == Seq::<IngredientDef>::empty(),
            r.recipes@ == Seq::<RecipeDef>::empty(),
    {
        GameBuilder { ingredients: Vec::new(), recipes: Vec::new() }
    }
}

impl GameBuilder {
    /// A builder with no content declared yet.
    pub fn new() -> (r: GameBuilder)
        ensures
            r.ingredients@ == Seq::<IngredientDef>::empty(),
            r.recipes@ == Seq::<RecipeDef>::empty(),
    {
        GameBuilder { ingredients: Vec::new(), recipes: Vec::new() }
    }

    /// Declares an ingredient stock under a string id.
    pub fn add_ingredient(
        self,
        id: String,
        name: String,
        cap: Option<Quantity>,
        color: Color,
    ) -> (r: GameBuilder)
        ensures
            r.ingredients@ == self.ingredients@.push(IngredientDef { id, name, cap, color }),
            r.recipes@ == self.recipes@,
    {
        let mut ingredients = self.ingredients;
        ingredients.push(IngredientDef { id, name, cap, color });
        GameBuilder { ingredients, recipes: self.recipes }
    }

    /// Declares a recipe whose input and output stocks are named by string
    /// id.
    pub fn add_recipe(
        self,
        id: String,
        input: Vec<(String, Quantity)>,
        output: Vec<(String, Quantity)>,
        delay: Quantity,
        automatic: bool,
    ) -> (r: GameBuilder)
        ensures
            r.ingredients@ == self.ingredients@,
            r.recipes@ == self.recipes@.push(RecipeDef { id, input, output, delay, automatic }),
    {
        let mut recipes = self.recipes;
        recipes.push(RecipeDef { id, input, output, delay, automatic });
        GameBuilder { ingredients: self.ingredients, recipes }
    }

    /// Builds the two runtime tables from the declared content. Every
    /// string id is resolved here, once: the built recipes hold dense
    /// handles only. Content errors never abort the build; each is
    /// reported as a warning, and the offending pair is dropped or the
    /// earlier declaration shadowed.
    pub fn build(self) -> (r: (Ingredients, Recipes, Vec<BuildWarning>))
        ensures
            r.0@.len() == self.ingredients@.len(),
            forall|i: int|
                0 <= i < self.ingredients@.len() ==> r.0@[i] == built_ingredient(
                    #[trigger] self.ingredients@[i],
                ),
            r.1@.len() == self.recipes@.len(),
            forall|k: int|
                0 <= k < self.recipes@.len() ==> built_holder_matches(
                    self.ingredients@,
                    #[trigger] self.recipes@[k],
                    r.1@[k],
                ),
            r.2@ == build_warnings(self.ingredients@, self.recipes@),
            crate::recipe::recipes_refs_valid(r.1@, r.0@.len()),
            r.0.wf(),
            r.1.wf(),
    {
        let defs = self.ingredients;
        let rdefs = self.recipes;
        let mut ings: Ingredients = Default::default();
        let mut warnings: Vec<BuildWarning> = Vec::new();
        let mut i: usize = 0;
        while i < defs.len()
            invariant
                i <= defs@.len(),
                ings@.len() == i,
                forall|k: int| 0 <= k < i ==> ings@[k] == built_ingredient(#[trigger] defs@[k]),
                warnings@ == ingredient_warnings_upto(defs@, i as int),
            decreases defs@.len() - i,
        {
            let duplicate = ingredient_id_seen_before(&defs, i);
            let def = &defs[i];
            let ing = Ingredient {
                name: def.name.clone(),
                color: def.color,
                current: Quantity::new(0),
                capacity: def.cap,
            };
            proof {
                assert(ing == built_ingredient(defs@[i as int]));
            }
            ings.add_ingredient(ing);
            if duplicate {
                warnings.push(BuildWarning::DuplicateIngredientId(def.id.clone()));
            }
            proof {
                assert(warnings@ =~= ingredient_warnings_upto(defs@, i as int + 1));
            }
            i += 1;
        }
        let ghost warnings_after_ingredients = warnings@;
        let mut recs: Recipes = Default::default();
        let mut k: usize = 0;
        while k < rdefs.len()
            invariant
                k <= rdefs@.len(),
                recs@.len() == k,
                ings@.len() == defs@.len(),
                forall|t: int| 0 <= t < defs@.len() ==> ings@[t] == built_ingredient(#[trigger] defs@[t]),
                forall|t: int|
                    0 <= t < k ==> built_holder_matches(defs@, #[trigger] rdefs@[t], recs@[t]),
                warnings_after_ingredients == ingredient_warnings_upto(defs@, defs@.len() as int),
                warnings@ == warnings_after_ingredients + recipe_warnings_upto(
                    defs@,
                    rdefs@,
                    k as int,
                ),
            decreases rdefs@.len() - k,
        {
            let duplicate = recipe_id_seen_before(&rdefs, k);
            let rdef = &rdefs[k];
            let ghost warnings_entry = warnings@;
            let mut input: Vec<(IngredientIndex, Quantity)> = Vec::new();
            let mut j: usize = 0;
            while j < rdef.input.len()
                invariant
                    j <= rdef.input@.len(),
                    input@ == resolve_pairs(defs@, rdef.input@.take(j as int)),
                    warnings@ == warnings_entry + pair_warnings(
                        defs@,
                        rdef.id,
                        rdef.input@.take(j as int),
                    ),
                decreases rdef.input@.len() - j,
            {
                let pair = &rdef.input[j];
                match lookup_ingredient_ix(&defs, &pair.0) {
                    Some(ix) => {
                        input.push((IngredientIndex(ix), pair.1));
                    },
                    None => {
                        warnings.push(
                            BuildWarning::UnknownIngredient {
                                recipe: rdef.id.clone(),
                                ingredient: pair.0.clone(),
                            },
                        );
                    },
                }
                proof {
                    assert(rdef.input@.take(j as int + 1).drop_last() =~= rdef.input@.take(
                        j as int,
                    ));
                    assert(rdef.input@.take(j as int + 1).last() == rdef.input@[j as int]);
                    assert(input@ =~= resolve_pairs(defs@, rdef.input@.take(j as int + 1)));
                    assert(warnings@ =~= warnings_entry + pair_warnings(
                        defs@,
                        rdef.id,
                        rdef.input@.take(j as int + 1),
                    ));
                }
                j += 1;
            }
            let ghost warnings_after_input = warnings@;
            let mut output: Vec<(IngredientIndex, Quantity)> = Vec::new();
            let mut j: usize = 0;
            while j < rdef.output.len()
                invariant
                    j <= rdef.output@.len(),
                    output@ == resolve_pairs(defs@, rdef.output@.take(j as int)),
                    warnings@ == warnings_after_input + pair_warnings(
                        defs@,
                        rdef.id,
                        rdef.output@.take(j as int),
                    ),
                decreases rdef.output@.len() - j,
            {
                let pair = &rdef.output[j];
                match lookup_ingredient_ix(&defs, &pair.0) {
                    Some(ix) => {
                        output.push((IngredientIndex(ix), pair.1));
                    },
                    None => {
                        warnings.push(
                            BuildWarning::UnknownIngredient {
                                recipe: rdef.id.clone(),
                                ingredient: pair.0.clone(),
                            },
                        );
                    },
                }
                proof {
                    assert(rdef.output@.take(j as int + 1).drop_last() =~= rdef.output@.take(
                        j as int,
                    ));
                    assert(rdef.output@.take(j as int + 1).last() == rdef.output@[j as int]);
                    assert(output@ =~= resolve_pairs(defs@, rdef.output@.take(j as int + 1)));
                    assert(warnings@ =~= warnings_after_input + pair_warnings(
                        defs@,
                        rdef.id,
                        rdef.output@.take(j as int + 1),
                    ));
                }
                j += 1;
            }
            proof {
                assert(rdef.input@.take(rdef.input@.len() as int) =~= rdef.input@);
                assert(rdef.output@.take(rdef.output@.len() as int) =~= rdef.output@);
            }
            let recipe = Recipe {
                input,
                output,
                automatic: rdef.automatic,
                delay: rdef.delay,
            };
            recs.add_recipe(recipe);
            if duplicate {
                warnings.push(BuildWarning::DuplicateRecipeId(rdef.id.clone()));
            }
            proof {
                assert(built_holder_matches(defs@, rdefs@[k as int], recs@[k as int]));
                assert(warnings@ =~= warnings_after_ingredients + recipe_warnings_upto(
                    defs@,
                    rdefs@,
                    k as int + 1,
                ));
            }
            k += 1;
        }
        proof {
            assert(warnings@ =~= build_warnings(defs@, rdefs@));
            lemma_built_recipes_refs_valid(defs@, rdefs@, recs@, ings@.len());
            assert forall|t: int| 0 <= t < ings@.len() implies (#[trigger] ings@[t]).wf() by {
                assert(ings@[t] == built_ingredient(defs@[t]));
            }
            assert forall|t: int| 0 <= t < recs@.len() implies (#[trigger] recs@[t]).wf() by {
                assert(built_holder_matches(defs@, rdefs@[t], recs@[t]));
            }
        }
        (ings, recs, warnings)
    }
}

/// A resolved id always points below the number of declarations.
proof fn lemma_lookup_in_range(defs: Seq<IngredientDef>, id: Seq<char>)
    ensures
        spec_lookup(defs, id) matches Some(ix) ==> 0 <= ix < defs.len(),
    decreases defs.len(),
{
    if defs.len() > 0 && defs.last().id@ != id {
        lemma_lookup_in_range(defs.drop_last(), id);
    }
}

/// Every pair that resolution keeps holds a handle below the number of
/// declarations.
proof fn lemma_resolve_pairs_valid(defs: Seq<IngredientDef>, pairs: Seq<(String, Quantity)>)
    ensures
        forall|j: int|
            0 <= j < resolve_pairs(defs, pairs).len() ==> (#[trigger] resolve_pairs(defs, pairs)[j]).0@
                < defs.len(),
    decreases pairs.len(),
{
    if pairs.len() > 0 {
        lemma_resolve_pairs_valid(defs, pairs.drop_last());
        lemma_lookup_in_range(defs, pairs.last().0@);
        let rest = resolve_pairs(defs, pairs.drop_last());
        assert forall|j: int|
            0 <= j < resolve_pairs(defs, pairs).len() implies (#[trigger] resolve_pairs(
            defs,
            pairs,
        )[j]).0@ < defs.len() by {
            if j < rest.len() {
                assert(rest[j].0@ < defs.len());
            }
        }
    }
}

/// A recipe table whose every entry was resolved against `defs` only names
/// slots below the store built from `defs`.
proof fn lemma_built_recipes_refs_valid(
    defs: Seq<IngredientDef>,
    rdefs: Seq<RecipeDef>,
    recs: Seq<RecipeHolder>,
    n_ingredients: nat,
)
    requires
        n_ingredients == defs.len(),
        recs.len() == rdefs.len(),
        forall|t: int|
            0 <= t < rdefs.len() ==> built_holder_matches(defs, #[trigger] rdefs[t], recs[t]),
    ensures
        crate::recipe::recipes_refs_valid(recs, n_ingredients),
{
    assert forall|t: int| 0 <= t < recs.len() implies recipe_refs_valid(
        (#[trigger] recs[t]).recipe,
        n_ingredients,
    ) by {
        assert(built_holder_matches(defs, rdefs[t], recs[t]));
        lemma_resolve_pairs_valid(defs, rdefs[t].input@);
        lemma_resolve_pairs_valid(defs, rdefs[t].output@);
        assert forall|j: int|
            0 <= j < recs[t].recipe.input@.len() implies #[trigger] crate::recipe::input_ref_valid(
            recs[t].recipe,
            n_ingredients,
            j,
        ) by {
            assert(recs[t].recipe.input@[j] == resolve_pairs(defs, rdefs[t].input@)[j]);
        }
        assert forall|j: int|
            0 <= j < recs[t].recipe.output@.len() implies #[trigger] crate::recipe::output_ref_valid(
            recs[t].recipe,
            n_ingredients,
            j,
        ) by {
            assert(recs[t].recipe.output@[j] == resolve_pairs(defs, rdefs[t].output@)[j]);
        }
    }
}

} // verus!
