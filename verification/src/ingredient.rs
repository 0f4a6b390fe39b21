//! The ingredient store: named resource stocks with an optional capacity
//! ceiling, reached through dense, stable handles.

use vstd::prelude::*;

verus! {

use crate::quantity::Quantity;
use crate::quantity::spec_saturating_sub;

/// A display colour for an ingredient, one byte per channel.
#[derive(Clone, Copy, Debug, PartialEq, Eq, Structural)]
pub struct Color {
    pub red: u8,
    pub green: u8,
    pub blue: u8,
}

impl Default for Color {
    /// The default colour is white.
    fn default() -> (r: Color)
        ensures
            r == (Color { red: 255, green: 255, blue: 255 }),
    {
        Color { red: 255, green: 255, blue: 255 }
    }
}

/// An opaque, stable handle into an ingredient store, assigned at
/// registration time and never reused or reassigned.
#[derive(Clone, Copy, Debug, PartialEq, Eq, Hash, Structural)]
pub struct IngredientIndex(pub usize);

impl View for IngredientIndex {
    type V = nat;

    /// The underlying slot in the store.
    open spec fn view(&self) -> nat {
        self.0 as nat
    }
}

impl IngredientIndex {
    /// The underlying slot in the store.
    pub fn ix(&self) -> (r: usize)
        ensures
            r as nat == self@,
    {
        self.0
    }
}

/// A named resource stock with a current quantity and an optional
/// capacity ceiling.
#[derive(Debug)]
pub struct Ingredient {
    pub name: String,
    pub color: Color,
    pub current: Quantity,
    pub capacity: Option<Quantity>,
}

/// The capacity ceiling of an ingredient: its capacity if one is set,
/// otherwise the largest representable amount.
pub open spec fn effective_capacity(capacity: Option<Quantity>) -> u64 {
    match capacity {
        Some(cap) => cap.millis,
        None => u64::MAX,
    }
}

/// The stock that a deposit of `amount` leaves: `current + amount`, clipped
/// at the capacity ceiling.
pub open spec fn spec_deposit(current: u64, amount: u64, capacity: Option<Quantity>) -> u64 {
    if current + amount > effective_capacity(capacity) {
        effective_capacity(capacity)
    } else {
        (current + amount) as u64
    }
}

/// The stock that a withdrawal of `amount` leaves: `current - amount`,
/// floored at zero.
pub open spec fn spec_withdraw(current: u64, amount: u64) -> u64 {
    spec_saturating_sub(current, amount)
}

impl Ingredient {
    /// An ingredient respects its capacity: the current stock never exceeds
    /// the ceiling when one is set.
    pub open spec fn wf(&self) -> bool {
        self.current.millis <= effective_capacity(self.capacity)
    }

    /// Deposits `amount` into the stock, clipping at the capacity if one is
    /// set.
    pub fn add_ingredient(&mut self, amount: Quantity)
        ensures
            final(self).current.millis == spec_deposit(
                old(self).current.millis,
                amount.millis,
                old(self).capacity,
            ),
            final(self).name == old(self).name,
            final(self).color == old(self).color,
            final(self).capacity == old(self).capacity,
            final(self).wf(),
    {
        match self.capacity {
            None => self.current = self.current.saturating_add(amount),
            Some(cap) => {
                let raised = self.current.saturating_add(amount);
                if raised.millis > cap.millis {
                    self.current = cap;
                } else {
                    self.current = raised;
                }
            },
        }
    }

    /// Withdraws `amount` from the stock, flooring at zero: withdrawing more
    /// than is available takes all that is available and discards the
    /// shortfall.
    pub fn spend_ingredient(&mut self, amount: Quantity)
        ensures
            final(self).current.millis == spec_withdraw(old(self).current.millis, amount.millis),
            final(self).current.millis <= old(self).current.millis,
            final(self).name == old(self).name,
            final(self).color == old(self).color,
            final(self).capacity == old(self).capacity,
            old(self).wf() ==> final(self).wf(),
    {
        self.current = self.current.saturating_sub(amount);
    }
}

impl Default for Ingredient {
    /// An unnamed, white, empty stock without a capacity ceiling.
    fn default() -> (r: Ingredient)
        ensures
            r.name@ == Seq::<char>::empty(),
            r.color == (Color { red: 255, green: 255, blue: 255 }),
            r.current.millis == 0,
            r.capacity is None,
            r.wf(),
    {
        Ingredient {
            name: String::new(),
            color: Color { red: 255, green: 255, blue: 255 },
            current: Quantity { millis: 0 },
            capacity: None,
        }
    }
}

/// An indexed table of ingredient stocks. Indices are assigned densely,
/// starting at zero in registration order, and are never reclaimed.
#[derive(Debug)]
pub struct Ingredients {
    pub ingredients: Vec<Ingredient>,
}

impl View for Ingredients {
    type V = Seq<Ingredient>;

    /// The registered stocks, in registration order.
    open spec fn view(&self) -> Seq<Ingredient> {
        self.ingredients@
    }
}

impl Ingredients {
    /// Every stock in the table respects its capacity.
    pub open spec fn wf(&self) -> bool {
        forall|i: int| 0 <= i < self@.len() ==> self@[i].wf()
    }

    /// A constant-time lookup with a handle issued by `add_ingredient`.
    pub fn get(&self, ty: IngredientIndex) -> (r: &Ingredient)
        requires
            ty@ < self@.len(),
        ensures
            *r == self@[ty@ as int],
    {
        &self.ingredients[ty.0]
    }

    /// A constant-time mutable lookup with a handle issued by
    /// `add_ingredient`.
    pub fn get_mut(&mut self, ty: IngredientIndex) -> (r: &mut Ingredient)
        requires
            ty@ < old(self)@.len(),
        ensures
            *r == old(self)@[ty@ as int],
            final(self)@ == old(self)@.update(ty@ as int, *final(r)),
    {
        &mut self.ingredients[ty.0]
    }

    /// Appends a new stock record and returns its permanent handle.
    pub fn add_ingredient(&mut self, ingredient: Ingredient) -> (ix: IngredientIndex)
        ensures
            final(self)@ == old(self)@.push(ingredient),
            ix@ == old(self)@.len(),
    {
        let ix = self.ingredients.len();
        self.ingredients.push(ingredient);
        IngredientIndex(ix)
    }

    /// The number of registered stocks.
    pub fn len(&self) -> (r: usize)
        ensures
            r == self@.len(),
    {
        self.ingredients.len()
    }

    /// The registered stocks with their handles, in registration order.
    pub fn iter(&self) -> (r: Vec<(IngredientIndex, &Ingredient)>)
        ensures
            r@.len() == self@.len(),
            forall|k: int|
                0 <= k < self@.len() ==> (#[trigger] r@[k]).0@ == k && *r@[k].1 == self@[k],
    {
        let mut out: Vec<(IngredientIndex, &Ingredient)> = Vec::new();
        let mut k: usize = 0;
        while k < self.ingredients.len()
            invariant
                k <= self@.len(),
                out@.len() == k,
                forall|t: int|
                    0 <= t < k ==> (#[trigger] out@[t]).0@ == t && *out@[t].1 == self@[t],
            decreases self@.len() - k,
        {
            out.push((IngredientIndex(k), &self.ingredients[k]));
            k += 1;
        }
        out
    }
}

impl Default for Ingredients {
    /// An empty store.
    fn default() -> (r: Ingredients)
        ensures
            r@ == Seq::<Ingredient>::empty(),
    {
        Ingredients { ingredients: Vec::new() }
    }
}

} // verus!
