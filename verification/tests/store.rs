use production_core::ingredient::{Color, Ingredient, Ingredients};
use production_core::quantity::Quantity;

fn coal_with_cap() -> Ingredient {
    Ingredient {
        name: String::from("Coal"),
        color: Color { red: 20, green: 20, blue: 20 },
        current: Quantity::new(9500),
        capacity: Some(Quantity::new(10000)),
    }
}

#[test]
fn capacity_clamp_on_deposit() {
    // depositing 2.5 into a stock of 9.5 capped at 10.0 yields 10.0, not 12.0
    let mut ingr = coal_with_cap();
    ingr.add_ingredient(Quantity::new(2500));
    assert_eq!(ingr.current.millis, 10000);
}

#[test]
fn deposit_below_capacity_is_exact() {
    let mut ingr = coal_with_cap();
    ingr.add_ingredient(Quantity::new(300));
    assert_eq!(ingr.current.millis, 9800);
}

#[test]
fn deposit_without_capacity_is_unbounded() {
    let mut ingr = Ingredient::default();
    ingr.add_ingredient(Quantity::new(7_000_000));
    ingr.add_ingredient(Quantity::new(3));
    assert_eq!(ingr.current.millis, 7_000_003);
    assert!(ingr.capacity.is_none());
}

#[test]
fn deposit_saturates_at_numeric_limit() {
    let mut ingr = Ingredient::default();
    ingr.add_ingredient(Quantity::new(u64::MAX - 1));
    ingr.add_ingredient(Quantity::new(500));
    assert_eq!(ingr.current.millis, u64::MAX);
}

#[test]
fn withdraw_floors_at_zero() {
    // withdrawing more than is available takes all of it, never going negative
    let mut ingr = coal_with_cap();
    ingr.spend_ingredient(Quantity::new(999_999));
    assert_eq!(ingr.current.millis, 0);
}

#[test]
fn withdraw_is_exact_when_covered() {
    let mut ingr = coal_with_cap();
    ingr.spend_ingredient(Quantity::new(1500));
    assert_eq!(ingr.current.millis, 8000);
}

#[test]
fn register_assigns_dense_indices() {
    let mut store = Ingredients::default();
    let a = store.add_ingredient(Ingredient::default());
    let b = store.add_ingredient(coal_with_cap());
    assert_eq!(a.ix(), 0);
    assert_eq!(b.ix(), 1);
    assert_eq!(store.len(), 2);
    assert_eq!(store.get(b).name, "Coal");
    assert_eq!(store.get(a).current.millis, 0);
}

#[test]
fn get_mut_reaches_the_slot() {
    let mut store = Ingredients::default();
    let a = store.add_ingredient(coal_with_cap());
    store.get_mut(a).spend_ingredient(Quantity::new(9500));
    assert_eq!(store.get(a).current.millis, 0);
}

#[test]
fn iter_walks_registration_order() {
    let mut store = Ingredients::default();
    let a = store.add_ingredient(Ingredient { name: String::from("A"), ..Ingredient::default() });
    let b = store.add_ingredient(Ingredient { name: String::from("B"), ..Ingredient::default() });
    let listed: Vec<(String, usize)> =
        store.iter().into_iter().map(|(ix, ingr)| (ingr.name.clone(), ix.ix())).collect();
    assert_eq!(listed, vec![(String::from("A"), a.ix()), (String::from("B"), b.ix())]);
}

#[test]
fn default_ingredient_is_empty_and_white() {
    let ingr = Ingredient::default();
    assert_eq!(ingr.name, "");
    assert_eq!(ingr.color, Color { red: 255, green: 255, blue: 255 });
    assert_eq!(ingr.current.millis, 0);
    assert!(ingr.capacity.is_none());
}

#[test]
fn quantity_accessors_round_trip() {
    let q = Quantity::new(1234);
    assert_eq!(q.value(), 1234);
    assert_eq!(Quantity::from(77).millis, 77);
    assert_eq!(Quantity::default().millis, 0);
    assert_eq!(Quantity::zero().millis, 0);
}

#[test]
fn quantity_saturating_ops() {
    let a = Quantity::new(10);
    assert_eq!(a.saturating_add(Quantity::new(5)).millis, 15);
    assert_eq!(a.saturating_add(Quantity::new(u64::MAX)).millis, u64::MAX);
    assert_eq!(a.saturating_sub(Quantity::new(3)).millis, 7);
    assert_eq!(a.saturating_sub(Quantity::new(11)).millis, 0);
}
