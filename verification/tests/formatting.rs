use production_core::quantity::Quantity;
use production_core::utils::{format_quantity, write_format_quantity};

fn fmt(millis: u64) -> String {
    format_quantity(Quantity::new(millis))
}

#[test]
fn zero_is_bare() {
    assert_eq!(fmt(0), "0");
}

#[test]
fn sub_unit_trims_trailing_zeros() {
    assert_eq!(fmt(250), "0.25");
    assert_eq!(fmt(100), "0.1");
    assert_eq!(fmt(10), "0.01");
    assert_eq!(fmt(1), "0.001");
    assert_eq!(fmt(999), "0.999");
    assert_eq!(fmt(205), "0.205");
}

#[test]
fn whole_units_round_half_up() {
    assert_eq!(fmt(1000), "1");
    assert_eq!(fmt(1499), "1");
    assert_eq!(fmt(1500), "2");
    assert_eq!(fmt(12_340), "12");
    assert_eq!(fmt(999_499), "999");
    assert_eq!(fmt(999_500), "1000");
}

#[test]
fn thousands_take_one_decimal_and_k() {
    assert_eq!(fmt(1_000_000), "1.0 K");
    assert_eq!(fmt(1_500_000), "1.5 K");
    assert_eq!(fmt(2_340_000), "2.3 K");
    assert_eq!(fmt(2_350_000), "2.4 K");
    assert_eq!(fmt(999_949_999), "999.9 K");
    assert_eq!(fmt(999_950_000), "1000.0 K");
}

#[test]
fn millions_take_one_decimal_and_m() {
    assert_eq!(fmt(1_000_000_000), "1.0 M");
    assert_eq!(fmt(2_500_000_000), "2.5 M");
    assert_eq!(fmt(987_654_321_000), "987.7 M");
}

#[test]
fn billions_go_scientific() {
    assert_eq!(fmt(1_000_000_000_000), "1.000e9");
    assert_eq!(fmt(1_234_567_890_123_456), "1.234e12");
    assert_eq!(fmt(u64::MAX), "1.844e16");
}

#[test]
fn write_format_appends_to_the_buffer() {
    let mut out = String::from("Ore: ");
    write_format_quantity(&mut out, Quantity::new(1500));
    assert_eq!(out, "Ore: 2");
    write_format_quantity(&mut out, Quantity::new(250));
    assert_eq!(out, "Ore: 20.25");
}
