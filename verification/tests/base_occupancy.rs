use saberbb::game::BaseCode;
use saberbb::stadium::Base;
use saberbb::util;
use saberbb::utils;

#[test]
fn util_test_is_base_occupied_first() {
    assert!(util::is_base_occupied(0b001, BaseCode::First));
    assert!(!util::is_base_occupied(0b001, BaseCode::Second));
    assert!(!util::is_base_occupied(0b001, BaseCode::Third));
}

#[test]
fn util_test_is_base_occupied_second() {
    assert!(!util::is_base_occupied(0b010, BaseCode::First));
    assert!(util::is_base_occupied(0b010, BaseCode::Second));
    assert!(!util::is_base_occupied(0b010, BaseCode::Third));
}

#[test]
fn util_test_is_base_occupied_third() {
    assert!(!util::is_base_occupied(0b100, BaseCode::First));
    assert!(!util::is_base_occupied(0b100, BaseCode::Second));
    assert!(util::is_base_occupied(0b100, BaseCode::Third));
}

#[test]
fn util_test_is_base_occupied_empty() {
    assert!(!util::is_base_occupied(0b000, BaseCode::First));
    assert!(!util::is_base_occupied(0b000, BaseCode::Second));
    assert!(!util::is_base_occupied(0b000, BaseCode::Third));
}

#[test]
fn util_test_is_base_occupied_bases_loaded() {
    assert!(util::is_base_occupied(0b111, BaseCode::First));
    assert!(util::is_base_occupied(0b111, BaseCode::Second));
    assert!(util::is_base_occupied(0b111, BaseCode::Third));
}

#[test]
fn util_test_is_base_occupied_ignores_higher_bits() {
    // Upper bits beyond bit 2 should be ignored
    assert!(util::is_base_occupied(0b101101, BaseCode::First));
    assert!(!util::is_base_occupied(0b101101, BaseCode::Second));
    assert!(util::is_base_occupied(0b101101, BaseCode::Third));
}

#[test]
fn utils_test_is_base_occupied_first() {
    assert!(utils::is_base_occupied(0b001, Base::First));
    assert!(!utils::is_base_occupied(0b001, Base::Second));
    assert!(!utils::is_base_occupied(0b001, Base::Third));
}

#[test]
fn utils_test_is_base_occupied_second() {
    assert!(!utils::is_base_occupied(0b010, Base::First));
    assert!(utils::is_base_occupied(0b010, Base::Second));
    assert!(!utils::is_base_occupied(0b010, Base::Third));
}

#[test]
fn utils_test_is_base_occupied_third() {
    assert!(!utils::is_base_occupied(0b100, Base::First));
    assert!(!utils::is_base_occupied(0b100, Base::Second));
    assert!(utils::is_base_occupied(0b100, Base::Third));
}

#[test]
fn utils_test_is_base_occupied_empty() {
    assert!(!utils::is_base_occupied(0b000, Base::First));
    assert!(!utils::is_base_occupied(0b000, Base::Second));
    assert!(!utils::is_base_occupied(0b000, Base::Third));
}

#[test]
fn utils_test_is_base_occupied_bases_loaded() {
    assert!(utils::is_base_occupied(0b111, Base::First));
    assert!(utils::is_base_occupied(0b111, Base::Second));
    assert!(utils::is_base_occupied(0b111, Base::Third));
}

#[test]
fn utils_test_is_base_occupied_ignores_higher_bits() {
    // Upper bits beyond bit 2 should be ignored
    assert!(utils::is_base_occupied(0b101101, Base::First));
    assert!(!utils::is_base_occupied(0b101101, Base::Second));
    assert!(utils::is_base_occupied(0b101101, Base::Third));
}

#[test]
fn home_plate_is_never_an_occupied_base() {
    assert!(!utils::is_base_occupied(0xff, Base::Home));
}
