use hub_be::names::snake_to_pascal;
use hub_be::names::to_pascal_case;

#[test]
fn snake_to_pascal_multi_segment() {
    assert_eq!(snake_to_pascal("user_profile_settings"), "UserProfileSettings");
}

#[test]
fn snake_to_pascal_empty() {
    assert_eq!(snake_to_pascal(""), "");
}

#[test]
fn snake_to_pascal_single_letter() {
    assert_eq!(snake_to_pascal("a"), "A");
}

#[test]
fn to_pascal_case_matches_snake_to_pascal() {
    assert_eq!(to_pascal_case("user_profile_settings"), "UserProfileSettings");
    assert_eq!(to_pascal_case(""), "");
    assert_eq!(to_pascal_case("a"), "A");
}

#[test]
fn to_pascal_case_order_items() {
    assert_eq!(to_pascal_case("order_items"), "OrderItems");
}

#[test]
fn to_pascal_case_drops_empty_segments() {
    assert_eq!(to_pascal_case("__a__b_"), "AB");
    assert_eq!(to_pascal_case("already"), "Already");
    assert_eq!(to_pascal_case("with_1_digit"), "With1Digit");
}
