use fra_bot::listing::{add_amounts, eligible_items, parse_field, ListingError, ListingItem};

fn item(amount: &str, price: &str) -> ListingItem {
    ListingItem { amount: amount.to_string(), price: price.to_string() }
}

#[test]
fn digits_read_as_their_value() {
    assert_eq!(parse_field(&"42".to_string()), Ok(42));
    assert_eq!(parse_field(&"0".to_string()), Ok(0));
    assert_eq!(parse_field(&"18446744073709551615".to_string()), Ok(u64::MAX));
}

#[test]
fn malformed_numbers_are_parse_errors() {
    for bad in ["", "abc", "12a", "-1", "1.5", "01", "18446744073709551616", "1e3"] {
        assert_eq!(parse_field(&bad.to_string()), Err(ListingError::Parse), "{}", bad);
    }
}

#[test]
fn amounts_add_to_base() {
    let items = vec![item("10", "1"), item("20", "1"), item("30", "1")];
    assert_eq!(add_amounts(0, &items), Ok(60));
    assert_eq!(add_amounts(100, &items), Ok(160));
    assert_eq!(add_amounts(7, &vec![]), Ok(7));
}

#[test]
fn malformed_amount_fails_the_sum() {
    let items = vec![item("10", "1"), item("ten", "1"), item("30", "1")];
    assert_eq!(add_amounts(0, &items), Err(ListingError::Parse));
}

#[test]
fn malformed_amount_wins_over_overflow() {
    let items = vec![item("18446744073709551615", "1"), item("5", "1"), item("x", "1")];
    assert_eq!(add_amounts(0, &items), Err(ListingError::Parse));
}

#[test]
fn sum_beyond_64_bits_overflows() {
    let items = vec![item("18446744073709551615", "1"), item("1", "1")];
    assert_eq!(add_amounts(0, &items), Err(ListingError::Overflow));
    assert_eq!(add_amounts(1, &vec![item("18446744073709551615", "1")]), Err(ListingError::Overflow));
}

#[test]
fn items_at_or_below_floor_are_eligible() {
    let items = vec![item("1", "200000000"), item("1", "300000000"), item("1", "250000000")];
    assert_eq!(eligible_items(&items, 250000000), Ok(vec![0, 2]));
    assert_eq!(eligible_items(&items, 100), Ok(vec![]));
}

#[test]
fn malformed_price_is_a_parse_error() {
    let items = vec![item("1", "200000000"), item("1", "2.5e8")];
    assert_eq!(eligible_items(&items, 250000000), Err(ListingError::Parse));
}
