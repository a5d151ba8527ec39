use vs_queue::position::Position;

fn position(text: &str) -> Position {
    Position::parse(text).expect("digits")
}

#[test]
fn positions_are_digits_only() {
    assert!(Position::parse("").is_none());
    assert!(Position::parse("+1").is_none());
    assert!(Position::parse("1.0").is_none());
    assert!(Position::parse("1 ").is_none());
    assert_eq!(position("42").text(), "42");
    assert_eq!(position("0042").text(), "42");
    assert_eq!(position("0").text(), "0");
    assert_eq!(position("0000").text(), "0");
}

#[test]
fn positions_compare_as_numbers() {
    assert!(position("10").is_above(&position("9")));
    assert!(!position("9").is_above(&position("10")));
    assert!(position("100000000000000000000001").is_above(&position("100000000000000000000000")));
    assert!(!position("7").is_above(&position("007")));
    assert!(position("20").is_above(&position("19")));
    assert!(!position("19").is_above(&position("20")));
}

#[test]
fn the_end_of_the_queue_is_zero() {
    assert!(Position::zero().is_zero());
    assert!(position("00").is_zero());
    assert!(!position("10").is_zero());
    assert_eq!(position("5").clone().text(), "5");
}

#[test]
fn exact_places_are_shown_as_they_are() {
    let place = |text: &str| Position::parse(text).expect("a numeral");
    assert_eq!(place("0").shown().as_deref(), Some("0"));
    assert_eq!(place("0090").shown().as_deref(), Some("90"));
    assert_eq!(place("9007199254740992").shown().as_deref(), Some("9007199254740992"));
    assert!(place("9007199254740993").shown().is_none());
    // The floating-point form is the same up to there.
    for n in [0_u64, 1, 90, 9_007_199_254_740_991, 9_007_199_254_740_992] {
        let shown = Position::at(n).shown().expect("an exact place");
        assert_eq!(shown, format!("{:.0}", n as f64));
    }
}
