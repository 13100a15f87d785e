use bean_import::amount::Amount;

fn shown(text: &str) -> Option<String> {
    Amount::parse(text).map(|amount| amount.render())
}

#[test]
fn whole_numbers_lose_their_zeros() {
    assert_eq!(shown("100.00"), Some("100".to_owned()));
    assert_eq!(shown("0"), Some("0".to_owned()));
    assert_eq!(shown("0.00"), Some("0".to_owned()));
    assert_eq!(shown("007"), Some("7".to_owned()));
    assert_eq!(shown("000"), Some("0".to_owned()));
}

#[test]
fn fractions_keep_what_counts() {
    assert_eq!(shown("0.37"), Some("0.37".to_owned()));
    assert_eq!(shown("12.50"), Some("12.5".to_owned()));
    assert_eq!(shown("1234567.89"), Some("1234567.89".to_owned()));
    assert_eq!(shown("0.010"), Some("0.01".to_owned()));
}

#[test]
fn a_point_may_stand_first_or_last() {
    assert_eq!(shown(".5"), Some("0.5".to_owned()));
    assert_eq!(shown("5."), Some("5".to_owned()));
    assert_eq!(shown("."), None);
}

#[test]
fn signs_are_read() {
    assert_eq!(shown("-3.10"), Some("-3.1".to_owned()));
    assert_eq!(shown("+3.10"), Some("3.1".to_owned()));
    assert_eq!(shown("-0"), Some("-0".to_owned()));
    assert_eq!(shown("-"), None);
    assert_eq!(shown("+"), None);
    assert_eq!(shown("--1"), None);
}

#[test]
fn what_is_no_decimal_is_refused() {
    assert_eq!(shown(""), None);
    assert_eq!(shown("abc"), None);
    assert_eq!(shown("1,000"), None);
    assert_eq!(shown("1.2.3"), None);
    assert_eq!(shown(" 1"), None);
    assert_eq!(shown("1 "), None);
    assert_eq!(shown("1e3"), None);
    assert_eq!(shown("¥1"), None);
    assert_eq!(shown("１２"), None);
}

#[test]
fn negation_flips_the_sign_only() {
    let amount = Amount::parse("12.50").unwrap();
    assert!(!amount.is_negative());
    let negated = amount.negate();
    assert!(negated.is_negative());
    assert_eq!(negated.render(), "-12.5");
    assert_eq!(negated.negate().render(), "12.5");
    assert_eq!(Amount::zero().negate().render(), "-0");
}

#[test]
fn zero_and_default_agree() {
    assert_eq!(Amount::zero().render(), "0");
    assert_eq!(Amount::default().render(), "0");
    assert_eq!(Amount::parse("9.90").unwrap().copy().render(), "9.9");
}
