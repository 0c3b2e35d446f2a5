use dtvault::literal_or_regex::{Int32OrRegex, LiteralOrRegexValue, StringOrRegex};

#[test]
fn test_string_default() {
    let c = StringOrRegex::default();
    match c.validate() {
        Ok(_) => {}
        Err(_) => assert!(false),
    }
    match &c.value {
        LiteralOrRegexValue::Empty => {}
        _ => assert!(false),
    }
}

#[test]
fn test_int32_default() {
    let c = Int32OrRegex::default();
    match c.validate() {
        Ok(_) => {}
        Err(_) => assert!(false),
    }
    match &c.value {
        LiteralOrRegexValue::Empty => {}
        _ => assert!(false),
    }
}

#[test]
fn test_string_literal_match() {
    let c = StringOrRegex::new("vis".to_string());
    c.validate().unwrap();
    assert!(c.matches("vis"));
    assert!(c.matches("television"));
}

#[test]
fn test_int32_literal_match() {
    let c = Int32OrRegex::new("123".to_string());
    c.validate().unwrap();
    assert!(c.matches(123));
    assert!(!c.matches(112345));
}

#[test]
fn string_literal_mismatch_and_empty_matches_nothing() {
    let c = StringOrRegex::new("news".to_string());
    assert!(!c.matches("weather"));
    let e = StringOrRegex::new(String::new());
    assert!(!e.matches(""));
    assert!(!e.matches("anything"));
}

#[test]
fn string_regex_is_compiled_and_searched() {
    let c = StringOrRegex::new("/^dtv/".to_string());
    assert!(c.validate().is_ok());
    assert!(c.matches("dtvault"));
    assert!(!c.matches("my dtvault"));
    match &c.value {
        LiteralOrRegexValue::Regex(p) => assert_eq!("^dtv", p),
        _ => assert!(false),
    }
}

#[test]
fn malformed_regex_fails_validation_and_matches_nothing() {
    let c = StringOrRegex::new("/(unclosed/".to_string());
    assert!(c.validate().is_err());
    assert!(!c.matches("(unclosed"));
}

#[test]
fn int32_regex_applies_to_decimal_text() {
    let c = Int32OrRegex::new("/^21/".to_string());
    assert!(c.validate().is_ok());
    assert!(c.matches(211));
    assert!(!c.matches(121));
    let neg = Int32OrRegex::new("/^-4$/".to_string());
    assert!(neg.matches(-4));
}

#[test]
fn int32_literals_with_sign_and_invalid_ones() {
    assert!(Int32OrRegex::new("-7".to_string()).matches(-7));
    assert!(Int32OrRegex::new("+7".to_string()).matches(7));
    let bad = Int32OrRegex::new("seven".to_string());
    assert!(bad.validate().is_err());
    assert!(!bad.matches(7));
    let big = Int32OrRegex::new("2147483648".to_string());
    assert!(big.validate().is_err());
    assert!(Int32OrRegex::new("-2147483648".to_string()).matches(i32::MIN));
}
