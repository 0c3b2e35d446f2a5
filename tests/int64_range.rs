use dtvault::condition_ranges::Int64Range;

#[test]
fn int64_range_test_default() {
    let r = Int64Range::default();
    assert_eq!("", r.raw_value);
    assert_eq!(i64::min_value(), r.min);
    assert_eq!(i64::max_value(), r.max);
}

#[test]
fn int64_range_test_pre_op_lt() {
    let r = Int64Range::new("< 128".to_string());
    assert_eq!("< 128", r.raw_value);
    assert_eq!(i64::min_value(), r.min);
    assert_eq!(127, r.max);
}

#[test]
fn test_pre_op_lg() {
    let r = Int64Range::new("<= 128".to_string());
    assert_eq!("<= 128", r.raw_value);
    assert_eq!(i64::min_value(), r.min);
    assert_eq!(128, r.max);
}

#[test]
fn test_pre_op_gt() {
    let r = Int64Range::new("> 128".to_string());
    assert_eq!("> 128", r.raw_value);
    assert_eq!(129, r.min);
    assert_eq!(i64::max_value(), r.max);
}

#[test]
fn test_pre_op_ge() {
    let r = Int64Range::new(">= 128".to_string());
    assert_eq!(">= 128", r.raw_value);
    assert_eq!(128, r.min);
    assert_eq!(i64::max_value(), r.max);
}

#[test]
fn test_post_op_lt() {
    let r = Int64Range::new("128 <".to_string());
    assert_eq!("128 <", r.raw_value);
    assert_eq!(129, r.min);
    assert_eq!(i64::max_value(), r.max);
}

#[test]
fn test_post_op_lg() {
    let r = Int64Range::new("128 <=".to_string());
    assert_eq!("128 <=", r.raw_value);
    assert_eq!(128, r.min);
    assert_eq!(i64::max_value(), r.max);
}

#[test]
fn test_post_op_gt() {
    let r = Int64Range::new("128 >".to_string());
    assert_eq!("128 >", r.raw_value);
    assert_eq!(i64::min_value(), r.min);
    assert_eq!(127, r.max);
}

#[test]
fn test_post_op_ge() {
    let r = Int64Range::new("128 >=".to_string());
    assert_eq!("128 >=", r.raw_value);
    assert_eq!(i64::min_value(), r.min);
    assert_eq!(128, r.max);
}

#[test]
fn int64_range_test_inclusive_range() {
    let r = Int64Range::new("2..64".to_string());
    assert_eq!("2..64", r.raw_value);
    assert_eq!(2, r.min);
    assert_eq!(64, r.max);
}

#[test]
fn test_exclusive_range() {
    let r = Int64Range::new("2...64".to_string());
    assert_eq!("2...64", r.raw_value);
    assert_eq!(2, r.min);
    assert_eq!(63, r.max);
}

#[test]
fn test_reverse_inclusive_range() {
    let r = Int64Range::new("64..2".to_string());
    assert_eq!("64..2", r.raw_value);
    assert_eq!(2, r.min);
    assert_eq!(64, r.max);
}

#[test]
fn test_reverse_exclusive_range() {
    let r = Int64Range::new("64...2".to_string());
    assert_eq!("64...2", r.raw_value);
    assert_eq!(1, r.min);
    assert_eq!(64, r.max);
}

#[test]
fn int64_range_single_value_and_spaces() {
    let r = Int64Range::new("  42  ".to_string());
    assert_eq!((42, 42), (r.min, r.max));
    assert!(r.validate().is_ok());
    let r = Int64Range::new("2 .. 64".to_string());
    assert_eq!((2, 64), (r.min, r.max));
}

#[test]
fn int64_range_invalid_is_full_range_with_error() {
    for v in ["abc", "1..", "< ", "1 2", "2....64", "< 5 6", "-5"] {
        let r = Int64Range::new(v.to_string());
        assert!(r.validate().is_err(), "{}", v);
        assert_eq!(i64::MIN, r.min);
        assert_eq!(i64::MAX, r.max);
    }
}

#[test]
fn int64_range_overflowing_bound_is_an_error() {
    let r = Int64Range::new("> 9223372036854775807".to_string());
    assert!(r.validate().is_err());
    let r = Int64Range::new("9223372036854775808".to_string());
    assert!(r.validate().is_err());
    let r = Int64Range::new("<= 9223372036854775807".to_string());
    assert!(r.validate().is_ok());
    assert_eq!(i64::MAX, r.max);
}

#[test]
fn int64_range_matches_inclusive_bounds() {
    let r = Int64Range::new("2..64".to_string());
    assert!(r.matches(2));
    assert!(r.matches(64));
    assert!(!r.matches(1));
    assert!(!r.matches(65));
}
