use dtvault::channel_filter::ChannelType;
use dtvault::model::ChannelType as Medium;

#[test]
fn channel_type_test_default() {
    let c = ChannelType::default();
    assert_eq!("", c.raw_value);
    assert!(c.values.is_empty());
}

#[test]
fn channel_type_set_is_case_insensitive() {
    let c = ChannelType::new("gr, Bs ,sky".to_string());
    assert_eq!(vec![Medium::GR, Medium::BS, Medium::Sky], c.values);
    assert!(c.validate().is_ok());
    assert!(c.matches(Medium::BS));
    assert!(!c.matches(Medium::CS));
}

#[test]
fn channel_type_unknown_entries_fail_validation() {
    let c = ChannelType::new("BS,FM".to_string());
    assert_eq!(vec![Medium::BS], c.values);
    assert_eq!(1, c.invalid_values.len());
    assert!(c.validate().is_err());
}

#[test]
fn channel_type_empty_matches_nothing() {
    let c = ChannelType::new(String::new());
    assert!(c.validate().is_ok());
    assert!(!c.matches(Medium::GR));
}
