use dtvault::validator::{
    validate_file_name, validate_metadata_key, validate_metadata_value, validate_program_id,
};
use dtvault::model::Timestamp;
use dtvault::wire::ProgramIdentity;

#[test]
fn test_file_name_ascii() {
    assert_eq!(Ok(()), validate_file_name("test.mp4"));
}

#[test]
fn test_file_name_jp() {
    assert_eq!(
        Ok(()),
        validate_file_name("ﾄﾞｷﾄﾞｷ!秘蔵のもふもふ動物動画大公開ＳＰ.mp4")
    );
}

#[test]
fn test_file_name_empty() {
    assert_eq!(Err("Invalid value: file_name".to_string()), validate_file_name(""));
}

#[test]
fn test_file_name_has_null_byte() {
    assert_eq!(
        Err("Invalid value: file_name".to_string()),
        validate_file_name("dt\0vault")
    );
}

#[test]
fn test_file_name_relative_current_dir() {
    assert_eq!(
        Err("Invalid value: file_name must only contain name".to_string()),
        validate_file_name("./file.mp4")
    );
}

#[test]
fn test_file_name_relative_parent_dir() {
    assert_eq!(
        Err("Invalid value: file_name must only contain name".to_string()),
        validate_file_name("../file.mp4")
    );
}

#[test]
fn test_file_name_relative_illegal_dir() {
    assert_eq!(
        Err("Invalid value: file_name must only contain name".to_string()),
        validate_file_name("../../../.././../../../etc/passwd")
    );
}

#[test]
fn file_name_boundaries() {
    assert!(validate_file_name("").is_err());
    assert!(validate_file_name("a\0b").is_err());
    assert!(validate_file_name("./f").is_err());
    assert!(validate_file_name("../f").is_err());
    assert!(validate_file_name(".").is_err());
    assert!(validate_file_name("..").is_err());
    assert!(validate_file_name("a/b").is_err());
    assert!(validate_file_name("/abs").is_err());
    assert_eq!(Ok(()), validate_file_name("shōw.mp4"));
    assert_eq!(Ok(()), validate_file_name("...mp4"));
}

#[test]
fn metadata_key_length_boundary() {
    assert_eq!(Ok(()), validate_metadata_key(&"k".repeat(255)));
    assert_eq!(
        Err("String too long: key".to_string()),
        validate_metadata_key(&"k".repeat(256))
    );
    assert_eq!(Err("Invalid value: key".to_string()), validate_metadata_key(""));
}

#[test]
fn metadata_value_length_boundary() {
    assert_eq!(Ok(()), validate_metadata_value(&"v".repeat(1024 * 1024)));
    assert_eq!(
        Err("String too long: value".to_string()),
        validate_metadata_value(&"v".repeat(1024 * 1024 + 1))
    );
    assert_eq!(Ok(()), validate_metadata_value(""));
}

#[test]
fn program_id_checks_in_order() {
    let start = Some(Timestamp { seconds: 1609459200, nanos: 0 });
    let ok = ProgramIdentity { network_id: 4, service_id: 211, event_id: 52570, start_at: start };
    assert_eq!(Ok(()), validate_program_id(&ok));
    let no_service = ProgramIdentity { service_id: 0, ..ok };
    assert_eq!(Err("Invalid value: service_id".to_string()), validate_program_id(&no_service));
    let no_event = ProgramIdentity { event_id: 0, ..ok };
    assert_eq!(Err("Invalid value: event_id".to_string()), validate_program_id(&no_event));
    let no_start = ProgramIdentity { start_at: None, ..ok };
    assert_eq!(Err("Missing value: start_at".to_string()), validate_program_id(&no_start));
}
