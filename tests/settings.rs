use dtvault::condition::Condition;
use dtvault::config::{Config, Database, FileSystem, Outlet, Server, Storage, StorageRule, Tempfile};
use dtvault::preset::{InvalidCommand, Preset};

fn config(storages: Vec<Storage>) -> Config {
    Config {
        server: Server { listen: "127.0.0.1:50051".to_string() },
        database: Database { data_dir: "/var/lib/dtvault".to_string() },
        storages,
        outlet: Outlet { encoder_url: String::new() },
        storage_rules: vec![],
        prefix_rules: vec![],
    }
}

#[test]
fn programs_file_lives_in_data_dir() {
    assert_eq!("/var/lib/dtvault/programs.pb", Database { data_dir: "/var/lib/dtvault".to_string() }.programs_file_path());
    assert_eq!("data/programs.pb", Database { data_dir: "data/".to_string() }.programs_file_path());
    assert_eq!("programs.pb", Database { data_dir: String::new() }.programs_file_path());
}

#[test]
fn config_needs_storages_with_labels() {
    assert_eq!(Err("no storage found".to_string()), config(vec![]).validate());
    let unlabelled = Storage::Tempfile(Tempfile { label: String::new() });
    assert!(config(vec![unlabelled]).validate().is_err());
    let no_root = Storage::FileSystem(FileSystem { label: "nas".to_string(), root_dir: String::new() });
    assert!(config(vec![no_root]).validate().is_err());
    let ok = Storage::FileSystem(FileSystem { label: "nas".to_string(), root_dir: "/srv".to_string() });
    assert!(config(vec![ok]).validate().is_ok());
}

#[test]
fn encoder_url_is_optional() {
    assert!(Outlet { encoder_url: String::new() }.encoder_url().is_none());
    assert_eq!("http://enc:1", Outlet { encoder_url: "http://enc:1".to_string() }.encoder_url().unwrap());
}

#[test]
fn preset_command_is_split_like_a_shell() {
    let p = Preset { id: "h264".to_string(), title: None, command: "ffmpeg -i 'in put' -f mp4 -".to_string() };
    let (program, args) = p.command_line().unwrap();
    assert_eq!("ffmpeg", program);
    assert_eq!(vec!["-i", "in put", "-f", "mp4", "-"], args);
    assert!(p.validate().is_ok());
    assert_eq!("h264", p.exchangeable().title);
}

#[test]
fn preset_errors() {
    let empty = Preset { id: "e".to_string(), title: Some("Empty".to_string()), command: "   ".to_string() };
    assert_eq!(Err(InvalidCommand::Empty), empty.command_line());
    assert_eq!(Err("command is empty".to_string()), empty.validate());
    assert_eq!("Empty", empty.exchangeable().title);
    let open_quote = Preset { id: "q".to_string(), title: None, command: "ffmpeg 'oops".to_string() };
    assert!(matches!(open_quote.command_line(), Err(InvalidCommand::ParseError(_))));
}

#[test]
fn storage_rule_names_exactly_one_backend() {
    let neither = StorageRule { condition: Condition::new(), storage_label: String::new(), storage_id: 0 };
    assert!(neither.validate().is_err());
    let both = StorageRule { condition: Condition::new(), storage_label: "nas".to_string(), storage_id: 7 };
    assert!(both.validate().is_err());
    let label = StorageRule { condition: Condition::new(), storage_label: "nas".to_string(), storage_id: 0 };
    assert!(label.validate().is_ok());
    let id = StorageRule { condition: Condition::new(), storage_label: String::new(), storage_id: 7 };
    assert!(id.validate().is_ok());
}
