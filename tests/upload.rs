use dtvault::condition::Condition;
use dtvault::config::{PrefixRule, StorageRule};
use dtvault::ingest::{begin_upload, split_into_datagrams, MAX_DATAGRAM_BYTES};
use dtvault::model::{ProgramKey, Timestamp};
use dtvault::placement::{find_storage_by_id, Mounted};
use dtvault::service::{create_program, list_videos_by_program, Code};
use dtvault::storage::{create_status, find_status, CreateError, FindStatusError, UnavailableError};
use dtvault::store::ProgramStore;
use dtvault::wire;

fn program(eid: u32, channel_type: i32) -> wire::Program {
    wire::Program {
        network_id: 4,
        service_id: 211,
        event_id: eid,
        start_at: Some(Timestamp { seconds: 1609459200, nanos: 0 }),
        duration: Some(Timestamp { seconds: 1800, nanos: 0 }),
        name: "X".to_string(),
        description: String::new(),
        extended: vec![],
        service: Some(wire::Service {
            network_id: 4,
            service_id: 211,
            name: "svc".to_string(),
            channel: Some(wire::Channel { channel_type, channel: "ch".to_string(), name: "Ch".to_string() }),
        }),
        thumbnail: vec![],
        thumbnail_mime_type: String::new(),
    }
}

fn identity(eid: u32) -> Option<wire::ProgramIdentity> {
    Some(wire::ProgramIdentity {
        network_id: 4,
        service_id: 211,
        event_id: eid,
        start_at: Some(Timestamp { seconds: 1609459200, nanos: 0 }),
    })
}

fn header(eid: u32, provider: &str, len: u64, file_name: &str) -> wire::VideoHeader {
    wire::VideoHeader {
        program_id: identity(eid),
        provider_id: provider.to_string(),
        total_length: len,
        file_name: file_name.to_string(),
        mime_type: "video/MP2T; charset=binary".to_string(),
    }
}

fn mounted() -> Vec<Mounted> {
    vec![
        Mounted { label: "local".to_string(), storage_id: Some(1) },
        Mounted { label: "nas".to_string(), storage_id: Some(2) },
    ]
}

fn bs_rule() -> Vec<StorageRule> {
    let mut condition = Condition::new();
    condition.add("channel_type", "BS".to_string()).unwrap();
    vec![StorageRule { condition, storage_label: "nas".to_string(), storage_id: 0 }]
}

#[test]
fn upload_streams_and_files_the_video() {
    let mut store = ProgramStore::new();
    create_program(&mut store, Some(program(52570, 2)), 7).unwrap();
    let data: Vec<u8> = (0..3 * 1024 * 1024).map(|i| (i % 251) as u8).collect();
    let mut upload = begin_upload(&store, &header(52570, "c1", data.len() as u64, "x.m2ts"), 70, &vec![], &vec![], &mounted(), None).unwrap();
    assert_eq!("video/mp2t", upload.video.mime_type);
    let datagrams = split_into_datagrams(&data, MAX_DATAGRAM_BYTES);
    assert_eq!(3, datagrams.len());
    for d in &datagrams {
        upload.accept(d.offset, d.payload.len()).unwrap();
    }
    let filed = upload.finish(&mut store).unwrap();
    assert_eq!(70, filed.video_id);
    let listed = list_videos_by_program(&store, &identity(52570)).unwrap();
    assert_eq!(1, listed.len());
    assert_eq!(3 * 1024 * 1024, listed[0].total_length);
}

#[test]
fn datagrams_reassemble_to_the_uploaded_bytes() {
    let data: Vec<u8> = (0..(3 * 1024 * 1024 + 17)).map(|i| (i * 7 % 256) as u8).collect();
    let datagrams = split_into_datagrams(&data, MAX_DATAGRAM_BYTES);
    let mut joined = Vec::new();
    let mut last_offset = 0;
    for d in &datagrams {
        assert!(d.offset >= last_offset);
        assert_eq!(joined.len() as u64, d.offset);
        assert!(d.payload.len() <= MAX_DATAGRAM_BYTES);
        last_offset = d.offset;
        joined.extend_from_slice(&d.payload);
    }
    assert_eq!(0, datagrams[0].offset);
    assert_eq!(data, joined);
    assert!(split_into_datagrams(&vec![], 4).is_empty());
}

#[test]
fn second_upload_from_same_provider_is_refused() {
    let mut store = ProgramStore::new();
    create_program(&mut store, Some(program(52570, 2)), 7).unwrap();
    let mut first = begin_upload(&store, &header(52570, "c1", 4, "x.m2ts"), 70, &vec![], &vec![], &mounted(), None).unwrap();
    first.accept(0, 4).unwrap();
    first.finish(&mut store).unwrap();
    let err = begin_upload(&store, &header(52570, "c1", 4, "y.m2ts"), 71, &vec![], &vec![], &mounted(), None).err().unwrap();
    assert_eq!(Code::InvalidArgument, err.code);
    assert_eq!("Provider ID `c1` already exists", err.message);
    assert_eq!(1, store.all_videos().len());
}

#[test]
fn upload_header_errors() {
    let mut store = ProgramStore::new();
    create_program(&mut store, Some(program(52570, 2)), 7).unwrap();
    let missing = begin_upload(&store, &header(1, "c1", 4, "x.m2ts"), 70, &vec![], &vec![], &mounted(), None).err().unwrap();
    assert_eq!(Code::NotFound, missing.code);
    let path = begin_upload(&store, &header(52570, "c1", 4, "../x.m2ts"), 70, &vec![], &vec![], &mounted(), None).err().unwrap();
    assert_eq!(Code::InvalidArgument, path.code);
    let mut bad_mime = header(52570, "c1", 4, "x.m2ts");
    bad_mime.mime_type = "not a mime".to_string();
    assert_eq!(Code::InvalidArgument, begin_upload(&store, &bad_mime, 70, &vec![], &vec![], &mounted(), None).err().unwrap().code);
    let mut no_id = header(52570, "c1", 4, "x.m2ts");
    no_id.program_id = None;
    assert_eq!(Code::InvalidArgument, begin_upload(&store, &no_id, 70, &vec![], &vec![], &mounted(), None).err().unwrap().code);
}

#[test]
fn datagram_offsets_and_length_are_checked() {
    let mut store = ProgramStore::new();
    create_program(&mut store, Some(program(52570, 2)), 7).unwrap();
    let mut upload = begin_upload(&store, &header(52570, "c1", 8, "x.m2ts"), 70, &vec![], &vec![], &mounted(), None).unwrap();
    upload.accept(0, 4).unwrap();
    assert_eq!(Code::InvalidArgument, upload.accept(2, 4).unwrap_err().code);
    assert_eq!(4, upload.written);
    let short = upload.finish(&mut store).unwrap_err();
    assert_eq!(Code::InvalidArgument, short.code);
    assert!(store.all_videos().is_empty());
}

#[test]
fn storage_rule_routes_bs_programs_to_labelled_backend() {
    let mut store = ProgramStore::new();
    create_program(&mut store, Some(program(1, 2)), 7).unwrap();
    create_program(&mut store, Some(program(2, 1)), 8).unwrap();
    let bs = begin_upload(&store, &header(1, "c1", 4, "x.m2ts"), 70, &bs_rule(), &vec![], &mounted(), None).unwrap();
    assert_eq!(1, bs.storage_index);
    assert_eq!(2, bs.video.storage_id);
    let gr = begin_upload(&store, &header(2, "c1", 4, "x.m2ts"), 71, &bs_rule(), &vec![], &mounted(), None).unwrap();
    assert_eq!(0, gr.storage_index);
    assert_eq!(1, gr.video.storage_id);
}

#[test]
fn unmounted_target_falls_back_to_first_backend() {
    let mut store = ProgramStore::new();
    create_program(&mut store, Some(program(1, 2)), 7).unwrap();
    let mut by_id = Condition::new();
    by_id.add("title", "X".to_string()).unwrap();
    let rules = vec![StorageRule { condition: by_id, storage_label: String::new(), storage_id: 3 }];
    let u = begin_upload(&store, &header(1, "c1", 4, "x.m2ts"), 70, &rules, &vec![], &mounted(), None).unwrap();
    assert_eq!(0, u.storage_index);
    let unavailable = vec![Mounted { label: "local".to_string(), storage_id: None }];
    let err = begin_upload(&store, &header(1, "c1", 4, "x.m2ts"), 70, &vec![], &vec![], &unavailable, None).err().unwrap();
    assert_eq!(Code::Aborted, err.code);
}

#[test]
fn prefix_rules_pick_first_match() {
    let mut store = ProgramStore::new();
    create_program(&mut store, Some(program(1, 2)), 7).unwrap();
    let mut big = Condition::new();
    big.add("video_total_length", ">= 100".to_string()).unwrap();
    let mut any = Condition::new();
    any.add("video_provider_id", "c".to_string()).unwrap();
    let rules = vec![
        PrefixRule { condition: big, prefix: "large".to_string() },
        PrefixRule { condition: any, prefix: "collector".to_string() },
    ];
    let small = begin_upload(&store, &header(1, "c1", 4, "x.m2ts"), 70, &vec![], &rules, &mounted(), None).unwrap();
    assert_eq!("collector", small.video.storage_prefix);
    let large = begin_upload(&store, &header(1, "c1", 400, "x.m2ts"), 70, &vec![], &rules, &mounted(), None).unwrap();
    assert_eq!("large", large.video.storage_prefix);
    let none = begin_upload(&store, &header(1, "zz", 4, "x.m2ts"), 70, &vec![], &rules, &mounted(), None).unwrap();
    assert_eq!("", none.video.storage_prefix);
}

#[test]
fn storage_found_by_identifier() {
    assert_eq!(Some(1), find_storage_by_id(&mounted(), 2));
    assert_eq!(None, find_storage_by_id(&mounted(), 3));
    let key = ProgramKey { start_at: Timestamp { seconds: 0, nanos: 0 }, network_id: 0, service_id: 0, event_id: 0 };
    assert!(key.same(&key));
}

#[test]
fn backend_errors_map_to_status_codes() {
    assert_eq!(Code::NotFound, find_status(FindStatusError::NotFound).code);
    assert_eq!(Code::Unavailable, find_status(FindStatusError::Unavailable(UnavailableError { reason: "locked".to_string() })).code);
    assert_eq!(Code::Aborted, find_status(FindStatusError::IoError("eof".to_string())).code);
    assert_eq!(Code::Aborted, create_status(CreateError::CantCreateDirectory).code);
}

#[test]
fn download_is_located_on_its_backend() {
    let mut store = ProgramStore::new();
    create_program(&mut store, Some(program(52570, 2)), 7).unwrap();
    let mut up = begin_upload(&store, &header(52570, "c1", 1, "x.m2ts"), 70, &bs_rule(), &vec![], &mounted(), None).unwrap();
    up.accept(0, 1).unwrap();
    up.finish(&mut store).unwrap();
    assert_eq!(1, dtvault::ingest::locate_video(&store, 70, &mounted()).unwrap());
    assert_eq!(Code::NotFound, dtvault::ingest::locate_video(&store, 71, &mounted()).unwrap_err().code);
    let only_local = vec![Mounted { label: "local".to_string(), storage_id: Some(1) }];
    assert_eq!(Code::Unavailable, dtvault::ingest::locate_video(&store, 70, &only_local).unwrap_err().code);
}

#[test]
fn unmounted_labelled_backend_falls_back_to_first() {
    let mut store = ProgramStore::new();
    create_program(&mut store, Some(program(1, 2)), 7).unwrap();
    let nas_down = vec![
        Mounted { label: "local".to_string(), storage_id: Some(1) },
        Mounted { label: "nas".to_string(), storage_id: None },
    ];
    let u = begin_upload(&store, &header(1, "c1", 4, "x.m2ts"), 70, &bs_rule(), &vec![], &nas_down, None).unwrap();
    assert_eq!(0, u.storage_index);
    assert_eq!(1, u.video.storage_id);
}
