use dtvault::model::{ChannelType, MessageConversionError, Program, ProgramKey, Timestamp, Video};
use dtvault::service::{
    create_program, get_program, get_program_metadata, list_programs, list_videos_by_program,
    update_program_metadata, Code,
};
use dtvault::store::{FindOrCreateNotice, ProgramStore, VideoWriteError};
use dtvault::wire;

fn start(seconds: i64) -> Timestamp {
    Timestamp { seconds, nanos: 0 }
}

fn program(nid: u32, sid: u32, eid: u32, seconds: i64, name: &str, channel_type: i32) -> wire::Program {
    wire::Program {
        network_id: nid,
        service_id: sid,
        event_id: eid,
        start_at: Some(start(seconds)),
        duration: Some(Timestamp { seconds: 1800, nanos: 0 }),
        name: name.to_string(),
        description: "desc".to_string(),
        extended: vec![wire::ExtendedEvent { key: "k".to_string(), value: "v".to_string() }],
        service: Some(wire::Service {
            network_id: nid,
            service_id: sid,
            name: "svc".to_string(),
            channel: Some(wire::Channel {
                channel_type,
                channel: "ch".to_string(),
                name: "Channel".to_string(),
            }),
        }),
        thumbnail: vec![],
        thumbnail_mime_type: String::new(),
    }
}

fn identity(nid: u32, sid: u32, eid: u32, seconds: i64) -> Option<wire::ProgramIdentity> {
    Some(wire::ProgramIdentity { network_id: nid, service_id: sid, event_id: eid, start_at: Some(start(seconds)) })
}

fn key(nid: u16, sid: u16, eid: u16, seconds: i64) -> ProgramKey {
    ProgramKey { start_at: start(seconds), network_id: nid, service_id: sid, event_id: eid }
}

fn video(id: u128, provider: &str, len: u64) -> Video {
    Video {
        id,
        provider_id: provider.to_string(),
        program_id: 0,
        total_length: len,
        file_name: "x.m2ts".to_string(),
        original_file_name: "x.m2ts".to_string(),
        mime_type: "video/mp2t".to_string(),
        storage_id: 9,
        storage_prefix: String::new(),
        thumbnail: vec![],
        thumbnail_mime_type: None,
    }
}

#[test]
fn create_program_twice_keeps_first_identifier() {
    let mut store = ProgramStore::new();
    let (n1, _) = create_program(&mut store, Some(program(4, 211, 52570, 1609459200, "X", 2)), 111).unwrap();
    assert_eq!(FindOrCreateNotice::Created, n1);
    let (n2, _) = create_program(&mut store, Some(program(4, 211, 52570, 1609459200, "X", 2)), 222).unwrap();
    assert_eq!(FindOrCreateNotice::AlreadyExists, n2);
    assert_eq!(1, store.all().len());
    assert_eq!(111, store.find(&key(4, 211, 52570, 1609459200)).unwrap().id);
}

#[test]
fn create_program_rejects_bad_envelopes() {
    let mut store = ProgramStore::new();
    assert_eq!(Code::InvalidArgument, create_program(&mut store, None, 1).unwrap_err().code);
    let no_service = program(4, 0, 1, 10, "X", 2);
    assert_eq!(Code::InvalidArgument, create_program(&mut store, Some(no_service), 1).unwrap_err().code);
    let no_name = program(4, 1, 1, 10, "", 2);
    assert_eq!(Code::InvalidArgument, create_program(&mut store, Some(no_name), 1).unwrap_err().code);
    let mut no_duration = program(4, 1, 1, 10, "X", 2);
    no_duration.duration = None;
    let err = create_program(&mut store, Some(no_duration), 1).unwrap_err();
    assert_eq!(Code::InvalidArgument, err.code);
    assert!(err.message.contains("duration"));
    assert!(store.all().is_empty());
}

#[test]
fn programs_are_listed_in_key_order() {
    let mut store = ProgramStore::new();
    create_program(&mut store, Some(program(4, 211, 3, 300, "C", 2)), 3).unwrap();
    create_program(&mut store, Some(program(4, 211, 1, 100, "A", 2)), 1).unwrap();
    create_program(&mut store, Some(program(4, 101, 2, 300, "B", 2)), 2).unwrap();
    let names: Vec<String> = list_programs(&store).into_iter().map(|p| p.name).collect();
    assert_eq!(vec!["A".to_string(), "B".to_string(), "C".to_string()], names);
}

#[test]
fn created_video_is_listed_with_its_length() {
    let mut store = ProgramStore::new();
    create_program(&mut store, Some(program(4, 211, 52570, 1609459200, "X", 2)), 7).unwrap();
    let k = key(4, 211, 52570, 1609459200);
    store.create_video(&k, video(70, "c1", 3 * 1024 * 1024)).unwrap();
    let vs = list_videos_by_program(&store, &identity(4, 211, 52570, 1609459200)).unwrap();
    assert_eq!(1, vs.len());
    assert_eq!(70, vs[0].video_id);
    assert_eq!(3 * 1024 * 1024, vs[0].total_length);
    assert_eq!(7, store.find_video(70).unwrap().program_id);
}

#[test]
fn second_video_from_same_provider_is_refused() {
    let mut store = ProgramStore::new();
    create_program(&mut store, Some(program(4, 211, 52570, 1609459200, "X", 2)), 7).unwrap();
    let k = key(4, 211, 52570, 1609459200);
    store.create_video(&k, video(70, "c1", 10)).unwrap();
    assert_eq!(Err(VideoWriteError::AlreadyExists("c1".to_string())), store.create_video(&k, video(71, "c1", 10)));
    assert_eq!(Err(VideoWriteError::VideoIdTaken(70)), store.create_video(&k, video(70, "c2", 10)));
    assert_eq!(
        Err(VideoWriteError::ProgramNotFound(key(4, 211, 1, 5))),
        store.create_video(&key(4, 211, 1, 5), video(72, "c3", 10))
    );
    assert_eq!(1, store.all_videos().len());
    assert_eq!(1, store.find(&k).unwrap().video_ids.len());
}

#[test]
fn metadata_written_is_read_back() {
    let mut store = ProgramStore::new();
    create_program(&mut store, Some(program(4, 211, 52570, 1609459200, "X", 2)), 7).unwrap();
    let id = identity(4, 211, 52570, 1609459200);
    update_program_metadata(&mut store, &id, "raw", "{\"a\":1}").unwrap();
    update_program_metadata(&mut store, &id, "other", "x").unwrap();
    assert_eq!("{\"a\":1}", get_program_metadata(&store, &id, "raw").unwrap());
    update_program_metadata(&mut store, &id, "raw", "{\"a\":2}").unwrap();
    update_program_metadata(&mut store, &id, "raw", "{\"a\":2}").unwrap();
    assert_eq!("{\"a\":2}", get_program_metadata(&store, &id, "raw").unwrap());
    assert_eq!("x", get_program_metadata(&store, &id, "other").unwrap());
    assert_eq!("", get_program_metadata(&store, &id, "absent").unwrap());
    assert_eq!(2, store.find(&key(4, 211, 52570, 1609459200)).unwrap().metadata.len());
}

#[test]
fn metadata_errors_map_to_codes() {
    let mut store = ProgramStore::new();
    create_program(&mut store, Some(program(4, 211, 52570, 1609459200, "X", 2)), 7).unwrap();
    let id = identity(4, 211, 52570, 1609459200);
    assert_eq!(Code::InvalidArgument, update_program_metadata(&mut store, &None, "k", "v").unwrap_err().code);
    let bad = identity(4, 0, 1, 1);
    assert_eq!(Code::InvalidArgument, update_program_metadata(&mut store, &bad, "k", "v").unwrap_err().code);
    assert_eq!(Code::InvalidArgument, update_program_metadata(&mut store, &id, &"k".repeat(256), "v").unwrap_err().code);
    assert!(update_program_metadata(&mut store, &id, &"k".repeat(255), "v").is_ok());
    let big = "v".repeat(1024 * 1024 + 1);
    assert_eq!(Code::InvalidArgument, update_program_metadata(&mut store, &id, "k", &big).unwrap_err().code);
    assert!(update_program_metadata(&mut store, &id, "k", &"v".repeat(1024 * 1024)).is_ok());
    let missing = identity(4, 211, 1, 1);
    assert_eq!(Code::NotFound, update_program_metadata(&mut store, &missing, "k", "v").unwrap_err().code);
    assert_eq!(Code::NotFound, get_program(&store, &missing).unwrap_err().code);
}

#[test]
fn snapshot_records_restore_to_same_catalog() {
    let mut store = ProgramStore::new();
    create_program(&mut store, Some(program(4, 211, 2, 200, "B", 2)), 2).unwrap();
    create_program(&mut store, Some(program(4, 211, 1, 100, "A", 1)), 1).unwrap();
    store.create_video(&key(4, 211, 1, 100), video(10, "c1", 5)).unwrap();
    update_program_metadata(&mut store, &identity(4, 211, 1, 100), "k", "v").unwrap();
    let (ps, vs) = store.into_records();
    let restored = ProgramStore::from_records(ps.clone(), vs.clone()).unwrap();
    let ids: Vec<u128> = restored.all().iter().map(|p| p.id).collect();
    assert_eq!(vec![1, 2], ids);
    assert_eq!(vec![10], restored.find(&key(4, 211, 1, 100)).unwrap().video_ids);
    assert_eq!("v", get_program_metadata(&restored, &identity(4, 211, 1, 100), "k").unwrap());
    assert_eq!(1, restored.all_videos().len());
}

#[test]
fn broken_records_are_refused() {
    let mut store = ProgramStore::new();
    create_program(&mut store, Some(program(4, 211, 2, 200, "B", 2)), 2).unwrap();
    create_program(&mut store, Some(program(4, 211, 1, 100, "A", 2)), 1).unwrap();
    store.create_video(&key(4, 211, 1, 100), video(10, "c1", 5)).unwrap();
    let (ps, vs) = store.into_records();
    let mut reversed = ps.clone();
    reversed.reverse();
    assert!(ProgramStore::from_records(reversed, vs.clone()).is_err());
    assert!(ProgramStore::from_records(ps.clone(), vec![]).is_err());
    let mut orphan = vs.clone();
    orphan[0].program_id = 99;
    assert!(ProgramStore::from_records(ps, orphan).is_err());
}

#[test]
fn thumbnail_appears_on_program() {
    let mut store = ProgramStore::new();
    create_program(&mut store, Some(program(4, 211, 52570, 1609459200, "X", 2)), 7).unwrap();
    store.create_video(&key(4, 211, 52570, 1609459200), video(70, "c1", 10)).unwrap();
    let before = get_program(&store, &identity(4, 211, 52570, 1609459200)).unwrap();
    assert!(before.thumbnail.is_empty());
    dtvault::events::store_thumbnail(&mut store, 70, vec![0xff, 0xd8, 0xff]).unwrap();
    let after = get_program(&store, &identity(4, 211, 52570, 1609459200)).unwrap();
    assert_eq!(vec![0xff, 0xd8, 0xff], after.thumbnail);
    assert_eq!("image/jpeg", after.thumbnail_mime_type);
    assert!(dtvault::events::store_thumbnail(&mut store, 71, vec![1]).is_err());
}

#[test]
fn channel_type_codes_round_trip() {
    for t in [ChannelType::GR, ChannelType::BS, ChannelType::CS, ChannelType::Sky] {
        assert_eq!(Some(t), ChannelType::from_i32(t.to_i32()));
    }
    assert_eq!(None, ChannelType::from_i32(0));
    assert_eq!(None, ChannelType::from_i32(5));
}

#[test]
fn persisted_records_read_back() {
    let mut store = ProgramStore::new();
    create_program(&mut store, Some(program(4, 211, 1, 100, "A", 3)), 1).unwrap();
    store.create_video(&key(4, 211, 1, 100), video(10, "c1", 5)).unwrap();
    update_program_metadata(&mut store, &identity(4, 211, 1, 100), "k", "v").unwrap();
    let p = store.find(&key(4, 211, 1, 100)).unwrap();
    let record = p.persist();
    let back = Program::from_persisted(record.clone()).unwrap();
    assert_eq!(p.id, back.id);
    assert_eq!(p.program_key(), back.program_key());
    assert_eq!(p.metadata, back.metadata);
    assert_eq!(p.video_ids, back.video_ids);
    assert_eq!(ChannelType::CS, back.service.as_ref().unwrap().channel.as_ref().unwrap().channel_type);
    let mut no_duration = record.clone();
    no_duration.duration = None;
    assert_eq!(
        Err(MessageConversionError::MissingRequiredField("duration".to_string())),
        Program::from_persisted(no_duration).map(|p| p.id)
    );
    let mut bad_channel = record;
    bad_channel.service.as_mut().unwrap().channel.as_mut().unwrap().channel_type = 9;
    assert!(Program::from_persisted(bad_channel).is_err());
    let v = store.find_video(10).unwrap();
    let back = Video::from_persisted(v.persist());
    assert_eq!(v.provider_id, back.provider_id);
    assert_eq!(v.program_id, back.program_id);
}

#[test]
fn identical_requests_change_nothing_twice() {
    let mut store = ProgramStore::new();
    let (n1, x1) = create_program(&mut store, Some(program(4, 211, 52570, 1609459200, "X", 2)), 5).unwrap();
    let (n2, x2) = create_program(&mut store, Some(program(4, 211, 52570, 1609459200, "Y", 2)), 6).unwrap();
    assert_eq!(FindOrCreateNotice::Created, n1);
    assert_eq!(FindOrCreateNotice::AlreadyExists, n2);
    assert_eq!("X", x1.name);
    assert_eq!("X", x2.name);
    let id = identity(4, 211, 52570, 1609459200);
    update_program_metadata(&mut store, &id, "k", "v").unwrap();
    update_program_metadata(&mut store, &id, "k", "v").unwrap();
    assert_eq!(1, store.find(&key(4, 211, 52570, 1609459200)).unwrap().metadata.len());
    assert_eq!("v", get_program_metadata(&store, &id, "k").unwrap());
}
