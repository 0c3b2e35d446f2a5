use dtvault::condition::{local_clock, Condition, Matcher};
use dtvault::range::wall_clock_seconds as local_date_time;
use dtvault::model::{Channel, ChannelType, Program, Service, Timestamp, Video};

fn program() -> Program {
    Program {
        id: 1,
        network_id: 4,
        service_id: 211,
        event_id: 52570,
        start_at: Timestamp { seconds: 1609459200, nanos: 0 },
        duration: Timestamp { seconds: 1800, nanos: 0 },
        name: "dtv special".to_string(),
        description: "a documentary".to_string(),
        extended: vec![],
        service: Some(Service {
            network_id: 4,
            service_id: 211,
            name: "BS11".to_string(),
            channel: Some(Channel { channel_type: ChannelType::BS, channel: "BS_11".to_string(), name: "BS11".to_string() }),
        }),
        metadata: vec![],
        video_ids: vec![],
    }
}

fn video() -> Video {
    Video {
        id: 2,
        provider_id: "collector".to_string(),
        program_id: 1,
        total_length: 3000,
        file_name: "a.m2ts".to_string(),
        original_file_name: "a.m2ts".to_string(),
        mime_type: "video/mp2t".to_string(),
        storage_id: 0,
        storage_prefix: String::new(),
        thumbnail: vec![],
        thumbnail_mime_type: None,
    }
}

#[test]
fn test() {
    let mut cond = Condition::new();
    cond.add("title", "hogehoge".to_string()).unwrap();
    cond.add("description", "/^dtv/".to_string()).unwrap();
    assert_eq!(2, cond.matchers.len());
}

#[test]
fn unknown_attribute_is_refused() {
    let mut cond = Condition::new();
    let err = cond.add("colour", "red".to_string()).unwrap_err();
    assert_eq!("unknown field `colour`", err);
    assert!(cond.matchers.is_empty());
}

#[test]
fn empty_condition_holds() {
    let cond = Condition::new();
    assert!(cond.matches(&program(), &video()));
    assert!(cond.validate().is_ok());
}

#[test]
fn conjunction_of_matchers() {
    let mut cond = Condition::new();
    cond.add("title", "/^dtv/".to_string()).unwrap();
    cond.add("network_id", "4".to_string()).unwrap();
    cond.add("channel_type", "bs,cs".to_string()).unwrap();
    cond.add("video_total_length", "1000..5000".to_string()).unwrap();
    cond.add("service_name", "BS".to_string()).unwrap();
    cond.add("channel_name", "11".to_string()).unwrap();
    cond.add("video_mime_type", "mp2t".to_string()).unwrap();
    cond.add("event_id", "/^525/".to_string()).unwrap();
    assert!(cond.validate().is_ok());
    assert!(cond.matches(&program(), &video()));
    cond.add("video_provider_id", "other".to_string()).unwrap();
    assert!(!cond.matches(&program(), &video()));
}

#[test]
fn start_at_reads_local_wall_clock() {
    let mut cond = Condition::new();
    cond.add("start_at", "2021-01-01 00:00..2021-01-01 23:59:59".to_string()).unwrap();
    let noon = local_date_time(2021, 1, 1, 12, 0, 0);
    assert!(cond.matches_at(&program(), &video(), noon));
    assert!(!cond.matches_at(&program(), &video(), local_date_time(2021, 1, 2, 0, 0, 0)));
    assert!(!cond.matches_at(&program(), &video(), None));
}

#[test]
fn invalid_values_fail_validation() {
    for (k, v) in [("start_at", "tomorrow"), ("video_total_length", "big"), ("service_id", "x"), ("channel_type", "FM"), ("title", "/(/")] {
        let mut cond = Condition::new();
        cond.add(k, v.to_string()).unwrap();
        assert!(cond.validate().is_err(), "{} = {}", k, v);
    }
}

#[test]
fn program_without_service_misses_service_matchers() {
    let mut p = program();
    p.service = None;
    let mut cond = Condition::new();
    cond.add("channel_type", "BS".to_string()).unwrap();
    assert!(!cond.matches(&p, &video()));
    match &cond.matchers[0] {
        Matcher::ChannelType(c) => assert_eq!(vec![ChannelType::BS], c.values),
        _ => assert!(false),
    }
}

#[test]
fn local_clock_stays_within_a_day_and_refuses_far_instants() {
    let t = Timestamp { seconds: 1609459200, nanos: 0 };
    let l = local_clock(t).unwrap();
    assert!(l > t.seconds - 86400 && l < t.seconds + 86400);
    assert_eq!(None, local_clock(Timestamp { seconds: i64::MAX, nanos: 0 }));
    assert_eq!(None, local_clock(Timestamp { seconds: 8_210_266_876_799, nanos: 0 }));
}
