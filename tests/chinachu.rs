use dtvault::chinachu::{
    Channel, MessageConversionError, NumberOrText, RecordWithRaw, RecordedProgram, TextOrOther,
    PROGRAM_METADATA_KEY, VIDEO_PROVIDER_ID,
};
use dtvault::model::Timestamp;

fn record(id: &str, sid: NumberOrText, extra: Option<Vec<(String, TextOrOther)>>) -> RecordedProgram {
    RecordedProgram {
        id: id.to_string(),
        start: 1609459200123,
        seconds: 1800,
        title: "News".to_string(),
        full_title: "News [字]".to_string(),
        detail: "detail text".to_string(),
        description: None,
        channel: Channel {
            channel_type: "BS".to_string(),
            id: "BS_211".to_string(),
            channel: "BS15_0".to_string(),
            name: "BS11".to_string(),
            nid: Some(4),
            sid,
        },
        extra,
        recorded: "/rec/news.m2ts".to_string(),
    }
}

#[test]
fn record_becomes_program_message() {
    let extra = vec![("番組内容".to_string(), TextOrOther::Text("text".to_string()))];
    let r = record("bs211-14ka", NumberOrText::Number(Some(211)), Some(extra));
    let p = r.to_message().unwrap();
    assert_eq!((4, 211, 52570), (p.network_id, p.service_id, p.event_id));
    assert_eq!(Some(Timestamp { seconds: 1609459200, nanos: 123000000 }), p.start_at);
    assert_eq!(Some(Timestamp { seconds: 1800, nanos: 0 }), p.duration);
    assert_eq!("detail text", p.description);
    assert_eq!(1, p.extended.len());
    let service = p.service.unwrap();
    assert_eq!(211, service.service_id);
    assert_eq!(2, service.channel.unwrap().channel_type);
}

#[test]
fn service_id_may_be_text() {
    let r = record("bs211-14ka", NumberOrText::Text("211".to_string()), None);
    assert_eq!(211, r.channel.to_message().unwrap().service_id);
    let bad = record("bs211-14ka", NumberOrText::Text("x1".to_string()), None);
    assert!(matches!(bad.channel.to_message(), Err(MessageConversionError::ParseIntError(_))));
    let other = record("bs211-14ka", NumberOrText::Other("[]".to_string()), None);
    assert!(matches!(other.channel.to_message(), Err(MessageConversionError::UnexpectedType { .. })));
}

#[test]
fn extra_values_must_be_strings() {
    let extra = vec![("a".to_string(), TextOrOther::Other("1".to_string()))];
    let r = record("bs211-14ka", NumberOrText::Number(Some(211)), Some(extra));
    match r.extra_to_extended_event() {
        Err(MessageConversionError::UnexpectedType { name, value }) => {
            assert_eq!("extra.a", name);
            assert_eq!("1", value);
        }
        _ => assert!(false),
    }
}

#[test]
fn requests_carry_identity_and_raw_json() {
    let raw = RecordWithRaw {
        record: record("bs211-14ka", NumberOrText::Number(Some(211)), None),
        raw_json: "{\"id\":\"bs211-14ka\"}".to_string(),
    };
    let meta = raw.update_program_metadata_request().unwrap();
    assert_eq!(PROGRAM_METADATA_KEY, meta.key);
    assert_eq!(raw.raw_json, meta.value);
    assert_eq!(52570, meta.program_id.unwrap().event_id);
    let header = raw.video_header("news.m2ts".to_string(), 10, "video/mp2t".to_string()).unwrap();
    assert_eq!(VIDEO_PROVIDER_ID, header.provider_id);
    assert!(raw.create_program_request().unwrap().program.is_some());
    let unknown = RecordWithRaw { record: record("AKAZA_AKARI", NumberOrText::Number(Some(1)), None), raw_json: String::new() };
    assert!(matches!(unknown.update_program_metadata_request(), Err(MessageConversionError::ParseProgramIDError(_))));
}
