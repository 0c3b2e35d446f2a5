//! Recorded programs as the Chinachu recorder describes them, and the requests a collector
//! makes of the archive for each.
use vstd::prelude::*;
use crate::model::Timestamp;
use crate::program_id::{id_form, id_values, ParseProgramIDError, ProgramID};
use crate::text::{chars_of, digits_end, exec_digits_end, number, parse_number, same_text};
use crate::wire;

verus! {

/// Metadata key under which a collector stores the recorder's own description of a program.
pub const PROGRAM_METADATA_KEY: &'static str = "chinachu_program_data";

/// Provider identifier of videos a collector uploads.
pub const VIDEO_PROVIDER_ID: &'static str = "dtvault-collector-chinachu";

/// A JSON value where the recorder may write a number or a string.
#[derive(Clone, Debug)]
pub enum NumberOrText {
    /// A JSON number, with its value when it is a non-negative integer that fits `u64`.
    Number(Option<u64>),
    Text(String),
    /// Any other JSON value, as its JSON text.
    Other(String),
}

/// A JSON value where the recorder should write a string.
#[derive(Clone, Debug)]
pub enum TextOrOther {
    Text(String),
    /// Any other JSON value, as its JSON text.
    Other(String),
}

#[derive(Clone, Debug)]
pub struct Channel {
    pub channel_type: String,
    pub id: String,
    pub channel: String,
    pub name: String,
    pub nid: Option<u16>,
    pub sid: NumberOrText,
}

#[derive(Clone, Debug)]
pub struct RecordedProgram {
    pub id: String,
    /// Start, in milliseconds since 1970-01-01T00:00:00Z.
    pub start: u64,
    pub seconds: u64,
    pub title: String,
    pub full_title: String,
    pub detail: String,
    pub description: Option<String>,
    pub channel: Channel,
    pub extra: Option<Vec<(String, TextOrOther)>>,
    pub recorded: String,
}

#[derive(Debug)]
pub enum MessageConversionError {
    ParseProgramIDError(ParseProgramIDError),
    ParseIntError(String),
    UnexpectedType { name: String, value: String },
}

/// The `u32` that `s` writes: an optional `+`, then decimal digits, nothing else.
pub open spec fn u32_literal(s: Seq<char>) -> Option<int> {
    let start: int = if s.len() > 0 && s[0] == '+' {
        1
    } else {
        0
    };
    let end = digits_end(s, start);
    if start < end && end == s.len() && number(s, start, end) <= u32::MAX {
        Some(number(s, start, end))
    } else {
        None
    }
}

fn parse_u32(text: &str) -> (r: Option<u32>)
    ensures
        match r {
            Some(v) => u32_literal(text@) == Some(v as int),
            None => u32_literal(text@) is None,
        },
{
    let s = chars_of(text);
    let start: usize = if s.len() > 0 && s[0] == '+' {
        1
    } else {
        0
    };
    let end = exec_digits_end(&s, start);
    if !(start < end && end == s.len()) {
        return None;
    }
    match parse_number(&s, start, end, 4294967295) {
        Some(v) => Some(v as u32),
        None => None,
    }
}

/// The medium code of a recorder channel type; an unknown type is 0.
pub open spec fn medium_code(t: Seq<char>) -> i32 {
    if t == "GR"@ {
        1
    } else if t == "BS"@ {
        2
    } else if t == "CS"@ {
        3
    } else if t == "SKY"@ {
        4
    } else {
        0
    }
}

/// Every extra field holds a string.
pub open spec fn extras_ok(extra: Option<Vec<(String, TextOrOther)>>) -> bool {
    match extra {
        None => true,
        Some(x) => forall|i: int| 0 <= i < x@.len() ==> (#[trigger] x@[i]).1 is Text,
    }
}

/// The service identifier is a number that fits `u64`, or text that reads as a `u32`.
pub open spec fn sid_ok(sid: NumberOrText) -> bool {
    match sid {
        NumberOrText::Number(n) => n is Some,
        NumberOrText::Text(t) => u32_literal(t@) is Some,
        NumberOrText::Other(_) => false,
    }
}

/// A recording that a collector can describe to the archive.
pub open spec fn record_ok(r: RecordedProgram) -> bool {
    &&& id_form(r.id@) matches Some(f) && id_values(f) is Some
    &&& extras_ok(r.extra)
    &&& sid_ok(r.channel.sid)
    &&& r.seconds <= i64::MAX
}

/// The start of a recording as an instant.
pub open spec fn start_instant(start_ms: u64) -> Timestamp {
    Timestamp { seconds: (start_ms / 1000) as i64, nanos: ((start_ms % 1000) * 1000000) as i32 }
}

impl Channel {
    /// The service this channel describes to the archive.
    pub fn to_message(&self) -> (r: Result<wire::Service, MessageConversionError>)
        ensures
            match r {
                Ok(s) => {
                    &&& s.network_id == match self.nid {
                        Some(n) => n as u32,
                        None => 0u32,
                    }
                    &&& match self.sid {
                        NumberOrText::Number(Some(n)) => s.service_id == n as u32,
                        NumberOrText::Text(t) => u32_literal(t@) == Some(s.service_id as int),
                        _ => false,
                    }
                    &&& s.name@ == self.name@
                    &&& s.channel matches Some(c) && c.channel_type == medium_code(
                        self.channel_type@,
                    ) && c.channel@ == self.channel@ && c.name@ == self.name@
                },
                Err(e) => match self.sid {
                    NumberOrText::Text(t) => u32_literal(t@) is None && e is ParseIntError,
                    NumberOrText::Number(Some(_)) => false,
                    _ => e is UnexpectedType,
                },
            },
    {
        let service_id: u32 = match &self.sid {
            NumberOrText::Number(Some(n)) => #[verifier::truncate] (*n as u32),
            NumberOrText::Text(t) => match parse_u32(t.as_str()) {
                Some(v) => v,
                None => {
                    return Err(
                        MessageConversionError::ParseIntError(String::from_str("invalid digit found in string")),
                    );
                },
            },
            NumberOrText::Number(None) => {
                return Err(
                    MessageConversionError::UnexpectedType {
                        name: String::from_str("service_id"),
                        value: String::from_str("number"),
                    },
                );
            },
            NumberOrText::Other(json) => {
                return Err(
                    MessageConversionError::UnexpectedType {
                        name: String::from_str("service_id"),
                        value: json.clone(),
                    },
                );
            },
        };
        let t = self.channel_type.as_str();
        let channel_type = if same_text(t, "GR") {
            1
        } else if same_text(t, "BS") {
            2
        } else if same_text(t, "CS") {
            3
        } else if same_text(t, "SKY") {
            4
        } else {
            0
        };
        Ok(
            wire::Service {
                network_id: match self.nid {
                    Some(n) => n as u32,
                    None => 0,
                },
                service_id,
                name: self.name.clone(),
                channel: Some(
                    wire::Channel {
                        channel_type,
                        channel: self.channel.clone(),
                        name: self.name.clone(),
                    },
                ),
            },
        )
    }
}

impl RecordedProgram {
    pub fn program_id(&self) -> (r: Result<ProgramID, ParseProgramIDError>)
        ensures
            match id_form(self.id@) {
                None => r is Err,
                Some(f) => match id_values(f) {
                    Some((nid, sid, eid)) => r == Ok::<ProgramID, ParseProgramIDError>(
                        ProgramID { nid: nid as u16, sid: sid as u16, eid: eid as u16 },
                    ),
                    None => r is Err,
                },
            },
    {
        ProgramID::from_str(self.id.as_str())
    }

    /// The identity of the recorded program: its identifiers, and its start instant.
    pub fn to_identity(&self) -> (r: Result<wire::ProgramIdentity, MessageConversionError>)
        ensures
            r is Ok <==> (id_form(self.id@) matches Some(f) && id_values(f) is Some),
            r matches Ok(i) ==> i.start_at == Some(start_instant(self.start)) && {
                let v = id_values(id_form(self.id@)->0)->0;
                &&& i.network_id == v.0 as u16 as u32
                &&& i.service_id == v.1 as u16 as u32
                &&& i.event_id == v.2 as u16 as u32
            },
    {
        let id = match self.program_id() {
            Ok(id) => id,
            Err(e) => return Err(MessageConversionError::ParseProgramIDError(e)),
        };
        Ok(
            wire::ProgramIdentity {
                network_id: id.nid as u32,
                service_id: id.sid as u32,
                event_id: id.eid as u32,
                start_at: Some(
                    Timestamp {
                        seconds: (self.start / 1000) as i64,
                        nanos: ((self.start % 1000) * 1000000) as i32,
                    },
                ),
            },
        )
    }

    /// The description, or the detail when there is none.
    pub fn short_description(&self) -> (r: &String)
        ensures
            *r == match self.description {
                Some(d) => d,
                None => self.detail,
            },
    {
        match &self.description {
            Some(d) => d,
            None => &self.detail,
        }
    }

    /// The extra fields as extended events; each must hold a string.
    pub fn extra_to_extended_event(&self) -> (r: Result<Vec<wire::ExtendedEvent>, MessageConversionError>)
        ensures
            match self.extra {
                None => r matches Ok(v) && v@.len() == 0,
                Some(extra) => match r {
                    Ok(v) => v@.len() == extra@.len() && forall|i: int|
                        0 <= i < extra@.len() ==> ((#[trigger] extra@[i]).1 matches TextOrOther::Text(
                            t,
                        ) && v@[i].key@ == extra@[i].0@ && v@[i].value@ == t@),
                    Err(e) => e is UnexpectedType && exists|i: int|
                        0 <= i < extra@.len() && (#[trigger] extra@[i]).1 is Other,
                },
            },
    {
        let extra = match &self.extra {
            Some(x) => x,
            None => return Ok(Vec::new()),
        };
        let mut events: Vec<wire::ExtendedEvent> = Vec::new();
        let mut i: usize = 0;
        while i < extra.len()
            invariant
                self.extra == Some(*extra),
                i <= extra.len(),
                events@.len() == i,
                forall|j: int|
                    0 <= j < i ==> ((#[trigger] extra@[j]).1 matches TextOrOther::Text(t)
                        && events@[j].key@ == extra@[j].0@ && events@[j].value@ == t@),
            decreases extra.len() - i,
        {
            match &extra[i].1 {
                TextOrOther::Text(t) => {
                    events.push(wire::ExtendedEvent { key: extra[i].0.clone(), value: t.clone() });
                },
                TextOrOther::Other(json) => {
                    assert(extra@[i as int].1 is Other);
                    let mut name = String::from_str("extra.");
                    name.append(extra[i].0.as_str());
                    return Err(MessageConversionError::UnexpectedType { name, value: json.clone() });
                },
            }
            i += 1;
        }
        Ok(events)
    }

    /// The program message a collector sends for this recording.
    pub fn to_message(&self) -> (r: Result<wire::Program, MessageConversionError>)
        ensures
            r matches Ok(p) ==> p.start_at == Some(start_instant(self.start)) && p.duration
                == Some(Timestamp { seconds: self.seconds as i64, nanos: 0 }) && p.name@
                == self.title@ && p.description@ == (match self.description {
                Some(d) => d@,
                None => self.detail@,
            }) && p.service is Some && p.thumbnail@.len() == 0,
            r is Ok <==> record_ok(*self),
    {
        let identity = match self.to_identity() {
            Ok(i) => i,
            Err(e) => return Err(e),
        };
        let extended = match self.extra_to_extended_event() {
            Ok(v) => v,
            Err(e) => return Err(e),
        };
        let service = match self.channel.to_message() {
            Ok(s) => s,
            Err(e) => return Err(e),
        };
        if self.seconds > i64::MAX as u64 {
            return Err(
                MessageConversionError::UnexpectedType {
                    name: String::from_str("seconds"),
                    value: String::from_str("too large"),
                },
            );
        }
        Ok(
            wire::Program {
                network_id: identity.network_id,
                service_id: identity.service_id,
                event_id: identity.event_id,
                start_at: identity.start_at,
                duration: Some(Timestamp { seconds: self.seconds as i64, nanos: 0 }),
                name: self.title.clone(),
                description: self.short_description().clone(),
                extended,
                service: Some(service),
                thumbnail: Vec::new(),
                thumbnail_mime_type: String::new(),
            },
        )
    }
}

/// A recording with the JSON text it was read from.
#[derive(Clone, Debug)]
pub struct RecordWithRaw {
    pub record: RecordedProgram,
    pub raw_json: String,
}

impl RecordWithRaw {
    pub fn create_program_request(&self) -> (r: Result<wire::CreateProgramRequest, MessageConversionError>)
        ensures
            r is Ok <==> record_ok(self.record),
            r matches Ok(req) ==> req.program is Some,
    {
        match self.record.to_message() {
            Ok(p) => Ok(wire::CreateProgramRequest { program: Some(p) }),
            Err(e) => Err(e),
        }
    }

    /// Stores the recorder's JSON text as metadata of the program.
    pub fn update_program_metadata_request(&self) -> (r: Result<
        wire::UpdateProgramMetadataRequest,
        MessageConversionError,
    >)
        ensures
            r is Ok <==> (id_form(self.record.id@) matches Some(f) && id_values(f) is Some),
            r matches Ok(req) ==> req.program_id is Some && req.key@ == PROGRAM_METADATA_KEY@
                && req.value@ == self.raw_json@,
    {
        match self.record.to_identity() {
            Ok(id) => Ok(
                wire::UpdateProgramMetadataRequest {
                    program_id: Some(id),
                    key: String::from_str(PROGRAM_METADATA_KEY),
                    value: self.raw_json.clone(),
                },
            ),
            Err(e) => Err(e),
        }
    }

    /// The header of the video upload, given the recorded file's name, length and MIME type.
    pub fn video_header(&self, file_name: String, total_length: u64, mime_type: String) -> (r: Result<
        wire::VideoHeader,
        MessageConversionError,
    >)
        ensures
            r is Ok <==> (id_form(self.record.id@) matches Some(f) && id_values(f) is Some),
            r matches Ok(h) ==> h.provider_id@ == VIDEO_PROVIDER_ID@ && h.file_name@ == file_name@
                && h.total_length == total_length && h.mime_type@ == mime_type@
                && h.program_id is Some,
    {
        match self.record.to_identity() {
            Ok(id) => Ok(
                wire::VideoHeader {
                    program_id: Some(id),
                    provider_id: String::from_str(VIDEO_PROVIDER_ID),
                    total_length,
                    file_name,
                    mime_type,
                },
            ),
            Err(e) => Err(e),
        }
    }
}

} // verus!
