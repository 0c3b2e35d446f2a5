//! Programs, services, channels and videos, and their wire projections.
use vstd::prelude::*;
use crate::wire;
use crate::text::same_text;

verus! {

/// Why a record could not be built from a message.
#[derive(Debug, PartialEq, Eq)]
pub enum MessageConversionError {
    MissingRequiredField(String),
}

/// The broadcast medium of a channel.
#[derive(Clone, Copy, Debug, PartialEq, Eq, Structural)]
pub enum ChannelType {
    GR,
    BS,
    CS,
    Sky,
}

impl ChannelType {
    /// The number that stands for this medium in messages and snapshots.
    pub open spec fn code(self) -> i32 {
        match self {
            ChannelType::GR => 1,
            ChannelType::BS => 2,
            ChannelType::CS => 3,
            ChannelType::Sky => 4,
        }
    }

    pub fn to_i32(self) -> (r: i32)
        ensures
            r == self.code(),
    {
        match self {
            ChannelType::GR => 1,
            ChannelType::BS => 2,
            ChannelType::CS => 3,
            ChannelType::Sky => 4,
        }
    }

    pub fn from_i32(v: i32) -> (r: Option<ChannelType>)
        ensures
            match r {
                Some(t) => t.code() == v,
                None => !(1 <= v <= 4),
            },
    {
        if v == 1 {
            Some(ChannelType::GR)
        } else if v == 2 {
            Some(ChannelType::BS)
        } else if v == 3 {
            Some(ChannelType::CS)
        } else if v == 4 {
            Some(ChannelType::Sky)
        } else {
            None
        }
    }
}

/// An instant as seconds and nanoseconds since 1970-01-01T00:00:00Z.
#[derive(Clone, Copy, Debug, PartialEq, Eq, Structural)]
pub struct Timestamp {
    pub seconds: i64,
    pub nanos: i32,
}

#[derive(Clone, Debug)]
pub struct Channel {
    pub channel_type: ChannelType,
    pub channel: String,
    pub name: String,
}

impl Channel {
    pub fn from_exchanged(channel: wire::Channel) -> (r: Result<Channel, MessageConversionError>)
        ensures
            match r {
                Ok(c) => c.channel_type.code() == channel.channel_type && c.channel@
                    == channel.channel@ && c.name@ == channel.name@,
                Err(e) => !(1 <= channel.channel_type <= 4) && e->MissingRequiredField_0@
                    == "channel_type"@,
            },
    {
        match ChannelType::from_i32(channel.channel_type) {
            Some(t) => Ok(Channel { channel_type: t, channel: channel.channel, name: channel.name }),
            None => {
                let field = String::from_str("channel_type");
                Err(MessageConversionError::MissingRequiredField(field))
            },
        }
    }

    pub fn exchangeable(&self) -> (r: wire::Channel)
        ensures
            r.channel_type == self.channel_type.code(),
            r.channel@ == self.channel@,
            r.name@ == self.name@,
            channel_projects(r, *self),
    {
        wire::Channel {
            channel_type: self.channel_type.to_i32(),
            channel: self.channel.clone(),
            name: self.name.clone(),
        }
    }
}

#[derive(Clone, Debug)]
pub struct Service {
    pub network_id: u16,
    pub service_id: u16,
    pub name: String,
    pub channel: Option<Channel>,
}

impl Service {
    /// Identifiers arrive as 32-bit numbers; only their low 16 bits are kept.
    pub fn from_exchanged(service: wire::Service) -> (r: Result<Service, MessageConversionError>)
        ensures
            match r {
                Ok(s) => s.network_id == service.network_id as u16 && s.service_id
                    == service.service_id as u16 && s.name@ == service.name@ && (s.channel is Some
                    <==> service.channel is Some) && !bad_channel(Some(service)),
                Err(e) => bad_channel(Some(service)) && e->MissingRequiredField_0@
                    == "channel_type"@,
            },
    {
        let channel = match service.channel {
            Some(ch) => match Channel::from_exchanged(ch) {
                Ok(c) => Some(c),
                Err(e) => return Err(e),
            },
            None => None,
        };
        Ok(
            Service {
                network_id: #[verifier::truncate] (service.network_id as u16),
                service_id: #[verifier::truncate] (service.service_id as u16),
                name: service.name,
                channel,
            },
        )
    }

    pub fn exchangeable(&self) -> (r: wire::Service)
        ensures
            r.network_id == self.network_id as u32,
            r.service_id == self.service_id as u32,
            r.name@ == self.name@,
            r.channel is Some <==> self.channel is Some,
            service_projects(r, *self),
    {
        wire::Service {
            network_id: self.network_id as u32,
            service_id: self.service_id as u32,
            name: self.name.clone(),
            channel: match &self.channel {
                Some(c) => Some(c.exchangeable()),
                None => None,
            },
        }
    }
}

#[derive(Clone, Debug)]
pub struct ExtendedEvent {
    pub key: String,
    pub value: String,
}

impl ExtendedEvent {
    pub fn from_exchanged(event: wire::ExtendedEvent) -> (r: ExtendedEvent)
        ensures
            r.key@ == event.key@,
            r.value@ == event.value@,
    {
        ExtendedEvent { key: event.key, value: event.value }
    }

    pub fn exchangeable(&self) -> (r: wire::ExtendedEvent)
        ensures
            r.key@ == self.key@,
            r.value@ == self.value@,
    {
        wire::ExtendedEvent { key: self.key.clone(), value: self.value.clone() }
    }
}

/// The natural key of a program: start instant, then network, service and event identifiers.
#[derive(Clone, Copy, Debug, PartialEq, Eq, Structural)]
pub struct ProgramKey {
    pub start_at: Timestamp,
    pub network_id: u16,
    pub service_id: u16,
    pub event_id: u16,
}

/// Keys are ordered by start instant, then network, service and event identifiers.
pub open spec fn key_lt(a: ProgramKey, b: ProgramKey) -> bool {
    if a.start_at.seconds != b.start_at.seconds {
        a.start_at.seconds < b.start_at.seconds
    } else if a.start_at.nanos != b.start_at.nanos {
        a.start_at.nanos < b.start_at.nanos
    } else if a.network_id != b.network_id {
        a.network_id < b.network_id
    } else if a.service_id != b.service_id {
        a.service_id < b.service_id
    } else {
        a.event_id < b.event_id
    }
}

/// Keys are strictly and totally ordered.
pub proof fn lemma_key_lt_total(a: ProgramKey, b: ProgramKey)
    ensures
        a == b || key_lt(a, b) || key_lt(b, a),
        !(key_lt(a, b) && key_lt(b, a)),
        !key_lt(a, a),
{
}

impl ProgramKey {
    pub fn lt(&self, other: &ProgramKey) -> (r: bool)
        ensures
            r == key_lt(*self, *other),
    {
        if self.start_at.seconds != other.start_at.seconds {
            self.start_at.seconds < other.start_at.seconds
        } else if self.start_at.nanos != other.start_at.nanos {
            self.start_at.nanos < other.start_at.nanos
        } else if self.network_id != other.network_id {
            self.network_id < other.network_id
        } else if self.service_id != other.service_id {
            self.service_id < other.service_id
        } else {
            self.event_id < other.event_id
        }
    }

    pub fn same(&self, other: &ProgramKey) -> (r: bool)
        ensures
            r == (*self == *other),
    {
        self.start_at.seconds == other.start_at.seconds && self.start_at.nanos
            == other.start_at.nanos && self.network_id == other.network_id && self.service_id
            == other.service_id && self.event_id == other.event_id
    }

    /// The key a program message is filed under, its identifiers cut to 16 bits; `None` when
    /// it has no start instant.
    pub fn from_program(program: &wire::Program) -> (r: Option<ProgramKey>)
        ensures
            match r {
                Some(k) => program.start_at == Some(k.start_at) && k.network_id
                    == program.network_id as u16 && k.service_id == program.service_id as u16
                    && k.event_id == program.event_id as u16,
                None => program.start_at is None,
            },
    {
        match program.start_at {
            Some(t) => Some(
                ProgramKey {
                    start_at: t,
                    network_id: #[verifier::truncate] (program.network_id as u16),
                    service_id: #[verifier::truncate] (program.service_id as u16),
                    event_id: #[verifier::truncate] (program.event_id as u16),
                },
            ),
            None => None,
        }
    }

    /// The key a stored program is filed under.
    pub fn from_stored_program(program: &Program) -> (r: ProgramKey)
        ensures
            r == program.key(),
    {
        program.program_key()
    }

    /// The key that an identity message names, its identifiers cut to 16 bits.
    pub fn from_program_id(id: &wire::ProgramIdentity) -> (r: Option<ProgramKey>)
        ensures
            match r {
                Some(k) => id.start_at == Some(k.start_at) && k.network_id == id.network_id as u16
                    && k.service_id == id.service_id as u16 && k.event_id == id.event_id as u16,
                None => id.start_at is None,
            },
    {
        match id.start_at {
            Some(t) => Some(
                ProgramKey {
                    start_at: t,
                    network_id: #[verifier::truncate] (id.network_id as u16),
                    service_id: #[verifier::truncate] (id.service_id as u16),
                    event_id: #[verifier::truncate] (id.event_id as u16),
                },
            ),
            None => None,
        }
    }

    pub fn exchangeable(&self) -> (r: wire::ProgramIdentity)
        ensures
            r.start_at == Some(self.start_at),
            r.network_id == self.network_id as u32,
            r.service_id == self.service_id as u32,
            r.event_id == self.event_id as u32,
    {
        wire::ProgramIdentity {
            start_at: Some(self.start_at),
            network_id: self.network_id as u32,
            service_id: self.service_id as u32,
            event_id: self.event_id as u32,
        }
    }
}

/// A recorded broadcast.
#[derive(Clone, Debug)]
pub struct Program {
    pub id: u128,
    pub network_id: u16,
    pub service_id: u16,
    pub event_id: u16,
    pub start_at: Timestamp,
    pub duration: Timestamp,
    pub name: String,
    pub description: String,
    pub extended: Vec<ExtendedEvent>,
    pub service: Option<Service>,
    /// Metadata entries; each key appears at most once.
    pub metadata: Vec<(String, String)>,
    pub video_ids: Vec<u128>,
}

/// Whether metadata entries hold each key at most once.
pub open spec fn unique_keys(md: Seq<(String, String)>) -> bool {
    forall|i: int, j: int|
        0 <= i < md.len() && 0 <= j < md.len() && i != j ==> #[trigger] md[i].0@ != #[trigger] md[j].0@
}

/// The value that metadata entries hold for `k`.
pub open spec fn metadata_entry(md: Seq<(String, String)>, k: Seq<char>) -> Option<Seq<char>> {
    if exists|i: int| 0 <= i < md.len() && #[trigger] md[i].0@ == k {
        let i = choose|i: int| 0 <= i < md.len() && #[trigger] md[i].0@ == k;
        Some(md[i].1@)
    } else {
        None
    }
}

/// `wc` is the wire form of `c`.
pub open spec fn channel_projects(wc: wire::Channel, c: Channel) -> bool {
    wc.channel_type == c.channel_type.code() && wc.channel@ == c.channel@ && wc.name@ == c.name@
}

/// `ws` is the wire form of `s`.
pub open spec fn service_projects(ws: wire::Service, s: Service) -> bool {
    &&& ws.network_id == s.network_id as u32
    &&& ws.service_id == s.service_id as u32
    &&& ws.name@ == s.name@
    &&& match (ws.channel, s.channel) {
        (Some(a), Some(b)) => channel_projects(a, b),
        (None, None) => true,
        _ => false,
    }
}

/// `xp` is the wire form of `p`, thumbnail aside: identifiers, start, duration, names,
/// extended events in order, and service.
pub open spec fn program_projects(xp: wire::Program, p: Program) -> bool {
    &&& xp.network_id == p.network_id as u32
    &&& xp.service_id == p.service_id as u32
    &&& xp.event_id == p.event_id as u32
    &&& xp.start_at == Some(p.start_at)
    &&& xp.duration == Some(p.duration)
    &&& xp.name@ == p.name@
    &&& xp.description@ == p.description@
    &&& xp.extended@.len() == p.extended@.len()
    &&& forall|i: int|
        0 <= i < xp.extended@.len() ==> (#[trigger] xp.extended@[i]).key@ == p.extended@[i].key@
            && xp.extended@[i].value@ == p.extended@[i].value@
    &&& match (xp.service, p.service) {
        (Some(a), Some(b)) => service_projects(a, b),
        (None, None) => true,
        _ => false,
    }
}

/// A service whose channel names no known medium.
pub open spec fn bad_channel(service: Option<wire::Service>) -> bool {
    match service {
        Some(s) => match s.channel {
            Some(c) => !(1 <= c.channel_type <= 4),
            None => false,
        },
        None => false,
    }
}

/// The first field that keeps a program message from becoming a record.
pub open spec fn missing_field(program: wire::Program) -> Option<Seq<char>> {
    if program.start_at is None {
        Some("start_at"@)
    } else if program.duration is None {
        Some("duration"@)
    } else if bad_channel(program.service) {
        Some("channel_type"@)
    } else {
        None
    }
}

impl Program {
    pub open spec fn key(self) -> ProgramKey {
        ProgramKey {
            start_at: self.start_at,
            network_id: self.network_id,
            service_id: self.service_id,
            event_id: self.event_id,
        }
    }

    pub fn program_key(&self) -> (r: ProgramKey)
        ensures
            r == self.key(),
    {
        ProgramKey {
            start_at: self.start_at,
            network_id: self.network_id,
            service_id: self.service_id,
            event_id: self.event_id,
        }
    }

    /// A new program record under the identifier `id`, with no metadata and no videos.
    pub fn from_exchanged(program: wire::Program, id: u128) -> (r: Result<
        Program,
        MessageConversionError,
    >)
        ensures
            r is Ok <==> missing_field(program) is None,
            match r {
                Ok(p) => {
                    &&& program.start_at == Some(p.start_at)
                    &&& program.duration == Some(p.duration)
                    &&& p.id == id
                    &&& p.network_id == program.network_id as u16
                    &&& p.service_id == program.service_id as u16
                    &&& p.event_id == program.event_id as u16
                    &&& p.name@ == program.name@
                    &&& p.description@ == program.description@
                    &&& p.extended@.len() == program.extended@.len()
                    &&& forall|i: int|
                        0 <= i < p.extended@.len() ==> (#[trigger] p.extended@[i]).key@
                            == program.extended@[i].key@ && p.extended@[i].value@
                            == program.extended@[i].value@
                    &&& p.metadata@.len() == 0
                    &&& p.video_ids@.len() == 0
                },
                Err(e) => Some(e->MissingRequiredField_0@) == missing_field(program),
            },
    {
        proof {
            reveal_strlit("start_at");
            reveal_strlit("duration");
            reveal_strlit("channel_type");
        }
        let start_at = match program.start_at {
            Some(t) => t,
            None => {
                return Err(MessageConversionError::MissingRequiredField(String::from_str("start_at")));
            },
        };
        let duration = match program.duration {
            Some(t) => t,
            None => {
                return Err(MessageConversionError::MissingRequiredField(String::from_str("duration")));
            },
        };
        let service = match program.service {
            Some(s) => match Service::from_exchanged(s) {
                Ok(s) => Some(s),
                Err(e) => {
                    return Err(e);
                },
            },
            None => None,
        };
        let mut extended: Vec<ExtendedEvent> = Vec::new();
        let source = program.extended;
        let mut i: usize = 0;
        while i < source.len()
            invariant
                i <= source.len(),
                extended@.len() == i,
                source@ == program.extended@,
                forall|j: int|
                    0 <= j < i ==> (#[trigger] extended@[j]).key@ == source@[j].key@
                        && extended@[j].value@ == source@[j].value@,
            decreases source.len() - i,
        {
            extended.push(
                ExtendedEvent { key: source[i].key.clone(), value: source[i].value.clone() },
            );
            i += 1;
        }
        Ok(
            Program {
                id,
                network_id: #[verifier::truncate] (program.network_id as u16),
                service_id: #[verifier::truncate] (program.service_id as u16),
                event_id: #[verifier::truncate] (program.event_id as u16),
                start_at,
                duration,
                name: program.name,
                description: program.description,
                extended,
                service,
                metadata: Vec::new(),
                video_ids: Vec::new(),
            },
        )
    }

    pub fn exchangeable(&self) -> (r: wire::Program)
        ensures
            r.network_id == self.network_id as u32,
            r.service_id == self.service_id as u32,
            r.event_id == self.event_id as u32,
            r.start_at == Some(self.start_at),
            r.duration == Some(self.duration),
            r.name@ == self.name@,
            r.description@ == self.description@,
            r.extended@.len() == self.extended@.len(),
            forall|i: int|
                0 <= i < r.extended@.len() ==> (#[trigger] r.extended@[i]).key@
                    == self.extended@[i].key@ && r.extended@[i].value@ == self.extended@[i].value@,
            r.service is Some <==> self.service is Some,
            r.thumbnail@.len() == 0,
            program_projects(r, *self),
    {
        let mut extended: Vec<wire::ExtendedEvent> = Vec::new();
        let mut i: usize = 0;
        while i < self.extended.len()
            invariant
                i <= self.extended.len(),
                extended@.len() == i,
                forall|j: int|
                    0 <= j < i ==> (#[trigger] extended@[j]).key@ == self.extended@[j].key@
                        && extended@[j].value@ == self.extended@[j].value@,
            decreases self.extended.len() - i,
        {
            extended.push(self.extended[i].exchangeable());
            i += 1;
        }
        wire::Program {
            network_id: self.network_id as u32,
            service_id: self.service_id as u32,
            event_id: self.event_id as u32,
            start_at: Some(self.start_at),
            duration: Some(self.duration),
            name: self.name.clone(),
            description: self.description.clone(),
            extended,
            service: match &self.service {
                Some(s) => Some(s.exchangeable()),
                None => None,
            },
            thumbnail: Vec::new(),
            thumbnail_mime_type: String::new(),
        }
    }

    /// The value of the metadata entry `key`, if there is one.
    pub fn metadata_get(&self, key: &str) -> (r: Option<&String>)
        requires
            unique_keys(self.metadata@),
        ensures
            match r {
                Some(v) => metadata_entry(self.metadata@, key@) == Some(v@),
                None => metadata_entry(self.metadata@, key@) is None,
            },
    {
        let mut i: usize = 0;
        while i < self.metadata.len()
            invariant
                i <= self.metadata.len(),
                unique_keys(self.metadata@),
                forall|j: int| 0 <= j < i ==> #[trigger] self.metadata@[j].0@ != key@,
            decreases self.metadata.len() - i,
        {
            if same_text(self.metadata[i].0.as_str(), key) {
                proof {
                    let md = self.metadata@;
                    assert(md[i as int].0@ == key@);
                    assert(exists|j: int| 0 <= j < md.len() && #[trigger] md[j].0@ == key@);
                    let j = choose|j: int| 0 <= j < md.len() && #[trigger] md[j].0@ == key@;
                    if j != i {
                        assert(md[i as int].0@ != md[j].0@);
                    }
                }
                return Some(&self.metadata[i].1);
            }
            i += 1;
        }
        None
    }
}

/// A stored video: its bytes live in a storage backend, its record in the catalog.
#[derive(Clone, Debug)]
pub struct Video {
    pub id: u128,
    pub provider_id: String,
    pub program_id: u128,
    pub total_length: u64,
    pub file_name: String,
    pub original_file_name: String,
    pub mime_type: String,
    pub storage_id: u128,
    pub storage_prefix: String,
    pub thumbnail: Vec<u8>,
    pub thumbnail_mime_type: Option<String>,
}

impl Video {
    /// A new video record for `program` under the identifier `id`, not yet placed in a storage.
    pub fn from_exchanged(program: &Program, header: &wire::VideoHeader, id: u128) -> (r: Video)
        ensures
            r.id == id,
            r.provider_id@ == header.provider_id@,
            r.program_id == program.id,
            r.total_length == header.total_length,
            r.file_name@ == header.file_name@,
            r.original_file_name@ == header.file_name@,
            r.mime_type@ == header.mime_type@,
            r.storage_id == 0,
            r.storage_prefix@.len() == 0,
            r.thumbnail@.len() == 0,
            r.thumbnail_mime_type is None,
    {
        Video {
            id,
            provider_id: header.provider_id.clone(),
            program_id: program.id,
            total_length: header.total_length,
            file_name: header.file_name.clone(),
            original_file_name: header.file_name.clone(),
            mime_type: header.mime_type.clone(),
            storage_id: 0,
            storage_prefix: String::new(),
            thumbnail: Vec::new(),
            thumbnail_mime_type: None,
        }
    }

    pub fn exchangeable(&self) -> (r: wire::Video)
        ensures
            r.video_id == self.id,
            r.provider_id@ == self.provider_id@,
            r.total_length == self.total_length,
            r.file_name@ == self.file_name@,
            r.mime_type@ == self.mime_type@,
            r.storage_id == self.storage_id,
            r.prefix@ == self.storage_prefix@,
    {
        wire::Video {
            video_id: self.id,
            provider_id: self.provider_id.clone(),
            total_length: self.total_length,
            file_name: self.file_name.clone(),
            mime_type: self.mime_type.clone(),
            storage_id: self.storage_id,
            prefix: self.storage_prefix.clone(),
        }
    }
}

} // verus!
