//! Records as the catalog snapshot holds them, and the conversions to and from them.
use vstd::prelude::*;
use crate::model::{
    Channel, ChannelType, ExtendedEvent, MessageConversionError, Program, Service, Timestamp, Video,
};

verus! {

#[derive(Clone, Debug)]
pub struct PersistChannel {
    pub channel_type: i32,
    pub channel: String,
    pub name: String,
}

#[derive(Clone, Debug)]
pub struct PersistService {
    pub network_id: u32,
    pub service_id: u32,
    pub name: String,
    pub channel: Option<PersistChannel>,
}

#[derive(Clone, Debug)]
pub struct PersistExtendedEvent {
    pub key: String,
    pub value: String,
}

#[derive(Clone, Debug)]
pub struct PersistProgram {
    pub id: u128,
    pub network_id: u32,
    pub service_id: u32,
    pub event_id: u32,
    pub start_at: Option<Timestamp>,
    pub duration: Option<Timestamp>,
    pub name: String,
    pub description: String,
    pub extended: Vec<PersistExtendedEvent>,
    pub service: Option<PersistService>,
    pub metadata: Vec<(String, String)>,
    pub video_ids: Vec<u128>,
}

#[derive(Clone, Debug)]
pub struct PersistVideo {
    pub video_id: u128,
    pub provider_id: String,
    pub program_id: u128,
    pub total_length: u64,
    pub file_name: String,
    pub original_file_name: String,
    pub mime_type: String,
    pub storage_id: u128,
    pub storage_prefix: String,
    pub thumbnail: Vec<u8>,
    pub thumbnail_mime_type: Option<String>,
}

/// A stored channel type that names no medium.
pub open spec fn bad_persisted_channel(s: Option<PersistService>) -> bool {
    match s {
        Some(s) => match s.channel {
            Some(c) => !(1 <= c.channel_type <= 4),
            None => false,
        },
        None => false,
    }
}

/// The first field that keeps a stored program from becoming a record.
pub open spec fn missing_persisted_field(pp: PersistProgram) -> Option<Seq<char>> {
    if pp.start_at is None {
        Some("start_at"@)
    } else if pp.duration is None {
        Some("duration"@)
    } else if bad_persisted_channel(pp.service) {
        Some("channel_type"@)
    } else {
        None
    }
}

/// The metadata entries hold the same keys and values, in the same order.
pub open spec fn same_entries(a: Seq<(String, String)>, b: Seq<(String, String)>) -> bool {
    a.len() == b.len() && forall|i: int|
        0 <= i < a.len() ==> (#[trigger] a[i]).0@ == b[i].0@ && a[i].1@ == b[i].1@
}

/// The extended events hold the same keys and values, in the same order.
pub open spec fn same_events(a: Seq<ExtendedEvent>, b: Seq<PersistExtendedEvent>) -> bool {
    a.len() == b.len() && forall|i: int|
        0 <= i < a.len() ==> (#[trigger] a[i]).key@ == b[i].key@ && a[i].value@ == b[i].value@
}

pub open spec fn same_channel(c: Channel, pc: PersistChannel) -> bool {
    c.channel_type.code() == pc.channel_type && c.channel@ == pc.channel@ && c.name@ == pc.name@
}

/// The service `ps` stores `s`; stored identifiers are read back through their low 16 bits.
pub open spec fn same_service(s: Option<Service>, ps: Option<PersistService>) -> bool {
    match (s, ps) {
        (Some(s), Some(ps)) => ps.network_id as u16 == s.network_id && ps.service_id as u16
            == s.service_id && s.name@ == ps.name@ && match (s.channel, ps.channel) {
            (Some(c), Some(pc)) => same_channel(c, pc),
            (None, None) => true,
            _ => false,
        },
        (None, None) => true,
        _ => false,
    }
}

/// Two services agree in every field: identifiers, name and channel.
pub open spec fn same_service_fields(a: Option<Service>, b: Option<Service>) -> bool {
    match (a, b) {
        (Some(a), Some(b)) => a.network_id == b.network_id && a.service_id == b.service_id
            && a.name@ == b.name@ && match (a.channel, b.channel) {
            (Some(x), Some(y)) => x.channel_type == y.channel_type && x.channel@ == y.channel@
                && x.name@ == y.name@,
            (None, None) => true,
            _ => false,
        },
        (None, None) => true,
        _ => false,
    }
}

/// `pp` stores every field of `p`.
pub open spec fn stores_program(pp: PersistProgram, p: Program) -> bool {
    &&& pp.id == p.id
    &&& pp.network_id == p.network_id as u32
    &&& pp.service_id == p.service_id as u32
    &&& pp.event_id == p.event_id as u32
    &&& pp.start_at == Some(p.start_at)
    &&& pp.duration == Some(p.duration)
    &&& pp.name@ == p.name@
    &&& pp.description@ == p.description@
    &&& same_events(p.extended@, pp.extended@)
    &&& same_service(p.service, pp.service)
    &&& same_entries(p.metadata@, pp.metadata@)
    &&& pp.video_ids@ == p.video_ids@
}

/// `p` is what reading the record `pp` gives.
pub open spec fn restores_program(pp: PersistProgram, p: Program) -> bool {
    &&& pp.id == p.id
    &&& pp.network_id as u16 == p.network_id
    &&& pp.service_id as u16 == p.service_id
    &&& pp.event_id as u16 == p.event_id
    &&& pp.start_at == Some(p.start_at)
    &&& pp.duration == Some(p.duration)
    &&& pp.name@ == p.name@
    &&& pp.description@ == p.description@
    &&& same_events(p.extended@, pp.extended@)
    &&& same_service(p.service, pp.service)
    &&& same_entries(p.metadata@, pp.metadata@)
    &&& pp.video_ids@ == p.video_ids@
}

/// `pv` stores every field of `v`.
pub open spec fn stores_video(pv: PersistVideo, v: Video) -> bool {
    &&& pv.video_id == v.id
    &&& pv.provider_id@ == v.provider_id@
    &&& pv.program_id == v.program_id
    &&& pv.total_length == v.total_length
    &&& pv.file_name@ == v.file_name@
    &&& pv.original_file_name@ == v.original_file_name@
    &&& pv.mime_type@ == v.mime_type@
    &&& pv.storage_id == v.storage_id
    &&& pv.storage_prefix@ == v.storage_prefix@
    &&& pv.thumbnail@ == v.thumbnail@
    &&& match (pv.thumbnail_mime_type, v.thumbnail_mime_type) {
        (Some(a), Some(b)) => a@ == b@,
        (None, None) => true,
        _ => false,
    }
}

fn copy_entries(md: &Vec<(String, String)>) -> (r: Vec<(String, String)>)
    ensures
        same_entries(md@, r@),
{
    let mut r: Vec<(String, String)> = Vec::new();
    let mut i: usize = 0;
    while i < md.len()
        invariant
            i <= md.len(),
            r@.len() == i,
            forall|j: int| 0 <= j < i ==> (#[trigger] md@[j]).0@ == r@[j].0@ && md@[j].1@ == r@[j].1@,
        decreases md.len() - i,
    {
        r.push((md[i].0.clone(), md[i].1.clone()));
        i += 1;
    }
    r
}

fn copy_ids(ids: &Vec<u128>) -> (r: Vec<u128>)
    ensures
        r@ == ids@,
{
    let mut r: Vec<u128> = Vec::new();
    let mut i: usize = 0;
    while i < ids.len()
        invariant
            i <= ids.len(),
            r@ == ids@.subrange(0, i as int),
        decreases ids.len() - i,
    {
        r.push(ids[i]);
        i += 1;
        assert(r@ =~= ids@.subrange(0, i as int));
    }
    assert(r@ =~= ids@);
    r
}

fn copy_bytes(bytes: &Vec<u8>) -> (r: Vec<u8>)
    ensures
        r@ == bytes@,
{
    let mut r: Vec<u8> = Vec::new();
    let mut i: usize = 0;
    while i < bytes.len()
        invariant
            i <= bytes.len(),
            r@ == bytes@.subrange(0, i as int),
        decreases bytes.len() - i,
    {
        r.push(bytes[i]);
        i += 1;
        assert(r@ =~= bytes@.subrange(0, i as int));
    }
    assert(r@ =~= bytes@);
    r
}

fn channel_from_persisted(pc: PersistChannel) -> (r: Result<Channel, MessageConversionError>)
    ensures
        r is Ok <==> 1 <= pc.channel_type <= 4,
        r matches Ok(c) ==> same_channel(c, pc),
{
    match ChannelType::from_i32(pc.channel_type) {
        Some(t) => Ok(Channel { channel_type: t, channel: pc.channel, name: pc.name }),
        None => Err(MessageConversionError::MissingRequiredField(String::from_str("channel_type"))),
    }
}

fn service_from_persisted(ps: PersistService) -> (r: Result<Service, MessageConversionError>)
    ensures
        r is Ok <==> !bad_persisted_channel(Some(ps)),
        r matches Ok(s) ==> same_service(Some(s), Some(ps)),
{
    let channel = match ps.channel {
        Some(pc) => match channel_from_persisted(pc) {
            Ok(c) => Some(c),
            Err(e) => return Err(e),
        },
        None => None,
    };
    Ok(
        Service {
            network_id: #[verifier::truncate] (ps.network_id as u16),
            service_id: #[verifier::truncate] (ps.service_id as u16),
            name: ps.name,
            channel,
        },
    )
}

impl Program {
    /// The record a snapshot holds for this program.
    pub fn persist(&self) -> (r: PersistProgram)
        ensures
            stores_program(r, *self),
    {
        let mut extended: Vec<PersistExtendedEvent> = Vec::new();
        let mut i: usize = 0;
        while i < self.extended.len()
            invariant
                i <= self.extended.len(),
                extended@.len() == i,
                forall|j: int|
                    0 <= j < i ==> (#[trigger] self.extended@[j]).key@ == extended@[j].key@
                        && self.extended@[j].value@ == extended@[j].value@,
            decreases self.extended.len() - i,
        {
            extended.push(
                PersistExtendedEvent {
                    key: self.extended[i].key.clone(),
                    value: self.extended[i].value.clone(),
                },
            );
            i += 1;
        }
        let service = match &self.service {
            Some(s) => Some(
                PersistService {
                    network_id: s.network_id as u32,
                    service_id: s.service_id as u32,
                    name: s.name.clone(),
                    channel: match &s.channel {
                        Some(c) => Some(
                            PersistChannel {
                                channel_type: c.channel_type.to_i32(),
                                channel: c.channel.clone(),
                                name: c.name.clone(),
                            },
                        ),
                        None => None,
                    },
                },
            ),
            None => None,
        };
        PersistProgram {
            id: self.id,
            network_id: self.network_id as u32,
            service_id: self.service_id as u32,
            event_id: self.event_id as u32,
            start_at: Some(self.start_at),
            duration: Some(self.duration),
            name: self.name.clone(),
            description: self.description.clone(),
            extended,
            service,
            metadata: copy_entries(&self.metadata),
            video_ids: copy_ids(&self.video_ids),
        }
    }

    /// The program a snapshot record stores; a record without a start, a duration or a known
    /// channel medium is refused, naming the field.
    pub fn from_persisted(pp: PersistProgram) -> (r: Result<Program, MessageConversionError>)
        ensures
            r is Ok <==> missing_persisted_field(pp) is None,
            match r {
                Ok(p) => restores_program(pp, p),
                Err(e) => Some(e->MissingRequiredField_0@) == missing_persisted_field(pp),
            },
    {
        proof {
            reveal_strlit("start_at");
            reveal_strlit("duration");
            reveal_strlit("channel_type");
        }
        let start_at = match pp.start_at {
            Some(t) => t,
            None => {
                return Err(MessageConversionError::MissingRequiredField(String::from_str("start_at")));
            },
        };
        let duration = match pp.duration {
            Some(t) => t,
            None => {
                return Err(MessageConversionError::MissingRequiredField(String::from_str("duration")));
            },
        };
        let service = match pp.service {
            Some(s) => match service_from_persisted(s) {
                Ok(s) => Some(s),
                Err(_) => {
                    return Err(
                        MessageConversionError::MissingRequiredField(String::from_str("channel_type")),
                    );
                },
            },
            None => None,
        };
        let source = pp.extended;
        let mut extended: Vec<ExtendedEvent> = Vec::new();
        let mut i: usize = 0;
        while i < source.len()
            invariant
                i <= source.len(),
                extended@.len() == i,
                forall|j: int|
                    0 <= j < i ==> (#[trigger] extended@[j]).key@ == source@[j].key@
                        && extended@[j].value@ == source@[j].value@,
            decreases source.len() - i,
        {
            extended.push(
                ExtendedEvent { key: source[i].key.clone(), value: source[i].value.clone() },
            );
            i += 1;
        }
        Ok(
            Program {
                id: pp.id,
                network_id: #[verifier::truncate] (pp.network_id as u16),
                service_id: #[verifier::truncate] (pp.service_id as u16),
                event_id: #[verifier::truncate] (pp.event_id as u16),
                start_at,
                duration,
                name: pp.name,
                description: pp.description,
                extended,
                service,
                metadata: pp.metadata,
                video_ids: pp.video_ids,
            },
        )
    }
}

impl Video {
    /// The record a snapshot holds for this video.
    pub fn persist(&self) -> (r: PersistVideo)
        ensures
            stores_video(r, *self),
    {
        PersistVideo {
            video_id: self.id,
            provider_id: self.provider_id.clone(),
            program_id: self.program_id,
            total_length: self.total_length,
            file_name: self.file_name.clone(),
            original_file_name: self.original_file_name.clone(),
            mime_type: self.mime_type.clone(),
            storage_id: self.storage_id,
            storage_prefix: self.storage_prefix.clone(),
            thumbnail: copy_bytes(&self.thumbnail),
            thumbnail_mime_type: match &self.thumbnail_mime_type {
                Some(m) => Some(m.clone()),
                None => None,
            },
        }
    }

    /// The video a snapshot record stores.
    pub fn from_persisted(pv: PersistVideo) -> (r: Video)
        ensures
            stores_video(pv, r),
    {
        Video {
            id: pv.video_id,
            provider_id: pv.provider_id,
            program_id: pv.program_id,
            total_length: pv.total_length,
            file_name: pv.file_name,
            original_file_name: pv.original_file_name,
            mime_type: pv.mime_type,
            storage_id: pv.storage_id,
            storage_prefix: pv.storage_prefix,
            thumbnail: pv.thumbnail,
            thumbnail_mime_type: pv.thumbnail_mime_type,
        }
    }
}

/// A program written to a snapshot reads back: the record names every field reading needs,
/// and what is read has the identifier, key, duration, names, events, service, metadata and
/// videos of the program that was written.
pub proof fn lemma_program_round_trip(p: Program, pp: PersistProgram, q: Program)
    requires
        stores_program(pp, p),
        missing_persisted_field(pp) is None ==> restores_program(pp, q),
    ensures
        missing_persisted_field(pp) is None,
        q.id == p.id,
        q.key() == p.key(),
        q.duration == p.duration,
        q.name@ == p.name@,
        q.description@ == p.description@,
        q.extended@.len() == p.extended@.len(),
        forall|i: int|
            0 <= i < q.extended@.len() ==> (#[trigger] q.extended@[i]).key@ == p.extended@[i].key@
                && q.extended@[i].value@ == p.extended@[i].value@,
        same_entries(q.metadata@, p.metadata@),
        q.video_ids@ == p.video_ids@,
        same_service_fields(q.service, p.service),
{
    match (p.service, pp.service) {
        (Some(s), Some(ps)) => match (s.channel, ps.channel) {
            (Some(c), Some(pc)) => {
                assert(1 <= c.channel_type.code() <= 4);
            },
            _ => {},
        },
        _ => {},
    }
    assert forall|i: int| 0 <= i < q.metadata@.len() implies (#[trigger] q.metadata@[i]).0@
        == p.metadata@[i].0@ && q.metadata@[i].1@ == p.metadata@[i].1@ by {
        assert(pp.metadata@[i].0@ == p.metadata@[i].0@);
    }
}

} // verus!
