//! Messages as they travel between collectors, viewers and the archive.
use vstd::prelude::*;
use crate::model::Timestamp;

verus! {

#[derive(Clone, Debug)]
pub struct Channel {
    pub channel_type: i32,
    pub channel: String,
    pub name: String,
}

#[derive(Clone, Debug)]
pub struct Service {
    pub network_id: u32,
    pub service_id: u32,
    pub name: String,
    pub channel: Option<Channel>,
}

#[derive(Clone, Debug)]
pub struct ExtendedEvent {
    pub key: String,
    pub value: String,
}

#[derive(Clone, Debug)]
pub struct Program {
    pub network_id: u32,
    pub service_id: u32,
    pub event_id: u32,
    pub start_at: Option<Timestamp>,
    pub duration: Option<Timestamp>,
    pub name: String,
    pub description: String,
    pub extended: Vec<ExtendedEvent>,
    pub service: Option<Service>,
    pub thumbnail: Vec<u8>,
    pub thumbnail_mime_type: String,
}

/// Names a program by its natural key.
#[derive(Clone, Copy, Debug)]
pub struct ProgramIdentity {
    pub network_id: u32,
    pub service_id: u32,
    pub event_id: u32,
    pub start_at: Option<Timestamp>,
}

/// The first message of an upload.
#[derive(Clone, Debug)]
pub struct VideoHeader {
    pub program_id: Option<ProgramIdentity>,
    pub provider_id: String,
    pub total_length: u64,
    pub file_name: String,
    pub mime_type: String,
}

#[derive(Clone, Debug)]
pub struct Video {
    pub video_id: u128,
    pub provider_id: String,
    pub total_length: u64,
    pub file_name: String,
    pub mime_type: String,
    pub storage_id: u128,
    pub prefix: String,
}

/// A chunk of a stream, `payload` starting at byte `offset`.
#[derive(Clone, Debug)]
pub struct Datagram {
    pub offset: u64,
    pub payload: Vec<u8>,
}

/// Asks the archive to file a program.
#[derive(Clone, Debug)]
pub struct CreateProgramRequest {
    pub program: Option<Program>,
}

/// Asks the archive to set one metadata entry of a program.
#[derive(Clone, Debug)]
pub struct UpdateProgramMetadataRequest {
    pub program_id: Option<ProgramIdentity>,
    pub key: String,
    pub value: String,
}

/// An encoding preset as the encoder lists it.
#[derive(Clone, Debug)]
pub struct Preset {
    pub preset_id: String,
    pub title: String,
    pub command: String,
}

} // verus!
