//! What storage backends report, and how each report reaches a client.
use vstd::prelude::*;
use crate::model::Video;
use crate::service::{Code, Status};

verus! {

/// The backend cannot be used now: its sentinel is locked out, unreadable, or names another
/// backend.
#[derive(Debug)]
pub struct UnavailableError {
    pub reason: String,
}

#[derive(Debug)]
pub enum CreateError {
    Unavailable(UnavailableError),
    CantCreateDirectory,
    MetadataBackupFailed(String),
}

#[derive(Debug)]
pub enum FindStatusError {
    Unavailable(UnavailableError),
    NotFound,
    IoError(String),
    ReadError(String),
}

/// Whether a video belongs to the mounted backend whose identifier is `mounted_id`.
pub fn verify_storage_id(video: &Video, mounted_id: u128) -> (r: bool)
    ensures
        r == (video.storage_id == mounted_id),
{
    video.storage_id == mounted_id
}

pub open spec fn find_code(e: FindStatusError) -> Code {
    match e {
        FindStatusError::Unavailable(_) => Code::Unavailable,
        FindStatusError::NotFound => Code::NotFound,
        FindStatusError::IoError(_) | FindStatusError::ReadError(_) => Code::Aborted,
    }
}

/// The answer to a download whose backend could not open the video.
pub fn find_status(e: FindStatusError) -> (r: Status)
    ensures
        r.code == find_code(e),
{
    match e {
        FindStatusError::Unavailable(u) => Status { code: Code::Unavailable, message: u.reason },
        FindStatusError::NotFound => Status {
            code: Code::NotFound,
            message: String::from_str("Video not found"),
        },
        FindStatusError::IoError(m) => Status { code: Code::Aborted, message: m },
        FindStatusError::ReadError(m) => Status { code: Code::Aborted, message: m },
    }
}

/// The answer to an upload whose backend could not open a writer: the upload is aborted.
pub fn create_status(e: CreateError) -> (r: Status)
    ensures
        r.code == Code::Aborted,
{
    match e {
        CreateError::Unavailable(u) => Status { code: Code::Aborted, message: u.reason },
        CreateError::CantCreateDirectory => Status {
            code: Code::Aborted,
            message: String::from_str("Can't create video directory"),
        },
        CreateError::MetadataBackupFailed(m) => Status { code: Code::Aborted, message: m },
    }
}

} // verus!
