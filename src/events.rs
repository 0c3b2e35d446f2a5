//! Events raised after a change is committed, and the decisions of their handlers.
use vstd::prelude::*;
use crate::config::Outlet;
use crate::ingest::{thumbnail_mime_type, thumbnail_request, ThumbnailRequest};
use crate::model::ProgramKey;
use crate::placement::{find_storage_by_id, Mounted};
use crate::store::{has_video, lookup_video, ProgramStore, VideoThumbnailUpdateError};

verus! {

/// Capacity of the queue that carries events to their consumer.
pub const EVENT_QUEUE_CAPACITY: usize = 16;

/// A video was filed under a program.
#[derive(Clone, Copy, Debug, PartialEq, Eq, Structural)]
pub struct VideoCreated {
    pub program_key: ProgramKey,
    pub video_id: u128,
}

#[derive(Clone, Copy, Debug, PartialEq, Eq, Structural)]
pub enum Event {
    VideoCreated(VideoCreated),
}

/// What the handler of a created video does next.
#[derive(Debug)]
pub enum ThumbnailPlan {
    /// Nothing: the video is gone, no encoder is configured, or its backend is not mounted.
    Skip,
    /// Stream the video from the backend at `storage_index` to the encoder, `request` first.
    Request { storage_index: usize, request: ThumbnailRequest },
}

/// Decides whether a thumbnail is asked of the encoder for a created video.
pub fn plan_thumbnail(
    store: &ProgramStore,
    outlet: &Outlet,
    mounted: &Vec<Mounted>,
    event: &VideoCreated,
) -> (r: ThumbnailPlan)
    requires
        store.wf(),
    ensures
        match r {
            ThumbnailPlan::Skip => !has_video(store.video_seq(), event.video_id)
                || outlet.encoder_url@.len() == 0 || forall|j: int|
                0 <= j < mounted@.len() ==> #[trigger] mounted@[j].storage_id != Some(
                    lookup_video(store.video_seq(), event.video_id)->0.storage_id,
                ),
            ThumbnailPlan::Request { storage_index, request } => {
                let v = lookup_video(store.video_seq(), event.video_id)->0;
                &&& has_video(store.video_seq(), event.video_id)
                &&& outlet.encoder_url@.len() > 0
                &&& storage_index < mounted@.len()
                &&& mounted@[storage_index as int].storage_id == Some(v.storage_id)
                &&& request.total_length == v.total_length
                &&& request.width == 854 && request.height == 480 && request.position == 30
            },
        },
{
    let video = match store.find_video(event.video_id) {
        Some(v) => v,
        None => return ThumbnailPlan::Skip,
    };
    if outlet.encoder_url().is_none() {
        return ThumbnailPlan::Skip;
    }
    match find_storage_by_id(mounted, video.storage_id) {
        Some(k) => ThumbnailPlan::Request { storage_index: k, request: thumbnail_request(video) },
        None => ThumbnailPlan::Skip,
    }
}

/// Stores the image the encoder returned as the video's JPEG thumbnail.
pub fn store_thumbnail(store: &mut ProgramStore, video_id: u128, image: Vec<u8>) -> (r: Result<
    (),
    VideoThumbnailUpdateError,
>)
    requires
        old(store).wf(),
    ensures
        final(store).wf(),
        final(store).program_seq() == old(store).program_seq(),
        r is Ok <==> has_video(old(store).video_seq(), video_id),
        r is Ok ==> (lookup_video(final(store).video_seq(), video_id) matches Some(v)
            && v.thumbnail@ == image@ && v.thumbnail_mime_type is Some
            && v.thumbnail_mime_type->0@ == "image/jpeg"@),
{
    store.update_video_thumbnail(video_id, image, thumbnail_mime_type())
}

} // verus!
