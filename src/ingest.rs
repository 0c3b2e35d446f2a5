//! The streaming upload and download of videos: the decisions of each step, which the
//! transport drives.
use vstd::prelude::*;
use crate::config::{PrefixRule, StorageRule};
use crate::model::{ProgramKey, Video};
use crate::placement::{
    find_prefix_by_rule, find_storage_by_id, find_storage_by_rule, lemma_placement_blind,
    placement, prefix_for, Mounted,
};
use crate::service::{check_program_id, identity_key, identity_ok, status, Code, Status};
use crate::store::{
    has_key, has_video, lookup, lookup_video, provider_taken, video_created, ProgramStore,
    VideoWriteError,
};
use crate::validator::{valid_file_name, validate_file_name};
use crate::wire;

verus! {

/// Largest payload of one datagram: 1 MiB.
pub const MAX_DATAGRAM_BYTES: usize = 1048576;

/// The essence (`type/subtype`) of a MIME type, when the text is one.
pub uninterp spec fn mime_essence(s: Seq<char>) -> Option<Seq<char>>;

/// Relies on `FromStr` for `mime::Mime`, which accepts exactly the well-formed media types,
/// and `Mime::essence_str`, the type and subtype without parameters; both depend on the text
/// alone.
#[verifier::external_body]
fn parse_mime(s: &str) -> (r: Option<String>)
    ensures
        match r {
            Some(e) => mime_essence(s@) == Some(e@),
            None => mime_essence(s@) is None,
        },
{
    match s.parse::<mime::Mime>() {
        Ok(m) => Some(m.essence_str().to_string()),
        Err(_) => None,
    }
}

/// An upload whose header was accepted: the record to file when the stream ends, the backend
/// its bytes go to, and how many bytes have arrived.
pub struct Upload {
    pub key: ProgramKey,
    pub video: Video,
    pub storage_index: usize,
    pub written: u64,
    /// Payload lengths of the datagrams accepted so far, in order.
    pub received: Ghost<Seq<nat>>,
}

/// The sum of `lengths`.
pub open spec fn total_length(lengths: Seq<nat>) -> nat
    decreases lengths.len(),
{
    if lengths.len() == 0 {
        0
    } else {
        total_length(lengths.drop_last()) + lengths.last()
    }
}

/// What an accepted header makes of the upload.
pub open spec fn upload_begun(
    u: Upload,
    ps: Seq<crate::model::Program>,
    header: wire::VideoHeader,
    video_id: u128,
    storage_rules: Seq<StorageRule>,
    prefix_rules: Seq<PrefixRule>,
    mounted: Seq<Mounted>,
    local: Option<i64>,
) -> bool {
    let p = lookup(ps, u.key)->0;
    &&& u.key == identity_key(header.program_id->0)
    &&& u.written == 0
    &&& u.received@ == Seq::<nat>::empty()
    &&& u.video.id == video_id
    &&& u.video.program_id == p.id
    &&& u.video.provider_id@ == header.provider_id@
    &&& u.video.total_length == header.total_length
    &&& u.video.file_name@ == header.file_name@
    &&& u.video.original_file_name@ == header.file_name@
    &&& Some(u.video.mime_type@) == mime_essence(header.mime_type@)
    &&& u.video.thumbnail@.len() == 0
    &&& u.video.thumbnail_mime_type is None
    &&& u.storage_index == placement(storage_rules, mounted, p, u.video, local)
    &&& mounted[u.storage_index as int].storage_id == Some(u.video.storage_id)
    &&& u.video.storage_prefix@ == prefix_for(prefix_rules, p, u.video, local)
}

/// Whether the catalog can file `video` under `key`: the program exists, has no video from
/// that provider, and the identifier is free.
pub open spec fn finish_acceptable(
    ps: Seq<crate::model::Program>,
    vs: Seq<Video>,
    key: ProgramKey,
    video: Video,
) -> bool {
    &&& has_key(ps, key)
    &&& !provider_taken(vs, lookup(ps, key)->0, video.provider_id@)
    &&& !has_video(vs, video.id)
}

/// `v` carries what the header says of the video that conditions can read: its length, its
/// provider and the essence of its MIME type.
pub open spec fn described_by(v: Video, header: wire::VideoHeader) -> bool {
    &&& v.total_length == header.total_length
    &&& v.provider_id@ == header.provider_id@
    &&& Some(v.mime_type@) == mime_essence(header.mime_type@)
}

/// Whether a header can begin an upload, before placement is consulted.
pub open spec fn header_acceptable(ps: Seq<crate::model::Program>, vs: Seq<Video>, header: wire::VideoHeader) -> bool {
    &&& identity_ok(header.program_id)
    &&& has_key(ps, identity_key(header.program_id->0))
    &&& valid_file_name(header.file_name@)
    &&& mime_essence(header.mime_type@) is Some
    &&& !provider_taken(vs, lookup(ps, identity_key(header.program_id->0))->0, header.provider_id@)
}

/// Accepts the header of an upload: the program must exist, the file name be a single
/// component, the MIME type well formed, and the provider new to the program. The video is
/// placed by the storage and prefix rules; `video_id` is the identifier it gets, and `local`
/// the program's start on the local wall clock.
pub fn begin_upload(
    store: &ProgramStore,
    header: &wire::VideoHeader,
    video_id: u128,
    storage_rules: &Vec<StorageRule>,
    prefix_rules: &Vec<PrefixRule>,
    mounted: &Vec<Mounted>,
    local: Option<i64>,
) -> (r: Result<Upload, Status>)
    requires
        store.wf(),
        mounted@.len() > 0,
    ensures
        r is Ok ==> header_acceptable(store.program_seq(), store.video_seq(), *header),
        r matches Ok(u) ==> upload_begun(
            u,
            store.program_seq(),
            *header,
            video_id,
            storage_rules@,
            prefix_rules@,
            mounted@,
            local,
        ),
        !header_acceptable(store.program_seq(), store.video_seq(), *header) ==> r is Err,
        header_acceptable(store.program_seq(), store.video_seq(), *header) ==> forall|v: Video|
            described_by(v, *header) && (#[trigger] mounted@[placement(
                storage_rules@,
                mounted@,
                lookup(store.program_seq(), identity_key(header.program_id->0))->0,
                v,
                local,
            ) as int]).storage_id is Some ==> r is Ok,
        r matches Err(s) ==> s.code == (if !identity_ok(header.program_id) {
            Code::InvalidArgument
        } else if !has_key(store.program_seq(), identity_key(header.program_id->0)) {
            Code::NotFound
        } else if !header_acceptable(store.program_seq(), store.video_seq(), *header) {
            Code::InvalidArgument
        } else {
            Code::Aborted
        }),
{
    let key = match check_program_id(&header.program_id, Code::InvalidArgument) {
        Ok(k) => k,
        Err(s) => return Err(s),
    };
    let program = match store.find(&key) {
        Some(p) => p,
        None => return Err(status(Code::NotFound, "Program not found")),
    };
    match validate_file_name(header.file_name.as_str()) {
        Ok(()) => {},
        Err(m) => return Err(Status { code: Code::InvalidArgument, message: m }),
    }
    let essence = match parse_mime(header.mime_type.as_str()) {
        Some(e) => e,
        None => return Err(status(Code::InvalidArgument, "Invalid value: mime_type")),
    };
    if store.provider_used(&key, &header.provider_id) {
        let mut m = String::from_str("Provider ID `");
        m.append(header.provider_id.as_str());
        m.append("` already exists");
        return Err(Status { code: Code::InvalidArgument, message: m });
    }
    let mut video = Video::from_exchanged(program, header, video_id);
    video.mime_type = essence;
    let index = find_storage_by_rule(storage_rules, mounted, program, &video, local);
    let storage_id = match mounted[index].storage_id {
        Some(id) => id,
        None => {
            proof {
                assert forall|v: Video| described_by(v, *header) implies placement(
                    storage_rules@,
                    mounted@,
                    *program,
                    v,
                    local,
                ) == index by {
                    lemma_placement_blind(storage_rules@, prefix_rules@, mounted@, *program, v, video, local);
                }
            }
            return Err(status(Code::Aborted, "Target storage is unavailable now"));
        },
    };
    let ghost unplaced = video;
    video.storage_id = storage_id;
    let prefix = find_prefix_by_rule(prefix_rules, program, &video, local);
    let ghost with_id = video;
    video.storage_prefix = prefix;
    proof {
        lemma_placement_blind(storage_rules@, prefix_rules@, mounted@, *program, unplaced, video, local);
        lemma_placement_blind(storage_rules@, prefix_rules@, mounted@, *program, with_id, video, local);
    }
    Ok(Upload { key, video, storage_index: index, written: 0, received: Ghost(Seq::empty()) })
}

impl Upload {
    /// Accepts a datagram of `len` bytes at `offset`. A datagram that starts before the bytes
    /// already received is refused.
    pub fn accept(&mut self, offset: u64, len: usize) -> (r: Result<(), Status>)
        ensures
            r is Ok <==> offset >= old(self).written && old(self).written + len <= u64::MAX,
            r is Ok ==> final(self).written == old(self).written + len && final(self).received@
                == old(self).received@.push(len as nat),
            r is Err ==> final(self).written == old(self).written && final(self).received@
                == old(self).received@ && r->Err_0.code == Code::InvalidArgument,
            old(self).written == total_length(old(self).received@) ==> final(self).written
                == total_length(final(self).received@),
            final(self).key == old(self).key,
            final(self).video == old(self).video,
            final(self).storage_index == old(self).storage_index,
    {
        if offset < self.written {
            return Err(status(Code::InvalidArgument, "Invalid offset: already received"));
        }
        if len as u64 > u64::MAX - self.written {
            return Err(status(Code::InvalidArgument, "Invalid offset: stream too long"));
        }
        self.written = self.written + len as u64;
        self.received = Ghost(self.received@.push(len as nat));
        proof {
            assert(self.received@.drop_last() =~= old(self).received@);
        }
        Ok(())
    }

    /// Ends the upload: the bytes received must number what the header declared, and the video
    /// is filed in the catalog. Returns the filed video's wire form.
    pub fn finish(self, store: &mut ProgramStore) -> (r: Result<wire::Video, Status>)
        requires
            old(store).wf(),
        ensures
            final(store).wf(),
            r is Ok <==> self.written == self.video.total_length && finish_acceptable(
                old(store).program_seq(),
                old(store).video_seq(),
                self.key,
                self.video,
            ),
            r is Ok ==> self.written == self.video.total_length && video_created(
                old(store).program_seq(),
                old(store).video_seq(),
                final(store).program_seq(),
                final(store).video_seq(),
                self.key,
                self.video,
            ),
            r matches Ok(xv) ==> xv.video_id == self.video.id && xv.total_length
                == self.video.total_length && xv.total_length == self.written && (self.written
                == total_length(self.received@) ==> xv.total_length == total_length(
                self.received@,
            )) && xv.storage_id
                == self.video.storage_id && xv.provider_id@ == self.video.provider_id@
                && xv.prefix@ == self.video.storage_prefix@ && xv.file_name@
                == self.video.file_name@ && xv.mime_type@ == self.video.mime_type@,
            r matches Err(s) ==> s.code == (if self.written != self.video.total_length {
                Code::InvalidArgument
            } else if !has_key(old(store).program_seq(), self.key) {
                Code::NotFound
            } else if provider_taken(
                old(store).video_seq(),
                lookup(old(store).program_seq(), self.key)->0,
                self.video.provider_id@,
            ) {
                Code::InvalidArgument
            } else {
                Code::Aborted
            }),
            r is Err ==> final(store).program_seq() == old(store).program_seq()
                && final(store).video_seq() == old(store).video_seq(),
            self.written != self.video.total_length ==> r is Err && r->Err_0.code
                == Code::InvalidArgument,
    {
        if self.written != self.video.total_length {
            return Err(status(Code::InvalidArgument, "Invalid value: total_length"));
        }
        let xv = self.video.exchangeable();
        match store.create_video(&self.key, self.video) {
            Ok(()) => Ok(xv),
            Err(VideoWriteError::ProgramNotFound(_)) => Err(
                status(Code::NotFound, "Program not found"),
            ),
            Err(VideoWriteError::AlreadyExists(p)) => {
                let mut m = String::from_str("Provider ID `");
                m.append(p.as_str());
                m.append("` already exists");
                Err(Status { code: Code::InvalidArgument, message: m })
            },
            Err(VideoWriteError::VideoIdTaken(_)) => Err(
                status(Code::Aborted, "Video ID already taken"),
            ),
        }
    }
}

/// Finds where a download reads from: the index of the mounted backend that holds the video
/// `video_id`. An unknown video is not found; a video whose backend is not mounted is
/// unavailable.
pub fn locate_video(store: &ProgramStore, video_id: u128, mounted: &Vec<Mounted>) -> (r: Result<
    usize,
    Status,
>)
    requires
        store.wf(),
    ensures
        match r {
            Ok(k) => has_video(store.video_seq(), video_id) && k < mounted@.len()
                && mounted@[k as int].storage_id == Some(
                lookup_video(store.video_seq(), video_id)->0.storage_id,
            ),
            Err(s) => if has_video(store.video_seq(), video_id) {
                s.code == Code::Unavailable && forall|j: int|
                    0 <= j < mounted@.len() ==> #[trigger] mounted@[j].storage_id != Some(
                        lookup_video(store.video_seq(), video_id)->0.storage_id,
                    )
            } else {
                s.code == Code::NotFound
            },
        },
{
    let video = match store.find_video(video_id) {
        Some(v) => v,
        None => return Err(status(Code::NotFound, "Video not found")),
    };
    match find_storage_by_id(mounted, video.storage_id) {
        Some(k) => Ok(k),
        None => Err(
            status(Code::Unavailable, "Target storage is temporarily unavailable or not found"),
        ),
    }
}

/// The payloads of `ds`, one after another.
pub open spec fn concat_payloads(ds: Seq<wire::Datagram>) -> Seq<u8>
    decreases ds.len(),
{
    if ds.len() == 0 {
        Seq::empty()
    } else {
        concat_payloads(ds.drop_last()) + ds.last().payload@
    }
}

/// Each datagram starts where the ones before it end, and carries 1 to `max` bytes.
pub open spec fn well_framed(ds: Seq<wire::Datagram>, max: nat) -> bool {
    forall|i: int|
        0 <= i < ds.len() ==> (#[trigger] ds[i]).offset == concat_payloads(ds.take(i)).len() && 0
            < ds[i].payload@.len() <= max
}

fn copy_bytes(data: &Vec<u8>, a: usize, b: usize) -> (r: Vec<u8>)
    requires
        a <= b <= data.len(),
    ensures
        r@ == data@.subrange(a as int, b as int),
{
    let mut r: Vec<u8> = Vec::new();
    let mut i: usize = a;
    while i < b
        invariant
            a <= i <= b,
            b <= data.len(),
            r@ == data@.subrange(a as int, i as int),
        decreases b - i,
    {
        r.push(data[i]);
        i += 1;
        assert(r@ =~= data@.subrange(a as int, i as int));
    }
    r
}

proof fn lemma_push_framed(before: Seq<wire::Datagram>, d: wire::Datagram, max: nat)
    requires
        well_framed(before, max),
        d.offset == concat_payloads(before).len(),
        0 < d.payload@.len() <= max,
    ensures
        well_framed(before.push(d), max),
        concat_payloads(before.push(d)) == concat_payloads(before) + d.payload@,
{
    let after = before.push(d);
    assert(after.drop_last() =~= before);
    assert forall|i: int| 0 <= i < after.len() implies (#[trigger] after[i]).offset
        == concat_payloads(after.take(i)).len() && 0 < after[i].payload@.len() <= max by {
        if i < before.len() {
            assert(after.take(i) =~= before.take(i));
        } else {
            assert(after.take(i) =~= before);
        }
    }
}

proof fn lemma_framed_length(ds: Seq<wire::Datagram>, i: int, j: int)
    requires
        0 <= i <= j <= ds.len(),
    ensures
        concat_payloads(ds.take(i)).len() <= concat_payloads(ds.take(j)).len(),
    decreases j - i,
{
    if i < j {
        lemma_framed_length(ds, i, j - 1);
        assert(ds.take(j).drop_last() =~= ds.take(j - 1));
    }
}

/// In a well-framed stream the first datagram starts at offset 0 and offsets never decrease.
pub proof fn lemma_offsets_ascend(ds: Seq<wire::Datagram>, max: nat)
    requires
        well_framed(ds, max),
    ensures
        ds.len() > 0 ==> ds[0].offset == 0,
        forall|i: int, j: int| 0 <= i <= j < ds.len() ==> #[trigger] ds[i].offset <= #[trigger] ds[j].offset,
{
    if ds.len() > 0 {
        assert(ds.take(0) =~= Seq::<wire::Datagram>::empty());
        assert(ds[0].offset == concat_payloads(ds.take(0)).len());
    }
    assert forall|i: int, j: int| 0 <= i <= j < ds.len() implies #[trigger] ds[i].offset <= #[trigger] ds[j].offset by {
        lemma_framed_length(ds, i, j);
        assert(ds[i].offset == concat_payloads(ds.take(i)).len());
        assert(ds[j].offset == concat_payloads(ds.take(j)).len());
    }
}

/// Cuts `data` into datagrams of at most `max` bytes, in order.
pub fn split_into_datagrams(data: &Vec<u8>, max: usize) -> (r: Vec<wire::Datagram>)
    requires
        max > 0,
        data@.len() <= u64::MAX,
    ensures
        concat_payloads(r@) == data@,
        well_framed(r@, max as nat),
{
    let mut r: Vec<wire::Datagram> = Vec::new();
    let mut sent: usize = 0;
    while sent < data.len()
        invariant
            max > 0,
            data@.len() <= u64::MAX,
            sent <= data.len(),
            concat_payloads(r@) == data@.subrange(0, sent as int),
            well_framed(r@, max as nat),
        decreases data.len() - sent,
    {
        let end = if data.len() - sent > max {
            sent + max
        } else {
            data.len()
        };
        let payload = copy_bytes(data, sent, end);
        let ghost before = r@;
        r.push(wire::Datagram { offset: sent as u64, payload });
        proof {
            lemma_push_framed(before, r@.last(), max as nat);
            assert(r@ == before.push(r@.last()));
            assert(concat_payloads(r@) =~= data@.subrange(0, end as int));
        }
        sent = end;
    }
    assert(data@.subrange(0, sent as int) =~= data@);
    r
}

/// The first message of a thumbnail request: a JPEG of 854x480, taken 30 seconds in.
#[derive(Debug)]
pub struct ThumbnailRequest {
    pub total_length: u64,
    pub width: u32,
    pub height: u32,
    pub position: u32,
}

pub fn thumbnail_request(video: &Video) -> (r: ThumbnailRequest)
    ensures
        r.total_length == video.total_length,
        r.width == 854,
        r.height == 480,
        r.position == 30,
{
    ThumbnailRequest { total_length: video.total_length, width: 854, height: 480, position: 30 }
}

/// The MIME type stored with generated thumbnails.
pub fn thumbnail_mime_type() -> (r: String)
    ensures
        r@ == "image/jpeg"@,
{
    String::from_str("image/jpeg")
}

} // verus!
