//! Request handling of the program service: envelopes are checked, the catalog consulted or
//! changed, and domain errors mapped to status codes.
use vstd::prelude::*;
use crate::model::{metadata_entry, missing_field, program_projects, MessageConversionError, Program, ProgramKey, Video};
use crate::store::incoming_key;
use crate::store::{
    has_key, lookup, lookup_video, listed, is_video_of, lemma_lookup_video_at, FindOrCreateNotice,
    MetadataWriteError, ProgramStore,
};
use crate::validator::{
    validate_metadata_key, validate_metadata_value, validate_program_id, validate_service,
    valid_channel, MAX_METADATA_KEY_BYTES, MAX_METADATA_VALUE_BYTES,
};
use crate::wire;

verus! {

/// The status codes the services answer with.
#[derive(Clone, Copy, Debug, PartialEq, Eq, Structural)]
pub enum Code {
    InvalidArgument,
    NotFound,
    FailedPrecondition,
    Unavailable,
    Aborted,
    Internal,
}

#[derive(Debug)]
pub struct Status {
    pub code: Code,
    pub message: String,
}

pub fn status(code: Code, message: &str) -> (r: Status)
    ensures
        r.code == code,
        r.message@ == message@,
{
    Status { code, message: String::from_str(message) }
}

fn prefixed(prefix: &str, message: &str) -> (r: String)
    ensures
        r@ == prefix@ + message@,
{
    let mut m = String::from_str(prefix);
    m.append(message);
    m
}

/// A valid program identity, or the status to answer with.
pub open spec fn identity_ok(id: Option<wire::ProgramIdentity>) -> bool {
    id matches Some(i) && i.service_id != 0 && i.event_id != 0 && i.start_at is Some
}

/// The key a valid identity names.
pub open spec fn identity_key(i: wire::ProgramIdentity) -> ProgramKey {
    ProgramKey {
        start_at: i.start_at->0,
        network_id: i.network_id as u16,
        service_id: i.service_id as u16,
        event_id: i.event_id as u16,
    }
}

/// Checks a program identity; a missing one is an invalid argument, a malformed one is
/// answered with `violation`.
pub fn check_program_id(id: &Option<wire::ProgramIdentity>, violation: Code) -> (r: Result<
    ProgramKey,
    Status,
>)
    ensures
        r is Ok <==> identity_ok(*id),
        r matches Ok(k) ==> k == identity_key(id->0),
        r matches Err(s) ==> s.code == (if id is None {
            Code::InvalidArgument
        } else {
            violation
        }),
{
    match id {
        None => Err(status(Code::InvalidArgument, "Missing value: program_id")),
        Some(i) => match validate_program_id(i) {
            Ok(()) => Ok(ProgramKey::from_program_id(i).unwrap()),
            Err(msg) => Err(
                Status {
                    code: violation,
                    message: prefixed("Violation in program_id => ", msg.as_str()),
                },
            ),
        },
    }
}

/// The first video among `vs` that has a thumbnail.
pub open spec fn first_thumbnail(vs: Seq<Option<Video>>) -> Option<Video>
    decreases vs.len(),
{
    if vs.len() == 0 {
        None
    } else {
        match vs[0] {
            Some(v) if v.thumbnail@.len() > 0 => Some(v),
            _ => first_thumbnail(vs.drop_first()),
        }
    }
}

/// The videos a program lists, as the catalog holds them.
pub open spec fn listed_videos(vs: Seq<Video>, p: Program) -> Seq<Option<Video>> {
    Seq::new(p.video_ids@.len() as nat, |i: int| lookup_video(vs, p.video_ids@[i]))
}

/// `xp` is the wire form of `p`, carrying the thumbnail of the first of its videos that has one.
pub open spec fn answers_with(xp: wire::Program, vs: Seq<Video>, p: Program) -> bool {
    &&& program_projects(xp, p)
    &&& match first_thumbnail(listed_videos(vs, p)) {
        Some(v) => xp.thumbnail@ == v.thumbnail@ && (v.thumbnail_mime_type matches Some(m)
            ==> xp.thumbnail_mime_type@ == m@),
        None => xp.thumbnail@.len() == 0,
    }
}

/// The wire form of a program, carrying the thumbnail of the first of its videos that has one.
pub fn program_with_thumbnail(store: &ProgramStore, p: &Program) -> (r: wire::Program)
    requires
        store.wf(),
    ensures
        answers_with(r, store.video_seq(), *p),
{
    let mut xp = p.exchangeable();
    let videos = store.find_videos(&p.video_ids);
    let ghost listed = listed_videos(store.video_seq(), *p);
    assert(listed.subrange(0, listed.len() as int) =~= listed);
    let mut i: usize = 0;
    while i < videos.len()
        invariant
            i <= videos.len(),
            videos@.len() == p.video_ids@.len(),
            forall|j: int|
                0 <= j < p.video_ids@.len() ==> match #[trigger] videos@[j] {
                    Some(v) => lookup_video(store.video_seq(), p.video_ids@[j]) == Some(*v),
                    None => lookup_video(store.video_seq(), p.video_ids@[j]) is None,
                },
            first_thumbnail(listed) == first_thumbnail(listed.subrange(i as int, listed.len() as int)),
            xp.thumbnail@.len() == 0,
            program_projects(xp, *p),
            listed.len() == videos@.len(),
            listed == listed_videos(store.video_seq(), *p),
        decreases videos.len() - i,
    {
        let ghost rest = listed.subrange(i as int, listed.len() as int);
        proof {
            assert(rest.drop_first() =~= listed.subrange(i + 1, listed.len() as int));
            assert(rest[0] == listed[i as int]);
            assert(listed[i as int] == lookup_video(store.video_seq(), p.video_ids@[i as int]));
        }
        match videos[i] {
            Some(v) => {
                if v.thumbnail.len() > 0 {
                    xp.thumbnail = v.thumbnail.clone();
                    proof {
                        assert(xp.thumbnail@ =~= v.thumbnail@);
                    }
                    match &v.thumbnail_mime_type {
                        Some(m) => {
                            xp.thumbnail_mime_type = m.clone();
                        },
                        None => {},
                    }
                    return xp;
                }
            },
            None => {},
        }
        i += 1;
    }
    proof {
        assert(listed.subrange(i as int, listed.len() as int).len() == 0);
    }
    xp
}

/// Answers a request for one program.
pub fn get_program(store: &ProgramStore, program_id: &Option<wire::ProgramIdentity>) -> (r: Result<
    wire::Program,
    Status,
>)
    requires
        store.wf(),
    ensures
        r is Ok <==> identity_ok(*program_id) && has_key(
            store.program_seq(),
            identity_key(program_id->0),
        ),
        r matches Err(s) ==> s.code == (if identity_ok(*program_id) {
            Code::NotFound
        } else {
            Code::InvalidArgument
        }),
        r matches Ok(xp) ==> answers_with(
            xp,
            store.video_seq(),
            lookup(store.program_seq(), identity_key(program_id->0))->0,
        ),
{
    let key = match check_program_id(program_id, Code::InvalidArgument) {
        Ok(k) => k,
        Err(s) => return Err(s),
    };
    match store.find(&key) {
        Some(p) => Ok(program_with_thumbnail(store, p)),
        None => Err(status(Code::NotFound, "Program not found")),
    }
}

/// Answers a request for all programs, ascending by key.
pub fn list_programs(store: &ProgramStore) -> (r: Vec<wire::Program>)
    requires
        store.wf(),
    ensures
        r@.len() == store.program_seq().len(),
        forall|i: int|
            0 <= i < r@.len() ==> answers_with(
                #[trigger] r@[i],
                store.video_seq(),
                store.program_seq()[i],
            ),
{
    let programs = store.all();
    let mut r: Vec<wire::Program> = Vec::new();
    let mut i: usize = 0;
    while i < programs.len()
        invariant
            store.wf(),
            programs@ == store.program_seq(),
            i <= programs.len(),
            r@.len() == i,
            forall|j: int|
                0 <= j < i ==> answers_with(#[trigger] r@[j], store.video_seq(), programs@[j]),
        decreases programs.len() - i,
    {
        r.push(program_with_thumbnail(store, &programs[i]));
        i += 1;
    }
    r
}

/// What a create-program request must hold before the catalog is asked.
pub open spec fn program_request_ok(program: Option<wire::Program>) -> bool {
    program matches Some(p) && p.service_id != 0 && p.event_id != 0 && p.start_at is Some
        && p.name@.len() > 0 && (p.service matches Some(s) ==> s.service_id != 0 && (
    s.channel matches Some(c) ==> valid_channel(c)))
}

/// Answers a request to file a program; `id` is the identifier a new program gets.
pub fn create_program(store: &mut ProgramStore, program: Option<wire::Program>, id: u128) -> (r:
    Result<(FindOrCreateNotice, wire::Program), Status>)
    requires
        old(store).wf(),
    ensures
        final(store).wf(),
        r is Ok <==> program_request_ok(program) && missing_field(program->0) is None,
        r matches Err(s) ==> s.code == Code::InvalidArgument,
        r is Err ==> final(store).program_seq() == old(store).program_seq(),
        r matches Ok((notice, xp)) ==> {
            let k = incoming_key(program->0);
            &&& (notice == FindOrCreateNotice::Created <==> !has_key(old(store).program_seq(), k))
            &&& notice == FindOrCreateNotice::AlreadyExists ==> final(store).program_seq()
                == old(store).program_seq()
            &&& notice == FindOrCreateNotice::Created ==> (lookup(final(store).program_seq(), k)
                matches Some(sp) && sp.id == id && sp.video_ids@.len() == 0)
            &&& notice == FindOrCreateNotice::Created ==> forall|k2: ProgramKey|
                k2 != k ==> #[trigger] lookup(final(store).program_seq(), k2) == lookup(
                    old(store).program_seq(),
                    k2,
                )
            &&& has_key(final(store).program_seq(), k)
            &&& program_projects(xp, lookup(final(store).program_seq(), k)->0)
            &&& xp.start_at == program->0.start_at
            &&& xp.network_id == program->0.network_id as u16 as u32
            &&& xp.service_id == program->0.service_id as u16 as u32
            &&& xp.event_id == program->0.event_id as u16 as u32
        },
        final(store).video_seq() == old(store).video_seq(),
{
    let p = match program {
        Some(p) => p,
        None => return Err(status(Code::InvalidArgument, "Missing value: program")),
    };
    if p.service_id == 0 {
        return Err(status(Code::InvalidArgument, "Invalid value: service_id"));
    }
    if p.event_id == 0 {
        return Err(status(Code::InvalidArgument, "Invalid value: event_id"));
    }
    if p.start_at.is_none() {
        return Err(status(Code::InvalidArgument, "Missing value: start_at"));
    }
    if p.name.as_str().unicode_len() == 0 {
        return Err(status(Code::InvalidArgument, "Invalid value: name"));
    }
    match &p.service {
        Some(s) => match validate_service(s) {
            Ok(()) => {},
            Err(msg) => {
                return Err(
                    Status {
                        code: Code::InvalidArgument,
                        message: prefixed("Violation in service => ", msg.as_str()),
                    },
                );
            },
        },
        None => {},
    }
    let key = ProgramKey::from_program(&p).unwrap();
    let ghost incoming = p;
    match store.find_or_create(p, id) {
        Ok(notice) => {
            proof {
                assert(key == incoming_key(incoming));
                if notice == FindOrCreateNotice::AlreadyExists {
                    assert(has_key(store.program_seq(), key));
                } else {
                    assert(lookup(store.program_seq(), key) is Some);
                }
            }
            match store.find(&key) {
                Some(sp) => Ok((notice, sp.exchangeable())),
                None => Err(status(Code::Internal, "Program vanished")),
            }
        },
        Err(MessageConversionError::MissingRequiredField(f)) => Err(
            Status {
                code: Code::InvalidArgument,
                message: prefixed("Missing required field: ", f.as_str()),
            },
        ),
    }
}

/// Answers a request for one metadata entry of a program; an absent entry reads as empty.
pub fn get_program_metadata(
    store: &ProgramStore,
    program_id: &Option<wire::ProgramIdentity>,
    key: &str,
) -> (r: Result<String, Status>)
    requires
        store.wf(),
    ensures
        r is Ok <==> identity_ok(*program_id) && key@.len() > 0 && key.len()
            <= MAX_METADATA_KEY_BYTES && has_key(store.program_seq(), identity_key(program_id->0)),
        r matches Ok(v) ==> v@ == match metadata_entry(
            lookup(store.program_seq(), identity_key(program_id->0))->0.metadata@,
            key@,
        ) {
            Some(value) => value,
            None => Seq::empty(),
        },
        r matches Err(s) ==> s.code == (if identity_ok(*program_id) && key@.len() > 0 && key.len()
            <= MAX_METADATA_KEY_BYTES {
            Code::NotFound
        } else {
            Code::InvalidArgument
        }),
{
    let pk = match check_program_id(program_id, Code::InvalidArgument) {
        Ok(k) => k,
        Err(s) => return Err(s),
    };
    match validate_metadata_key(key) {
        Ok(()) => {},
        Err(m) => return Err(Status { code: Code::InvalidArgument, message: m }),
    }
    match store.find(&pk) {
        Some(p) => {
            proof {
                let ps = store.program_seq();
                let i = choose|i: int| 0 <= i < ps.len() && #[trigger] ps[i].key() == pk;
                assert(crate::store::metadata_unique(ps));
                assert(crate::model::unique_keys(ps[i].metadata@));
            }
            match p.metadata_get(key) {
                Some(v) => Ok(v.clone()),
                None => Ok(String::new()),
            }
        },
        None => Err(status(Code::NotFound, "Program not found")),
    }
}

/// Answers a request to set one metadata entry of a program. A missing or malformed identity,
/// an empty or oversized key and an oversized value are invalid arguments.
pub fn update_program_metadata(
    store: &mut ProgramStore,
    program_id: &Option<wire::ProgramIdentity>,
    key: &str,
    value: &str,
) -> (r: Result<(), Status>)
    requires
        old(store).wf(),
    ensures
        final(store).wf(),
        final(store).video_seq() == old(store).video_seq(),
        r is Ok <==> identity_ok(*program_id) && key@.len() > 0 && key.len()
            <= MAX_METADATA_KEY_BYTES && value.len() <= MAX_METADATA_VALUE_BYTES && has_key(
            old(store).program_seq(),
            identity_key(program_id->0),
        ),
        r is Ok ==> crate::store::metadata_written(
            old(store).program_seq(),
            final(store).program_seq(),
            identity_key(program_id->0),
            key@,
            value@,
        ),
        r is Err ==> final(store).program_seq() == old(store).program_seq(),
        r matches Err(s) ==> s.code == (if !identity_ok(*program_id) {
            Code::InvalidArgument
        } else if key@.len() > 0 && key.len() <= MAX_METADATA_KEY_BYTES && value.len()
            <= MAX_METADATA_VALUE_BYTES {
            Code::NotFound
        } else {
            Code::InvalidArgument
        }),
{
    let pk = match check_program_id(program_id, Code::InvalidArgument) {
        Ok(k) => k,
        Err(s) => return Err(s),
    };
    match validate_metadata_key(key) {
        Ok(()) => {},
        Err(m) => return Err(Status { code: Code::InvalidArgument, message: m }),
    }
    match validate_metadata_value(value) {
        Ok(()) => {},
        Err(m) => return Err(Status { code: Code::InvalidArgument, message: m }),
    }
    match store.update_program_metadata(&pk, String::from_str(key), String::from_str(value)) {
        Ok(()) => Ok(()),
        Err(MetadataWriteError::ProgramNotFound(_)) => Err(
            status(Code::NotFound, "Program not found"),
        ),
    }
}

/// Answers a request for the videos of a program, in the order the program lists them.
pub fn list_videos_by_program(store: &ProgramStore, program_id: &Option<wire::ProgramIdentity>) -> (r:
    Result<Vec<wire::Video>, Status>)
    requires
        store.wf(),
    ensures
        r is Ok <==> identity_ok(*program_id) && has_key(
            store.program_seq(),
            identity_key(program_id->0),
        ),
        r matches Ok(vs) ==> {
            let p = lookup(store.program_seq(), identity_key(program_id->0))->0;
            &&& vs@.len() == p.video_ids@.len()
            &&& forall|i: int|
                0 <= i < vs@.len() ==> (#[trigger] vs@[i]).video_id == p.video_ids@[i]
                    && lookup_video(store.video_seq(), p.video_ids@[i]) is Some
                    && vs@[i].total_length == lookup_video(store.video_seq(), p.video_ids@[i])->0.total_length
                    && vs@[i].provider_id@ == lookup_video(store.video_seq(), p.video_ids@[i])->0.provider_id@
        },
        r matches Err(s) ==> s.code == (if identity_ok(*program_id) {
            Code::NotFound
        } else {
            Code::InvalidArgument
        }),
{
    let pk = match check_program_id(program_id, Code::InvalidArgument) {
        Ok(k) => k,
        Err(s) => return Err(s),
    };
    let p = match store.find(&pk) {
        Some(p) => p,
        None => return Err(status(Code::NotFound, "Program not found")),
    };
    let ghost vs = store.video_seq();
    let ghost ps = store.program_seq();
    proof {
        let i = choose|i: int| 0 <= i < ps.len() && #[trigger] ps[i].key() == pk;
        assert(*p == ps[i]);
        assert forall|j: int| 0 <= j < p.video_ids@.len() implies #[trigger] lookup_video(
            vs,
            p.video_ids@[j],
        ) is Some by {
            assert(listed(vs, ps[i], ps[i].video_ids@[j]));
            let k = choose|k: int| #[trigger] is_video_of(vs, k, ps[i], ps[i].video_ids@[j]);
            lemma_lookup_video_at(vs, k);
        }
    }
    let found = store.find_videos(&p.video_ids);
    let mut r: Vec<wire::Video> = Vec::new();
    let mut i: usize = 0;
    while i < found.len()
        invariant
            i <= found.len(),
            found@.len() == p.video_ids@.len(),
            forall|j: int|
                0 <= j < p.video_ids@.len() ==> match #[trigger] found@[j] {
                    Some(v) => lookup_video(vs, p.video_ids@[j]) == Some(*v),
                    None => lookup_video(vs, p.video_ids@[j]) is None,
                },
            forall|j: int| 0 <= j < p.video_ids@.len() ==> #[trigger] lookup_video(vs, p.video_ids@[j]) is Some,
            forall|j: int| 0 <= j < vs.len() ==> (#[trigger] vs[j]).id == vs[j].id,
            r@.len() == i,
            forall|j: int|
                0 <= j < i ==> (#[trigger] r@[j]).video_id == p.video_ids@[j]
                    && lookup_video(vs, p.video_ids@[j]) is Some
                    && r@[j].total_length == lookup_video(vs, p.video_ids@[j])->0.total_length
                    && r@[j].provider_id@ == lookup_video(vs, p.video_ids@[j])->0.provider_id@,
        decreases found.len() - i,
    {
        assert(lookup_video(vs, p.video_ids@[i as int]) is Some);
        match found[i] {
            Some(v) => {
                proof {
                    let id = p.video_ids@[i as int];
                    assert(crate::store::has_video(vs, id));
                    let k = choose|k: int| 0 <= k < vs.len() && #[trigger] vs[k].id == id;
                    assert(v.id == id);
                }
                r.push(v.exchangeable());
            },
            None => {
                assert(false);
            },
        }
        i += 1;
    }
    Ok(r)
}

} // verus!
