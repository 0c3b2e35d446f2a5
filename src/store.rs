//! The catalog: programs ordered by their natural key, and the videos they own.
use vstd::prelude::*;
use crate::model::{
    key_lt, lemma_key_lt_total, metadata_entry, unique_keys, missing_field,
    MessageConversionError, Program, ProgramKey, Video,
};
use crate::text::same_text;
use crate::wire;

verus! {

/// Whether `find_or_create` made a new program or found the one already there.
#[derive(Clone, Copy, Debug, PartialEq, Eq, Structural)]
pub enum FindOrCreateNotice {
    Created,
    AlreadyExists,
}

/// The catalog lock was poisoned by a task that failed while holding it.
#[derive(Clone, Copy, Debug, PartialEq, Eq, Structural)]
pub struct MutexPoisonError;

impl MutexPoisonError {
    pub fn message(&self) -> String {
        String::from_str("poisoned lock: another task failed inside")
    }
}

#[derive(Debug, PartialEq, Eq)]
pub enum MetadataWriteError {
    ProgramNotFound(ProgramKey),
}

#[derive(Debug, PartialEq, Eq)]
pub enum VideoWriteError {
    ProgramNotFound(ProgramKey),
    /// The program already owns a video from this provider.
    AlreadyExists(String),
    /// The catalog already holds a video under this identifier.
    VideoIdTaken(u128),
}

#[derive(Debug, PartialEq, Eq)]
pub enum VideoThumbnailUpdateError {
    VideoNotFound(u128),
}

/// Programs strictly ascending by key, hence with distinct keys.
pub open spec fn sorted_by_key(ps: Seq<Program>) -> bool {
    forall|i: int, j: int| 0 <= i < j < ps.len() ==> key_lt(#[trigger] ps[i].key(), #[trigger] ps[j].key())
}

pub open spec fn unique_video_ids(vs: Seq<Video>) -> bool {
    forall|i: int, j: int|
        0 <= i < vs.len() && 0 <= j < vs.len() && i != j ==> #[trigger] vs[i].id != #[trigger] vs[j].id
}

/// No two videos of one program share a provider identifier.
pub open spec fn unique_providers(vs: Seq<Video>) -> bool {
    forall|i: int, j: int|
        0 <= i < vs.len() && 0 <= j < vs.len() && i != j && vs[i].program_id == vs[j].program_id
            ==> #[trigger] vs[i].provider_id@ != #[trigger] vs[j].provider_id@
}

/// The program at `i` is the one `v` names, and it lists `v`.
pub open spec fn owns(ps: Seq<Program>, i: int, v: Video) -> bool {
    0 <= i < ps.len() && ps[i].id == v.program_id && ps[i].video_ids@.contains(v.id)
}

/// Some program lists `v` and is the one `v` names.
pub open spec fn owned(ps: Seq<Program>, v: Video) -> bool {
    exists|i: int| #[trigger] owns(ps, i, v)
}

/// Every video belongs to a program that lists it.
pub open spec fn videos_owned(ps: Seq<Program>, vs: Seq<Video>) -> bool {
    forall|k: int| 0 <= k < vs.len() ==> #[trigger] owned(ps, vs[k])
}

/// The video at `k` has identifier `id` and names the program `p`.
pub open spec fn is_video_of(vs: Seq<Video>, k: int, p: Program, id: u128) -> bool {
    0 <= k < vs.len() && vs[k].id == id && vs[k].program_id == p.id
}

/// Some video has identifier `id` and names the program `p`.
pub open spec fn listed(vs: Seq<Video>, p: Program, id: u128) -> bool {
    exists|k: int| #[trigger] is_video_of(vs, k, p, id)
}

/// Every identifier a program lists is a video of that program.
pub open spec fn listings_resolve(ps: Seq<Program>, vs: Seq<Video>) -> bool {
    forall|i: int, j: int|
        0 <= i < ps.len() && 0 <= j < ps[i].video_ids@.len() ==> #[trigger] listed(
            vs,
            ps[i],
            ps[i].video_ids@[j],
        )
}

pub open spec fn metadata_unique(ps: Seq<Program>) -> bool {
    forall|i: int| 0 <= i < ps.len() ==> unique_keys(#[trigger] ps[i].metadata@)
}

/// The invariants of a catalog.
pub open spec fn catalog_wf(ps: Seq<Program>, vs: Seq<Video>) -> bool {
    &&& sorted_by_key(ps)
    &&& unique_video_ids(vs)
    &&& unique_providers(vs)
    &&& videos_owned(ps, vs)
    &&& listings_resolve(ps, vs)
    &&& metadata_unique(ps)
}

pub open spec fn has_key(ps: Seq<Program>, key: ProgramKey) -> bool {
    exists|i: int| 0 <= i < ps.len() && #[trigger] ps[i].key() == key
}

/// The program filed under `key`.
pub open spec fn lookup(ps: Seq<Program>, key: ProgramKey) -> Option<Program> {
    if has_key(ps, key) {
        Some(ps[choose|i: int| 0 <= i < ps.len() && #[trigger] ps[i].key() == key])
    } else {
        None
    }
}

pub open spec fn has_video(vs: Seq<Video>, id: u128) -> bool {
    exists|k: int| 0 <= k < vs.len() && #[trigger] vs[k].id == id
}

/// The video filed under `id`.
pub open spec fn lookup_video(vs: Seq<Video>, id: u128) -> Option<Video> {
    if has_video(vs, id) {
        Some(vs[choose|k: int| 0 <= k < vs.len() && #[trigger] vs[k].id == id])
    } else {
        None
    }
}

/// Whether the program `p` already owns a video from `provider`.
pub open spec fn provider_taken(vs: Seq<Video>, p: Program, provider: Seq<char>) -> bool {
    exists|k: int| 0 <= k < vs.len() && vs[k].program_id == p.id && #[trigger] vs[k].provider_id@
        == provider
}

pub proof fn lemma_owned_after_insert(ps: Seq<Program>, vs: Seq<Video>, pos: int, p: Program)
    requires
        videos_owned(ps, vs),
        0 <= pos <= ps.len(),
    ensures
        videos_owned(ps.insert(pos, p), vs),
{
    let ps2 = ps.insert(pos, p);
    assert forall|k: int| 0 <= k < vs.len() implies #[trigger] owned(ps2, vs[k]) by {
        assert(owned(ps, vs[k]));
        let i = choose|i: int| #[trigger] owns(ps, i, vs[k]);
        if i < pos {
            assert(owns(ps2, i, vs[k]));
        } else {
            assert(ps2[i + 1] == ps[i]);
            assert(owns(ps2, i + 1, vs[k]));
        }
    }
}

/// `b` is `a` with nothing changed but the videos it lists.
pub open spec fn same_but_video_ids(a: Program, b: Program) -> bool {
    &&& a.id == b.id
    &&& a.key() == b.key()
    &&& a.metadata == b.metadata
    &&& a.name == b.name
    &&& a.description == b.description
    &&& a.extended == b.extended
    &&& a.service == b.service
    &&& a.duration == b.duration
}

/// `b` is `a` with nothing changed but its metadata.
pub open spec fn same_but_metadata(a: Program, b: Program) -> bool {
    &&& a.id == b.id
    &&& a.key() == b.key()
    &&& a.video_ids == b.video_ids
    &&& a.name == b.name
    &&& a.description == b.description
    &&& a.extended == b.extended
    &&& a.service == b.service
    &&& a.duration == b.duration
}

/// `v` as the catalog files it under the program `p`.
pub open spec fn filed_under(v: Video, p: Program) -> Video {
    Video { program_id: p.id, ..v }
}

pub proof fn lemma_add_video(ps: Seq<Program>, vs: Seq<Video>, i: int, p2: Program, v: Video)
    requires
        catalog_wf(ps, vs),
        0 <= i < ps.len(),
        same_but_video_ids(ps[i], p2),
        p2.video_ids@ == ps[i].video_ids@.push(v.id),
        v.program_id == ps[i].id,
        !provider_taken(vs, ps[i], v.provider_id@),
        !has_video(vs, v.id),
    ensures
        catalog_wf(ps.update(i, p2), vs.push(v)),
{
    let ps2 = ps.update(i, p2);
    let vs2 = vs.push(v);
    assert forall|a: int, b: int| 0 <= a < b < ps2.len() implies key_lt(
        #[trigger] ps2[a].key(),
        #[trigger] ps2[b].key(),
    ) by {
        assert(key_lt(ps[a].key(), ps[b].key()));
    }
    assert forall|a: int, b: int|
        0 <= a < vs2.len() && 0 <= b < vs2.len() && a != b implies #[trigger] vs2[a].id
        != #[trigger] vs2[b].id by {
        if a == vs.len() {
            assert(!(vs[b].id == v.id));
        } else if b == vs.len() {
            assert(!(vs[a].id == v.id));
        }
    }
    assert forall|a: int, b: int|
        0 <= a < vs2.len() && 0 <= b < vs2.len() && a != b && vs2[a].program_id
            == vs2[b].program_id implies #[trigger] vs2[a].provider_id@
        != #[trigger] vs2[b].provider_id@ by {
        if a == vs.len() {
            assert(!(vs[b].program_id == ps[i].id && vs[b].provider_id@ == v.provider_id@));
        } else if b == vs.len() {
            assert(!(vs[a].program_id == ps[i].id && vs[a].provider_id@ == v.provider_id@));
        }
    }
    assert forall|k: int| 0 <= k < vs2.len() implies #[trigger] owned(ps2, vs2[k]) by {
        if k == vs.len() {
            assert(ps2[i].video_ids@[ps[i].video_ids@.len() as int] == v.id);
            assert(owns(ps2, i, vs2[k]));
        } else {
            assert(owned(ps, vs[k]));
            let w = choose|w: int| #[trigger] owns(ps, w, vs[k]);
            if w == i {
                let n = choose|n: int| 0 <= n < ps[i].video_ids@.len() && ps[i].video_ids@[n] == vs[k].id;
                assert(ps2[i].video_ids@[n] == vs[k].id);
            }
            assert(owns(ps2, w, vs2[k]));
        }
    }
    assert forall|a: int, j: int|
        0 <= a < ps2.len() && 0 <= j < ps2[a].video_ids@.len() implies #[trigger] listed(
        vs2,
        ps2[a],
        ps2[a].video_ids@[j],
    ) by {
        if a == i && j == ps[i].video_ids@.len() {
            assert(is_video_of(vs2, vs.len() as int, ps2[a], ps2[a].video_ids@[j]));
        } else {
            assert(ps2[a].video_ids@[j] == ps[a].video_ids@[j]);
            assert(listed(vs, ps[a], ps[a].video_ids@[j]));
            let k = choose|k: int| #[trigger] is_video_of(vs, k, ps[a], ps[a].video_ids@[j]);
            assert(is_video_of(vs2, k, ps2[a], ps2[a].video_ids@[j]));
        }
    }
    assert forall|a: int| 0 <= a < ps2.len() implies unique_keys(#[trigger] ps2[a].metadata@) by {
        assert(unique_keys(ps[a].metadata@));
    }
}

pub proof fn lemma_replace_metadata(ps: Seq<Program>, vs: Seq<Video>, i: int, p2: Program)
    requires
        catalog_wf(ps, vs),
        0 <= i < ps.len(),
        same_but_metadata(ps[i], p2),
        unique_keys(p2.metadata@),
    ensures
        catalog_wf(ps.update(i, p2), vs),
{
    let ps2 = ps.update(i, p2);
    assert forall|a: int, b: int| 0 <= a < b < ps2.len() implies key_lt(
        #[trigger] ps2[a].key(),
        #[trigger] ps2[b].key(),
    ) by {
        assert(key_lt(ps[a].key(), ps[b].key()));
    }
    assert forall|k: int| 0 <= k < vs.len() implies #[trigger] owned(ps2, vs[k]) by {
        assert(owned(ps, vs[k]));
        let w = choose|w: int| #[trigger] owns(ps, w, vs[k]);
        assert(owns(ps2, w, vs[k]));
    }
    assert forall|a: int, j: int|
        0 <= a < ps2.len() && 0 <= j < ps2[a].video_ids@.len() implies #[trigger] listed(
        vs,
        ps2[a],
        ps2[a].video_ids@[j],
    ) by {
        assert(listed(vs, ps[a], ps[a].video_ids@[j]));
        let k = choose|k: int| #[trigger] is_video_of(vs, k, ps[a], ps[a].video_ids@[j]);
        assert(is_video_of(vs, k, ps2[a], ps2[a].video_ids@[j]));
    }
    assert forall|a: int| 0 <= a < ps2.len() implies unique_keys(#[trigger] ps2[a].metadata@) by {
        if a != i {
            assert(unique_keys(ps[a].metadata@));
        }
    }
}

/// Keys are unchanged, position by position.
pub proof fn lemma_lookup_after_update(ps: Seq<Program>, i: int, p2: Program, k: ProgramKey)
    requires
        sorted_by_key(ps),
        0 <= i < ps.len(),
        p2.key() == ps[i].key(),
        sorted_by_key(ps.update(i, p2)),
    ensures
        k == ps[i].key() ==> lookup(ps.update(i, p2), k) == Some(p2),
        k != ps[i].key() ==> lookup(ps.update(i, p2), k) == lookup(ps, k),
{
    let ps2 = ps.update(i, p2);
    lemma_lookup_at(ps2, i);
    if k != ps[i].key() {
        if has_key(ps, k) {
            let j = choose|j: int| 0 <= j < ps.len() && #[trigger] ps[j].key() == k;
            lemma_lookup_at(ps, j);
            lemma_lookup_at(ps2, j);
        } else if has_key(ps2, k) {
            let j = choose|j: int| 0 <= j < ps2.len() && #[trigger] ps2[j].key() == k;
            assert(ps[j].key() == k);
        }
    }
}

pub proof fn lemma_lookup_at(ps: Seq<Program>, i: int)
    requires
        sorted_by_key(ps),
        0 <= i < ps.len(),
    ensures
        lookup(ps, ps[i].key()) == Some(ps[i]),
{
    let key = ps[i].key();
    assert(has_key(ps, key));
    let j = choose|j: int| 0 <= j < ps.len() && #[trigger] ps[j].key() == key;
    if j < i {
        assert(key_lt(ps[j].key(), ps[i].key()));
    } else if i < j {
        assert(key_lt(ps[i].key(), ps[j].key()));
    }
    lemma_key_lt_total(key, key);
}

pub proof fn lemma_lookup_video_at(vs: Seq<Video>, k: int)
    requires
        unique_video_ids(vs),
        0 <= k < vs.len(),
    ensures
        lookup_video(vs, vs[k].id) == Some(vs[k]),
{
    let id = vs[k].id;
    assert(has_video(vs, id));
    let j = choose|j: int| 0 <= j < vs.len() && #[trigger] vs[j].id == id;
    if j != k {
        assert(vs[j].id != vs[k].id);
    }
}

/// A successful `create_video` of `video` under `key` took the catalog from `(ps, vs)` to
/// `(ps2, vs2)`: the program had no video from that provider, the identifier was free, the
/// video was filed under the program, and the program now lists it last.
pub open spec fn video_created(
    ps: Seq<Program>,
    vs: Seq<Video>,
    ps2: Seq<Program>,
    vs2: Seq<Video>,
    key: ProgramKey,
    video: Video,
) -> bool {
    let p = lookup(ps, key)->0;
    &&& has_key(ps, key)
    &&& !provider_taken(vs, p, video.provider_id@)
    &&& !has_video(vs, video.id)
    &&& vs2 == vs.push(filed_under(video, p))
    &&& lookup(ps2, key) matches Some(p2) && same_but_video_ids(p, p2) && p2.video_ids@
        == p.video_ids@.push(video.id)
    &&& forall|k: ProgramKey| k != key ==> #[trigger] lookup(ps2, k) == lookup(ps, k)
}

/// A successful `update_program_metadata` set entry `k` of the program under `key` to `v`,
/// and changed nothing else; when the entry already held `v`, nothing changed at all.
pub open spec fn metadata_written(
    ps: Seq<Program>,
    ps2: Seq<Program>,
    key: ProgramKey,
    k: Seq<char>,
    v: Seq<char>,
) -> bool {
    let p = lookup(ps, key)->0;
    &&& has_key(ps, key)
    &&& lookup(ps2, key) matches Some(p2) && same_but_metadata(p, p2) && metadata_entry(
        p2.metadata@,
        k,
    ) == Some(v) && forall|k2: Seq<char>|
        k2 != k ==> #[trigger] metadata_entry(p2.metadata@, k2) == metadata_entry(p.metadata@, k2)
    &&& forall|k2: ProgramKey| k2 != key ==> #[trigger] lookup(ps2, k2) == lookup(ps, k2)
    &&& metadata_entry(p.metadata@, k) == Some(v) ==> ps2 == ps
}

/// In every catalog no two programs share a key, and no two videos of one program share a
/// provider identifier.
pub proof fn lemma_catalog_uniqueness(ps: Seq<Program>, vs: Seq<Video>)
    requires
        catalog_wf(ps, vs),
    ensures
        forall|i: int, j: int| 0 <= i < ps.len() && 0 <= j < ps.len() && i != j ==> #[trigger] ps[i].key() != #[trigger] ps[j].key(),
        forall|i: int, j: int|
            0 <= i < vs.len() && 0 <= j < vs.len() && i != j && vs[i].program_id == vs[j].program_id
                ==> #[trigger] vs[i].provider_id@ != #[trigger] vs[j].provider_id@,
{
    assert forall|i: int, j: int| 0 <= i < ps.len() && 0 <= j < ps.len() && i != j implies #[trigger] ps[i].key() != #[trigger] ps[j].key() by {
        if i < j {
            assert(key_lt(ps[i].key(), ps[j].key()));
        } else {
            assert(key_lt(ps[j].key(), ps[i].key()));
        }
        lemma_key_lt_total(ps[i].key(), ps[j].key());
    }
}

/// After a video is created under a program, the program lists the video, and the catalog
/// holds it, under that program, with the provider and length it was declared with.
pub proof fn lemma_created_video_is_listed(
    ps: Seq<Program>,
    vs: Seq<Video>,
    ps2: Seq<Program>,
    vs2: Seq<Video>,
    key: ProgramKey,
    video: Video,
)
    requires
        catalog_wf(ps, vs),
        video_created(ps, vs, ps2, vs2, key, video),
    ensures
        lookup(ps2, key) matches Some(p2) && p2.video_ids@.contains(video.id),
        lookup_video(vs2, video.id) matches Some(v) && v.program_id == lookup(ps, key)->0.id
            && v.provider_id@ == video.provider_id@ && v.total_length == video.total_length,
{
    let p2 = lookup(ps2, key)->0;
    assert(p2.video_ids@[p2.video_ids@.len() - 1] == video.id);
    assert forall|a: int, b: int|
        0 <= a < vs2.len() && 0 <= b < vs2.len() && a != b implies #[trigger] vs2[a].id
        != #[trigger] vs2[b].id by {
        if a == vs.len() {
            assert(!(vs[b].id == video.id));
        } else if b == vs.len() {
            assert(!(vs[a].id == video.id));
        }
    }
    lemma_lookup_video_at(vs2, vs.len() as int);
}

/// Reading entry `k` after writing `v` to it gives `v`; writing the same value again leaves
/// the whole catalog as it was.
pub proof fn lemma_metadata_read_back(
    ps: Seq<Program>,
    ps2: Seq<Program>,
    ps3: Seq<Program>,
    key: ProgramKey,
    k: Seq<char>,
    v: Seq<char>,
)
    requires
        metadata_written(ps, ps2, key, k, v),
        metadata_written(ps2, ps3, key, k, v),
    ensures
        lookup(ps2, key) matches Some(p2) && metadata_entry(p2.metadata@, k) == Some(v),
        forall|k2: Seq<char>|
            #[trigger] metadata_entry(lookup(ps3, key)->0.metadata@, k2) == metadata_entry(
                lookup(ps2, key)->0.metadata@,
                k2,
            ),
        ps3 == ps2,
{
}

/// Programs ascending by key at each adjacent pair.
pub open spec fn adjacent_sorted(ps: Seq<Program>) -> bool {
    forall|i: int| 0 < i < ps.len() ==> key_lt(#[trigger] ps[i - 1].key(), ps[i].key())
}

pub proof fn lemma_adjacent_sorted(ps: Seq<Program>)
    requires
        adjacent_sorted(ps),
    ensures
        sorted_by_key(ps),
{
    assert forall|i: int, j: int| 0 <= i < j < ps.len() implies key_lt(
        #[trigger] ps[i].key(),
        #[trigger] ps[j].key(),
    ) by {
        lemma_adjacent_sorted_from(ps, i, j);
    }
}

proof fn lemma_adjacent_sorted_from(ps: Seq<Program>, i: int, j: int)
    requires
        adjacent_sorted(ps),
        0 <= i < j < ps.len(),
    ensures
        key_lt(ps[i].key(), ps[j].key()),
    decreases j - i,
{
    assert(key_lt(ps[j - 1].key(), ps[j].key()));
    if i < j - 1 {
        lemma_adjacent_sorted_from(ps, i, j - 1);
    }
}

fn check_sorted(ps: &Vec<Program>) -> (r: bool)
    ensures
        r == sorted_by_key(ps@),
{
    let mut i: usize = 1;
    while i < ps.len()
        invariant
            1 <= i,
            forall|k: int| 0 < k < i && k < ps@.len() ==> key_lt(#[trigger] ps@[k - 1].key(), ps@[k].key()),
        decreases ps.len() - i,
    {
        if !ps[i - 1].program_key().lt(&ps[i].program_key()) {
            assert(!key_lt(ps@[i - 1].key(), ps@[(i - 1) + 1].key()));
            return false;
        }
        i += 1;
    }
    proof {
        lemma_adjacent_sorted(ps@);
    }
    true
}

fn check_video_ids(vs: &Vec<Video>) -> (r: bool)
    ensures
        r == unique_video_ids(vs@),
{
    let mut i: usize = 0;
    while i < vs.len()
        invariant
            i <= vs.len(),
            forall|a: int, b: int|
                0 <= a < i && 0 <= b < vs@.len() && a != b ==> #[trigger] vs@[a].id != #[trigger] vs@[b].id,
        decreases vs.len() - i,
    {
        let mut j: usize = 0;
        while j < vs.len()
            invariant
                i < vs.len(),
                j <= vs.len(),
                forall|a: int, b: int|
                    0 <= a < i && 0 <= b < vs@.len() && a != b ==> #[trigger] vs@[a].id
                        != #[trigger] vs@[b].id,
                forall|b: int| 0 <= b < j && b != i ==> #[trigger] vs@[b].id != vs@[i as int].id,
            decreases vs.len() - j,
        {
            if j != i && vs[j].id == vs[i].id {
                return false;
            }
            j += 1;
        }
        i += 1;
    }
    true
}

fn check_providers(vs: &Vec<Video>) -> (r: bool)
    ensures
        r == unique_providers(vs@),
{
    let mut i: usize = 0;
    while i < vs.len()
        invariant
            i <= vs.len(),
            forall|a: int, b: int|
                0 <= a < i && 0 <= b < vs@.len() && a != b && vs@[a].program_id == vs@[b].program_id
                    ==> #[trigger] vs@[a].provider_id@ != #[trigger] vs@[b].provider_id@,
        decreases vs.len() - i,
    {
        let mut j: usize = 0;
        while j < vs.len()
            invariant
                i < vs.len(),
                j <= vs.len(),
                forall|a: int, b: int|
                    0 <= a < i && 0 <= b < vs@.len() && a != b && vs@[a].program_id
                        == vs@[b].program_id ==> #[trigger] vs@[a].provider_id@
                        != #[trigger] vs@[b].provider_id@,
                forall|b: int|
                    0 <= b < j && b != i && vs@[b].program_id == vs@[i as int].program_id
                        ==> #[trigger] vs@[b].provider_id@ != vs@[i as int].provider_id@,
            decreases vs.len() - j,
        {
            if j != i && vs[j].program_id == vs[i].program_id && same_text(
                vs[j].provider_id.as_str(),
                vs[i].provider_id.as_str(),
            ) {
                return false;
            }
            j += 1;
        }
        i += 1;
    }
    true
}

fn contains_id(ids: &Vec<u128>, id: u128) -> (r: bool)
    ensures
        r == ids@.contains(id),
{
    let mut i: usize = 0;
    while i < ids.len()
        invariant
            i <= ids.len(),
            forall|k: int| 0 <= k < i ==> ids@[k] != id,
        decreases ids.len() - i,
    {
        if ids[i] == id {
            return true;
        }
        i += 1;
    }
    false
}

fn check_owned(ps: &Vec<Program>, vs: &Vec<Video>) -> (r: bool)
    ensures
        r == videos_owned(ps@, vs@),
{
    let mut k: usize = 0;
    while k < vs.len()
        invariant
            k <= vs.len(),
            forall|m: int| 0 <= m < k ==> #[trigger] owned(ps@, vs@[m]),
        decreases vs.len() - k,
    {
        let mut i: usize = 0;
        let mut found = false;
        while i < ps.len()
            invariant
                k < vs.len(),
                i <= ps.len(),
                forall|m: int| 0 <= m < k ==> #[trigger] owned(ps@, vs@[m]),
                found ==> owned(ps@, vs@[k as int]),
                !found ==> forall|w: int| 0 <= w < i ==> !#[trigger] owns(ps@, w, vs@[k as int]),
            decreases ps.len() - i,
        {
            if ps[i].id == vs[k].program_id && contains_id(&ps[i].video_ids, vs[k].id) {
                assert(owns(ps@, i as int, vs@[k as int]));
                found = true;
            }
            i += 1;
        }
        if !found {
            assert(!owned(ps@, vs@[k as int]));
            return false;
        }
        k += 1;
    }
    true
}

fn check_listings(ps: &Vec<Program>, vs: &Vec<Video>) -> (r: bool)
    ensures
        r == listings_resolve(ps@, vs@),
{
    let mut i: usize = 0;
    while i < ps.len()
        invariant
            i <= ps.len(),
            forall|a: int, j: int|
                0 <= a < i && 0 <= j < ps@[a].video_ids@.len() ==> #[trigger] listed(
                    vs@,
                    ps@[a],
                    ps@[a].video_ids@[j],
                ),
        decreases ps.len() - i,
    {
        let ids = &ps[i].video_ids;
        let mut j: usize = 0;
        while j < ids.len()
            invariant
                i < ps.len(),
                *ids == ps@[i as int].video_ids,
                j <= ids.len(),
                forall|a: int, b: int|
                    0 <= a < i && 0 <= b < ps@[a].video_ids@.len() ==> #[trigger] listed(
                        vs@,
                        ps@[a],
                        ps@[a].video_ids@[b],
                    ),
                forall|b: int| 0 <= b < j ==> #[trigger] listed(vs@, ps@[i as int], ids@[b]),
            decreases ids.len() - j,
        {
            let mut k: usize = 0;
            let mut found = false;
            while k < vs.len()
                invariant
                    i < ps.len(),
                    *ids == ps@[i as int].video_ids,
                    j < ids.len(),
                    k <= vs.len(),
                    found ==> listed(vs@, ps@[i as int], ids@[j as int]),
                    !found ==> forall|w: int| 0 <= w < k ==> !#[trigger] is_video_of(
                        vs@,
                        w,
                        ps@[i as int],
                        ids@[j as int],
                    ),
                decreases vs.len() - k,
            {
                if vs[k].id == ids[j] && vs[k].program_id == ps[i].id {
                    assert(is_video_of(vs@, k as int, ps@[i as int], ids@[j as int]));
                    found = true;
                }
                k += 1;
            }
            if !found {
                assert(!listed(vs@, ps@[i as int], ps@[i as int].video_ids@[j as int]));
                return false;
            }
            j += 1;
        }
        i += 1;
    }
    true
}

fn check_metadata(ps: &Vec<Program>) -> (r: bool)
    ensures
        r == metadata_unique(ps@),
{
    let mut i: usize = 0;
    while i < ps.len()
        invariant
            i <= ps.len(),
            forall|a: int| 0 <= a < i ==> unique_keys(#[trigger] ps@[a].metadata@),
        decreases ps.len() - i,
    {
        let md = &ps[i].metadata;
        let mut a: usize = 0;
        while a < md.len()
            invariant
                i < ps.len(),
                *md == ps@[i as int].metadata,
                a <= md.len(),
                forall|x: int| 0 <= x < i ==> unique_keys(#[trigger] ps@[x].metadata@),
                forall|x: int, y: int|
                    0 <= x < a && 0 <= y < md@.len() && x != y ==> #[trigger] md@[x].0@
                        != #[trigger] md@[y].0@,
            decreases md.len() - a,
        {
            let mut b: usize = 0;
            while b < md.len()
                invariant
                    i < ps.len(),
                    *md == ps@[i as int].metadata,
                    a < md.len(),
                    b <= md.len(),
                    forall|x: int| 0 <= x < i ==> unique_keys(#[trigger] ps@[x].metadata@),
                    forall|x: int, y: int|
                        0 <= x < a && 0 <= y < md@.len() && x != y ==> #[trigger] md@[x].0@
                            != #[trigger] md@[y].0@,
                    forall|y: int| 0 <= y < b && y != a ==> #[trigger] md@[y].0@ != md@[a as int].0@,
                decreases md.len() - b,
            {
                if b != a && same_text(md[b].0.as_str(), md[a].0.as_str()) {
                    return false;
                }
                b += 1;
            }
            a += 1;
        }
        i += 1;
    }
    true
}

/// The catalog that snapshot records restore to: the records themselves, when they satisfy
/// the invariants of a catalog.
pub open spec fn restored(ps: Seq<Program>, vs: Seq<Video>) -> Option<(Seq<Program>, Seq<Video>)> {
    if catalog_wf(ps, vs) {
        Some((ps, vs))
    } else {
        None
    }
}

/// Restoring the records of a catalog gives back the same programs, in the same order, and
/// the same videos.
pub proof fn lemma_snapshot_round_trip(ps: Seq<Program>, vs: Seq<Video>)
    requires
        catalog_wf(ps, vs),
    ensures
        restored(ps, vs) == Some((ps, vs)),
{
}

/// The programs and videos of the archive.
pub struct ProgramStore {
    programs: Vec<Program>,
    videos: Vec<Video>,
}

impl ProgramStore {
    /// Programs, ascending by key.
    pub closed spec fn program_seq(&self) -> Seq<Program> {
        self.programs@
    }

    pub closed spec fn video_seq(&self) -> Seq<Video> {
        self.videos@
    }

    pub open spec fn wf(&self) -> bool {
        catalog_wf(self.program_seq(), self.video_seq())
    }

    /// An empty catalog.
    pub fn new() -> (r: ProgramStore)
        ensures
            r.wf(),
            r.program_seq().len() == 0,
            r.video_seq().len() == 0,
    {
        ProgramStore { programs: Vec::new(), videos: Vec::new() }
    }

    /// A catalog made of snapshot records, when they satisfy the catalog's invariants.
    pub fn from_records(programs: Vec<Program>, videos: Vec<Video>) -> (r: Result<ProgramStore, String>)
        ensures
            match r {
                Ok(s) => restored(programs@, videos@) == Some((s.program_seq(), s.video_seq())),
                Err(_) => restored(programs@, videos@) is None,
            },
    {
        if !check_sorted(&programs) {
            return Err(String::from_str("programs are not in ascending key order"));
        }
        if !check_video_ids(&videos) {
            return Err(String::from_str("two videos share an identifier"));
        }
        if !check_providers(&videos) {
            return Err(String::from_str("two videos of a program share a provider identifier"));
        }
        if !check_owned(&programs, &videos) {
            return Err(String::from_str("a video is not listed by its program"));
        }
        if !check_listings(&programs, &videos) {
            return Err(String::from_str("a program lists a video that is not stored"));
        }
        if !check_metadata(&programs) {
            return Err(String::from_str("a program holds a metadata key twice"));
        }
        Ok(ProgramStore { programs, videos })
    }

    /// The records a snapshot of this catalog holds, ending the catalog.
    pub fn into_records(self) -> (r: (Vec<Program>, Vec<Video>))
        ensures
            r.0@ == self.program_seq(),
            r.1@ == self.video_seq(),
    {
        (self.programs, self.videos)
    }

    /// All programs, ascending by key.
    pub fn all(&self) -> (r: &Vec<Program>)
        ensures
            r@ == self.program_seq(),
    {
        &self.programs
    }

    /// All videos.
    pub fn all_videos(&self) -> (r: &Vec<Video>)
        ensures
            r@ == self.video_seq(),
    {
        &self.videos
    }

    /// Position of the first program whose key is not below `key`.
    fn position_of(&self, key: &ProgramKey) -> (r: usize)
        requires
            self.wf(),
        ensures
            r <= self.program_seq().len(),
            forall|i: int| 0 <= i < r ==> key_lt(#[trigger] self.program_seq()[i].key(), *key),
            r < self.program_seq().len() ==> !key_lt(self.program_seq()[r as int].key(), *key),
    {
        let mut i: usize = 0;
        while i < self.programs.len()
            invariant
                i <= self.programs.len(),
                forall|j: int| 0 <= j < i ==> key_lt(#[trigger] self.programs@[j].key(), *key),
            decreases self.programs.len() - i,
        {
            if !self.programs[i].program_key().lt(key) {
                return i;
            }
            i += 1;
        }
        i
    }

    /// Index of the program filed under `key`.
    fn index_of(&self, key: &ProgramKey) -> (r: Option<usize>)
        requires
            self.wf(),
        ensures
            match r {
                Some(i) => i < self.program_seq().len() && self.program_seq()[i as int].key()
                    == *key,
                None => !has_key(self.program_seq(), *key),
            },
    {
        let i = self.position_of(key);
        if i < self.programs.len() && self.programs[i].program_key().same(key) {
            Some(i)
        } else {
            proof {
                let ps = self.programs@;
                assert forall|j: int| 0 <= j < ps.len() implies #[trigger] ps[j].key() != *key by {
                    if j >= i {
                        if j > i {
                            assert(key_lt(ps[i as int].key(), ps[j].key()));
                        }
                        lemma_key_lt_total(ps[i as int].key(), *key);
                        lemma_key_lt_total(ps[j].key(), *key);
                    }
                }
            }
            None
        }
    }

    /// The program filed under `key`.
    pub fn find(&self, key: &ProgramKey) -> (r: Option<&Program>)
        requires
            self.wf(),
        ensures
            match r {
                Some(p) => lookup(self.program_seq(), *key) == Some(*p),
                None => lookup(self.program_seq(), *key) is None,
            },
    {
        match self.index_of(key) {
            Some(i) => {
                proof {
                    lemma_lookup_at(self.programs@, i as int);
                }
                Some(&self.programs[i])
            },
            None => None,
        }
    }

    /// Files a program built from `program` under the identifier `id`, unless one with the same
    /// key is already filed: then the catalog is left as it was.
    pub fn find_or_create(&mut self, program: wire::Program, id: u128) -> (r: Result<
        FindOrCreateNotice,
        MessageConversionError,
    >)
        requires
            old(self).wf(),
        ensures
            final(self).wf(),
            r is Err <==> missing_field(program) is Some,
            match r {
                Ok(FindOrCreateNotice::AlreadyExists) => {
                    &&& has_key(old(self).program_seq(), incoming_key(program))
                    &&& final(self).program_seq() == old(self).program_seq()
                    &&& final(self).video_seq() == old(self).video_seq()
                },
                Ok(FindOrCreateNotice::Created) => {
                    &&& !has_key(old(self).program_seq(), incoming_key(program))
                    &&& final(self).video_seq() == old(self).video_seq()
                    &&& final(self).program_seq().len() == old(self).program_seq().len() + 1
                    &&& lookup(final(self).program_seq(), incoming_key(program)) matches Some(p)
                        && p.id == id && p.video_ids@.len() == 0 && p.metadata@.len() == 0
                    &&& forall|k: ProgramKey|
                        k != incoming_key(program) ==> #[trigger] lookup(final(self).program_seq(), k)
                            == lookup(old(self).program_seq(), k)
                },
                Err(_) => {
                    &&& final(self).program_seq() == old(self).program_seq()
                    &&& final(self).video_seq() == old(self).video_seq()
                },
            },
    {
        let p = match Program::from_exchanged(program, id) {
            Ok(p) => p,
            Err(e) => return Err(e),
        };
        let key = p.program_key();
        let pos = self.position_of(&key);
        if pos < self.programs.len() && self.programs[pos].program_key().same(&key) {
            proof {
                assert(self.programs@[pos as int].key() == key);
            }
            return Ok(FindOrCreateNotice::AlreadyExists);
        }
        let ghost ps = self.programs@;
        let ghost vs = self.videos@;
        proof {
            assert forall|j: int| 0 <= j < ps.len() implies #[trigger] ps[j].key() != key by {
                if j >= pos {
                    if j > pos {
                        assert(key_lt(ps[pos as int].key(), ps[j].key()));
                    }
                    lemma_key_lt_total(ps[pos as int].key(), key);
                    lemma_key_lt_total(ps[j].key(), key);
                }
            }
        }
        self.programs.insert(pos, p);
        proof {
            let ps2 = self.programs@;
            assert(ps2 == ps.insert(pos as int, p));
            assert forall|i: int, j: int| 0 <= i < j < ps2.len() implies key_lt(
                #[trigger] ps2[i].key(),
                #[trigger] ps2[j].key(),
            ) by {
                if i < pos && j == pos {
                } else if i < pos && j > pos {
                    assert(ps2[j] == ps[j - 1]);
                    if j - 1 > pos {
                        assert(key_lt(ps[pos as int].key(), ps[j - 1].key()));
                    }
                    lemma_key_lt_total(ps[pos as int].key(), key);
                } else if i == pos {
                    assert(ps2[j] == ps[j - 1]);
                    if j - 1 > pos {
                        assert(key_lt(ps[pos as int].key(), ps[j - 1].key()));
                    }
                    lemma_key_lt_total(ps[pos as int].key(), key);
                } else if i > pos {
                    assert(ps2[i] == ps[i - 1] && ps2[j] == ps[j - 1]);
                } else {
                    assert(ps2[i] == ps[i] && ps2[j] == ps[j]);
                }
            }
            lemma_owned_after_insert(ps, vs, pos as int, p);
            assert forall|i: int, j: int|
                0 <= i < ps2.len() && 0 <= j < ps2[i].video_ids@.len() implies #[trigger] listed(
                vs,
                ps2[i],
                ps2[i].video_ids@[j],
            ) by {
                if i != pos {
                    let oi = if i < pos {
                        i
                    } else {
                        i - 1
                    };
                    assert(ps2[i] == ps[oi]);
                    assert(listed(vs, ps[oi], ps[oi].video_ids@[j]));
                }
            }
            assert(metadata_unique(ps2)) by {
                assert forall|i: int| 0 <= i < ps2.len() implies unique_keys(#[trigger] ps2[i].metadata@) by {
                    if i < pos {
                        assert(ps2[i] == ps[i]);
                    } else if i > pos {
                        assert(ps2[i] == ps[i - 1]);
                    }
                }
            }
            assert(sorted_by_key(ps2));
            assert(videos_owned(ps2, vs));
            assert(listings_resolve(ps2, vs));
            assert(self.videos@ == vs);
            lemma_lookup_at(ps2, pos as int);
            assert forall|k2: ProgramKey| k2 != key implies #[trigger] lookup(ps2, k2) == lookup(ps, k2) by {
                if has_key(ps, k2) {
                    let i = choose|i: int| 0 <= i < ps.len() && #[trigger] ps[i].key() == k2;
                    lemma_lookup_at(ps, i);
                    if i < pos {
                        assert(ps2[i] == ps[i]);
                        lemma_lookup_at(ps2, i);
                    } else {
                        assert(ps2[i + 1] == ps[i]);
                        lemma_lookup_at(ps2, i + 1);
                    }
                } else {
                    if has_key(ps2, k2) {
                        let i = choose|i: int| 0 <= i < ps2.len() && #[trigger] ps2[i].key() == k2;
                        if i < pos {
                            assert(ps2[i] == ps[i]);
                        } else if i > pos {
                            assert(ps2[i] == ps[i - 1]);
                        }
                    }
                }
            }
        }
        Ok(FindOrCreateNotice::Created)
    }

    /// Index of the video filed under `id`.
    fn video_index(&self, id: u128) -> (r: Option<usize>)
        requires
            self.wf(),
        ensures
            match r {
                Some(k) => k < self.video_seq().len() && self.video_seq()[k as int].id == id,
                None => !has_video(self.video_seq(), id),
            },
    {
        let mut k: usize = 0;
        while k < self.videos.len()
            invariant
                k <= self.videos.len(),
                forall|j: int| 0 <= j < k ==> #[trigger] self.videos@[j].id != id,
            decreases self.videos.len() - k,
        {
            if self.videos[k].id == id {
                return Some(k);
            }
            k += 1;
        }
        None
    }

    /// The video filed under `id`.
    pub fn find_video(&self, id: u128) -> (r: Option<&Video>)
        requires
            self.wf(),
        ensures
            match r {
                Some(v) => lookup_video(self.video_seq(), id) == Some(*v),
                None => lookup_video(self.video_seq(), id) is None,
            },
    {
        match self.video_index(id) {
            Some(k) => {
                proof {
                    lemma_lookup_video_at(self.videos@, k as int);
                }
                Some(&self.videos[k])
            },
            None => None,
        }
    }

    /// The videos filed under each of `ids`, in the same order.
    pub fn find_videos(&self, ids: &Vec<u128>) -> (r: Vec<Option<&Video>>)
        requires
            self.wf(),
        ensures
            r@.len() == ids@.len(),
            forall|i: int|
                0 <= i < ids@.len() ==> match #[trigger] r@[i] {
                    Some(v) => lookup_video(self.video_seq(), ids@[i]) == Some(*v),
                    None => lookup_video(self.video_seq(), ids@[i]) is None,
                },
    {
        let mut r: Vec<Option<&Video>> = Vec::new();
        let mut i: usize = 0;
        while i < ids.len()
            invariant
                self.wf(),
                i <= ids.len(),
                r@.len() == i,
                forall|j: int|
                    0 <= j < i ==> match #[trigger] r@[j] {
                        Some(v) => lookup_video(self.video_seq(), ids@[j]) == Some(*v),
                        None => lookup_video(self.video_seq(), ids@[j]) is None,
                    },
            decreases ids.len() - i,
        {
            r.push(self.find_video(ids[i]));
            i += 1;
        }
        r
    }

    /// Whether the program at `i` already owns a video from `provider`.
    fn provider_in_use(&self, i: usize, provider: &String) -> (r: bool)
        requires
            self.wf(),
            i < self.program_seq().len(),
        ensures
            r == provider_taken(self.video_seq(), self.program_seq()[i as int], provider@),
    {
        let pid = self.programs[i].id;
        let mut k: usize = 0;
        while k < self.videos.len()
            invariant
                k <= self.videos.len(),
                pid == self.programs@[i as int].id,
                forall|j: int|
                    0 <= j < k ==> !(self.videos@[j].program_id == pid
                        && #[trigger] self.videos@[j].provider_id@ == provider@),
            decreases self.videos.len() - k,
        {
            if self.videos[k].program_id == pid && same_text(
                self.videos[k].provider_id.as_str(),
                provider.as_str(),
            ) {
                return true;
            }
            k += 1;
        }
        false
    }

    /// Whether the program under `key` already owns a video from `provider`.
    pub fn provider_used(&self, key: &ProgramKey, provider: &String) -> (r: bool)
        requires
            self.wf(),
        ensures
            r == (has_key(self.program_seq(), *key) && provider_taken(
                self.video_seq(),
                lookup(self.program_seq(), *key)->0,
                provider@,
            )),
    {
        match self.index_of(key) {
            Some(i) => {
                proof {
                    lemma_lookup_at(self.programs@, i as int);
                }
                self.provider_in_use(i, provider)
            },
            None => false,
        }
    }

    /// Files `video` under the program with key `key`, which then lists it.
    pub fn create_video(&mut self, key: &ProgramKey, video: Video) -> (r: Result<(), VideoWriteError>)
        requires
            old(self).wf(),
        ensures
            final(self).wf(),
            match r {
                Ok(()) => video_created(
                    old(self).program_seq(),
                    old(self).video_seq(),
                    final(self).program_seq(),
                    final(self).video_seq(),
                    *key,
                    video,
                ),
                Err(e) => {
                    &&& final(self).program_seq() == old(self).program_seq()
                    &&& final(self).video_seq() == old(self).video_seq()
                    &&& match e {
                        VideoWriteError::ProgramNotFound(k) => k == *key && !has_key(
                            old(self).program_seq(),
                            *key,
                        ),
                        VideoWriteError::AlreadyExists(pid) => pid@ == video.provider_id@ && has_key(
                            old(self).program_seq(),
                            *key,
                        ) && provider_taken(
                            old(self).video_seq(),
                            lookup(old(self).program_seq(), *key)->0,
                            video.provider_id@,
                        ),
                        VideoWriteError::VideoIdTaken(id) => id == video.id && has_key(
                            old(self).program_seq(),
                            *key,
                        ) && !provider_taken(
                            old(self).video_seq(),
                            lookup(old(self).program_seq(), *key)->0,
                            video.provider_id@,
                        ) && has_video(old(self).video_seq(), video.id),
                    }
                },
            },
    {
        let i = match self.index_of(key) {
            Some(i) => i,
            None => return Err(VideoWriteError::ProgramNotFound(*key)),
        };
        proof {
            lemma_lookup_at(self.programs@, i as int);
        }
        if self.provider_in_use(i, &video.provider_id) {
            return Err(VideoWriteError::AlreadyExists(video.provider_id.clone()));
        }
        if self.video_index(video.id).is_some() {
            return Err(VideoWriteError::VideoIdTaken(video.id));
        }
        let ghost ps = self.programs@;
        let ghost vs = self.videos@;
        let mut video = video;
        video.program_id = self.programs[i].id;
        let id = video.id;
        let mut p = self.programs.remove(i);
        p.video_ids.push(id);
        self.programs.insert(i, p);
        self.videos.push(video);
        proof {
            assert(self.programs@ =~= ps.update(i as int, self.programs@[i as int]));
            lemma_add_video(ps, vs, i as int, self.programs@[i as int], self.videos@.last());
            assert forall|k: ProgramKey|
                k != *key implies #[trigger] lookup(self.programs@, k) == lookup(ps, k) by {
                lemma_lookup_after_update(ps, i as int, self.programs@[i as int], k);
            }
            lemma_lookup_after_update(ps, i as int, self.programs@[i as int], *key);
        }
        Ok(())
    }

    /// Sets the metadata entry `metadata_key` of the program with key `key` to `metadata_value`,
    /// adding the entry if the program has none under that key.
    pub fn update_program_metadata(
        &mut self,
        key: &ProgramKey,
        metadata_key: String,
        metadata_value: String,
    ) -> (r: Result<(), MetadataWriteError>)
        requires
            old(self).wf(),
        ensures
            final(self).wf(),
            final(self).video_seq() == old(self).video_seq(),
            match r {
                Ok(()) => metadata_written(
                    old(self).program_seq(),
                    final(self).program_seq(),
                    *key,
                    metadata_key@,
                    metadata_value@,
                ),
                Err(e) => {
                    &&& e == MetadataWriteError::ProgramNotFound(*key)
                    &&& !has_key(old(self).program_seq(), *key)
                    &&& final(self).program_seq() == old(self).program_seq()
                },
            },
    {
        let i = match self.index_of(key) {
            Some(i) => i,
            None => return Err(MetadataWriteError::ProgramNotFound(*key)),
        };
        proof {
            lemma_lookup_at(self.programs@, i as int);
        }
        let ghost ps = self.programs@;
        let mut p = self.programs.remove(i);
        let ghost md = p.metadata@;
        assert(unique_keys(md));
        let mut j: usize = 0;
        while j < p.metadata.len()
            invariant
                j <= p.metadata.len(),
                p.metadata@ == md,
                forall|m: int| 0 <= m < j ==> #[trigger] md[m].0@ != metadata_key@,
            ensures
                j <= p.metadata.len(),
                p.metadata@ == md,
                forall|m: int| 0 <= m < j ==> #[trigger] md[m].0@ != metadata_key@,
                j < p.metadata.len() ==> md[j as int].0@ == metadata_key@,
            decreases p.metadata.len() - j,
        {
            if same_text(p.metadata[j].0.as_str(), metadata_key.as_str()) {
                break;
            }
            j += 1;
        }
        let ghost k0 = metadata_key@;
        let ghost v0 = metadata_value@;
        proof {
            if j < md.len() {
                assert(exists|a: int| 0 <= a < md.len() && #[trigger] md[a].0@ == k0);
                let c = choose|a: int| 0 <= a < md.len() && #[trigger] md[a].0@ == k0;
                if c != j {
                    assert(md[c].0@ != md[j as int].0@);
                }
                assert(metadata_entry(md, k0) == Some(md[j as int].1@));
            } else {
                assert(forall|a: int| 0 <= a < md.len() ==> #[trigger] md[a].0@ != k0);
                assert(metadata_entry(md, k0) is None);
            }
        }
        if j < p.metadata.len() && same_text(p.metadata[j].1.as_str(), metadata_value.as_str()) {
            self.programs.insert(i, p);
            proof {
                assert(self.programs@ =~= ps);
                lemma_lookup_at(ps, i as int);
            }
            return Ok(());
        }
        if j < p.metadata.len() {
            p.metadata.set(j, (metadata_key, metadata_value));
        } else {
            p.metadata.push((metadata_key, metadata_value));
        }
        proof {
            let md2 = p.metadata@;
            assert(unique_keys(md2)) by {
                assert forall|a: int, b: int|
                    0 <= a < md2.len() && 0 <= b < md2.len() && a != b implies #[trigger] md2[a].0@
                    != #[trigger] md2[b].0@ by {
                    if a != j && b != j {
                        assert(md[a].0@ != md[b].0@);
                    }
                }
            }
            assert(md2[j as int].0@ == k0);
            assert(metadata_entry(md2, k0) == Some(v0)) by {
                assert(exists|a: int| 0 <= a < md2.len() && #[trigger] md2[a].0@ == k0);
                let c = choose|a: int| 0 <= a < md2.len() && #[trigger] md2[a].0@ == k0;
                if c != j {
                    assert(md2[c].0@ != md2[j as int].0@);
                }
            }
            assert forall|k: Seq<char>| k != k0 implies #[trigger] metadata_entry(md2, k)
                == metadata_entry(md, k) by {
                if exists|a: int| 0 <= a < md.len() && #[trigger] md[a].0@ == k {
                    let c = choose|a: int| 0 <= a < md.len() && #[trigger] md[a].0@ == k;
                    assert(md2[c] == md[c]);
                    assert(exists|a: int| 0 <= a < md2.len() && #[trigger] md2[a].0@ == k);
                    let c2 = choose|a: int| 0 <= a < md2.len() && #[trigger] md2[a].0@ == k;
                    if c2 != c {
                        assert(md2[c2].0@ != md2[c].0@);
                    }
                } else {
                    if exists|a: int| 0 <= a < md2.len() && #[trigger] md2[a].0@ == k {
                        let c2 = choose|a: int| 0 <= a < md2.len() && #[trigger] md2[a].0@ == k;
                        assert(md2[c2] == md[c2]);
                    }
                }
            }
        }
        self.programs.insert(i, p);
        proof {
            assert(self.programs@ =~= ps.update(i as int, self.programs@[i as int]));
            lemma_replace_metadata(ps, self.videos@, i as int, self.programs@[i as int]);
            assert forall|k: ProgramKey|
                k != *key implies #[trigger] lookup(self.programs@, k) == lookup(ps, k) by {
                lemma_lookup_after_update(ps, i as int, self.programs@[i as int], k);
            }
            lemma_lookup_after_update(ps, i as int, self.programs@[i as int], *key);
        }
        Ok(())
    }

    /// Stores a thumbnail image with the video filed under `id`.
    pub fn update_video_thumbnail(&mut self, id: u128, bin: Vec<u8>, mime_type: String) -> (r: Result<
        (),
        VideoThumbnailUpdateError,
    >)
        requires
            old(self).wf(),
        ensures
            final(self).wf(),
            final(self).program_seq() == old(self).program_seq(),
            match r {
                Ok(()) => {
                    let v = lookup_video(old(self).video_seq(), id)->0;
                    &&& has_video(old(self).video_seq(), id)
                    &&& lookup_video(final(self).video_seq(), id) matches Some(v2) && v2
                        == Video { thumbnail: bin, thumbnail_mime_type: Some(mime_type), ..v }
                    &&& forall|k: u128|
                        k != id ==> #[trigger] lookup_video(final(self).video_seq(), k)
                            == lookup_video(old(self).video_seq(), k)
                },
                Err(e) => {
                    &&& e == VideoThumbnailUpdateError::VideoNotFound(id)
                    &&& !has_video(old(self).video_seq(), id)
                    &&& final(self).video_seq() == old(self).video_seq()
                },
            },
    {
        let k = match self.video_index(id) {
            Some(k) => k,
            None => return Err(VideoThumbnailUpdateError::VideoNotFound(id)),
        };
        let ghost vs = self.videos@;
        let ghost ps = self.programs@;
        proof {
            lemma_lookup_video_at(vs, k as int);
        }
        let mut v = self.videos.remove(k);
        v.thumbnail = bin;
        v.thumbnail_mime_type = Some(mime_type);
        self.videos.insert(k, v);
        proof {
            let vs2 = self.videos@;
            assert(vs2 =~= vs.update(k as int, vs2[k as int]));
            assert forall|a: int, b: int|
                0 <= a < vs2.len() && 0 <= b < vs2.len() && a != b implies #[trigger] vs2[a].id
                != #[trigger] vs2[b].id by {
                assert(vs[a].id != vs[b].id);
            }
            assert forall|a: int, b: int|
                0 <= a < vs2.len() && 0 <= b < vs2.len() && a != b && vs2[a].program_id
                    == vs2[b].program_id implies #[trigger] vs2[a].provider_id@
                != #[trigger] vs2[b].provider_id@ by {
                assert(vs[a].provider_id@ != vs[b].provider_id@);
            }
            assert forall|c: int| 0 <= c < vs2.len() implies #[trigger] owned(ps, vs2[c]) by {
                assert(owned(ps, vs[c]));
                let w = choose|w: int| #[trigger] owns(ps, w, vs[c]);
                assert(owns(ps, w, vs2[c]));
            }
            assert forall|a: int, j: int|
                0 <= a < ps.len() && 0 <= j < ps[a].video_ids@.len() implies #[trigger] listed(
                vs2,
                ps[a],
                ps[a].video_ids@[j],
            ) by {
                assert(listed(vs, ps[a], ps[a].video_ids@[j]));
                let c = choose|c: int| #[trigger] is_video_of(vs, c, ps[a], ps[a].video_ids@[j]);
                assert(is_video_of(vs2, c, ps[a], ps[a].video_ids@[j]));
            }
            lemma_lookup_video_at(vs2, k as int);
            assert forall|i: u128| i != id implies #[trigger] lookup_video(vs2, i) == lookup_video(
                vs,
                i,
            ) by {
                if has_video(vs, i) {
                    let c = choose|c: int| 0 <= c < vs.len() && #[trigger] vs[c].id == i;
                    lemma_lookup_video_at(vs, c);
                    lemma_lookup_video_at(vs2, c);
                } else if has_video(vs2, i) {
                    let c = choose|c: int| 0 <= c < vs2.len() && #[trigger] vs2[c].id == i;
                    assert(vs[c].id == i);
                }
            }
        }
        Ok(())
    }
}

/// The key a program message is filed under.
pub open spec fn incoming_key(program: wire::Program) -> ProgramKey {
    ProgramKey {
        start_at: program.start_at->0,
        network_id: program.network_id as u16,
        service_id: program.service_id as u16,
        event_id: program.event_id as u16,
    }
}

} // verus!
