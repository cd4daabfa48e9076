use vstd::prelude::*;
use bincode::ErrorKind;
use crate::bytes::{le_bytes, le_value, lemma_le_round_trip, lemma_pow256_8};
use crate::chunk_map::{empty_voxel, CHUNK_VOLUME};
use crate::voxel::Voxel;

verus! {

/// bincode's error.
#[verifier::external_type_specification]
#[verifier::external_body]
pub struct ExErrorKind(ErrorKind);

/// Whether `s` starts with an eight-byte little-endian length that the rest
/// of `s` covers.
pub open spec fn frame_fits(s: Seq<u8>) -> bool {
    s.len() >= 8 && le_value(s.subrange(0, 8)) <= s.len() - 8
}

/// The bytes that the length at the start of `s` announces.
pub open spec fn frame_payload(s: Seq<u8>) -> Seq<u8> {
    s.subrange(8, 8 + le_value(s.subrange(0, 8)) as int)
}

/// `b` framed: its length in eight little-endian bytes, then `b`.
pub open spec fn framed(b: Seq<u8>) -> Seq<u8> {
    le_bytes(b.len(), 8) + b
}

/// Relies on bincode::serialize of a byte vector (fixed-width integers,
/// little endian): the length as eight bytes, then the bytes. Writing into
/// a vector with no size limit does not fail.
#[verifier::external_body]
fn encode_byte_vec(bytes: &Vec<u8>) -> (r: Result<Vec<u8>, Box<ErrorKind>>)
    ensures
        r is Ok,
        r is Ok ==> r->Ok_0@ == framed(bytes@),
{
    bincode::serialize(bytes)
}

/// Relies on bincode::deserialize of a byte vector (fixed-width integers,
/// little endian, trailing bytes allowed): an eight-byte length, then that
/// many bytes; an error when the input ends early.
#[verifier::external_body]
fn decode_byte_vec(bytes: &[u8]) -> (r: Result<Vec<u8>, Box<ErrorKind>>)
    ensures
        frame_fits(bytes@) ==> r is Ok && r->Ok_0@ == frame_payload(bytes@),
        !frame_fits(bytes@) ==> r is Err,
{
    bincode::deserialize(bytes)
}

/// The ids of a voxel sequence.
pub open spec fn voxel_ids(v: Seq<Voxel>) -> Seq<u8> {
    v.map_values(|x: Voxel| x.id)
}

/// The voxels of an id sequence.
pub open spec fn ids_to_voxels(b: Seq<u8>) -> Seq<Voxel> {
    b.map_values(|id: u8| Voxel { id })
}

/// The stored form of a chunk: the framed ids of its voxels.
pub open spec fn chunk_bytes(v: Seq<Voxel>) -> Seq<u8> {
    framed(voxel_ids(v))
}

/// The chunk that stored bytes hold: a well-framed run of exactly one
/// chunk's worth of ids, or nothing.
pub open spec fn decoded_chunk(s: Seq<u8>) -> Option<Seq<Voxel>> {
    if frame_fits(s) && frame_payload(s).len() == CHUNK_VOLUME {
        Some(ids_to_voxels(frame_payload(s)))
    } else {
        None
    }
}

/// The stored form of a chunk's voxels.
pub fn encode_chunk(voxels: &Vec<Voxel>) -> (r: Vec<u8>)
    ensures
        r@ == chunk_bytes(voxels@),
{
    let mut ids: Vec<u8> = Vec::new();
    let mut i: usize = 0;
    while i < voxels.len()
        invariant
            i <= voxels.len(),
            ids@ =~= voxel_ids(voxels@).take(i as int),
        decreases voxels.len() - i,
    {
        ids.push(voxels[i].id);
        i += 1;
    }
    assert(ids@ =~= voxel_ids(voxels@));
    match encode_byte_vec(&ids) {
        Ok(bytes) => bytes,
        Err(_) => Vec::new(),
    }
}

/// The chunk that stored bytes hold, if they hold one.
pub fn decode_chunk(bytes: &Vec<u8>) -> (r: Option<Vec<Voxel>>)
    ensures
        r is Some <==> decoded_chunk(bytes@) is Some,
        r is Some ==> r->Some_0@ == decoded_chunk(bytes@)->Some_0,
{
    match decode_byte_vec(bytes.as_slice()) {
        Ok(ids) => {
            if ids.len() != CHUNK_VOLUME {
                return None;
            }
            let mut voxels: Vec<Voxel> = Vec::new();
            let mut i: usize = 0;
            while i < ids.len()
                invariant
                    i <= ids.len(),
                    voxels@ =~= ids_to_voxels(ids@).take(i as int),
                decreases ids.len() - i,
            {
                voxels.push(Voxel { id: ids[i] });
                i += 1;
            }
            assert(voxels@ =~= ids_to_voxels(ids@));
            Some(voxels)
        },
        Err(_) => None,
    }
}

/// A chunk written in its stored form reads back as the same chunk.
pub proof fn lemma_chunk_round_trip(v: Seq<Voxel>)
    requires
        v.len() == CHUNK_VOLUME,
    ensures
        decoded_chunk(chunk_bytes(v)) == Some(v),
{
    let ids = voxel_ids(v);
    let s = chunk_bytes(v);
    lemma_pow256_8();
    lemma_le_round_trip(ids.len(), 8);
    assert(s.subrange(0, 8) =~= le_bytes(ids.len(), 8));
    assert(frame_payload(s) =~= ids);
    assert(ids_to_voxels(ids) =~= v);
}

/// What the durable store answered for a key.
#[derive(Debug, Clone)]
pub enum StoreRead {
    /// The bytes stored under the key.
    Found(Vec<u8>),
    /// Nothing is stored under the key.
    Missing,
    /// The store could not be read.
    Failed,
}

/// A chunk of empty voxels.
pub open spec fn empty_chunk() -> Seq<Voxel> {
    Seq::new(CHUNK_VOLUME as nat, |i: int| empty_voxel())
}

/// A chunk of empty voxels.
pub fn empty_chunk_voxels() -> (r: Vec<Voxel>)
    ensures
        r@ == empty_chunk(),
{
    let mut voxels: Vec<Voxel> = Vec::new();
    let mut i: usize = 0;
    while i < CHUNK_VOLUME
        invariant
            i <= CHUNK_VOLUME,
            voxels@ =~= empty_chunk().take(i as int),
        decreases CHUNK_VOLUME - i,
    {
        voxels.push(Voxel::empty());
        i += 1;
    }
    assert(voxels@ =~= empty_chunk());
    voxels
}

/// The chunk that a store answer yields: the stored chunk; an empty chunk
/// when the store failed or holds bytes that are no chunk; nothing when no
/// chunk is stored, so that the caller generates one.
pub open spec fn chunk_from_read(read: StoreRead) -> Option<Seq<Voxel>> {
    match read {
        StoreRead::Found(b) => match decoded_chunk(b@) {
            Some(v) => Some(v),
            None => Some(empty_chunk()),
        },
        StoreRead::Missing => None,
        StoreRead::Failed => Some(empty_chunk()),
    }
}

/// The chunk that a store answer yields, or `None` when the store holds no
/// chunk for the key and the procedural generator must supply it.
pub fn stored_chunk_voxels(read: &StoreRead) -> (r: Option<Vec<Voxel>>)
    ensures
        r is Some <==> chunk_from_read(*read) is Some,
        r is Some ==> r->Some_0@ == chunk_from_read(*read)->Some_0,
        r is Some ==> r->Some_0.len() == CHUNK_VOLUME,
{
    match read {
        StoreRead::Found(bytes) => match decode_chunk(bytes) {
            Some(v) => Some(v),
            None => Some(empty_chunk_voxels()),
        },
        StoreRead::Missing => None,
        StoreRead::Failed => Some(empty_chunk_voxels()),
    }
}

} // verus!
