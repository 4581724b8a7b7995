//! Index persistence: the built index is serialized to a sidecar file and
//! trusted unconditionally when loaded back. The on-disk codec is an opaque
//! encode/decode pair over the index mapping; reading and writing the
//! sidecar file itself happens outside this library, which only turns bytes
//! into an index and back.

use vstd::prelude::*;
use std::collections::HashMap;
use crate::db::DbError;
use crate::index::{build_index, index_map};

verus! {

/// The index, if any, that the MessagePack codec decodes from a byte string.
/// Decoding reads the bytes alone, so this is a function of them.
pub uninterp spec fn msgpack_index_of(bytes: Seq<u8>) -> Option<Map<u64, u64>>;

#[verifier::external_type_specification]
#[verifier::external_body]
pub struct ExEncodeError(rmp_serde::encode::Error);

#[verifier::external_type_specification]
#[verifier::external_body]
pub struct ExDecodeError(rmp_serde::decode::Error);

/// Relies on rmp_serde::to_vec: serializing a map to MessagePack produces
/// bytes that rmp_serde::from_slice decodes back to an equal map.
#[verifier::external_body]
fn msgpack_encode(index: &HashMap<u64, u64>) -> (r: Result<Vec<u8>, rmp_serde::encode::Error>)
    ensures
        r matches Ok(bytes) ==> msgpack_index_of(bytes@) == Some(index@),
{
    rmp_serde::to_vec(index)
}

/// Relies on rmp_serde::from_slice: deserialization is a function of the
/// input bytes alone, succeeding exactly when they are the MessagePack image
/// of a line-number-to-offset map.
#[verifier::external_body]
fn msgpack_decode(bytes: &[u8]) -> (r: Result<HashMap<u64, u64>, rmp_serde::decode::Error>)
    ensures
        match r {
            Ok(index) => msgpack_index_of(bytes@) == Some(index@),
            Err(_) => msgpack_index_of(bytes@) is None,
        },
{
    rmp_serde::from_slice(bytes)
}

/// Serializes an index for persisting to the sidecar file.
pub fn encode_index(index: &HashMap<u64, u64>) -> (r: Result<Vec<u8>, DbError>)
    ensures
        match r {
            Ok(bytes) => msgpack_index_of(bytes@) == Some(index@),
            Err(e) => e == DbError::EncodeError,
        },
{
    match msgpack_encode(index) {
        Ok(bytes) => Ok(bytes),
        Err(_) => Err(DbError::EncodeError),
    }
}

/// Decodes a persisted sidecar file's bytes back into an index, failing
/// exactly when the bytes are not the image of one.
pub fn decode_index(bytes: &[u8]) -> (r: Result<HashMap<u64, u64>, DbError>)
    ensures
        match r {
            Ok(index) => msgpack_index_of(bytes@) == Some(index@),
            Err(e) => e == DbError::DecodeError && msgpack_index_of(bytes@) is None,
        },
        r is Err <==> msgpack_index_of(bytes@) is None,
{
    match msgpack_decode(bytes) {
        Ok(index) => Ok(index),
        Err(_) => Err(DbError::DecodeError),
    }
}

/// Produces the index to serve from: the decoding of previously persisted
/// bytes when some are offered, otherwise a fresh scan of the data. A
/// persisted index is trusted unconditionally; nothing checks it against the
/// data's current content.
pub fn load_or_build_index(data: &[u8], cached: Option<&Vec<u8>>) -> (r: Result<
    HashMap<u64, u64>,
    DbError,
>)
    requires
        data@.len() < u64::MAX - 1,
    ensures
        match r {
            Ok(index) => match cached {
                Some(bytes) => msgpack_index_of(bytes@) == Some(index@),
                None => index@ == index_map(data@),
            },
            Err(e) => e == DbError::DecodeError && (cached matches Some(bytes)
                && msgpack_index_of(bytes@) is None),
        },
{
    match cached {
        Some(bytes) => decode_index(bytes.as_slice()),
        None => Ok(build_index(data)),
    }
}

/// Cache round-trip law: whenever an index serializes at all, decoding the
/// serialized bytes yields back exactly the same mapping, so a persisted
/// index equals the freshly built index it was persisted from.
pub fn cache_round_trip(index: &HashMap<u64, u64>) -> (r: Result<HashMap<u64, u64>, DbError>)
    ensures
        r matches Ok(restored) ==> restored@ == index@,
{
    match encode_index(index) {
        Ok(bytes) => decode_index(bytes.as_slice()),
        Err(e) => Err(e),
    }
}

} // verus!
