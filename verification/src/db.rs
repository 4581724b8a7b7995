//! Line retrieval: resolving a 1-based line number to the literal bytes of
//! that line through the byte-offset index.
//!
//! A session over the data seeks to the indexed offset and reads one
//! delimited chunk: everything up to and including the next line-feed, or up
//! to the end of the data. Reading at or past the end yields empty content,
//! which is what the deliberate one-past-end index entry resolves to.

use vstd::prelude::*;
use std::collections::HashMap;
use crate::index::{index_map, line_at, line_starts, num_entries, lemma_line_starts};

verus! {

broadcast use vstd::std_specs::hash::group_hash_axioms;

/// Errors of the store itself, apart from frame-level protocol errors: a
/// line number absent from the index, or a persisted index that cannot be
/// encoded or decoded.
#[derive(Clone, Copy, Debug, PartialEq, Eq, Structural)]
pub enum DbError {
    /// The requested line number is not a key of the index.
    LineNotFound,
    /// The persisted index bytes do not decode to an index.
    DecodeError,
    /// The index could not be serialized for persisting.
    EncodeError,
}

/// The position just past the delimited chunk that starts at `pos`: one past
/// the first line-feed at or after `pos`, or the end of the data.
pub open spec fn chunk_end(data: Seq<u8>, pos: int) -> int
    decreases data.len() - pos,
{
    if pos >= data.len() {
        data.len() as int
    } else if data[pos] == 10 {
        pos + 1
    } else {
        chunk_end(data, pos + 1)
    }
}

/// The bytes a seek to `offset` followed by one delimited read yields: the
/// chunk from `offset` up to and including the next line-feed (or to the end
/// of the data), and nothing when `offset` lies past the end.
pub open spec fn read_at(data: Seq<u8>, offset: u64) -> Seq<u8> {
    if offset > data.len() {
        Seq::empty()
    } else {
        data.subrange(offset as int, chunk_end(data, offset as int))
    }
}

/// `chunk_end` is the unique position that ends the chunk: it is reached
/// without crossing a line-feed and either sits just past one or is the end
/// of the data.
proof fn lemma_chunk_end_of(data: Seq<u8>, pos: int, e: int)
    requires
        0 <= pos <= e <= data.len(),
        e == data.len() || data[e - 1] == 10,
        forall|p: int| pos <= p < e ==> p == e - 1 || data[p] != 10,
        e > pos || pos == data.len(),
    ensures
        chunk_end(data, pos) == e,
    decreases data.len() - pos,
{
    if pos >= data.len() {
    } else if data[pos] == 10 {
        assert(pos == e - 1);
    } else {
        if e == pos + 1 {
            assert(e == data.len());
        }
        lemma_chunk_end_of(data, pos + 1, e);
    }
}

/// Session round-trip law: for every line number present in the index built
/// over some data, a seek to the indexed offset followed by one delimited
/// read returns exactly the literal bytes of that line as they appear in the
/// data, including its trailing line-feed; the one-past-end entry reads back
/// empty.
pub proof fn lemma_get_round_trip(data: Seq<u8>, n: u64)
    requires
        data.len() < u64::MAX,
        1 <= n <= num_entries(data),
    ensures
        index_map(data).contains_key(n),
        index_map(data)[n] == line_starts(data)[n - 1],
        read_at(data, index_map(data)[n]) == line_at(data, n as int),
{
    lemma_line_starts(data);
    let s = line_starts(data);
    let offset = s[n - 1];
    if n < s.len() {
        let e = s[n as int] as int;
        assert(offset < s[n as int]);
        assert forall|p: int| offset <= p < e implies p == e - 1 || data[p] != 10 by {
            if data[p] == 10 && p < e - 1 {
                assert(s.contains((p + 1) as u64));
                let w = choose|w: int| 0 <= w < s.len() && s[w] == (p + 1) as u64;
                if w <= n - 1 {
                    assert(s[w] < s[n - 1] || w == n - 1);
                    assert(false);
                } else {
                    assert(s[n as int] <= s[w] || w == n);
                    assert(false);
                }
            }
        }
        lemma_chunk_end_of(data, offset as int, e);
        assert(read_at(data, offset) =~= line_at(data, n as int));
    } else {
        assert(n == s.len());
        assert(offset == data.len());
        assert(chunk_end(data, offset as int) == data.len());
        assert(read_at(data, offset) =~= line_at(data, n as int));
    }
}

/// Resolves a line number against an index over the given data: looks the
/// number up, then reads one delimited chunk at the stored offset. Fails
/// with `LineNotFound` exactly when the number is not a key of the index;
/// an offset at or past the end of the data reads back empty rather than
/// failing.
pub fn get_line(data: &[u8], index: &HashMap<u64, u64>, line_number: u64) -> (r: Result<
    Vec<u8>,
    DbError,
>)
    ensures
        match r {
            Ok(line) => index@.contains_key(line_number) && line@ == read_at(
                data@,
                index@[line_number],
            ),
            Err(e) => e == DbError::LineNotFound && !index@.contains_key(line_number),
        },
{
    match index.get(&line_number) {
        None => Err(DbError::LineNotFound),
        Some(offset_ref) => {
            let offset: u64 = *offset_ref;
            let mut line: Vec<u8> = Vec::new();
            if offset > data.len() as u64 {
                return Ok(line);
            }
            let mut pos: usize = offset as usize;
            while pos < data.len() && data[pos] != 10
                invariant
                    offset <= pos <= data@.len(),
                    forall|p: int| offset <= p < pos ==> data@[p] != 10,
                    line@ == data@.subrange(offset as int, pos as int),
                decreases data@.len() - pos,
            {
                let b: u8 = data[pos];
                line.push(b);
                proof {
                    assert(line@ =~= data@.subrange(offset as int, pos + 1));
                }
                pos = pos + 1;
            }
            proof {
                if pos < data@.len() {
                    lemma_chunk_end_of(data@, offset as int, pos + 1);
                } else {
                    lemma_chunk_end_of(data@, offset as int, data@.len() as int);
                }
            }
            if pos < data.len() {
                let b: u8 = data[pos];
                line.push(b);
                proof {
                    assert(line@ =~= data@.subrange(offset as int, pos + 1));
                }
            }
            Ok(line)
        },
    }
}

/// The store: the data file's path and the index shared by every session.
/// Built once at startup and never mutated afterwards.
pub struct Database {
    pub db_file: String,
    pub index: HashMap<u64, u64>,
}

impl Database {
    /// Assembles the store from the data file's path and a built or loaded
    /// index.
    pub fn new(db_file: String, index: HashMap<u64, u64>) -> (db: Database)
        ensures
            db.db_file == db_file,
            db.index == index,
    {
        Database { db_file, index }
    }

    /// Looks a line number up in the index, returning its byte offset
    /// exactly when the number is present.
    pub fn lookup(&self, line_number: u64) -> (r: Option<u64>)
        ensures
            match r {
                Some(offset) => self.index@.contains_key(line_number) && offset
                    == self.index@[line_number],
                None => !self.index@.contains_key(line_number),
            },
    {
        match self.index.get(&line_number) {
            Some(offset) => Some(*offset),
            None => None,
        }
    }
}

} // verus!
