//! Byte-offset index construction: a single scan of the data file's bytes
//! produces a mapping from 1-based line number to the byte offset at which
//! that line starts.
//!
//! The scan seeds line 1 at offset 0 and, after consuming each delimited
//! chunk (up to and including a line-feed, or up to end of input), records
//! the position reached as the next line's offset. Because the position is
//! recorded before discovering that nothing is left to read, the index ends
//! with one extra entry for the line one past the last, pointing at the end
//! of the data; looking that entry up yields empty content rather than an
//! out-of-bounds failure, and this behavior is kept deliberately.

use vstd::prelude::*;
use std::collections::HashMap;

verus! {

broadcast use vstd::std_specs::hash::group_hash_axioms;

/// The line-start offsets recorded after scanning the first `n` bytes of
/// `data`: offset 0 for line 1, then one offset just past each line-feed.
pub open spec fn starts_prefix(data: Seq<u8>, n: int) -> Seq<u64>
    decreases n,
{
    if n <= 0 {
        seq![0u64]
    } else if data[n - 1] == 10 {
        starts_prefix(data, n - 1).push(n as u64)
    } else {
        starts_prefix(data, n - 1)
    }
}

/// All line-start offsets of `data`: the scanned offsets, plus the end of
/// the data when the final chunk is not newline-terminated. The last entry
/// is always the one-past-end offset whose content is empty.
pub open spec fn line_starts(data: Seq<u8>) -> Seq<u64> {
    let scanned = starts_prefix(data, data.len() as int);
    if data.len() > 0 && data[data.len() - 1] != 10 {
        scanned.push(data.len() as u64)
    } else {
        scanned
    }
}

/// A sequence of offsets read as a map keyed by 1-based line number.
pub open spec fn seq_index_map(s: Seq<u64>) -> Map<u64, u64> {
    Map::new(|k: u64| 1 <= k <= s.len(), |k: u64| s[k - 1])
}

/// The index a scan of `data` builds: line number `k` maps to the offset at
/// which line `k` starts, for `k` from 1 to one past the last line.
pub open spec fn index_map(data: Seq<u8>) -> Map<u64, u64> {
    seq_index_map(line_starts(data))
}

/// The number of entries in the built index (the true line count plus the
/// one-past-end entry, or exactly 1 for empty data).
pub open spec fn num_entries(data: Seq<u8>) -> int {
    line_starts(data).len() as int
}

/// The literal bytes of line `j` (1-based), including its trailing
/// line-feed if it has one; the one-past-end entry's content is empty.
pub open spec fn line_at(data: Seq<u8>, j: int) -> Seq<u8> {
    let s = line_starts(data);
    if j < s.len() {
        data.subrange(s[j - 1] as int, s[j] as int)
    } else {
        data.subrange(s[j - 1] as int, data.len() as int)
    }
}

/// The total byte length of lines 1 through `m`.
pub open spec fn lines_byte_count(data: Seq<u8>, m: int) -> int
    decreases m,
{
    if m <= 0 {
        0
    } else {
        lines_byte_count(data, m - 1) + line_at(data, m).len()
    }
}

/// Structure of the scanned offsets: they begin at 0, are strictly
/// increasing and bounded by the scanned length, every offset after the
/// first sits just past a line-feed, and every line-feed within the scanned
/// range has its successor position recorded.
pub proof fn lemma_starts_prefix(data: Seq<u8>, n: int)
    requires
        data.len() < u64::MAX,
        0 <= n <= data.len(),
    ensures
        starts_prefix(data, n).len() >= 1,
        starts_prefix(data, n).len() <= n + 1,
        starts_prefix(data, n)[0] == 0,
        forall|i: int|
            0 <= i < starts_prefix(data, n).len() ==> 0 <= #[trigger] starts_prefix(data, n)[i]
                <= n,
        forall|i: int, j: int|
            0 <= i < j < starts_prefix(data, n).len() ==> #[trigger] starts_prefix(data, n)[i]
                < #[trigger] starts_prefix(data, n)[j],
        forall|i: int|
            1 <= i < starts_prefix(data, n).len() ==> 1 <= #[trigger] starts_prefix(data, n)[i]
                && data[starts_prefix(data, n)[i] - 1] == 10,
        forall|p: int|
            0 <= p < n && data[p] == 10 ==> starts_prefix(data, n).contains((p + 1) as u64),
    decreases n,
{
    if n <= 0 {
    } else {
        lemma_starts_prefix(data, n - 1);
        let prev = starts_prefix(data, n - 1);
        let cur = starts_prefix(data, n);
        if data[n - 1] == 10 {
            assert(cur == prev.push(n as u64));
            assert forall|i: int, j: int| 0 <= i < j < cur.len() implies cur[i] < cur[j] by {
                if j < cur.len() - 1 {
                    assert(prev[i] < prev[j]);
                } else {
                    assert(cur[i] == prev[i] && prev[i] <= n - 1);
                }
            }
            assert forall|i: int| 1 <= i < cur.len() implies 1 <= cur[i] && data[cur[i] - 1]
                == 10 by {
                if i < cur.len() - 1 {
                    assert(1 <= prev[i] && data[prev[i] - 1] == 10);
                }
            }
            assert forall|p: int| 0 <= p < n && data[p] == 10 implies cur.contains(
                (p + 1) as u64,
            ) by {
                if p < n - 1 {
                    assert(prev.contains((p + 1) as u64));
                    let w = choose|w: int| 0 <= w < prev.len() && prev[w] == (p + 1) as u64;
                    assert(cur[w] == (p + 1) as u64);
                } else {
                    assert(cur[cur.len() - 1] == (p + 1) as u64);
                }
            }
        } else {
            assert(cur == prev);
            assert forall|p: int| 0 <= p < n && data[p] == 10 implies cur.contains(
                (p + 1) as u64,
            ) by {
                assert(p < n - 1 || data[n - 1] != 10);
            }
        }
    }
}

/// Structure of the full offset sequence: it begins at 0, is strictly
/// increasing, ends exactly at the data's length, offsets other than the
/// first and the final one sit just past a line-feed, and every line-feed
/// has its successor position present.
pub proof fn lemma_line_starts(data: Seq<u8>)
    requires
        data.len() < u64::MAX,
    ensures
        line_starts(data).len() >= 1,
        line_starts(data).len() <= data.len() + 1,
        line_starts(data)[0] == 0,
        line_starts(data).last() == data.len(),
        forall|i: int|
            0 <= i < line_starts(data).len() ==> 0 <= #[trigger] line_starts(data)[i]
                <= data.len(),
        forall|i: int, j: int|
            0 <= i < j < line_starts(data).len() ==> #[trigger] line_starts(data)[i]
                < #[trigger] line_starts(data)[j],
        forall|i: int|
            1 <= i < line_starts(data).len() ==> (data[line_starts(data)[i] - 1] == 10
                || line_starts(data)[i] == data.len()),
        forall|p: int|
            0 <= p < data.len() && data[p] == 10 ==> line_starts(data).contains((p + 1) as u64),
{
    let n = data.len() as int;
    lemma_starts_prefix(data, n);
    let scanned = starts_prefix(data, n);
    let s = line_starts(data);
    if data.len() > 0 && data[n - 1] != 10 {
        assert(s == scanned.push(data.len() as u64));
        // the final byte is not a line-feed, so the scan of the last byte
        // recorded nothing and the scanned offsets number at most `n`
        lemma_starts_prefix(data, n - 1);
        assert(scanned == starts_prefix(data, n - 1));
        assert(s.len() <= data.len() + 1);
        assert(s.last() == data.len());
        assert forall|p: int| 0 <= p < data.len() && data[p] == 10 implies s.contains(
            (p + 1) as u64,
        ) by {
            assert(scanned.contains((p + 1) as u64));
            let w = choose|w: int| 0 <= w < scanned.len() && scanned[w] == (p + 1) as u64;
            assert(s[w] == (p + 1) as u64);
        }
        assert forall|i: int, j: int| 0 <= i < j < s.len() implies s[i] < s[j] by {
            if j < s.len() - 1 {
                assert(scanned[i] < scanned[j]);
            } else {
                // every scanned offset q >= 1 has data[q - 1] == 10, and the
                // final byte is not a line-feed, so every scanned offset is
                // strictly below the data's length
                assert(s[j] == data.len());
                if i >= 1 {
                    assert(data[scanned[i] - 1] == 10);
                    assert(scanned[i] != data.len());
                }
            }
        }
    } else if data.len() == 0 {
        assert(s == scanned);
        assert(s.last() == 0);
    } else {
        // the data ends with a line-feed, so its end position was recorded
        // by the scan and, being the largest recorded offset, is last
        assert(s == scanned);
        assert(s.contains(data.len() as u64));
        let w = choose|w: int| 0 <= w < s.len() && s[w] == data.len() as u64;
        if w < s.len() - 1 {
            assert(s[w] < s[s.len() - 1]);
            assert(false);
        }
        assert(s.last() == data.len());
    }
}

/// Reading a sequence of offsets as a 1-based map, appending an offset adds
/// exactly the entry for the next line number.
proof fn lemma_seq_index_map_push(s: Seq<u64>, v: u64)
    requires
        s.len() + 1 <= u64::MAX,
    ensures
        seq_index_map(s.push(v)) == seq_index_map(s).insert((s.len() + 1) as u64, v),
{
    assert(seq_index_map(s.push(v)) =~= seq_index_map(s).insert((s.len() + 1) as u64, v));
}

/// Scans the data once and builds the line-number-to-byte-offset index,
/// including the one-past-end entry.
pub fn build_index(data: &[u8]) -> (idx: HashMap<u64, u64>)
    requires
        data@.len() < u64::MAX - 1,
    ensures
        idx@ == index_map(data@),
{
    let mut idx: HashMap<u64, u64> = HashMap::new();
    idx.insert(1, 0);
    proof {
        assert(idx@ =~= seq_index_map(starts_prefix(data@, 0)));
    }
    let mut current_line: u64 = 2;
    let mut i: usize = 0;
    while i < data.len()
        invariant
            data@.len() < u64::MAX - 1,
            i <= data@.len(),
            current_line == starts_prefix(data@, i as int).len() + 1,
            idx@ == seq_index_map(starts_prefix(data@, i as int)),
        decreases data@.len() - i,
    {
        proof {
            lemma_starts_prefix(data@, i as int);
            lemma_starts_prefix(data@, i + 1);
        }
        if data[i] == 10 {
            proof {
                lemma_seq_index_map_push(starts_prefix(data@, i as int), (i + 1) as u64);
            }
            idx.insert(current_line, (i + 1) as u64);
            current_line = current_line + 1;
        }
        i = i + 1;
    }
    if data.len() > 0 && data[data.len() - 1] != 10 {
        proof {
            lemma_starts_prefix(data@, data@.len() as int);
            lemma_seq_index_map_push(
                starts_prefix(data@, data@.len() as int),
                data@.len() as u64,
            );
        }
        idx.insert(current_line, data.len() as u64);
    }
    idx
}

/// First-entry law: the index of any data always contains line 1, at
/// offset 0.
pub proof fn lemma_index_first_entry(data: Seq<u8>)
    requires
        data.len() < u64::MAX,
    ensures
        index_map(data).contains_key(1),
        index_map(data)[1] == 0,
{
    lemma_line_starts(data);
}

/// Cumulative-length law: for every line number `k > 1` present in a built
/// index, the stored offset equals the total byte length of lines 1 through
/// `k - 1`.
pub proof fn lemma_index_entry_is_cumulative_byte_count(data: Seq<u8>, k: int)
    requires
        data.len() < u64::MAX,
        2 <= k <= num_entries(data),
    ensures
        index_map(data).contains_key(k as u64),
        index_map(data)[k as u64] == lines_byte_count(data, k - 1),
    decreases k,
{
    lemma_line_starts(data);
    let s = line_starts(data);
    assert(0 <= s[k - 2] <= data.len() && 0 <= s[k - 1] <= data.len());
    assert(s[k - 2] < s[k - 1]);
    assert(line_at(data, k - 1) == data.subrange(s[k - 2] as int, s[k - 1] as int));
    if k == 2 {
        assert(lines_byte_count(data, 0) == 0);
        assert(lines_byte_count(data, 1) == line_at(data, 1).len());
        assert(s[0] == 0);
    } else {
        lemma_index_entry_is_cumulative_byte_count(data, k - 1);
        assert(index_map(data)[(k - 1) as u64] == s[k - 2]);
    }
}

} // verus!
