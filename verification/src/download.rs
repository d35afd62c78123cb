//! Download planning: whether a file can be fetched in ranges, how it is cut
//! into ranges, and the buffering of a single-stream download.

use vstd::prelude::*;
use crate::text::{parse_u64, parse_u64_spec, string_eq_str};

verus! {

/// The bytes each range request fetches: the length shared among the
/// threads, but never less than `min_chunk_size`.
pub open spec fn chunk_size_spec(length: u64, num_threads: usize, min_chunk_size: u64) -> int {
    let share = length as int / num_threads as int;
    if share >= min_chunk_size {
        share
    } else {
        min_chunk_size as int
    }
}

/// The number of ranges of `chunk` bytes that cover `length` bytes.
pub open spec fn chunk_count(length: int, chunk: int) -> int {
    (length + chunk - 1) / chunk
}

/// Range `i` (inclusive first and last byte) when `length` bytes are cut
/// into ranges of `chunk` bytes.
pub open spec fn chunk_range(length: int, chunk: int, i: int) -> (int, int) {
    let start = i * chunk;
    let end = if start + chunk - 1 < length - 1 {
        start + chunk - 1
    } else {
        length - 1
    };
    (start, end)
}

/// The range size of a parallel download.
pub fn download_chunk_size(length: u64, num_threads: usize, min_chunk_size: u64) -> (c: u64)
    requires
        num_threads > 0,
    ensures
        c == chunk_size_spec(length, num_threads, min_chunk_size),
{
    let share = length / (num_threads as u64);
    if share >= min_chunk_size {
        share
    } else {
        min_chunk_size
    }
}

proof fn lemma_chunk_start_below(length: int, chunk: int, i: int)
    by (nonlinear_arith)
    requires
        chunk > 0,
        length >= 0,
        0 <= i < chunk_count(length, chunk),
    ensures
        i * chunk < length,
        i * chunk >= 0,
{
}

proof fn lemma_chunk_count_covers(length: int, chunk: int)
    by (nonlinear_arith)
    requires
        chunk > 0,
        length > 0,
    ensures
        chunk_count(length, chunk) >= 1,
        (chunk_count(length, chunk) - 1) * chunk < length,
        chunk_count(length, chunk) * chunk >= length,
{
}

/// The byte ranges, in order, that the download threads fetch: `length`
/// bytes cut into ranges of `download_chunk_size` bytes, the last one
/// shortened to end at the last byte.
pub fn plan_download_chunks(length: u64, num_threads: usize, min_chunk_size: u64) -> (r: Vec<
    (u64, u64),
>)
    requires
        num_threads > 0,
        chunk_size_spec(length, num_threads, min_chunk_size) > 0,
    ensures
        r@.len() == chunk_count(length as int, chunk_size_spec(length, num_threads, min_chunk_size)),
        forall|i: int|
            0 <= i < r@.len() ==> (#[trigger] r@[i].0 as int, r@[i].1 as int) == chunk_range(
                length as int,
                chunk_size_spec(length, num_threads, min_chunk_size),
                i,
            ),
{
    let chunk = download_chunk_size(length, num_threads, min_chunk_size);
    let ghost c = chunk as int;
    let q = length / chunk;
    let rem = length % chunk;
    assert(rem != 0 ==> q < u64::MAX) by (nonlinear_arith)
        requires
            c > 0,
            q as int == length as int / c,
            rem as int == length as int % c,
            length <= u64::MAX,
    {
        if rem != 0 {
            assert(c >= 2);
            assert(q * c <= length);
            assert(q * 2 <= q * c);
        }
    }
    let count = q + if rem != 0 {
        1u64
    } else {
        0u64
    };
    assert(count as int == chunk_count(length as int, c)) by (nonlinear_arith)
        requires
            c > 0,
            count as int == length as int / c + if length as int % c != 0 {
                1int
            } else {
                0int
            },
    {
    }
    let mut out: Vec<(u64, u64)> = Vec::new();
    let mut i: u64 = 0;
    while i < count
        invariant
            c == chunk as int,
            c > 0,
            count as int == chunk_count(length as int, c),
            i <= count,
            out@.len() == i,
            forall|k: int|
                0 <= k < i ==> (#[trigger] out@[k].0 as int, out@[k].1 as int) == chunk_range(
                    length as int,
                    c,
                    k,
                ),
        decreases count - i,
    {
        proof {
            lemma_chunk_start_below(length as int, c, i as int);
        }
        let start = i * chunk;
        let end = if chunk - 1 < length - 1 - start {
            start + (chunk - 1)
        } else {
            length - 1
        };
        out.push((start, end));
        i += 1;
    }
    out
}

/// The ranges of `plan_download_chunks` cover every byte once: the first
/// starts at byte 0, each starts right after the one before, none is empty
/// or longer than a chunk, and the last ends at the last byte.
pub proof fn law_chunks_partition_file(length: int, chunk: int)
    requires
        length > 0,
        chunk > 0,
    ensures
        chunk_range(length, chunk, 0).0 == 0,
        forall|i: int|
            0 <= i < chunk_count(length, chunk) ==> {
                let (s, e) = #[trigger] chunk_range(length, chunk, i);
                &&& s <= e
                &&& e - s + 1 <= chunk
            },
        forall|i: int|
            0 <= i < chunk_count(length, chunk) - 1 ==> #[trigger] chunk_range(length, chunk, i + 1).0
                == chunk_range(length, chunk, i).1 + 1,
        chunk_range(length, chunk, chunk_count(length, chunk) - 1).1 == length - 1,
{
    lemma_chunk_count_covers(length, chunk);
    assert forall|i: int| 0 <= i < chunk_count(length, chunk) implies {
        let (s, e) = #[trigger] chunk_range(length, chunk, i);
        &&& s <= e
        &&& e - s + 1 <= chunk
    } by {
        lemma_chunk_start_below(length, chunk, i);
    }
    assert forall|i: int| 0 <= i < chunk_count(length, chunk) - 1 implies #[trigger] chunk_range(
        length,
        chunk,
        i + 1,
    ).0 == chunk_range(length, chunk, i).1 + 1 by {
        lemma_chunk_start_below(length, chunk, i + 1);
        assert((i + 1) * chunk == i * chunk + chunk) by (nonlinear_arith);
    }
    let last = chunk_count(length, chunk) - 1;
    assert(last * chunk + chunk == chunk_count(length, chunk) * chunk) by (nonlinear_arith)
        requires
            last == chunk_count(length, chunk) - 1,
    ;
}

/// Whether a download can go in parallel ranges: the server gives a length
/// and accepts byte ranges. Returns that length.
pub fn parallel_download_length(content_length: Option<&str>, accept_ranges: Option<&str>) -> (r:
    Option<u64>)
    ensures
        r == (match (content_length, accept_ranges) {
            (Some(l), Some(a)) => if a@ == "bytes"@ {
                parse_u64_spec(l@)
            } else {
                None
            },
            _ => None,
        }),
{
    let length = match content_length {
        Some(l) => parse_u64(l),
        None => None,
    };
    let ranges = match accept_ranges {
        Some(a) => {
            let owned: String = a.to_owned();
            string_eq_str(&owned, "bytes")
        },
        None => false,
    };
    if ranges {
        length
    } else {
        None
    }
}

// ---------------------------------------------------------------------------
// Single-stream download through a buffer
// ---------------------------------------------------------------------------

/// Failures of a download's own logic.
#[derive(PartialEq, Eq, Structural, Clone, Copy, Debug)]
pub enum DownloadError {
    /// The file took fewer bytes than were written to it.
    OutOfDiskSpace,
}

/// A buffer of `len` bytes, filled up to `pos`.
pub struct DownloadBuffer {
    pub len: usize,
    pub pos: usize,
}

/// What one read into the buffer calls for.
#[derive(PartialEq, Eq, Structural, Clone, Copy, Debug)]
pub struct ReadStep {
    /// The bytes `progress_start..progress_end` of the buffer are new.
    pub progress_start: usize,
    pub progress_end: usize,
    /// The buffer is full: write all of it, then refill from the start.
    pub flush_full: bool,
    /// The stream has ended.
    pub finished: bool,
}

impl DownloadBuffer {
    /// An empty buffer of `len` bytes.
    pub fn new(len: usize) -> (b: Self)
        ensures
            b.len == len,
            b.pos == 0,
    {
        DownloadBuffer { len, pos: 0 }
    }

    /// Accounts for a read of `read_bytes` bytes into `pos..len`.
    pub fn on_read(&mut self, read_bytes: usize) -> (s: ReadStep)
        requires
            old(self).pos + read_bytes <= old(self).len,
        ensures
            s.progress_start == old(self).pos,
            s.progress_end == old(self).pos + read_bytes,
            s.flush_full == (old(self).pos + read_bytes == old(self).len),
            s.finished == (read_bytes == 0),
            final(self).len == old(self).len,
            final(self).pos == (if s.flush_full {
                0
            } else {
                old(self).pos + read_bytes
            }),
    {
        let prev = self.pos;
        self.pos = self.pos + read_bytes;
        let flush = self.pos == self.len;
        if flush {
            self.pos = 0;
        }
        ReadStep {
            progress_start: prev,
            progress_end: prev + read_bytes,
            flush_full: flush,
            finished: read_bytes == 0,
        }
    }

    /// The bytes left in the buffer once the stream ends, written last.
    pub fn final_flush_len(&self) -> (n: usize)
        ensures
            n == self.pos,
    {
        self.pos
    }
}

/// A write that took fewer bytes than it was given means the disk is full.
pub fn check_written(written: usize, expected: usize) -> (r: Result<(), DownloadError>)
    ensures
        r is Ok <==> written == expected,
        r is Err ==> r == Err::<(), DownloadError>(DownloadError::OutOfDiskSpace),
{
    if written != expected {
        Err(DownloadError::OutOfDiskSpace)
    } else {
        Ok(())
    }
}

/// The number of full-buffer writes and the fill level after the reads
/// `reads`, from fill level `pos`, with a buffer of `len` bytes.
pub open spec fn run_reads(len: nat, pos: nat, reads: Seq<nat>) -> (nat, nat)
    decreases reads.len(),
{
    if reads.len() == 0 {
        (0, pos)
    } else {
        let (flushes, p) = run_reads(len, pos, reads.drop_last());
        let next = p + reads.last();
        if next == len {
            (flushes + 1, 0)
        } else {
            (flushes, next)
        }
    }
}

pub open spec fn total(reads: Seq<nat>) -> nat
    decreases reads.len(),
{
    if reads.len() == 0 {
        0
    } else {
        total(reads.drop_last()) + reads.last()
    }
}

/// No byte is lost or written twice: after any reads that fit the buffer,
/// the bytes read equal the bytes written in full-buffer writes plus the
/// bytes still buffered (which the final write takes).
pub proof fn law_buffer_conserves_bytes(len: nat, reads: Seq<nat>)
    ensures
        ({
            let (flushes, p) = run_reads(len, 0, reads);
            total(reads) == flushes * len + p
        }),
    decreases reads.len(),
{
    if reads.len() > 0 {
        law_buffer_conserves_bytes(len, reads.drop_last());
        let (f, p) = run_reads(len, 0, reads.drop_last());
        assert(total(reads) == total(reads.drop_last()) + reads.last());
        let next = p + reads.last();
        if next == len {
            assert(run_reads(len, 0, reads) == (f + 1, 0nat));
            assert((f + 1) * len == f * len + len) by (nonlinear_arith);
        } else {
            assert(run_reads(len, 0, reads) == (f, next));
        }
    }
}

} // verus!
