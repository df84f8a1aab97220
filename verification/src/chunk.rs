//! Chunk ranges for processing long audio in overlapping pieces.

use vstd::prelude::*;
use core::ops::Range;
use crate::arith::{ceil_div, ceil_div_exec, lemma_ceil_div_step, law_spans, span_at, spans_from};

verus! {

/// The overlap of a chunking is not smaller than its chunk size, so the
/// chunking would never advance.
#[derive(Clone, Copy, Debug, PartialEq, Eq, Structural)]
pub struct ChunkSizeError {
    pub chunk_size: usize,
    pub overlap_size: usize,
}

/// Iterator over chunk ranges of `len` samples: chunks of `chunk_size` samples
/// starting every `step_size` samples, the last one cut at `len`.
pub struct ChunkRangeIter {
    len: usize,
    chunk_size: usize,
    step_size: usize,
    position: usize,
}

impl ChunkRangeIter {
    pub closed spec fn spec_len(self) -> nat {
        self.len as nat
    }

    pub closed spec fn spec_chunk(self) -> nat {
        self.chunk_size as nat
    }

    pub closed spec fn spec_step(self) -> nat {
        self.step_size as nat
    }

    /// Start of the next chunk.
    pub closed spec fn spec_position(self) -> nat {
        self.position as nat
    }

    /// Number of chunks not yet produced.
    pub open spec fn spec_remaining(self) -> nat {
        if self.spec_position() >= self.spec_len() {
            0
        } else {
            ceil_div((self.spec_len() - self.spec_position()) as nat, self.spec_step())
        }
    }

    /// The chunks still to come, as `(start, end)` pairs, in order.
    pub open spec fn spec_ranges(self) -> Seq<(nat, nat)> {
        spans_from(self.spec_len(), self.spec_chunk(), self.spec_step(), self.spec_position())
    }

    #[verifier::type_invariant]
    closed spec fn wf(self) -> bool {
        0 < self.step_size <= self.chunk_size
    }

    /// Plans the chunks of `len` samples from a chunk size and an overlap (in
    /// samples). Fails when the overlap is not smaller than the chunk size.
    pub fn from_sizes(len: usize, chunk_size: usize, overlap_size: usize) -> (res: Result<
        Self,
        ChunkSizeError,
    >)
        ensures
            overlap_size >= chunk_size <==> res is Err,
            res matches Err(e) ==> e == (ChunkSizeError { chunk_size, overlap_size }),
            res matches Ok(it) ==> it.spec_len() == len && it.spec_chunk() == chunk_size
                && it.spec_step() == chunk_size - overlap_size && it.spec_position() == 0,
    {
        if overlap_size >= chunk_size {
            return Err(ChunkSizeError { chunk_size, overlap_size });
        }
        Ok(ChunkRangeIter { len, chunk_size, step_size: chunk_size - overlap_size, position: 0 })
    }

    /// Distance between the starts of consecutive chunks; always positive.
    pub fn step_size(&self) -> (s: usize)
        ensures
            s == self.spec_step(),
            0 < s <= self.spec_chunk(),
    {
        proof {
            use_type_invariant(self);
        }
        self.step_size
    }

    /// Get the total number of chunks this iterator produces from its start:
    /// `ceil(len / step_size)`.
    pub fn len(&self) -> (n: usize)
        ensures
            n == ceil_div(self.spec_len(), self.spec_step()),
    {
        proof {
            use_type_invariant(self);
        }
        ceil_div_exec(self.len, self.step_size)
    }

    /// Check if the iterator is empty (the audio has no samples).
    pub fn is_empty(&self) -> (b: bool)
        ensures
            b == (self.spec_len() == 0),
    {
        self.len == 0
    }

    /// Produces the next chunk: `position..min(position + chunk_size, len)`,
    /// then moves `position` one step on; `None` once `position` reaches `len`.
    pub fn next(&mut self) -> (r: Option<Range<usize>>)
        requires
            old(self).spec_position() < old(self).spec_len() ==> old(self).spec_position()
                + old(self).spec_chunk() <= usize::MAX,
        ensures
            final(self).spec_len() == old(self).spec_len(),
            final(self).spec_chunk() == old(self).spec_chunk(),
            final(self).spec_step() == old(self).spec_step(),
            old(self).spec_position() >= old(self).spec_len() ==> r is None && *final(self)
                == *old(self),
            old(self).spec_position() < old(self).spec_len() ==> {
                &&& r matches Some(range)
                &&& range.start == old(self).spec_position()
                &&& range.end == if old(self).spec_position() + old(self).spec_chunk()
                    <= old(self).spec_len() {
                    old(self).spec_position() + old(self).spec_chunk()
                } else {
                    old(self).spec_len()
                }
                &&& final(self).spec_position() == old(self).spec_position() + old(
                    self,
                ).spec_step()
                // no gap: the next chunk starts inside this one, or this one reaches the end
                &&& final(self).spec_position() <= range.end || range.end == old(self).spec_len()
            },
            r is Some <==> old(self).spec_remaining() > 0,
            r is Some ==> final(self).spec_remaining() + 1 == old(self).spec_remaining(),
            old(self).spec_ranges() == match r {
                Some(range) => seq![(range.start as nat, range.end as nat)]
                    + final(self).spec_ranges(),
                None => Seq::<(nat, nat)>::empty(),
            },
    {
        proof {
            use_type_invariant(&*self);
        }
        if self.position >= self.len {
            return None;
        }
        let start = self.position;
        let end = if start + self.chunk_size <= self.len {
            start + self.chunk_size
        } else {
            self.len
        };
        proof {
            lemma_ceil_div_step((self.len - start) as nat, self.step_size as nat);
        }
        self.position = start + self.step_size;
        Some(start..end)
    }

    /// The exact number of chunks left, as `(n, Some(n))`.
    pub fn size_hint(&self) -> (hint: (usize, Option<usize>))
        ensures
            hint.0 == self.spec_remaining(),
            hint.1 == Some(hint.0),
    {
        proof {
            use_type_invariant(self);
        }
        let remaining = self.len.saturating_sub(self.position);
        let count = ceil_div_exec(remaining, self.step_size);
        (count, Some(count))
    }
}

/// Before the first chunk, `len()` counts exactly the chunks the iterator
/// will produce.
pub proof fn law_len_counts_chunks(it: ChunkRangeIter)
    requires
        it.spec_position() == 0,
    ensures
        it.spec_remaining() == ceil_div(it.spec_len(), it.spec_step()),
{
}

/// The chunks of a fresh iterator, in the order `next` yields them until
/// `None`: `ceil(len / step)` ranges, range `k` being
/// `k * step .. min(k * step + chunk_size, len)`. Each is non-empty, the first
/// starts at 0, each starts inside the one before (consecutive chunks share
/// `chunk_size - step` samples unless cut at `len`), and the last ends at
/// `len`, so together they cover the audio.
pub proof fn law_chunk_ranges(it: ChunkRangeIter)
    requires
        it.spec_position() == 0,
        0 < it.spec_step() <= it.spec_chunk(),
    ensures
        it.spec_ranges() =~= Seq::new(
            ceil_div(it.spec_len(), it.spec_step()),
            |k: int| span_at(it.spec_len(), it.spec_chunk(), it.spec_step(), k as nat),
        ),
        forall|k: int|
            0 <= k < it.spec_ranges().len() ==> #[trigger] it.spec_ranges()[k].0 < it.spec_ranges()[k].1,
        forall|k: int|
            0 <= k < it.spec_ranges().len() - 1 ==> #[trigger] it.spec_ranges()[k + 1].0
                <= it.spec_ranges()[k].1,
        it.spec_len() > 0 ==> it.spec_ranges()[0].0 == 0 && it.spec_ranges().last().1
            == it.spec_len(),
{
    let len = it.spec_len();
    let size = it.spec_chunk();
    let step = it.spec_step();
    law_spans(len, size, step);
    let r = it.spec_ranges();
    assert forall|k: int| 0 <= k < r.len() implies #[trigger] r[k].0 < r[k].1 by {
        assert(r[k] == span_at(len, size, step, k as nat));
    }
    assert forall|k: int| 0 <= k < r.len() - 1 implies #[trigger] r[k + 1].0 <= r[k].1 by {
        assert(r[k] == span_at(len, size, step, k as nat));
        assert(r[k + 1] == span_at(len, size, step, (k as nat + 1) as nat));
    }
    if len > 0 {
        assert(r[0] == span_at(len, size, step, 0));
    }
}

} // verus!
