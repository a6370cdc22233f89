//! Byte-capped rolling log of output chunks.
//!
//! The buffer retains output chunks in arrival order and keeps their total
//! byte count within [`MAX_BUFFER_BYTES`]. When an insertion overflows the
//! cap, whole chunks are evicted from the front (oldest first); a chunk is
//! never truncated.

use std::collections::VecDeque;
use vstd::prelude::*;
use vstd::string::StringSliceAdditionalSpecFns;
use vstd::string::StringExecFns;
use vstd::utf8::encode_utf8;

verus! {

/// Upper bound, in bytes, on the output retained for one session.
pub const MAX_BUFFER_BYTES: usize = 1024 * 1024;

/// Byte length of one retained chunk.
pub open spec fn chunk_bytes(s: String) -> int {
    encode_utf8(s@).len() as int
}

/// Total byte length of a sequence of chunks.
pub open spec fn total_len(chunks: Seq<String>) -> int
    decreases chunks.len(),
{
    if chunks.len() == 0 {
        0
    } else {
        chunk_bytes(chunks[0]) + total_len(chunks.drop_first())
    }
}

/// Evicts whole chunks from the front until the total fits the cap.
pub open spec fn evicted(chunks: Seq<String>) -> Seq<String>
    decreases chunks.len(),
{
    if total_len(chunks) <= MAX_BUFFER_BYTES as int {
        chunks
    } else if chunks.len() == 0 {
        chunks
    } else {
        evicted(chunks.drop_first())
    }
}

/// The chunk sequence after storing `chunk`: append, then evict from the
/// front until the cap holds.
pub open spec fn stored(chunks: Seq<String>, chunk: String) -> Seq<String> {
    evicted(chunks.push(chunk))
}

/// Concatenation of all retained chunks, in order.
pub open spec fn concat_text(chunks: Seq<String>) -> Seq<char>
    decreases chunks.len(),
{
    if chunks.len() == 0 {
        Seq::empty()
    } else {
        chunks[0]@ + concat_text(chunks.drop_first())
    }
}

pub proof fn lemma_total_len_nonneg(chunks: Seq<String>)
    ensures
        total_len(chunks) >= 0,
    decreases chunks.len(),
{
    if chunks.len() > 0 {
        lemma_total_len_nonneg(chunks.drop_first());
    }
}

/// Buffer bound law: storing a chunk always leaves the retained total
/// within the cap, and what is evicted is a whole-chunk prefix: the result
/// is a suffix of the appended sequence.
pub proof fn lemma_store_chunk_bound(chunks: Seq<String>, chunk: String)
    ensures
        total_len(stored(chunks, chunk)) <= MAX_BUFFER_BYTES as int,
        exists|k: int|
            0 <= k <= chunks.push(chunk).len() && stored(chunks, chunk) == chunks.push(
                chunk,
            ).skip(k),
{
    lemma_evicted_is_suffix(chunks.push(chunk));
}

/// Eviction keeps a suffix of the given chunks and lands within the cap.
pub proof fn lemma_evicted_is_suffix(chunks: Seq<String>)
    ensures
        total_len(evicted(chunks)) <= MAX_BUFFER_BYTES as int,
        exists|k: int| 0 <= k <= chunks.len() && evicted(chunks) == chunks.skip(k),
    decreases chunks.len(),
{
    if total_len(chunks) <= MAX_BUFFER_BYTES as int {
        assert(evicted(chunks) == chunks.skip(0));
    } else if chunks.len() == 0 {
        assert(total_len(chunks) == 0);
    } else {
        lemma_evicted_is_suffix(chunks.drop_first());
        let k = choose|k: int|
            0 <= k <= chunks.drop_first().len() && evicted(chunks.drop_first())
                == chunks.drop_first().skip(k);
        assert(chunks.drop_first().skip(k) =~= chunks.skip(k + 1));
        assert(evicted(chunks) == chunks.skip(k + 1));
    }
}

/// Bounded log of output chunks with its running byte total.
pub struct RollingBuffer {
    chunks: VecDeque<String>,
    total_bytes: usize,
}

impl RollingBuffer {
    /// The retained chunks, oldest first.
    pub closed spec fn chunks_seq(self) -> Seq<String> {
        self.chunks@
    }

    /// The running byte total.
    pub closed spec fn total(self) -> int {
        self.total_bytes as int
    }

    /// The byte total matches the chunks and stays within the cap.
    pub closed spec fn wf(self) -> bool {
        &&& self.total_bytes as int == total_len(self.chunks@)
        &&& total_len(self.chunks@) <= MAX_BUFFER_BYTES as int
    }

    pub fn new() -> (b: Self)
        ensures
            b.wf(),
            b.chunks_seq() == Seq::<String>::empty(),
            b.total() == 0,
    {
        RollingBuffer { chunks: VecDeque::new(), total_bytes: 0 }
    }

    /// Appends a chunk, then evicts whole chunks from the front until the
    /// byte total fits the cap again.
    pub fn store_chunk(&mut self, chunk: String)
        requires
            old(self).wf(),
        ensures
            final(self).wf(),
            final(self).chunks_seq() == stored(old(self).chunks_seq(), chunk),
            final(self).total() == total_len(final(self).chunks_seq()),
    {
        let ghost target: Seq<String> = old(self).chunks@.push(chunk);
        let len = chunk.as_str().as_bytes().len();
        proof {
            assert(len as int == chunk_bytes(chunk));
            assert(total_len(target) == total_len(old(self).chunks@) + chunk_bytes(chunk)) by {
                lemma_total_len_push(old(self).chunks@, chunk);
            }
        }
        if len > MAX_BUFFER_BYTES {
            // The chunk alone exceeds the cap: eviction would drain
            // everything, the chunk included.
            self.chunks.clear();
            self.total_bytes = 0;
            proof {
                lemma_evicted_oversized(old(self).chunks@, chunk);
                assert(self.chunks@ =~= stored(old(self).chunks_seq(), chunk));
            }
            return ;
        }
        self.chunks.push_back(chunk);
        self.total_bytes = self.total_bytes + len;
        while self.total_bytes > MAX_BUFFER_BYTES
            invariant
                self.total_bytes as int == total_len(self.chunks@),
                evicted(self.chunks@) == evicted(target),
            decreases self.chunks@.len(),
        {
            proof {
                assert(self.chunks@.len() > 0);
            }
            let removed = match self.chunks.pop_front() {
                Some(c) => c,
                None => unreached(),
            };
            let removed_len = removed.as_str().as_bytes().len();
            proof {
                assert(removed_len as int == chunk_bytes(removed));
                lemma_total_len_nonneg(self.chunks@);
            }
            self.total_bytes = self.total_bytes - removed_len;
        }
        proof {
            assert(self.chunks@ == evicted(self.chunks@));
            assert(self.chunks@ == stored(old(self).chunks_seq(), chunk));
        }
    }

    /// The concatenation of all retained chunks, in order.
    pub fn buffered_output(&self) -> (r: String)
        ensures
            r@ == concat_text(self.chunks_seq()),
    {
        let mut r = String::new();
        let n = self.chunks.len();
        let mut i: usize = 0;
        while i < n
            invariant
                i <= n,
                n == self.chunks@.len(),
                r@ == concat_text(self.chunks@.take(i as int)),
            decreases n - i,
        {
            r.append(self.chunks[i].as_str());
            proof {
                lemma_concat_text_snoc(self.chunks@, i as int);
            }
            i = i + 1;
        }
        proof {
            assert(self.chunks@.take(n as int) =~= self.chunks@);
        }
        r
    }

    /// The running byte total of the retained chunks.
    pub fn total_bytes(&self) -> (r: usize)
        ensures
            r as int == self.total(),
    {
        self.total_bytes
    }
}

proof fn lemma_evicted_oversized(chunks: Seq<String>, chunk: String)
    requires
        chunk_bytes(chunk) > MAX_BUFFER_BYTES as int,
    ensures
        evicted(chunks.push(chunk)) == Seq::<String>::empty(),
    decreases chunks.len(),
{
    let target = chunks.push(chunk);
    lemma_total_len_push(chunks, chunk);
    lemma_total_len_nonneg(chunks);
    assert(total_len(target) > MAX_BUFFER_BYTES as int);
    if chunks.len() == 0 {
        assert(target.drop_first() =~= Seq::<String>::empty());
        assert(total_len(Seq::<String>::empty()) == 0);
        assert(evicted(Seq::<String>::empty()) == Seq::<String>::empty());
    } else {
        assert(target.drop_first() =~= chunks.drop_first().push(chunk));
        lemma_evicted_oversized(chunks.drop_first(), chunk);
    }
}

proof fn lemma_total_len_push(chunks: Seq<String>, chunk: String)
    ensures
        total_len(chunks.push(chunk)) == total_len(chunks) + chunk_bytes(chunk),
    decreases chunks.len(),
{
    if chunks.len() == 0 {
        assert(chunks.push(chunk).drop_first() =~= chunks);
    } else {
        assert(chunks.push(chunk).drop_first() =~= chunks.drop_first().push(chunk));
        lemma_total_len_push(chunks.drop_first(), chunk);
    }
}

proof fn lemma_concat_text_snoc(chunks: Seq<String>, i: int)
    requires
        0 <= i < chunks.len(),
    ensures
        concat_text(chunks.take(i + 1)) == concat_text(chunks.take(i)) + chunks[i]@,
    decreases i,
{
    if i == 0 {
        let t = chunks.take(1);
        assert(t.len() == 1);
        assert(t[0] == chunks[0]);
        assert(t.drop_first() =~= Seq::<String>::empty());
        assert(concat_text(Seq::<String>::empty()) == Seq::<char>::empty());
        assert(concat_text(t) == t[0]@ + concat_text(t.drop_first()));
        assert(chunks.take(0) =~= Seq::<String>::empty());
        assert(concat_text(chunks.take(1)) =~= concat_text(chunks.take(0)) + chunks[0]@);
    } else {
        assert(chunks.take(i + 1).drop_first() =~= chunks.drop_first().take(i));
        assert(chunks.take(i).drop_first() =~= chunks.drop_first().take(i - 1));
        lemma_concat_text_snoc(chunks.drop_first(), i - 1);
        assert(concat_text(chunks.take(i + 1)) == chunks[0]@ + concat_text(
            chunks.drop_first().take(i),
        ));
        assert(concat_text(chunks.take(i)) + chunks[i]@ == (chunks[0]@ + concat_text(
            chunks.drop_first().take(i - 1),
        )) + chunks[i]@);
        assert(chunks[0]@ + (concat_text(chunks.drop_first().take(i - 1))
            + chunks.drop_first()[i - 1]@) == (chunks[0]@ + concat_text(
            chunks.drop_first().take(i - 1),
        )) + chunks[i]@);
    }
}

} // verus!
