//! Partitioning of the expanded descriptor sequence across a fixed set of
//! parallel workers: contiguous chunks of nominal size `ceil(n / w)`, with the
//! last active chunk clamped so the chunks exactly cover the sequence.

use vstd::prelude::*;
use vstd::arithmetic::div_mod::{
    lemma_div_nonincreasing, lemma_div_pos_is_pos, lemma_fundamental_div_mod,
    lemma_fundamental_div_mod_converse, lemma_multiply_divide_lt,
};
use vstd::arithmetic::mul::{
    lemma_mul_inequality, lemma_mul_is_commutative, lemma_mul_is_distributive_add_other_way,
};

verus! {

/// A contiguous slice `[start, start + len)` of the descriptor sequence
/// assigned to one worker.
#[derive(Clone, Copy, PartialEq, Eq, Structural, Debug)]
pub struct WorkChunk {
    pub start: usize,
    pub len: usize,
}

/// Nominal chunk size for `n` descriptors and `w` workers: the ceiling of
/// `n / w` (written `(n - 1) / w + 1` so no intermediate value exceeds `n`).
pub open spec fn spec_chunk_size(n: int, w: int) -> int {
    if n == 0 {
        0
    } else {
        (n - 1) / w + 1
    }
}

/// How many workers actually receive a chunk: the ceiling of
/// `n / chunk_size`, and `0` when there is no work at all.
pub open spec fn spec_chunk_count(n: int, w: int) -> int {
    if n == 0 {
        0
    } else {
        (n - 1) / spec_chunk_size(n, w) + 1
    }
}

/// Where chunk `i` begins.
pub open spec fn spec_chunk_start(n: int, w: int, i: int) -> int {
    i * spec_chunk_size(n, w)
}

/// How long chunk `i` is: the nominal size, except for the last active
/// chunk, which is clamped to what remains.
pub open spec fn spec_chunk_len(n: int, w: int, i: int) -> int {
    if i < spec_chunk_count(n, w) - 1 {
        spec_chunk_size(n, w)
    } else {
        n - spec_chunk_start(n, w, i)
    }
}

/// `chunks` is exactly the plan for `n` descriptors and `w` workers.
pub open spec fn is_chunk_plan(chunks: Seq<WorkChunk>, n: int, w: int) -> bool {
    &&& chunks.len() == spec_chunk_count(n, w)
    &&& forall|i: int|
        0 <= i < chunks.len() ==> (#[trigger] chunks[i]).start == spec_chunk_start(n, w, i)
    &&& forall|i: int|
        0 <= i < chunks.len() ==> (#[trigger] chunks[i]).len == spec_chunk_len(n, w, i)
}

/// `spec_chunk_size` really is the ceiling of `n / w`.
pub proof fn lemma_chunk_size_is_ceil(n: int, w: int)
    requires
        0 <= n,
        1 <= w,
    ensures
        spec_chunk_size(n, w) == (n + w - 1) / w,
{
    if n == 0 {
        assert((w - 1) / w == 0) by {
            lemma_fundamental_div_mod_converse(w - 1, w, 0, w - 1);
        }
    } else {
        let q = (n - 1) / w;
        let r = (n - 1) % w;
        lemma_fundamental_div_mod(n - 1, w);
        assert(n + w - 1 == (q + 1) * w + r) by {
            lemma_mul_is_distributive_add_other_way(w, q, 1);
            lemma_mul_is_commutative(q, w);
        }
        lemma_fundamental_div_mod_converse(n + w - 1, w, q + 1, r);
    }
}

/// The basic facts about the plan's shape: at least one chunk of positive
/// size when there is work, never more chunks than workers, and the last
/// chunk's start strictly inside the sequence.
pub proof fn lemma_chunk_basics(n: int, w: int)
    requires
        1 <= n,
        1 <= w,
    ensures
        1 <= spec_chunk_size(n, w) <= n,
        1 <= spec_chunk_count(n, w) <= w,
        (spec_chunk_count(n, w) - 1) * spec_chunk_size(n, w) < n,
        n <= spec_chunk_count(n, w) * spec_chunk_size(n, w),
{
    let cs = spec_chunk_size(n, w);
    let m = spec_chunk_count(n, w);
    lemma_div_pos_is_pos(n - 1, w);
    lemma_div_nonincreasing(n - 1, w);
    lemma_div_pos_is_pos(n - 1, cs);
    let q = (n - 1) / cs;
    let r = (n - 1) % cs;
    lemma_fundamental_div_mod(n - 1, cs);
    assert(m == q + 1);
    assert((m - 1) * cs == n - 1 - r) by {
        lemma_mul_is_commutative(q, cs);
    }
    assert(n <= m * cs) by {
        lemma_mul_is_distributive_add_other_way(cs, q, 1);
        lemma_mul_is_commutative(q, cs);
    }
    // m <= w because n - 1 < w * cs.
    let qw = (n - 1) / w;
    let rw = (n - 1) % w;
    lemma_fundamental_div_mod(n - 1, w);
    assert(w * cs == w * qw + w) by {
        lemma_mul_is_distributive_add_other_way(w, qw, 1);
        lemma_mul_is_commutative(qw, w);
    }
    assert(n - 1 < w * cs) by {
        lemma_mul_is_commutative(qw, w);
    }
    assert(q < w) by {
        lemma_mul_is_commutative(w, cs);
        lemma_multiply_divide_lt(n - 1, cs, w);
    }
}

/// Generate the chunk plan for `n` descriptors and `w` workers.
///
/// Chunk `i` starts at `i * chunk_size`; every chunk has the nominal size
/// except the last, which absorbs the remainder; workers whose start would
/// fall past the end receive no chunk at all.
pub fn plan_chunks(n: usize, w: usize) -> (chunks: Vec<WorkChunk>)
    requires
        1 <= w,
    ensures
        is_chunk_plan(chunks@, n as int, w as int),
{
    let mut chunks: Vec<WorkChunk> = Vec::new();
    if n == 0 {
        return chunks;
    }
    let cs: usize = (n - 1) / w + 1;
    proof {
        lemma_chunk_basics(n as int, w as int);
        vstd::arithmetic::mul::lemma_mul_basics(cs as int);
    }
    let mut start: usize = 0;
    while n - start > cs
        invariant
            1 <= w,
            1 <= n,
            cs == spec_chunk_size(n as int, w as int),
            1 <= cs <= n,
            start == chunks@.len() * cs,
            start < n,
            forall|j: int|
                0 <= j < chunks@.len() ==> (#[trigger] chunks@[j]).start == spec_chunk_start(
                    n as int,
                    w as int,
                    j,
                ),
            forall|j: int| 0 <= j < chunks@.len() ==> (#[trigger] chunks@[j]).len == cs,
        decreases n - start,
    {
        let ghost k = chunks@.len() as int;
        chunks.push(WorkChunk { start, len: cs });
        proof {
            lemma_mul_is_distributive_add_other_way(cs as int, k, 1);
            lemma_mul_is_commutative(k, cs as int);
            lemma_mul_is_commutative(k + 1, cs as int);
        }
        start = start + cs;
    }
    let ghost k = chunks@.len() as int;
    let last = WorkChunk { start, len: n - start };
    chunks.push(last);
    proof {
        let ni = n as int;
        let wi = w as int;
        let csi = cs as int;
        let m = spec_chunk_count(ni, wi);
        // start == k * cs, k * cs <= n - 1 < k * cs + cs, so k == (n - 1) / cs
        // and the chunk just pushed is the last one of the plan.
        lemma_fundamental_div_mod_converse(ni - 1, csi, k, ni - 1 - k * csi);
        assert(m == k + 1);
        assert(forall|j: int|
            0 <= j < k ==> spec_chunk_len(ni, wi, j) == csi);
    }
    chunks
}

/// Distinct chunks of one plan are pairwise disjoint: the earlier one ends
/// no later than the later one begins.
pub proof fn lemma_chunks_disjoint(chunks: Seq<WorkChunk>, n: int, w: int, i: int, j: int)
    requires
        1 <= w,
        0 <= n,
        is_chunk_plan(chunks, n, w),
        0 <= i < j < chunks.len(),
    ensures
        chunks[i].start + chunks[i].len <= chunks[j].start,
{
    let cs = spec_chunk_size(n, w);
    lemma_chunk_basics(n, w);
    assert(chunks[i].start + chunks[i].len == (i + 1) * cs) by {
        lemma_mul_is_distributive_add_other_way(cs, i, 1);
        lemma_mul_is_commutative(i, cs);
        lemma_mul_is_commutative(i + 1, cs);
    }
    assert((i + 1) * cs <= j * cs) by {
        lemma_mul_inequality(i + 1, j, cs);
    }
}

/// The sum of the lengths of the chunks of `s`.
pub open spec fn sum_chunk_lens(chunks: Seq<WorkChunk>) -> int
    decreases chunks.len(),
{
    if chunks.len() == 0 {
        0
    } else {
        sum_chunk_lens(chunks.drop_last()) + chunks.last().len
    }
}

/// The sum of the first `k` chunk lengths of a plan: `k * chunk_size` while
/// chunks remain, and exactly `n` once all chunks are counted.
proof fn lemma_chunks_prefix_sum(chunks: Seq<WorkChunk>, n: int, w: int, k: int)
    requires
        1 <= w,
        1 <= n,
        is_chunk_plan(chunks, n, w),
        0 <= k <= chunks.len(),
    ensures
        sum_chunk_lens(chunks.take(k)) == if k < chunks.len() {
            k * spec_chunk_size(n, w)
        } else {
            n
        },
    decreases k,
{
    let cs = spec_chunk_size(n, w);
    let m = spec_chunk_count(n, w);
    lemma_chunk_basics(n, w);
    if k == 0 {
        assert(chunks.take(0) =~= Seq::<WorkChunk>::empty());
    } else {
        lemma_chunks_prefix_sum(chunks, n, w, k - 1);
        assert(chunks.take(k).drop_last() =~= chunks.take(k - 1));
        assert(chunks.take(k).last() == chunks[k - 1]);
        if k < m {
            assert(sum_chunk_lens(chunks.take(k)) == (k - 1) * cs + cs);
            assert((k - 1) * cs + cs == k * cs) by {
                lemma_mul_is_distributive_add_other_way(cs, k - 1, 1);
                lemma_mul_is_commutative(k - 1, cs);
                lemma_mul_is_commutative(k, cs);
            }
        } else {
            assert(chunks[k - 1].len == n - (m - 1) * cs);
        }
    }
}

/// The chunk lengths of a plan sum to exactly `n`.
pub proof fn lemma_chunks_sum(chunks: Seq<WorkChunk>, n: int, w: int)
    requires
        1 <= w,
        0 <= n,
        is_chunk_plan(chunks, n, w),
    ensures
        sum_chunk_lens(chunks) == n,
{
    if n == 0 {
        assert(chunks =~= Seq::<WorkChunk>::empty());
    } else {
        lemma_chunks_prefix_sum(chunks, n, w, chunks.len() as int);
        assert(chunks.take(chunks.len() as int) =~= chunks);
    }
}

/// The slices of `s` selected by the first `k` chunks.
pub open spec fn chunk_slices_prefix<T>(chunks: Seq<WorkChunk>, s: Seq<T>, k: int) -> Seq<Seq<T>> {
    Seq::new(k as nat, |i: int| s.subrange(chunks[i].start as int, chunks[i].start + chunks[i].len))
}

/// The slices of `s` selected by the chunks, in worker order.
pub open spec fn chunk_slices<T>(chunks: Seq<WorkChunk>, s: Seq<T>) -> Seq<Seq<T>> {
    chunk_slices_prefix(chunks, s, chunks.len() as int)
}

proof fn lemma_chunks_concat_prefix<T>(chunks: Seq<WorkChunk>, n: int, w: int, s: Seq<T>, k: int)
    requires
        1 <= w,
        1 <= n,
        is_chunk_plan(chunks, n, w),
        s.len() == n,
        0 <= k <= chunks.len(),
    ensures
        chunk_slices_prefix(chunks, s, k).flatten() =~= s.take(sum_chunk_lens(chunks.take(k))),
    decreases k,
{
    lemma_chunk_basics(n, w);
    if k == 0 {
        assert(chunk_slices_prefix(chunks, s, 0) =~= Seq::<Seq<T>>::empty());
        assert(s.take(0) =~= Seq::<T>::empty());
    } else {
        lemma_chunks_concat_prefix(chunks, n, w, s, k - 1);
        lemma_chunks_prefix_sum(chunks, n, w, k - 1);
        lemma_chunks_prefix_sum(chunks, n, w, k);
        let prev = chunk_slices_prefix(chunks, s, k - 1);
        let cur = chunk_slices_prefix(chunks, s, k);
        let cs = spec_chunk_size(n, w);
        let m = chunks.len() as int;
        lemma_chunk_basics(n, w);
        // the slice of chunk k - 1 begins exactly at the sum of the earlier lengths
        let a = sum_chunk_lens(chunks.take(k - 1));
        let b = sum_chunk_lens(chunks.take(k));
        assert(chunks[k - 1].start == a);
        assert(chunks[k - 1].start + chunks[k - 1].len == b) by {
            if k < m {
                lemma_mul_is_distributive_add_other_way(cs, k - 1, 1);
                lemma_mul_is_commutative(k - 1, cs);
                lemma_mul_is_commutative(k, cs);
            } else {
                lemma_mul_inequality(k - 1, m - 1, cs);
            }
        }
        assert(b <= n) by {
            if k < m {
                lemma_mul_inequality(k, m - 1, cs);
            }
        }
        let piece = s.subrange(chunks[k - 1].start as int, chunks[k - 1].start + chunks[k - 1].len);
        assert(cur =~= prev.push(piece));
        prev.lemma_flatten_push(piece);
        assert(prev.flatten() + piece =~= s.take(b));
    }
}

/// Concatenating the chunks' slices of `s`, in worker order, reproduces `s`.
pub proof fn lemma_chunks_concat<T>(chunks: Seq<WorkChunk>, n: int, w: int, s: Seq<T>)
    requires
        1 <= w,
        0 <= n,
        is_chunk_plan(chunks, n, w),
        s.len() == n,
    ensures
        chunk_slices(chunks, s).flatten() == s,
{
    if n == 0 {
        assert(chunk_slices(chunks, s) =~= Seq::<Seq<T>>::empty());
        assert(chunk_slices(chunks, s).flatten() =~= s);
    } else {
        lemma_chunks_concat_prefix(chunks, n, w, s, chunks.len() as int);
        lemma_chunks_sum(chunks, n, w);
        assert(chunks.take(chunks.len() as int) =~= chunks);
        assert(s.take(n) =~= s);
    }
}

/// Copy the slice of `descs` that `chunk` selects, so a worker can own its
/// part of the work.
pub fn take_chunk<T: Copy>(descs: &Vec<T>, chunk: WorkChunk) -> (part: Vec<T>)
    requires
        chunk.start + chunk.len <= descs@.len(),
    ensures
        part@ == descs@.subrange(chunk.start as int, chunk.start + chunk.len),
{
    let mut part: Vec<T> = Vec::new();
    let dlen: usize = descs.len();
    let mut i: usize = 0;
    while i < chunk.len
        invariant
            dlen == descs@.len(),
            chunk.start + chunk.len <= dlen,
            i <= chunk.len,
            part@ =~= descs@.subrange(chunk.start as int, chunk.start + i),
        decreases chunk.len - i,
    {
        part.push(descs[chunk.start + i]);
        i = i + 1;
    }
    part
}

} // verus!
