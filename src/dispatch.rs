use vstd::prelude::*;

verus! {

/// Number of workers used when the host cannot report its parallelism.
pub const DEFAULT_WORKERS: usize = 4;

/// The number of workers to spawn: the host's available parallelism when it
/// is known (and non-zero), otherwise `DEFAULT_WORKERS`.
pub fn worker_count(available: Option<usize>) -> (r: usize)
    ensures
        r == (match available {
            Some(n) if n > 0 => n,
            _ => DEFAULT_WORKERS,
        }),
        r > 0,
{
    match available {
        Some(n) if n > 0 => n,
        _ => DEFAULT_WORKERS,
    }
}

/// Length of every chunk but possibly the last: `⌈len / workers⌉`.
pub open spec fn chunk_size(len: nat, workers: nat) -> nat
    recommends
        workers > 0,
{
    if len % workers == 0 {
        len / workers
    } else {
        len / workers + 1
    }
}

/// Whether `c` is the `k`-th chunk: the half-open range of pixel offsets
/// `[k · size, min((k + 1) · size, len))`.
pub open spec fn is_chunk(c: (usize, usize), len: nat, size: nat, k: int) -> bool {
    let end = (k + 1) * size;
    &&& c.0 == k * size
    &&& c.1 == (if end < len { end } else { len as int })
}

/// `chunks` splits `[0, len)` into consecutive ranges of `size` offsets (the
/// last one possibly shorter), with no empty range and none left over.
pub open spec fn is_split(chunks: Seq<(usize, usize)>, len: nat, size: nat) -> bool {
    &&& forall|k: int| 0 <= k < chunks.len() ==> is_chunk(#[trigger] chunks[k], len, size, k)
    &&& chunks.len() * size >= len
    &&& chunks.len() > 0 ==> (chunks.len() - 1) * size < len
}

/// Splits the offsets `[0, len)` of a pixel list into at most `workers`
/// contiguous chunks of `⌈len / workers⌉` offsets each; the final chunk may be
/// short.
pub fn partition(len: usize, workers: usize) -> (r: Vec<(usize, usize)>)
    requires
        workers > 0,
    ensures
        is_split(r@, len as nat, chunk_size(len as nat, workers as nat)),
        r@.len() <= workers,
{
    let size: usize = if len % workers == 0 {
        len / workers
    } else {
        assert(workers > 1 && len > 0) by (nonlinear_arith)
            requires
                len % workers != 0,
                workers > 0,
        ;
        assert(len / workers < len) by (nonlinear_arith)
            requires
                workers > 1,
                len > 0,
        ;
        len / workers + 1
    };
    let ghost sz = size as nat;
    assert(sz == chunk_size(len as nat, workers as nat));
    assert(len <= workers * sz) by (nonlinear_arith)
        requires
            workers > 0,
            sz == chunk_size(len as nat, workers as nat),
    {
        assert(len == workers * (len / workers) + len % workers);
    }
    assert(len > 0 ==> sz > 0) by (nonlinear_arith)
        requires
            len <= workers * sz,
    ;
    let mut chunks: Vec<(usize, usize)> = Vec::new();
    let mut start: usize = 0;
    assert(chunks@.len() * sz == 0);
    while start < len
        invariant
            start <= len,
            len > 0 ==> sz > 0,
            size == sz,
            len <= workers * sz,
            start < len ==> start == chunks@.len() * sz,
            start == len ==> chunks@.len() * sz >= len,
            chunks@.len() > 0 ==> (chunks@.len() - 1) * sz < len,
            forall|k: int| 0 <= k < chunks@.len() ==> is_chunk(#[trigger] chunks@[k], len as nat, sz, k),
        decreases len - start,
    {
        let end: usize = if len - start > size {
            start + size
        } else {
            len
        };
        let ghost n = chunks@.len();
        assert((n + 1) * sz == n * sz + sz) by (nonlinear_arith);
        chunks.push((start, end));
        start = end;
    }
    proof {
        let n = chunks@.len();
        if n > workers {
            assert((n - 1) * sz >= workers * sz) by (nonlinear_arith)
                requires
                    n - 1 >= workers,
            ;
        }
    }
    chunks
}

/// Every pixel offset below `len` lies in exactly one chunk of the split, the
/// one with index `p / size`: no pixel is left out and none is shared by two
/// workers.
pub proof fn lemma_each_pixel_in_one_chunk(chunks: Seq<(usize, usize)>, len: nat, size: nat, p: nat)
    requires
        is_split(chunks, len, size),
        p < len,
    ensures
        0 <= p / size < chunks.len(),
        chunks[(p / size) as int].0 <= p < chunks[(p / size) as int].1,
        forall|k: int|
            0 <= k < chunks.len() && #[trigger] chunks[k].0 <= p < chunks[k].1 ==> k == p / size,
{
    assert(size > 0) by (nonlinear_arith)
        requires
            chunks.len() * size >= len,
            p < len,
    ;
    let q = p / size;
    assert(q * size <= p < (q + 1) * size) by (nonlinear_arith)
        requires
            size > 0,
            q == p / size,
    {
        assert(p == size * (p / size) + p % size);
    }
    assert(q < chunks.len()) by (nonlinear_arith)
        requires
            q * size <= p,
            p < len,
            chunks.len() * size >= len,
            size > 0,
    ;
    assert forall|k: int|
        0 <= k < chunks.len() && #[trigger] chunks[k].0 <= p < chunks[k].1 implies k == q by {
        assert(k * size <= p < (k + 1) * size);
        if k < q {
            assert((k + 1) * size <= q * size) by (nonlinear_arith)
                requires
                    k + 1 <= q,
                    size > 0,
            ;
        } else if k > q {
            assert((q + 1) * size <= k * size) by (nonlinear_arith)
                requires
                    q + 1 <= k,
                    size > 0,
            ;
        }
    }
}

} // verus!
