//! The chunker: a container is cut into contiguous pieces of at most
//! `bytes_per_code` bytes, one for each QR code.
//!
//! Chunks are numbered from one. Chunk `k` is the range
//! `[(k - 1) * bytes_per_code, min(k * bytes_per_code, len))` of the container.

use crate::errors::Error;
use vstd::arithmetic::div_mod::lemma_fundamental_div_mod;
use vstd::arithmetic::div_mod::lemma_fundamental_div_mod_converse;
use vstd::arithmetic::div_mod::lemma_mod_bound;
use vstd::prelude::*;
use vstd::slice::slice_to_vec;

verus! {

/// The largest number of chunks a container may have: the count travels in
/// one byte of the wire frame.
pub const MAX_CHUNKS: usize = 255;

/// The number of chunks that `len` bytes make at `bytes_per_code` bytes each:
/// `len / bytes_per_code`, rounded up.
pub open spec fn chunk_count(len: nat, bytes_per_code: int) -> int
    recommends
        bytes_per_code > 0,
{
    (len + bytes_per_code - 1) / bytes_per_code
}

/// Whether `len` bytes can be carried at `bytes_per_code` bytes a code: a
/// code must carry at least one byte, and at most 255 codes are allowed.
pub open spec fn fits(len: nat, bytes_per_code: int) -> bool {
    bytes_per_code > 0 && chunk_count(len, bytes_per_code) <= MAX_CHUNKS
}

/// Where chunk `k` starts.
pub open spec fn chunk_start(k: int, bytes_per_code: int) -> int {
    (k - 1) * bytes_per_code
}

/// Where chunk `k` ends: after `bytes_per_code` bytes, or with the container.
pub open spec fn chunk_end(k: int, bytes_per_code: int, len: nat) -> int {
    if k * bytes_per_code <= len {
        k * bytes_per_code
    } else {
        len as int
    }
}

/// The bytes of chunk `k`.
pub open spec fn chunk(container: Seq<u8>, bytes_per_code: int, k: int) -> Seq<u8> {
    container.subrange(
        chunk_start(k, bytes_per_code),
        chunk_end(k, bytes_per_code, container.len()),
    )
}

/// All chunks of a container, in order.
pub open spec fn chunks_of(container: Seq<u8>, bytes_per_code: int) -> Seq<Seq<u8>> {
    Seq::new(
        chunk_count(container.len(), bytes_per_code) as nat,
        |i: int| chunk(container, bytes_per_code, i + 1),
    )
}

/// The bytes of each member of a list of byte vectors.
pub open spec fn bytes_of(parts: Seq<Vec<u8>>) -> Seq<Seq<u8>> {
    Seq::new(parts.len(), |i: int| parts[i]@)
}

/// The chunk count is the ceiling of `len / bytes_per_code`: the one number
/// `n` with `(n - 1) * bytes_per_code < len <= n * bytes_per_code`.
pub proof fn lemma_chunk_count_is_ceiling(len: nat, bytes_per_code: int)
    requires
        bytes_per_code > 0,
    ensures
        chunk_count(len, bytes_per_code) >= 0,
        (chunk_count(len, bytes_per_code) - 1) * bytes_per_code < len,
        len <= chunk_count(len, bytes_per_code) * bytes_per_code,
{
    let x = len + bytes_per_code - 1;
    let n = x / bytes_per_code;
    let r = x % bytes_per_code;
    lemma_fundamental_div_mod(x, bytes_per_code);
    lemma_mod_bound(x, bytes_per_code);
    assert(bytes_per_code * n == n * bytes_per_code) by (nonlinear_arith);
    assert((n - 1) * bytes_per_code == n * bytes_per_code - bytes_per_code) by (nonlinear_arith);
    assert(n >= 0) by (nonlinear_arith)
        requires
            n * bytes_per_code >= 0,
            bytes_per_code > 0,
            (n - 1) * bytes_per_code == n * bytes_per_code - bytes_per_code,
            (n - 1) * bytes_per_code < len,
    {
        if n < 0 {
            assert(n * bytes_per_code <= -bytes_per_code);
        }
    }
}

/// Any number that lies where the ceiling lies is the chunk count.
pub proof fn lemma_ceiling_is_chunk_count(len: nat, bytes_per_code: int, n: int)
    requires
        bytes_per_code > 0,
        (n - 1) * bytes_per_code < len,
        len <= n * bytes_per_code,
    ensures
        n == chunk_count(len, bytes_per_code),
{
    let r = len + bytes_per_code - 1 - n * bytes_per_code;
    assert((n - 1) * bytes_per_code == n * bytes_per_code - bytes_per_code) by (nonlinear_arith);
    lemma_fundamental_div_mod_converse(len + bytes_per_code - 1, bytes_per_code, n, r);
}

/// Chunks before the last are full, and each chunk starts where the one
/// before it ended.
pub proof fn lemma_chunk_bounds(len: nat, bytes_per_code: int, k: int)
    requires
        bytes_per_code > 0,
        1 <= k <= chunk_count(len, bytes_per_code),
    ensures
        0 <= chunk_start(k, bytes_per_code) < chunk_end(k, bytes_per_code, len) <= len,
        chunk_end(k, bytes_per_code, len) - chunk_start(k, bytes_per_code) <= bytes_per_code,
        k < chunk_count(len, bytes_per_code) ==> chunk_end(k, bytes_per_code, len) - chunk_start(
            k,
            bytes_per_code,
        ) == bytes_per_code,
        k > 1 ==> chunk_start(k, bytes_per_code) == chunk_end(k - 1, bytes_per_code, len),
        k == chunk_count(len, bytes_per_code) ==> chunk_end(k, bytes_per_code, len) == len,
{
    let n = chunk_count(len, bytes_per_code);
    lemma_chunk_count_is_ceiling(len, bytes_per_code);
    assert((k - 1) * bytes_per_code == k * bytes_per_code - bytes_per_code) by (nonlinear_arith);
    assert((k - 1) * bytes_per_code >= 0) by (nonlinear_arith)
        requires
            k >= 1,
            bytes_per_code > 0,
    ;
    assert((k - 1) * bytes_per_code <= (n - 1) * bytes_per_code) by (nonlinear_arith)
        requires
            k <= n,
            bytes_per_code > 0,
    ;
    if k < n {
        assert(k * bytes_per_code <= (n - 1) * bytes_per_code) by (nonlinear_arith)
            requires
                k <= n - 1,
                bytes_per_code > 0,
        ;
    }
}

/// Counts the chunks of a container of `len` bytes.
///
/// Fails with `CapacityExceeded` exactly when a code carries no byte at all
/// or more than 255 chunks would be needed.
pub fn total_chunks(len: usize, bytes_per_code: i32) -> (total: Result<u8, Error>)
    ensures
        match total {
            Ok(n) => fits(len as nat, bytes_per_code as int) && n == chunk_count(
                len as nat,
                bytes_per_code as int,
            ),
            Err(e) => e == Error::CapacityExceeded && !fits(len as nat, bytes_per_code as int),
        },
{
    if bytes_per_code <= 0 {
        return Err(Error::CapacityExceeded);
    }
    let per_code: usize = bytes_per_code as usize;
    let full: usize = len / per_code;
    let rest: usize = len % per_code;
    proof {
        lemma_fundamental_div_mod(len as int, per_code as int);
        assert(per_code * full == full * per_code) by (nonlinear_arith);
        assert((full + 1) * per_code == full * per_code + per_code) by (nonlinear_arith);
        if rest == 0 {
            lemma_fundamental_div_mod_converse(
                len + per_code - 1,
                per_code as int,
                full as int,
                per_code - 1,
            );
        } else {
            lemma_fundamental_div_mod_converse(
                len + per_code - 1,
                per_code as int,
                full + 1,
                rest - 1,
            );
        }
    }
    if full > MAX_CHUNKS {
        return Err(Error::CapacityExceeded);
    }
    let count: usize = if rest == 0 {
        full
    } else {
        full + 1
    };
    if count > MAX_CHUNKS {
        Err(Error::CapacityExceeded)
    } else {
        Ok(count as u8)
    }
}

/// Cuts a container into its chunks.
///
/// Fails with `CapacityExceeded`, and hands out no chunk, exactly when
/// `total_chunks` fails. Otherwise the chunks are those of `chunks_of`: they
/// follow one another without gap or overlap and together are the container.
pub fn split_chunks(container: &[u8], bytes_per_code: i32) -> (split: Result<Vec<Vec<u8>>, Error>)
    ensures
        match split {
            Ok(chunks) => {
                &&& fits(container@.len(), bytes_per_code as int)
                &&& chunks@.len() == chunk_count(container@.len(), bytes_per_code as int)
                &&& forall|i: int|
                    0 <= i < chunks@.len() ==> (#[trigger] chunks@[i])@ == chunk(
                        container@,
                        bytes_per_code as int,
                        i + 1,
                    )
                &&& bytes_of(chunks@) == chunks_of(container@, bytes_per_code as int)
                &&& bytes_of(chunks@).flatten() == container@
            },
            Err(e) => e == Error::CapacityExceeded && !fits(
                container@.len(),
                bytes_per_code as int,
            ),
        },
{
    let total: usize = match total_chunks(container.len(), bytes_per_code) {
        Ok(n) => n as usize,
        Err(e) => {
            return Err(e);
        },
    };
    let per_code: usize = bytes_per_code as usize;
    let mut chunks: Vec<Vec<u8>> = Vec::new();
    let mut start: usize = 0;
    let mut done: usize = 0;
    while done < total
        invariant
            per_code == bytes_per_code,
            bytes_per_code > 0,
            total == chunk_count(container@.len(), bytes_per_code as int),
            done <= total,
            start <= container@.len(),
            done < total ==> start == chunk_start(done + 1, bytes_per_code as int),
            chunks@.len() == done,
            forall|i: int|
                0 <= i < done ==> (#[trigger] chunks@[i])@ == chunk(
                    container@,
                    bytes_per_code as int,
                    i + 1,
                ),
        decreases total - done,
    {
        proof {
            lemma_chunk_bounds(container@.len(), bytes_per_code as int, done + 1);
            if done + 1 < total {
                lemma_chunk_bounds(container@.len(), bytes_per_code as int, done + 2);
            }
        }
        let end: usize = if container.len() - start > per_code {
            start + per_code
        } else {
            container.len()
        };
        let piece = slice_to_vec(&container[start..end]);
        chunks.push(piece);
        start = end;
        done += 1;
    }
    proof {
        assert(bytes_of(chunks@) =~= chunks_of(container@, bytes_per_code as int));
        lemma_chunks_cover(container@, bytes_per_code as int);
    }
    Ok(chunks)
}

/// Concatenating the chunks of a container in order gives back the container.
pub proof fn lemma_chunks_cover(container: Seq<u8>, bytes_per_code: int)
    requires
        bytes_per_code > 0,
    ensures
        chunks_of(container, bytes_per_code).flatten() == container,
{
    let n = chunk_count(container.len(), bytes_per_code);
    lemma_chunk_count_is_ceiling(container.len(), bytes_per_code);
    lemma_prefix_cover(container, bytes_per_code, n);
    let all = chunks_of(container, bytes_per_code);
    assert(all.take(n) =~= all);
    if n > 0 {
        lemma_chunk_bounds(container.len(), bytes_per_code, n);
    }
    assert(container.subrange(0, container.len() as int) =~= container);
}

/// The first `m` chunks, concatenated, are the container up to the end of
/// chunk `m`.
proof fn lemma_prefix_cover(container: Seq<u8>, bytes_per_code: int, m: int)
    requires
        bytes_per_code > 0,
        0 <= m <= chunk_count(container.len(), bytes_per_code),
    ensures
        chunks_of(container, bytes_per_code).take(m).flatten() == container.subrange(
            0,
            if m == 0 {
                0
            } else {
                chunk_end(m, bytes_per_code, container.len())
            },
        ),
    decreases m,
{
    let all = chunks_of(container, bytes_per_code);
    if m == 0 {
        assert(all.take(0).flatten() =~= Seq::<u8>::empty());
        assert(container.subrange(0, 0) =~= Seq::<u8>::empty());
    } else {
        lemma_prefix_cover(container, bytes_per_code, m - 1);
        lemma_chunk_bounds(container.len(), bytes_per_code, m);
        if m > 1 {
            lemma_chunk_bounds(container.len(), bytes_per_code, m - 1);
        }
        let piece = chunk(container, bytes_per_code, m);
        assert(all.take(m) =~= all.take(m - 1).push(piece));
        all.take(m - 1).lemma_flatten_push(piece);
        let before = if m == 1 {
            0
        } else {
            chunk_end(m - 1, bytes_per_code, container.len())
        };
        assert(before == chunk_start(m, bytes_per_code));
        assert(container.subrange(0, before) + piece =~= container.subrange(
            0,
            chunk_end(m, bytes_per_code, container.len()),
        ));
    }
}

} // verus!
