//! The wire-frame encoder: each chunk is wrapped with its place in the
//! sequence and with two checksums, one of the chunk and one of the whole
//! container.
//!
//! | offset | field                 | size |
//! |--------|-----------------------|------|
//! | 0      | magic marker `PT`     | 2    |
//! | 2      | sequence number, 1... | 1    |
//! | 3      | total chunk count     | 1    |
//! | 4      | chunk checksum        | 16   |
//! | 20     | container checksum    | 16   |
//! | 36     | chunk payload         | n    |

use crate::chunker::chunk;
use crate::chunker::chunk_count;
use crate::chunker::chunks_of;
use crate::chunker::fits;
use crate::chunker::lemma_chunk_count_is_ceiling;
use crate::chunker::lemma_chunks_cover;
use crate::chunker::split_chunks;
use crate::chunker::MAX_CHUNKS;
use crate::errors::Error;
use vstd::prelude::*;

verus! {

/// First byte of the magic marker.
pub const MAGIC_FIRST: u8 = 0x50;

/// Second byte of the magic marker.
pub const MAGIC_SECOND: u8 = 0x54;

/// Size of a checksum.
pub const CHECKSUM_LEN: usize = 16;

/// Size of what precedes the payload in a wire frame.
pub const FRAME_HEADER_LEN: usize = 36;

/// The MD5 digest of `data`.
pub uninterp spec fn md5_of(data: Seq<u8>) -> Seq<u8>;

/// Computes the digest of `data` with `md5::compute`.
///
/// Trusted: the sixteen bytes are a function of `data` alone, which the
/// library calls `md5_of`.
#[verifier::external_body]
fn md5_digest(data: &[u8]) -> (digest: [u8; 16])
    ensures
        digest@ == md5_of(data@),
{
    md5::compute(data).into()
}

/// The bytes of a wire frame.
pub open spec fn frame_bytes(
    sequence_number: u8,
    total: u8,
    chunk_checksum: Seq<u8>,
    container_checksum: Seq<u8>,
    payload: Seq<u8>,
) -> Seq<u8> {
    seq![MAGIC_FIRST, MAGIC_SECOND, sequence_number, total] + chunk_checksum + container_checksum
        + payload
}

/// The wire frame of chunk `k` of a container.
pub open spec fn wire_frame(container: Seq<u8>, bytes_per_code: int, k: int) -> Seq<u8>
    recommends
        fits(container.len(), bytes_per_code),
        1 <= k <= chunk_count(container.len(), bytes_per_code),
{
    let payload = chunk(container, bytes_per_code, k);
    frame_bytes(
        k as u8,
        chunk_count(container.len(), bytes_per_code) as u8,
        md5_of(payload),
        md5_of(container),
        payload,
    )
}

/// All wire frames of a container, in order.
pub open spec fn wire_frames(container: Seq<u8>, bytes_per_code: int) -> Seq<Seq<u8>>
    recommends
        fits(container.len(), bytes_per_code),
{
    Seq::new(
        chunk_count(container.len(), bytes_per_code) as nat,
        |i: int| wire_frame(container, bytes_per_code, i + 1),
    )
}

/// Whether the checksum of the container and that of each of its chunks has
/// sixteen bytes, so that every field of a wire frame stands at its offset.
pub open spec fn checksums_have_length(container: Seq<u8>, bytes_per_code: int) -> bool {
    &&& md5_of(container).len() == CHECKSUM_LEN
    &&& forall|k: int|
        1 <= k <= chunk_count(container.len(), bytes_per_code) ==> md5_of(
            #[trigger] chunk(container, bytes_per_code, k),
        ).len() == CHECKSUM_LEN
}

/// What follows the header in each frame of a list.
pub open spec fn payloads_of(frames: Seq<Seq<u8>>) -> Seq<Seq<u8>> {
    Seq::new(
        frames.len(),
        |i: int| frames[i].subrange(FRAME_HEADER_LEN as int, frames[i].len() as int),
    )
}

/// Lays out one wire frame from its five fields.
pub fn build_frame(
    sequence_number: u8,
    total: u8,
    chunk_checksum: &[u8; 16],
    container_checksum: &[u8; 16],
    payload: &[u8],
) -> (frame: Vec<u8>)
    ensures
        frame@ == frame_bytes(
            sequence_number,
            total,
            chunk_checksum@,
            container_checksum@,
            payload@,
        ),
{
    let mut frame: Vec<u8> = Vec::new();
    frame.push(MAGIC_FIRST);
    frame.push(MAGIC_SECOND);
    frame.push(sequence_number);
    frame.push(total);
    assert(frame@ =~= seq![MAGIC_FIRST, MAGIC_SECOND, sequence_number, total]);
    let mut i: usize = 0;
    while i < CHECKSUM_LEN
        invariant
            i <= CHECKSUM_LEN,
            frame@ == seq![MAGIC_FIRST, MAGIC_SECOND, sequence_number, total]
                + chunk_checksum@.subrange(0, i as int),
        decreases CHECKSUM_LEN - i,
    {
        frame.push(chunk_checksum[i]);
        i += 1;
    }
    assert(chunk_checksum@.subrange(0, CHECKSUM_LEN as int) =~= chunk_checksum@);
    let mut j: usize = 0;
    while j < CHECKSUM_LEN
        invariant
            j <= CHECKSUM_LEN,
            frame@ == seq![MAGIC_FIRST, MAGIC_SECOND, sequence_number, total] + chunk_checksum@
                + container_checksum@.subrange(0, j as int),
        decreases CHECKSUM_LEN - j,
    {
        frame.push(container_checksum[j]);
        j += 1;
    }
    assert(container_checksum@.subrange(0, CHECKSUM_LEN as int) =~= container_checksum@);
    let mut n: usize = 0;
    while n < payload.len()
        invariant
            n <= payload.len(),
            frame@ == seq![MAGIC_FIRST, MAGIC_SECOND, sequence_number, total] + chunk_checksum@
                + container_checksum@ + payload@.subrange(0, n as int),
        decreases payload.len() - n,
    {
        frame.push(payload[n]);
        n += 1;
    }
    assert(payload@.subrange(0, n as int) =~= payload@);
    frame
}

/// Wraps the chunks of a container into wire frames.
///
/// The container checksum is computed once, over the whole container, and is
/// the same in every frame. The chunk checksum covers the payload of its own
/// frame only. Fails with `CapacityExceeded` exactly when there are more than
/// 255 chunks.
pub fn encode_frames(container: &[u8], chunks: &Vec<Vec<u8>>) -> (encoded: Result<
    Vec<Vec<u8>>,
    Error,
>)
    ensures
        match encoded {
            Ok(frames) => {
                &&& chunks@.len() <= MAX_CHUNKS
                &&& frames@.len() == chunks@.len()
                &&& md5_of(container@).len() == CHECKSUM_LEN
                &&& forall|i: int|
                    0 <= i < frames@.len() ==> {
                        &&& (#[trigger] frames@[i])@ == frame_bytes(
                            (i + 1) as u8,
                            chunks@.len() as u8,
                            md5_of(chunks@[i]@),
                            md5_of(container@),
                            chunks@[i]@,
                        )
                        &&& md5_of(chunks@[i]@).len() == CHECKSUM_LEN
                    }
            },
            Err(e) => e == Error::CapacityExceeded && chunks@.len() > MAX_CHUNKS,
        },
{
    if chunks.len() > MAX_CHUNKS {
        return Err(Error::CapacityExceeded);
    }
    let total: u8 = chunks.len() as u8;
    let container_checksum = md5_digest(container);
    let mut frames: Vec<Vec<u8>> = Vec::new();
    let mut i: usize = 0;
    while i < chunks.len()
        invariant
            i <= chunks@.len(),
            chunks@.len() <= MAX_CHUNKS,
            total == chunks@.len(),
            container_checksum@ == md5_of(container@),
            frames@.len() == i,
            forall|j: int|
                0 <= j < i ==> {
                    &&& (#[trigger] frames@[j])@ == frame_bytes(
                        (j + 1) as u8,
                        chunks@.len() as u8,
                        md5_of(chunks@[j]@),
                        md5_of(container@),
                        chunks@[j]@,
                    )
                    &&& md5_of(chunks@[j]@).len() == CHECKSUM_LEN
                },
        decreases chunks@.len() - i,
    {
        let payload = chunks[i].as_slice();
        let chunk_checksum = md5_digest(payload);
        let frame = build_frame((i + 1) as u8, total, &chunk_checksum, &container_checksum, payload);
        frames.push(frame);
        i += 1;
    }
    Ok(frames)
}

/// Cuts a container into chunks and wraps each into its wire frame.
///
/// Fails with `CapacityExceeded`, and hands out no frame, exactly when the
/// container does not fit into 255 chunks of `bytes_per_code` bytes.
pub fn container_frames(container: &[u8], bytes_per_code: i32) -> (encoded: Result<
    Vec<Vec<u8>>,
    Error,
>)
    ensures
        match encoded {
            Ok(frames) => {
                &&& fits(container@.len(), bytes_per_code as int)
                &&& frames@.len() == chunk_count(container@.len(), bytes_per_code as int)
                &&& checksums_have_length(container@, bytes_per_code as int)
                &&& forall|i: int|
                    0 <= i < frames@.len() ==> {
                        &&& (#[trigger] frames@[i])@ == wire_frame(
                            container@,
                            bytes_per_code as int,
                            i + 1,
                        )
                        &&& frames@[i]@.len() == FRAME_HEADER_LEN + chunk(
                            container@,
                            bytes_per_code as int,
                            i + 1,
                        ).len()
                        &&& frames@[i]@.subrange(4, 20) == md5_of(
                            chunk(container@, bytes_per_code as int, i + 1),
                        )
                        &&& frames@[i]@.subrange(20, 36) == md5_of(container@)
                        &&& frames@[i]@.subrange(36, frames@[i]@.len() as int) == chunk(
                            container@,
                            bytes_per_code as int,
                            i + 1,
                        )
                    }
            },
            Err(e) => e == Error::CapacityExceeded && !fits(
                container@.len(),
                bytes_per_code as int,
            ),
        },
{
    let chunks = match split_chunks(container, bytes_per_code) {
        Ok(chunks) => chunks,
        Err(e) => {
            return Err(e);
        },
    };
    match encode_frames(container, &chunks) {
        Ok(frames) => {
            proof {
                assert forall|i: int| 0 <= i < frames@.len() implies {
                    &&& (#[trigger] frames@[i])@.len() == FRAME_HEADER_LEN + chunks@[i]@.len()
                    &&& frames@[i]@.subrange(4, 20) == md5_of(chunks@[i]@)
                    &&& frames@[i]@.subrange(20, 36) == md5_of(container@)
                    &&& frames@[i]@.subrange(36, frames@[i]@.len() as int) == chunks@[i]@
                } by {
                    assert(frames@[i]@.len() >= FRAME_HEADER_LEN - CHECKSUM_LEN);
                    assert(md5_of(chunks@[i]@).len() == CHECKSUM_LEN);
                    lemma_frame_layout(
                        (i + 1) as u8,
                        chunks@.len() as u8,
                        md5_of(chunks@[i]@),
                        md5_of(container@),
                        chunks@[i]@,
                    );
                }
                assert forall|k: int|
                    1 <= k <= chunk_count(container@.len(), bytes_per_code as int) implies md5_of(
                    #[trigger] chunk(container@, bytes_per_code as int, k),
                ).len() == CHECKSUM_LEN by {
                    assert(frames@[k - 1]@.len() >= FRAME_HEADER_LEN - CHECKSUM_LEN);
                    assert(chunks@[k - 1]@ == chunk(container@, bytes_per_code as int, k));
                }
            }
            Ok(frames)
        },
        Err(e) => Err(e),
    }
}

/// Framing is a function of the container and the byte budget: two lists of
/// frames that both are the wire frames of one container are the same, byte
/// for byte, and so are the checksums in them.
pub proof fn lemma_framing_is_deterministic(
    container: Seq<u8>,
    bytes_per_code: int,
    first: Seq<Seq<u8>>,
    second: Seq<Seq<u8>>,
)
    requires
        first.len() == chunk_count(container.len(), bytes_per_code),
        second.len() == chunk_count(container.len(), bytes_per_code),
        forall|i: int|
            0 <= i < first.len() ==> #[trigger] first[i] == wire_frame(
                container,
                bytes_per_code,
                i + 1,
            ),
        forall|i: int|
            0 <= i < second.len() ==> #[trigger] second[i] == wire_frame(
                container,
                bytes_per_code,
                i + 1,
            ),
    ensures
        first == second,
{
    assert(first =~= second);
}

/// The layout of the wire frame of chunk `k`: the marker, the sequence
/// number `k`, the number of chunks, the checksum of the chunk at 4, that of
/// the container at 20, and the chunk itself from 36 on.
pub proof fn lemma_wire_frame_layout(container: Seq<u8>, bytes_per_code: int, k: int)
    requires
        fits(container.len(), bytes_per_code),
        1 <= k <= chunk_count(container.len(), bytes_per_code),
        checksums_have_length(container, bytes_per_code),
    ensures
        ({
            let f = wire_frame(container, bytes_per_code, k);
            let payload = chunk(container, bytes_per_code, k);
            &&& f.len() == FRAME_HEADER_LEN + payload.len()
            &&& f[0] == MAGIC_FIRST
            &&& f[1] == MAGIC_SECOND
            &&& f[2] == k
            &&& f[3] == chunk_count(container.len(), bytes_per_code)
            &&& f.subrange(4, 20) == md5_of(payload)
            &&& f.subrange(20, 36) == md5_of(container)
            &&& f.subrange(36, f.len() as int) == payload
        }),
{
    let payload = chunk(container, bytes_per_code, k);
    assert(md5_of(payload).len() == CHECKSUM_LEN);
    lemma_frame_layout(
        k as u8,
        chunk_count(container.len(), bytes_per_code) as u8,
        md5_of(payload),
        md5_of(container),
        payload,
    );
}

/// The payloads of the wire frames of a container are its chunks, and
/// concatenated in sequence order they are the container: every byte once,
/// without gap or overlap.
pub proof fn lemma_payloads_cover(container: Seq<u8>, bytes_per_code: int)
    requires
        fits(container.len(), bytes_per_code),
        checksums_have_length(container, bytes_per_code),
    ensures
        payloads_of(wire_frames(container, bytes_per_code)) == chunks_of(
            container,
            bytes_per_code,
        ),
        payloads_of(wire_frames(container, bytes_per_code)).flatten() == container,
{
    let frames = wire_frames(container, bytes_per_code);
    lemma_chunk_count_is_ceiling(container.len(), bytes_per_code);
    assert forall|i: int| 0 <= i < frames.len() implies payloads_of(frames)[i] == chunks_of(
        container,
        bytes_per_code,
    )[i] by {
        lemma_wire_frame_layout(container, bytes_per_code, i + 1);
    }
    assert(payloads_of(frames) =~= chunks_of(container, bytes_per_code));
    lemma_chunks_cover(container, bytes_per_code);
}

/// The container checksum tells containers apart as far as the digest does:
/// where the digests of two containers differ, no frame of the one carries
/// the container checksum of a frame of the other, whatever their payloads.
pub proof fn lemma_checksum_tells_containers_apart(
    first: Seq<u8>,
    first_per_code: int,
    j: int,
    second: Seq<u8>,
    second_per_code: int,
    k: int,
)
    requires
        fits(first.len(), first_per_code),
        fits(second.len(), second_per_code),
        1 <= j <= chunk_count(first.len(), first_per_code),
        1 <= k <= chunk_count(second.len(), second_per_code),
        checksums_have_length(first, first_per_code),
        checksums_have_length(second, second_per_code),
    ensures
        md5_of(first) != md5_of(second) ==> wire_frame(first, first_per_code, j).subrange(20, 36)
            != wire_frame(second, second_per_code, k).subrange(20, 36),
        md5_of(first) == md5_of(second) ==> wire_frame(first, first_per_code, j).subrange(20, 36)
            == wire_frame(second, second_per_code, k).subrange(20, 36),
{
    lemma_wire_frame_layout(first, first_per_code, j);
    lemma_wire_frame_layout(second, second_per_code, k);
}

/// The layout of a wire frame: every field stands at its fixed offset.
pub proof fn lemma_frame_layout(
    sequence_number: u8,
    total: u8,
    chunk_checksum: Seq<u8>,
    container_checksum: Seq<u8>,
    payload: Seq<u8>,
)
    requires
        chunk_checksum.len() == CHECKSUM_LEN,
        container_checksum.len() == CHECKSUM_LEN,
    ensures
        ({
            let f = frame_bytes(
                sequence_number,
                total,
                chunk_checksum,
                container_checksum,
                payload,
            );
            &&& f.len() == FRAME_HEADER_LEN + payload.len()
            &&& f[0] == MAGIC_FIRST
            &&& f[1] == MAGIC_SECOND
            &&& f[2] == sequence_number
            &&& f[3] == total
            &&& f.subrange(4, 20) == chunk_checksum
            &&& f.subrange(20, 36) == container_checksum
            &&& f.subrange(36, f.len() as int) == payload
        }),
{
    let f = frame_bytes(sequence_number, total, chunk_checksum, container_checksum, payload);
    assert(f.subrange(4, 20) =~= chunk_checksum);
    assert(f.subrange(20, 36) =~= container_checksum);
    assert(f.subrange(36, f.len() as int) =~= payload);
}

} // verus!
