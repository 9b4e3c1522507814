//! The container framer: one named file becomes a header followed by the
//! compressed bytes of the file.
//!
//! | offset | field                              | size |
//! |--------|------------------------------------|------|
//! | 0      | name, zero-padded                  | 8    |
//! | 8      | type tag                           | 4    |
//! | 12     | compressed length, little-endian   | 4    |
//! | 16     | raw length, little-endian          | 4    |
//! | 20     | compressed bytes                   | n    |

use crate::errors::Error;
use flate2::write::ZlibEncoder;
use flate2::Compression;
use std::io::Write;
use vstd::prelude::*;
use vstd::string::*;

verus! {

/// Size of the name field.
pub const NAME_FIELD_LEN: usize = 8;

/// Offset of the type tag, in the raw file and in the container alike.
pub const TYPE_TAG_OFFSET: usize = 8;

/// The least number of raw bytes a file must have: it ends with the type tag.
pub const MIN_RAW_LEN: usize = 12;

/// Size of the header that precedes the compressed bytes.
pub const HEADER_LEN: usize = 20;

/// The name field: the first eight bytes of the name, and zeros where the
/// name has fewer.
pub open spec fn name_field(name: Seq<u8>) -> Seq<u8> {
    Seq::new(
        NAME_FIELD_LEN as nat,
        |i: int|
            if i < name.len() {
                name[i]
            } else {
                0u8
            },
    )
}

/// The four bytes of the raw file that say of what type it is.
pub open spec fn type_tag(raw: Seq<u8>) -> Seq<u8>
    recommends
        raw.len() >= MIN_RAW_LEN,
{
    raw.subrange(TYPE_TAG_OFFSET as int, MIN_RAW_LEN as int)
}

/// A length field: the low 32 bits of `len`, least significant byte first.
pub open spec fn length_field(len: nat) -> Seq<u8> {
    seq![
        (len % 256) as u8,
        (len / 0x100 % 256) as u8,
        (len / 0x1_0000 % 256) as u8,
        (len / 0x100_0000 % 256) as u8,
    ]
}

/// The container of a file called `name` with the bytes `raw`, whose
/// compressed form is `compressed`.
pub open spec fn container_bytes(name: Seq<u8>, raw: Seq<u8>, compressed: Seq<u8>) -> Seq<u8>
    recommends
        raw.len() >= MIN_RAW_LEN,
{
    name_field(name) + type_tag(raw) + length_field(compressed.len()) + length_field(raw.len())
        + compressed
}

/// The zlib stream that the compressor makes of `raw` at its highest level,
/// or `None` where the compressor reports a failure.
pub uninterp spec fn zlib_best(raw: Seq<u8>) -> Option<Seq<u8>>;

/// The error type of std's I/O, which the compressor reports its failures in.
#[verifier::external_type_specification]
#[verifier::external_body]
pub struct ExIoError(std::io::Error);

/// Compresses `raw` with flate2's `ZlibEncoder` at `Compression::best()`,
/// writing into a fresh vector.
///
/// Trusted: the encoder writes into memory, so whether it succeeds, and the
/// bytes it then leaves in the vector, are a function of `raw` alone, which
/// the library calls `zlib_best`. Nothing is claimed about which files it
/// succeeds on.
#[verifier::external_body]
fn zlib_compress(raw: &[u8]) -> (stream: Result<Vec<u8>, std::io::Error>)
    ensures
        match stream {
            Ok(bytes) => zlib_best(raw@) == Some(bytes@),
            Err(_) => zlib_best(raw@) is None,
        },
{
    let mut encoder = ZlibEncoder::new(Vec::new(), Compression::best());
    encoder.write_all(raw)?;
    encoder.finish()
}

/// Appends `bytes` to `buffer`.
fn append(buffer: &mut Vec<u8>, bytes: &[u8])
    ensures
        final(buffer)@ == old(buffer)@ + bytes@,
{
    let mut i: usize = 0;
    while i < bytes.len()
        invariant
            i <= bytes.len(),
            buffer@ == old(buffer)@ + bytes@.subrange(0, i as int),
        decreases bytes.len() - i,
    {
        buffer.push(bytes[i]);
        i += 1;
    }
    assert(bytes@.subrange(0, i as int) == bytes@);
}

/// Builds the name field of the container from the bytes of a name.
///
/// A name of more than eight bytes gives its first eight; a shorter one is
/// padded with zeros.
pub fn pad_name(name: &[u8]) -> (field: Vec<u8>)
    ensures
        field@ == name_field(name@),
{
    let mut field: Vec<u8> = Vec::new();
    let mut i: usize = 0;
    while i < NAME_FIELD_LEN
        invariant
            i <= NAME_FIELD_LEN,
            field@.len() == i,
            forall|j: int| 0 <= j < i ==> field@[j] == name_field(name@)[j],
        decreases NAME_FIELD_LEN - i,
    {
        if i < name.len() {
            field.push(name[i]);
        } else {
            field.push(0);
        }
        i += 1;
    }
    assert(field@ =~= name_field(name@));
    field
}

/// Encodes a length as a four byte field, least significant byte first.
///
/// A length of 2^32 or more is stored by its low 32 bits.
pub fn encode_length(len: usize) -> (field: Vec<u8>)
    ensures
        field@ == length_field(len as nat),
{
    let wide: u64 = len as u64;
    let mut field: Vec<u8> = Vec::new();
    field.push((wide % 256) as u8);
    field.push((wide / 0x100 % 256) as u8);
    field.push((wide / 0x1_0000 % 256) as u8);
    field.push((wide / 0x100_0000 % 256) as u8);
    assert(field@ =~= length_field(len as nat));
    field
}

/// Lays out the container of a file from its name, its raw bytes and their
/// compressed form.
///
/// Fails with `TooShort` exactly when the raw file has fewer than twelve
/// bytes.
pub fn assemble_container(name: &str, raw: &[u8], compressed: &[u8]) -> (built: Result<
    Vec<u8>,
    Error,
>)
    ensures
        raw@.len() < MIN_RAW_LEN ==> (built matches Err(e) && e == Error::TooShort),
        raw@.len() >= MIN_RAW_LEN ==> built is Ok && built->Ok_0@ == container_bytes(
            name.spec_bytes(),
            raw@,
            compressed@,
        ),
{
    if raw.len() < MIN_RAW_LEN {
        return Err(Error::TooShort);
    }
    let mut container = pad_name(name.as_bytes());
    let tag = &raw[TYPE_TAG_OFFSET..MIN_RAW_LEN];
    append(&mut container, tag);
    let compressed_length = encode_length(compressed.len());
    append(&mut container, compressed_length.as_slice());
    let raw_length = encode_length(raw.len());
    append(&mut container, raw_length.as_slice());
    append(&mut container, compressed);
    Ok(container)
}

/// Compresses the raw bytes of a file.
///
/// Gives the zlib stream of `raw`, and fails with `Compression` exactly when
/// the compressor has no stream for `raw`.
pub fn compress(raw: &[u8]) -> (stream: Result<Vec<u8>, Error>)
    ensures
        match stream {
            Ok(bytes) => zlib_best(raw@) == Some(bytes@),
            Err(e) => e == Error::Compression && zlib_best(raw@) is None,
        },
{
    match zlib_compress(raw) {
        Ok(bytes) => Ok(bytes),
        Err(_) => Err(Error::Compression),
    }
}

/// Frames one named file: checks its length, compresses it and lays out the
/// container.
///
/// A file of fewer than twelve bytes is refused with `TooShort` before it is
/// compressed. Any other file fails with `Compression` exactly when the
/// compressor has no stream for it, and else gives its container.
pub fn build_container(name: &str, raw: &[u8]) -> (built: Result<Vec<u8>, Error>)
    ensures
        raw@.len() < MIN_RAW_LEN ==> (built matches Err(e) && e == Error::TooShort),
        raw@.len() >= MIN_RAW_LEN ==> match zlib_best(raw@) {
            Some(stream) => built matches Ok(container) && container@ == container_bytes(
                name.spec_bytes(),
                raw@,
                stream,
            ),
            None => built matches Err(e) && e == Error::Compression,
        },
{
    if raw.len() < MIN_RAW_LEN {
        return Err(Error::TooShort);
    }
    match compress(raw) {
        Ok(compressed) => assemble_container(name, raw, compressed.as_slice()),
        Err(e) => Err(e),
    }
}

/// Two names that differ in their name fields give different containers,
/// whatever the file: the container covers the name, not only the file.
pub proof fn lemma_names_tell_containers_apart(
    first: Seq<u8>,
    second: Seq<u8>,
    raw: Seq<u8>,
    compressed: Seq<u8>,
)
    requires
        raw.len() >= MIN_RAW_LEN,
        name_field(first) != name_field(second),
    ensures
        container_bytes(first, raw, compressed) != container_bytes(second, raw, compressed),
{
    lemma_container_layout(first, raw, compressed);
    lemma_container_layout(second, raw, compressed);
}

/// The layout of a container: every field stands at its fixed offset, and the
/// type tag is the four bytes at offset eight of the raw file.
pub proof fn lemma_container_layout(name: Seq<u8>, raw: Seq<u8>, compressed: Seq<u8>)
    requires
        raw.len() >= MIN_RAW_LEN,
    ensures
        ({
            let c = container_bytes(name, raw, compressed);
            &&& c.len() == HEADER_LEN + compressed.len()
            &&& name_field(name).len() == NAME_FIELD_LEN
            &&& c.subrange(0, 8) == name_field(name)
            &&& c.subrange(8, 12) == raw.subrange(8, 12)
            &&& c.subrange(12, 16) == length_field(compressed.len())
            &&& c.subrange(16, 20) == length_field(raw.len())
            &&& c.subrange(20, c.len() as int) == compressed
        }),
{
    let c = container_bytes(name, raw, compressed);
    assert(c.subrange(0, 8) =~= name_field(name));
    assert(c.subrange(8, 12) =~= raw.subrange(8, 12));
    assert(c.subrange(12, 16) =~= length_field(compressed.len()));
    assert(c.subrange(16, 20) =~= length_field(raw.len()));
    assert(c.subrange(20, c.len() as int) =~= compressed);
}

} // verus!
