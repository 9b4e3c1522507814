//! The orchestrator: a named file, given as base64 text, goes through the
//! framer, the chunker, the encoder and the renderer, and comes out as an
//! ordered list of images. A list of files is processed file by file and
//! fails as a whole at the first failure.

use crate::chunker::bytes_of;
use crate::chunker::chunk_count;
use crate::chunker::fits;
use crate::chunker::lemma_chunk_count_is_ceiling;
use crate::chunker::MAX_CHUNKS;
use crate::config::QrConfig;
use crate::container::build_container;
use crate::container::container_bytes;
use crate::container::lemma_container_layout;
use crate::container::lemma_names_tell_containers_apart;
use crate::container::name_field;
use crate::container::zlib_best;
use crate::container::MIN_RAW_LEN;
use crate::errors::Error;
use crate::frame::checksums_have_length;
use crate::frame::container_frames;
use crate::frame::lemma_checksum_tells_containers_apart;
use crate::frame::md5_of;
use crate::frame::wire_frames;
use crate::render::lemma_rendering_is_deterministic;
use crate::render::markup_of;
use crate::render::outcome_of;
use crate::render::render_frames;
use crate::render::render_outcome;
use crate::render::rendered_as;
use base64::engine::general_purpose;
use base64::Engine;
use vstd::prelude::*;
use vstd::utf8::encode_utf8;

verus! {

/// One named file as it arrives: its bytes as base64 text, its name, and a
/// description for the reader of the page.
#[derive(Debug, Default)]
pub struct PtcData {
    pub base64: String,
    pub name: String,
    pub description: Option<String>,
}

/// One rendered code with its place in the sequence, for an "i / total" label.
#[derive(Debug)]
pub struct QrImage {
    /// The place of the code in its file, counted from one.
    pub sequence_number: usize,
    /// The number of codes of the file.
    pub total_chunks: usize,
    /// The SVG markup of the code.
    pub svg: String,
}

/// What a rendered code is: its place, the number of codes, and its markup.
pub struct TaggedMarkup {
    pub sequence_number: nat,
    pub total_chunks: nat,
    pub svg: Seq<char>,
}

impl View for QrImage {
    type V = TaggedMarkup;

    open spec fn view(&self) -> TaggedMarkup {
        TaggedMarkup {
            sequence_number: self.sequence_number as nat,
            total_chunks: self.total_chunks as nat,
            svg: self.svg@,
        }
    }
}

/// What each code of a list is.
pub open spec fn tagged_of(codes: Seq<QrImage>) -> Seq<TaggedMarkup> {
    Seq::new(codes.len(), |i: int| codes[i]@)
}

/// The images of one file with their tags: image `i`, counted from zero, is
/// number `i + 1` of as many as there are images.
pub open spec fn numbered(images: Seq<Seq<char>>) -> Seq<TaggedMarkup> {
    Seq::new(
        images.len(),
        |i: int|
            TaggedMarkup {
                sequence_number: (i + 1) as nat,
                total_chunks: images.len(),
                svg: images[i],
            },
    )
}

/// The bytes that a text stands for in standard base64 with canonical
/// padding, or `None` where the text is not such an encoding.
pub uninterp spec fn base64_decoded(text: Seq<char>) -> Option<Seq<u8>>;

/// The error type of the base64 decoder.
#[verifier::external_type_specification]
#[verifier::external_body]
pub struct ExDecodeError(base64::DecodeError);

/// Decodes `text` with the `decode` method of base64's `STANDARD` engine.
///
/// Trusted: whether the decoder accepts the text, and the bytes it gives, are
/// a function of the text alone, which the library calls `base64_decoded`.
#[verifier::external_body]
fn base64_decode(text: &str) -> (decoded: Result<Vec<u8>, base64::DecodeError>)
    ensures
        match decoded {
            Ok(bytes) => base64_decoded(text@) == Some(bytes@),
            Err(_) => base64_decoded(text@) is None,
        },
{
    general_purpose::STANDARD.decode(text)
}

/// Decodes the base64 text of a file into its raw bytes.
///
/// Fails with `Decode` exactly when the text is not valid base64.
pub fn decode_payload(text: &str) -> (decoded: Result<Vec<u8>, Error>)
    ensures
        match decoded {
            Ok(raw) => base64_decoded(text@) == Some(raw@),
            Err(e) => e == Error::Decode && base64_decoded(text@) is None,
        },
{
    match base64_decode(text) {
        Ok(raw) => Ok(raw),
        Err(_) => Err(Error::Decode),
    }
}

/// Whether a container can be built from a payload: the text is base64 of at
/// least twelve bytes, and the compressor has a stream for them.
pub open spec fn can_build(text: Seq<char>) -> bool {
    &&& base64_decoded(text) matches Some(raw)
    &&& raw.len() >= MIN_RAW_LEN
    &&& zlib_best(raw) is Some
}

/// The container of the file called `name` with the payload `text`.
pub open spec fn file_container(name: Seq<char>, text: Seq<char>) -> Seq<u8>
    recommends
        can_build(text),
{
    let raw = base64_decoded(text)->Some_0;
    container_bytes(encode_utf8(name), raw, zlib_best(raw)->Some_0)
}

/// Whether the container of a file can be cut into wire frames: it can be
/// built, and it fits into 255 codes.
pub open spec fn can_frame(name: Seq<char>, text: Seq<char>, config: QrConfig) -> bool {
    &&& can_build(text)
    &&& fits(file_container(name, text).len(), config.bytes_per_qr as int)
}

/// The wire frames of a file, in sequence order.
pub open spec fn file_frames(name: Seq<char>, text: Seq<char>, config: QrConfig) -> Seq<Seq<u8>>
    recommends
        can_frame(name, text, config),
{
    wire_frames(file_container(name, text), config.bytes_per_qr as int)
}

/// Whether the pipeline hands out images for a file: its wire frames can be
/// made, and every one of them fits into a symbol.
pub open spec fn can_generate(name: Seq<char>, text: Seq<char>, config: QrConfig) -> bool {
    &&& can_frame(name, text, config)
    &&& forall|i: int|
        0 <= i < file_frames(name, text, config).len() ==> render_outcome(
            #[trigger] file_frames(name, text, config)[i],
            config,
        ) is Ok
}

/// The images of a file: one for each wire frame, in sequence order.
pub open spec fn images_of(name: Seq<char>, text: Seq<char>, config: QrConfig) -> Seq<Seq<char>>
    recommends
        can_generate(name, text, config),
{
    Seq::new(
        file_frames(name, text, config).len(),
        |i: int| render_outcome(file_frames(name, text, config)[i], config)->Ok_0,
    )
}

/// What chunking, encoding and rendering a container under a configuration
/// comes to: `CapacityExceeded` where the container does not fit into 255
/// codes, else what rendering its wire frames comes to.
pub open spec fn container_rendered_as(
    container: Seq<u8>,
    config: QrConfig,
    outcome: Result<Seq<Seq<char>>, Error>,
) -> bool {
    if fits(container.len(), config.bytes_per_qr as int) {
        rendered_as(wire_frames(container, config.bytes_per_qr as int), config, outcome)
    } else {
        outcome == Err::<Seq<Seq<char>>, Error>(Error::CapacityExceeded)
    }
}

/// What the whole pipeline comes to for the file called `name` with the
/// payload `text`.
///
/// A payload that is not base64 gives `Decode`. A file of fewer than twelve
/// bytes gives `TooShort`. A file that the compressor has no stream for gives
/// `Compression`. Any other file comes to what its container comes to.
pub open spec fn generated_as(
    name: Seq<char>,
    text: Seq<char>,
    config: QrConfig,
    outcome: Result<Seq<Seq<char>>, Error>,
) -> bool {
    match base64_decoded(text) {
        None => outcome == Err::<Seq<Seq<char>>, Error>(Error::Decode),
        Some(raw) => if raw.len() < MIN_RAW_LEN {
            outcome == Err::<Seq<Seq<char>>, Error>(Error::TooShort)
        } else {
            match zlib_best(raw) {
                None => outcome == Err::<Seq<Seq<char>>, Error>(Error::Compression),
                Some(stream) => container_rendered_as(
                    container_bytes(encode_utf8(name), raw, stream),
                    config,
                    outcome,
                ),
            }
        },
    }
}

/// Chunks a container, wraps the chunks into wire frames and renders them.
///
/// Fails with `CapacityExceeded` where the container does not fit into 255
/// codes or a frame does not fit into its symbol, with `Render` where a
/// symbol cannot be generated for another reason. The first failing frame
/// decides, and no image is handed out unless every frame has one. Where the
/// container fits, every checksum in its frames has sixteen bytes.
pub fn render_container(container: &[u8], config: &QrConfig) -> (rendered: Result<
    Vec<String>,
    Error,
>)
    ensures
        container_rendered_as(container@, *config, outcome_of(rendered)),
        fits(container@.len(), config.bytes_per_qr as int) ==> checksums_have_length(
            container@,
            config.bytes_per_qr as int,
        ),
        rendered matches Ok(images) ==> images@.len() == chunk_count(
            container@.len(),
            config.bytes_per_qr as int,
        ) && images@.len() <= MAX_CHUNKS,
{
    let frames = match container_frames(container, config.bytes_per_qr) {
        Ok(frames) => frames,
        Err(e) => {
            return Err(e);
        },
    };
    assert(bytes_of(frames@) =~= wire_frames(container@, config.bytes_per_qr as int));
    render_frames(&frames, config)
}

/// Generates the QR codes of one file, as SVG markup, in sequence order.
///
/// The failures come in this order: `Decode` for a payload that is not
/// base64, `TooShort` for a file of fewer than twelve bytes, `Compression`
/// where the compressor has no stream for the file, and then those of
/// `render_container`. A file succeeds exactly when `can_generate` holds of
/// it, and then has one image for each wire frame of its container.
pub fn generate_qr_svgs(ptc_file: PtcData, config: QrConfig) -> (generated: Result<
    Vec<String>,
    Error,
>)
    ensures
        generated_as(ptc_file.name@, ptc_file.base64@, config, outcome_of(generated)),
        generated is Ok <==> can_generate(ptc_file.name@, ptc_file.base64@, config),
        generated matches Ok(images) ==> {
            &&& markup_of(images@) == images_of(ptc_file.name@, ptc_file.base64@, config)
            &&& images@.len() == chunk_count(
                file_container(ptc_file.name@, ptc_file.base64@).len(),
                config.bytes_per_qr as int,
            )
            &&& 1 <= images@.len() <= MAX_CHUNKS
        },
        can_frame(ptc_file.name@, ptc_file.base64@, config) ==> checksums_have_length(
            file_container(ptc_file.name@, ptc_file.base64@),
            config.bytes_per_qr as int,
        ),
        match base64_decoded(ptc_file.base64@) {
            None => generated matches Err(e) && e == Error::Decode,
            Some(raw) => if raw.len() < MIN_RAW_LEN {
                generated matches Err(e) && e == Error::TooShort
            } else {
                zlib_best(raw) is None ==> (generated matches Err(e) && e == Error::Compression)
            },
        },
{
    generate_for(&ptc_file, &config)
}

/// Generates the QR codes of one file that stays with the caller.
fn generate_for(ptc_file: &PtcData, config: &QrConfig) -> (generated: Result<Vec<String>, Error>)
    ensures
        generated_as(ptc_file.name@, ptc_file.base64@, *config, outcome_of(generated)),
        generated is Ok <==> can_generate(ptc_file.name@, ptc_file.base64@, *config),
        generated matches Ok(images) ==> {
            &&& markup_of(images@) == images_of(ptc_file.name@, ptc_file.base64@, *config)
            &&& images@.len() == chunk_count(
                file_container(ptc_file.name@, ptc_file.base64@).len(),
                config.bytes_per_qr as int,
            )
            &&& 1 <= images@.len() <= MAX_CHUNKS
        },
        can_frame(ptc_file.name@, ptc_file.base64@, *config) ==> checksums_have_length(
            file_container(ptc_file.name@, ptc_file.base64@),
            config.bytes_per_qr as int,
        ),
{
    let raw = match decode_payload(ptc_file.base64.as_str()) {
        Ok(raw) => raw,
        Err(e) => {
            return Err(e);
        },
    };
    let container = match build_container(ptc_file.name.as_str(), raw.as_slice()) {
        Ok(container) => container,
        Err(e) => {
            return Err(e);
        },
    };
    let generated = render_container(container.as_slice(), config);
    proof {
        let name = ptc_file.name@;
        let text = ptc_file.base64@;
        assert(container@ == file_container(name, text));
        lemma_outcome_is_fixed(name, text, *config, outcome_of(generated));
        if generated is Ok {
            let per_code = config.bytes_per_qr as int;
            let count = chunk_count(container@.len(), per_code);
            lemma_container_layout(encode_utf8(name), raw@, zlib_best(raw@)->Some_0);
            lemma_chunk_count_is_ceiling(container@.len(), per_code);
            assert(count >= 1) by (nonlinear_arith)
                requires
                    per_code > 0,
                    container@.len() > 0,
                    container@.len() <= count * per_code,
            ;
        }
    }
    generated
}

/// Gives each image of a file its sequence number, counted from one, and the
/// number of images of the file.
pub fn tag_images(images: &Vec<String>) -> (tagged: Vec<QrImage>)
    ensures
        tagged_of(tagged@) == numbered(markup_of(images@)),
{
    let total = images.len();
    let mut tagged: Vec<QrImage> = Vec::new();
    let mut i: usize = 0;
    while i < total
        invariant
            total == images@.len(),
            i <= total,
            tagged@.len() == i,
            forall|j: int|
                0 <= j < i ==> (#[trigger] tagged@[j])@ == numbered(markup_of(images@))[j],
        decreases total - i,
    {
        tagged.push(QrImage { sequence_number: i + 1, total_chunks: total, svg: images[i].clone() });
        i += 1;
    }
    assert(tagged_of(tagged@) =~= numbered(markup_of(images@)));
    tagged
}

/// Generates the codes of every file of a list, in order, under one
/// configuration.
///
/// The list succeeds exactly when every file of it can be generated, and
/// then every file has its images, each with its sequence number and the
/// number of images of its file. Otherwise the list fails as a whole, with
/// the failure of the first file that cannot be generated, and hands out
/// nothing.
pub fn generate_all(files: &Vec<PtcData>, config: QrConfig) -> (generated: Result<
    Vec<Vec<QrImage>>,
    Error,
>)
    ensures
        match generated {
            Ok(all) => {
                &&& all@.len() == files@.len()
                &&& forall|f: int|
                    0 <= f < all@.len() ==> {
                        &&& can_generate(files@[f].name@, files@[f].base64@, config)
                        &&& tagged_of((#[trigger] all@[f])@) == numbered(
                            images_of(files@[f].name@, files@[f].base64@, config),
                        )
                    }
            },
            Err(e) => exists|k: int|
                {
                    &&& 0 <= k < files@.len()
                    &&& !can_generate((#[trigger] files@[k]).name@, files@[k].base64@, config)
                    &&& generated_as(files@[k].name@, files@[k].base64@, config, Err(e))
                    &&& forall|j: int|
                        0 <= j < k ==> can_generate(
                            (#[trigger] files@[j]).name@,
                            files@[j].base64@,
                            config,
                        )
                },
        },
        generated is Ok <==> forall|f: int|
            0 <= f < files@.len() ==> can_generate(
                (#[trigger] files@[f]).name@,
                files@[f].base64@,
                config,
            ),
{
    let mut all: Vec<Vec<QrImage>> = Vec::new();
    let mut f: usize = 0;
    while f < files.len()
        invariant
            f <= files@.len(),
            all@.len() == f,
            forall|g: int|
                0 <= g < f ==> tagged_of((#[trigger] all@[g])@) == numbered(
                    images_of(files@[g].name@, files@[g].base64@, config),
                ),
            forall|j: int|
                0 <= j < f ==> can_generate(
                    (#[trigger] files@[j]).name@,
                    files@[j].base64@,
                    config,
                ),
        decreases files@.len() - f,
    {
        match generate_for(&files[f], &config) {
            Ok(images) => {
                let tagged = tag_images(&images);
                all.push(tagged);
            },
            Err(e) => {
                assert(!can_generate(files@[f as int].name@, files@[f as int].base64@, config));
                return Err(e);
            },
        }
        f += 1;
    }
    Ok(all)
}

/// The outcome of the pipeline is fixed by the file and the configuration.
/// A file that can be generated comes to its images and to nothing else; a
/// file that cannot comes to a failure.
pub proof fn lemma_outcome_is_fixed(
    name: Seq<char>,
    text: Seq<char>,
    config: QrConfig,
    outcome: Result<Seq<Seq<char>>, Error>,
)
    requires
        generated_as(name, text, config, outcome),
    ensures
        can_generate(name, text, config) ==> outcome == Ok::<Seq<Seq<char>>, Error>(
            images_of(name, text, config),
        ),
        !can_generate(name, text, config) ==> outcome is Err,
{
    if can_build(text) && fits(file_container(name, text).len(), config.bytes_per_qr as int) {
        let frames = file_frames(name, text, config);
        assert(rendered_as(frames, config, outcome));
        match outcome {
            Ok(images) => {
                assert forall|i: int| 0 <= i < frames.len() implies render_outcome(
                    #[trigger] frames[i],
                    config,
                ) is Ok by {}
                assert(images =~= images_of(name, text, config));
            },
            Err(e) => {
                let k = choose|k: int|
                    {
                        &&& 0 <= k < frames.len()
                        &&& render_outcome(#[trigger] frames[k], config) == Err::<
                            Seq<char>,
                            Error,
                        >(e)
                        &&& forall|j: int|
                            0 <= j < k ==> render_outcome(#[trigger] frames[j], config) is Ok
                    };
                assert(render_outcome(file_frames(name, text, config)[k], config) is Err);
            },
        }
    }
}

/// Two files with the same payload whose names differ in their name fields
/// have different containers of the same length, hence equally many frames;
/// and where the digest tells the two containers apart, the container
/// checksums differ in every pair of frames: the checksum covers the whole
/// container, the name with it, and not the compressed bytes alone.
pub proof fn lemma_names_tell_checksums_apart(
    first: Seq<char>,
    second: Seq<char>,
    text: Seq<char>,
    config: QrConfig,
    k: int,
)
    requires
        can_frame(first, text, config),
        can_frame(second, text, config),
        checksums_have_length(file_container(first, text), config.bytes_per_qr as int),
        checksums_have_length(file_container(second, text), config.bytes_per_qr as int),
        name_field(encode_utf8(first)) != name_field(encode_utf8(second)),
        0 <= k < file_frames(first, text, config).len(),
    ensures
        file_container(first, text) != file_container(second, text),
        file_frames(first, text, config).len() == file_frames(second, text, config).len(),
        md5_of(file_container(first, text)) != md5_of(file_container(second, text))
            ==> file_frames(first, text, config)[k].subrange(20, 36) != file_frames(
            second,
            text,
            config,
        )[k].subrange(20, 36),
{
    let raw = base64_decoded(text)->Some_0;
    let stream = zlib_best(raw)->Some_0;
    lemma_container_layout(encode_utf8(first), raw, stream);
    lemma_container_layout(encode_utf8(second), raw, stream);
    lemma_names_tell_containers_apart(encode_utf8(first), encode_utf8(second), raw, stream);
    lemma_checksum_tells_containers_apart(
        file_container(first, text),
        config.bytes_per_qr as int,
        k + 1,
        file_container(second, text),
        config.bytes_per_qr as int,
        k + 1,
    );
}

/// The pipeline is a function of the file and the configuration: two runs on
/// the same file under the same configuration come to the same outcome, the
/// same images or the same failure.
pub proof fn lemma_generation_is_deterministic(
    name: Seq<char>,
    text: Seq<char>,
    config: QrConfig,
    first: Result<Seq<Seq<char>>, Error>,
    second: Result<Seq<Seq<char>>, Error>,
)
    requires
        generated_as(name, text, config, first),
        generated_as(name, text, config, second),
    ensures
        first == second,
{
    if can_build(text) && fits(file_container(name, text).len(), config.bytes_per_qr as int) {
        lemma_rendering_is_deterministic(file_frames(name, text, config), config, first, second);
    }
}

} // verus!
