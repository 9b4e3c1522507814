//! The renderer: one wire frame becomes one QR symbol, drawn as an SVG image.

use crate::chunker::bytes_of;
use crate::config::EcLevel;
use crate::config::QrConfig;
use crate::errors::Error;
use qrcode::render::svg;
use qrcode::types::QrError;
use qrcode::QrCode;
use qrcode::Version;
use vstd::prelude::*;

verus! {

/// The least width and height of an image.
pub const MIN_IMAGE_SIDE: u32 = 200;

/// The largest least side that may be asked of the renderer: it rounds the
/// side up to a multiple of the symbol's width, which is at most 185 modules.
pub const LARGEST_MIN_SIDE: u32 = 0xffff_ff00;

/// The longest data that is handed to the generator. The generator counts
/// the bits of its data, up to thirteen for a byte, in a machine word, and no
/// symbol holds anywhere near as much.
pub const LARGEST_FRAME: usize = 0x0fff_ffff;

/// Why no QR symbol could be generated.
#[derive(Clone, Copy, Debug, PartialEq, Eq, Structural)]
pub enum QrFault {
    /// The data does not fit into a symbol of the version and level asked for.
    DataTooLong,
    /// There is no symbol of the version and level asked for.
    InvalidVersion,
    /// The version cannot hold the kind of characters in the data.
    UnsupportedCharacterSet,
    /// An ECI designator is out of range.
    InvalidEciDesignator,
    /// A character does not belong to the character set.
    InvalidCharacter,
}

/// What the QR generator makes of `data`: the SVG markup of the symbol of the
/// given version and level, drawn in the two colours at no less than the
/// given size, or the reason why there is no such symbol.
pub uninterp spec fn qr_svg_markup(
    data: Seq<u8>,
    version: i16,
    level: EcLevel,
    min_width: u32,
    min_height: u32,
    dark: Seq<char>,
    light: Seq<char>,
) -> Result<Seq<char>, QrFault>;

/// Generates a symbol with `QrCode::with_version`, for `Version::Normal` of
/// the given number, and draws it with the crate's SVG renderer, with
/// `min_dimensions`, `dark_color` and `light_color` set.
///
/// Trusted: the markup, or the crate's error, is a function of the arguments
/// alone, which the library calls `qr_svg_markup`. The sides are bounded
/// because the renderer adds the symbol's width to them in 32 bits, the
/// length of the data because the generator multiplies it in a machine word.
#[verifier::external_body]
fn qr_svg(
    data: &[u8],
    version: i16,
    level: EcLevel,
    min_width: u32,
    min_height: u32,
    dark: &str,
    light: &str,
) -> (drawn: Result<String, QrFault>)
    requires
        data@.len() <= LARGEST_FRAME,
        min_width <= LARGEST_MIN_SIDE,
        min_height <= LARGEST_MIN_SIDE,
    ensures
        match drawn {
            Ok(markup) => qr_svg_markup(
                data@,
                version,
                level,
                min_width,
                min_height,
                dark@,
                light@,
            ) matches Ok(m) && m == markup@,
            Err(fault) => qr_svg_markup(
                data@,
                version,
                level,
                min_width,
                min_height,
                dark@,
                light@,
            ) matches Err(f) && f == fault,
        },
{
    let ec = match level {
        EcLevel::L => qrcode::EcLevel::L,
        EcLevel::M => qrcode::EcLevel::M,
        EcLevel::Q => qrcode::EcLevel::Q,
        EcLevel::H => qrcode::EcLevel::H,
    };
    match QrCode::with_version(data, Version::Normal(version), ec) {
        Ok(code) => Ok(code.render().min_dimensions(min_width, min_height)
            .dark_color(svg::Color(dark)).light_color(svg::Color(light)).build()),
        Err(QrError::DataTooLong) => Err(QrFault::DataTooLong),
        Err(QrError::InvalidVersion) => Err(QrFault::InvalidVersion),
        Err(QrError::UnsupportedCharacterSet) => Err(QrFault::UnsupportedCharacterSet),
        Err(QrError::InvalidEciDesignator) => Err(QrFault::InvalidEciDesignator),
        Err(QrError::InvalidCharacter) => Err(QrFault::InvalidCharacter),
    }
}

/// What rendering one wire frame under a configuration comes to: the markup
/// of a black-on-white image of at least 200 by 200 units, `CapacityExceeded`
/// where the frame is too long for the symbol, `Render` for any other fault.
///
/// A frame longer than `LARGEST_FRAME` is too long for any symbol, and the
/// generator is not asked about it.
pub open spec fn render_outcome(frame: Seq<u8>, config: QrConfig) -> Result<Seq<char>, Error> {
    if frame.len() > LARGEST_FRAME {
        Err(Error::CapacityExceeded)
    } else {
        match qr_svg_markup(
            frame,
            config.qr_version,
            config.error_level,
            MIN_IMAGE_SIDE,
            MIN_IMAGE_SIDE,
            "#000000"@,
            "#ffffff"@,
        ) {
            Ok(markup) => Ok(markup),
            Err(QrFault::DataTooLong) => Err(Error::CapacityExceeded),
            Err(_) => Err(Error::Render),
        }
    }
}

/// What rendering a sequence of wire frames comes to. Either every frame has
/// its image, in order, or the outcome is the failure of the first frame that
/// has none.
pub open spec fn rendered_as(
    frames: Seq<Seq<u8>>,
    config: QrConfig,
    outcome: Result<Seq<Seq<char>>, Error>,
) -> bool {
    match outcome {
        Ok(images) => {
            &&& images.len() == frames.len()
            &&& forall|i: int|
                0 <= i < frames.len() ==> render_outcome(#[trigger] frames[i], config) == Ok::<
                    Seq<char>,
                    Error,
                >(images[i])
        },
        Err(e) => exists|k: int|
            {
                &&& 0 <= k < frames.len()
                &&& render_outcome(#[trigger] frames[k], config) == Err::<Seq<char>, Error>(e)
                &&& forall|j: int| 0 <= j < k ==> render_outcome(#[trigger] frames[j], config) is Ok
            },
    }
}

/// The markup of each image of a list.
pub open spec fn markup_of(images: Seq<String>) -> Seq<Seq<char>> {
    Seq::new(images.len(), |i: int| images[i]@)
}

/// What a run of the renderer handed back, as plain sequences.
pub open spec fn outcome_of(rendered: Result<Vec<String>, Error>) -> Result<Seq<Seq<char>>, Error> {
    match rendered {
        Ok(images) => Ok(markup_of(images@)),
        Err(e) => Err(e),
    }
}

/// Renders one wire frame.
pub fn render_frame(frame: &[u8], config: &QrConfig) -> (rendered: Result<String, Error>)
    ensures
        match rendered {
            Ok(image) => render_outcome(frame@, *config) matches Ok(markup) && markup == image@,
            Err(e) => render_outcome(frame@, *config) matches Err(failure) && failure == e,
        },
{
    if frame.len() > LARGEST_FRAME {
        return Err(Error::CapacityExceeded);
    }
    match qr_svg(
        frame,
        config.qr_version,
        config.error_level,
        MIN_IMAGE_SIDE,
        MIN_IMAGE_SIDE,
        "#000000",
        "#ffffff",
    ) {
        Ok(image) => Ok(image),
        Err(QrFault::DataTooLong) => Err(Error::CapacityExceeded),
        Err(_) => Err(Error::Render),
    }
}

/// Renders wire frames in order and stops at the first that fails: no image
/// is handed out unless every frame has one.
pub fn render_frames(frames: &Vec<Vec<u8>>, config: &QrConfig) -> (rendered: Result<
    Vec<String>,
    Error,
>)
    ensures
        rendered_as(bytes_of(frames@), *config, outcome_of(rendered)),
{
    let mut images: Vec<String> = Vec::new();
    let mut i: usize = 0;
    while i < frames.len()
        invariant
            i <= frames@.len(),
            images@.len() == i,
            forall|j: int|
                0 <= j < i ==> render_outcome(#[trigger] bytes_of(frames@)[j], *config) == Ok::<
                    Seq<char>,
                    Error,
                >(images@[j]@),
        decreases frames@.len() - i,
    {
        match render_frame(frames[i].as_slice(), config) {
            Ok(image) => {
                images.push(image);
            },
            Err(e) => {
                assert(render_outcome(bytes_of(frames@)[i as int], *config) == Err::<
                    Seq<char>,
                    Error,
                >(e));
                return Err(e);
            },
        }
        i += 1;
    }
    Ok(images)
}

/// Rendering is a function of the frames and the configuration: two outcomes
/// of rendering the same frames under the same configuration are the same.
pub proof fn lemma_rendering_is_deterministic(
    frames: Seq<Seq<u8>>,
    config: QrConfig,
    first: Result<Seq<Seq<char>>, Error>,
    second: Result<Seq<Seq<char>>, Error>,
)
    requires
        rendered_as(frames, config, first),
        rendered_as(frames, config, second),
    ensures
        first == second,
{
    match (first, second) {
        (Ok(a), Ok(b)) => {
            assert forall|i: int| 0 <= i < a.len() implies a[i] == b[i] by {
                assert(render_outcome(frames[i], config) == Ok::<Seq<char>, Error>(a[i]));
                assert(render_outcome(frames[i], config) == Ok::<Seq<char>, Error>(b[i]));
            }
            assert(a =~= b);
        },
        (Err(e), Err(f)) => {
            let k = choose|k: int|
                {
                    &&& 0 <= k < frames.len()
                    &&& render_outcome(#[trigger] frames[k], config) == Err::<Seq<char>, Error>(e)
                    &&& forall|j: int|
                        0 <= j < k ==> render_outcome(#[trigger] frames[j], config) is Ok
                };
            let m = choose|m: int|
                {
                    &&& 0 <= m < frames.len()
                    &&& render_outcome(#[trigger] frames[m], config) == Err::<Seq<char>, Error>(f)
                    &&& forall|j: int|
                        0 <= j < m ==> render_outcome(#[trigger] frames[j], config) is Ok
                };
            if k < m {
                assert(render_outcome(frames[k], config) is Ok);
            } else if m < k {
                assert(render_outcome(frames[m], config) is Ok);
            }
        },
        (Ok(a), Err(f)) => {
            let m = choose|m: int|
                {
                    &&& 0 <= m < frames.len()
                    &&& render_outcome(#[trigger] frames[m], config) == Err::<Seq<char>, Error>(f)
                    &&& forall|j: int|
                        0 <= j < m ==> render_outcome(#[trigger] frames[j], config) is Ok
                };
            assert(render_outcome(frames[m], config) == Ok::<Seq<char>, Error>(a[m]));
        },
        (Err(e), Ok(b)) => {
            let k = choose|k: int|
                {
                    &&& 0 <= k < frames.len()
                    &&& render_outcome(#[trigger] frames[k], config) == Err::<Seq<char>, Error>(e)
                    &&& forall|j: int|
                        0 <= j < k ==> render_outcome(#[trigger] frames[j], config) is Ok
                };
            assert(render_outcome(frames[k], config) == Ok::<Seq<char>, Error>(b[k]));
        },
    }
}

} // verus!
