use vstd::prelude::*;
use vstd::string::StringExecFns;

use crate::error::{EncodeError, PipelineError};
use crate::render::buffer_fits;

verus! {

/// The image formats a rendered buffer may be written in.
#[derive(Clone, Copy, Debug, PartialEq, Eq, Structural)]
pub enum OutputFormat {
    WebP,
    Jpeg,
    Png,
    Ico,
    Pnm,
    Bmp,
    Exr,
    Tiff,
}

impl OutputFormat {
    /// The tag that names this format, also used as the file extension.
    pub open spec fn tag_spec(self) -> Seq<char> {
        match self {
            OutputFormat::WebP => "webp"@,
            OutputFormat::Jpeg => "jpeg"@,
            OutputFormat::Png => "png"@,
            OutputFormat::Ico => "ico"@,
            OutputFormat::Pnm => "pnm"@,
            OutputFormat::Bmp => "bmp"@,
            OutputFormat::Exr => "exr"@,
            OutputFormat::Tiff => "tiff"@,
        }
    }

    pub fn tag(&self) -> (r: &'static str)
        ensures
            r@ == self.tag_spec(),
    {
        match self {
            OutputFormat::WebP => "webp",
            OutputFormat::Jpeg => "jpeg",
            OutputFormat::Png => "png",
            OutputFormat::Ico => "ico",
            OutputFormat::Pnm => "pnm",
            OutputFormat::Bmp => "bmp",
            OutputFormat::Exr => "exr",
            OutputFormat::Tiff => "tiff",
        }
    }
}

/// `tag` names one of the recognised output formats.
pub open spec fn is_supported_tag(tag: Seq<char>) -> bool {
    exists|f: OutputFormat| f.tag_spec() == tag
}

/// The format named by `tag`, or `None` for a tag outside the allow-list.
pub fn parse_format(tag: &str) -> (r: Option<OutputFormat>)
    ensures
        r matches Some(f) ==> f.tag_spec() == tag@,
        r is None <==> !is_supported_tag(tag@),
{
    let all: [OutputFormat; 8] = [
        OutputFormat::WebP,
        OutputFormat::Jpeg,
        OutputFormat::Png,
        OutputFormat::Ico,
        OutputFormat::Pnm,
        OutputFormat::Bmp,
        OutputFormat::Exr,
        OutputFormat::Tiff,
    ];
    let wanted = tag.to_owned();
    let mut i: usize = 0;
    while i < 8
        invariant
            i <= 8,
            wanted@ == tag@,
            all@ == seq![
                OutputFormat::WebP,
                OutputFormat::Jpeg,
                OutputFormat::Png,
                OutputFormat::Ico,
                OutputFormat::Pnm,
                OutputFormat::Bmp,
                OutputFormat::Exr,
                OutputFormat::Tiff,
            ],
            forall|j: int| 0 <= j < i ==> all@[j].tag_spec() != tag@,
        decreases 8 - i,
    {
        let f = all[i];
        if f.tag().to_owned() == wanted {
            return Some(f);
        }
        i = i + 1;
    }
    assert forall|f: OutputFormat| f.tag_spec() != tag@ by {
        match f {
            OutputFormat::WebP => assert(all@[0] == f),
            OutputFormat::Jpeg => assert(all@[1] == f),
            OutputFormat::Png => assert(all@[2] == f),
            OutputFormat::Ico => assert(all@[3] == f),
            OutputFormat::Pnm => assert(all@[4] == f),
            OutputFormat::Bmp => assert(all@[5] == f),
            OutputFormat::Exr => assert(all@[6] == f),
            OutputFormat::Tiff => assert(all@[7] == f),
        }
    }
    None
}

/// Path of the file for `base` in `format`: `<base>.<tag>`.
pub fn target_path(base: &str, format: OutputFormat) -> (r: String)
    ensures
        r@ == base@ + "."@ + format.tag_spec(),
{
    let mut path = String::from_str(base);
    path.append(".");
    path.append(format.tag());
    path
}

/// The bytes of an RGB8 buffer of `width` by `height` pixels encoded in the
/// format named by `tag`, or `None` where the codec refuses that buffer.
pub uninterp spec fn encoded_rgb8(tag: Seq<char>, pixels: Seq<u8>, width: nat, height: nat) -> Option<Seq<u8>>;

/// Relies on image::write_buffer_with_format: encodes an RGB8 buffer of
/// `width` by `height` pixels in the given format into memory, the bytes
/// depending on the arguments alone, and so does whether the codec refuses
/// them. Its encoders panic unless the buffer
/// holds exactly three bytes per pixel.
#[verifier::external_body]
fn encode_rgb8(pixels: &Vec<u8>, width: u32, height: u32, format: OutputFormat) -> (r: Result<Vec<u8>, image::ImageError>)
    requires
        pixels@.len() == 3 * width * height,
        1 <= width,
        1 <= height,
    ensures
        match r {
            Ok(bytes) => encoded_rgb8(format.tag_spec(), pixels@, width as nat, height as nat) == Some(bytes@),
            Err(_) => encoded_rgb8(format.tag_spec(), pixels@, width as nat, height as nat) is None,
        },
{
    let codec = match format {
        OutputFormat::WebP => image::ImageFormat::WebP,
        OutputFormat::Jpeg => image::ImageFormat::Jpeg,
        OutputFormat::Png => image::ImageFormat::Png,
        OutputFormat::Ico => image::ImageFormat::Ico,
        OutputFormat::Pnm => image::ImageFormat::Pnm,
        OutputFormat::Bmp => image::ImageFormat::Bmp,
        OutputFormat::Exr => image::ImageFormat::OpenExr,
        OutputFormat::Tiff => image::ImageFormat::Tiff,
    };
    let mut out = std::io::Cursor::new(Vec::new());
    image::write_buffer_with_format(&mut out, pixels, width, height, image::ExtendedColorType::Rgb8, codec)?;
    Ok(out.into_inner())
}

/// A display size an image file can have: both sides between one pixel and
/// `u32::MAX`.
pub open spec fn writable_display(columns: int, rows: int) -> bool {
    1 <= columns <= u32::MAX && 1 <= rows <= u32::MAX
}

/// Encodes `pixels`, an RGB8 buffer of `display` (columns, rows), in
/// `format`, after checking the display size and then the buffer length.
/// The result is the codec's output exactly when the codec accepts the
/// buffer.
pub fn encode_as(format: OutputFormat, pixels: &Vec<u8>, display: (usize, usize)) -> (r: Result<Vec<u8>, PipelineError>)
    ensures
        !writable_display(display.0 as int, display.1 as int) ==> r matches Err(PipelineError::InvalidDimensions),
        writable_display(display.0 as int, display.1 as int) && pixels@.len() != 3 * display.0 * display.1
            ==> r matches Err(PipelineError::EncodeFailure(EncodeError::BufferLength)),
        writable_display(display.0 as int, display.1 as int) && pixels@.len() == 3 * display.0 * display.1
            ==> match r {
            Ok(bytes) => encoded_rgb8(format.tag_spec(), pixels@, display.0 as nat, display.1 as nat) == Some(bytes@),
            Err(e) => {
                &&& e is EncodeFailure
                &&& encoded_rgb8(format.tag_spec(), pixels@, display.0 as nat, display.1 as nat) is None
            },
        },
{
    let (columns, rows) = display;
    if columns < 1 || columns > u32::MAX as usize || rows < 1 || rows > u32::MAX as usize {
        return Err(PipelineError::InvalidDimensions);
    }
    if !buffer_fits(pixels.len(), columns, rows) {
        return Err(PipelineError::EncodeFailure(EncodeError::BufferLength));
    }
    match encode_rgb8(pixels, columns as u32, rows as u32, format) {
        Ok(bytes) => Ok(bytes),
        Err(e) => Err(PipelineError::EncodeFailure(EncodeError::Codec(e))),
    }
}

/// Encodes `pixels`, an RGB8 buffer of `display` (columns, rows), in the
/// format named by `format_tag`. The tag is checked against the allow-list
/// first, then the display size, then the buffer length; only then is the
/// codec called.
pub fn encode_image(format_tag: &str, pixels: &Vec<u8>, display: (usize, usize)) -> (r: Result<Vec<u8>, PipelineError>)
    ensures
        !is_supported_tag(format_tag@) ==> r matches Err(PipelineError::UnsupportedFormat),
        is_supported_tag(format_tag@) && !writable_display(display.0 as int, display.1 as int)
            ==> r matches Err(PipelineError::InvalidDimensions),
        is_supported_tag(format_tag@) && writable_display(display.0 as int, display.1 as int)
            && pixels@.len() != 3 * display.0 * display.1 ==> r matches Err(PipelineError::EncodeFailure(EncodeError::BufferLength)),
        is_supported_tag(format_tag@) && writable_display(display.0 as int, display.1 as int)
            && pixels@.len() == 3 * display.0 * display.1 ==> match r {
            Ok(bytes) => encoded_rgb8(format_tag@, pixels@, display.0 as nat, display.1 as nat) == Some(bytes@),
            Err(e) => {
                &&& e is EncodeFailure
                &&& encoded_rgb8(format_tag@, pixels@, display.0 as nat, display.1 as nat) is None
            },
        },
{
    match parse_format(format_tag) {
        Some(format) => encode_as(format, pixels, display),
        None => Err(PipelineError::UnsupportedFormat),
    }
}

/// What writing `pixels` as `<base>.<format_tag>` needs: the target path and
/// the encoded bytes, with every check of `encode_image` made before any
/// file is touched.
pub fn prepare_write(base: &str, format_tag: &str, pixels: &Vec<u8>, display: (usize, usize)) -> (r: Result<(String, Vec<u8>), PipelineError>)
    ensures
        !is_supported_tag(format_tag@) ==> r matches Err(PipelineError::UnsupportedFormat),
        is_supported_tag(format_tag@) && !writable_display(display.0 as int, display.1 as int)
            ==> r matches Err(PipelineError::InvalidDimensions),
        is_supported_tag(format_tag@) && writable_display(display.0 as int, display.1 as int)
            && pixels@.len() != 3 * display.0 * display.1 ==> r matches Err(PipelineError::EncodeFailure(EncodeError::BufferLength)),
        is_supported_tag(format_tag@) && writable_display(display.0 as int, display.1 as int)
            && pixels@.len() == 3 * display.0 * display.1 ==> match r {
            Ok((path, bytes)) => {
                &&& path@ == base@ + "."@ + format_tag@
                &&& encoded_rgb8(format_tag@, pixels@, display.0 as nat, display.1 as nat) == Some(bytes@)
            },
            Err(e) => {
                &&& e is EncodeFailure
                &&& encoded_rgb8(format_tag@, pixels@, display.0 as nat, display.1 as nat) is None
            },
        },
{
    match parse_format(format_tag) {
        Some(format) => {
            let bytes = encode_as(format, pixels, display)?;
            Ok((target_path(base, format), bytes))
        },
        None => Err(PipelineError::UnsupportedFormat),
    }
}

} // verus!
