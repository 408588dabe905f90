use vstd::prelude::*;

verus! {

/// The image codec's error, carried through unopened.
#[verifier::external_type_specification]
#[verifier::external_body]
pub struct ExImageError(image::ImageError);

/// The operating system's error for a failed file operation, carried through
/// unopened.
#[verifier::external_type_specification]
#[verifier::external_body]
pub struct ExIoError(std::io::Error);

/// Why a buffer could not be encoded.
#[derive(Debug)]
pub enum EncodeError {
    /// The buffer does not hold exactly three bytes per pixel; the codec is
    /// not called with it.
    BufferLength,
    /// The codec refused the buffer.
    Codec(image::ImageError),
}

/// What can go wrong between a display size and an image file.
#[derive(Debug)]
pub enum PipelineError {
    /// A display dimension is out of the range the operation accepts.
    InvalidDimensions,
    /// The buffer handed to the renderer does not hold exactly three bytes
    /// per pixel.
    BufferLength,
    /// The format tag is not one of the recognised output formats.
    UnsupportedFormat,
    /// The buffer could not be encoded.
    EncodeFailure(EncodeError),
    /// Creating or writing the target file failed.
    IoFailure(std::io::Error),
}

} // verus!
