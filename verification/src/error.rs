//! The failures that hiding or recovering a payload can end in.

use vstd::prelude::*;
use vstd::std_specs::convert::FromSpecImpl;

verus! {

/// The error of the image codec, carried through unopened.
#[verifier::external_type_specification]
#[verifier::external_body]
pub struct ExImageError(image::error::ImageError);

/// The error of the operating system's file layer, carried through unopened.
#[verifier::external_type_specification]
#[verifier::external_body]
pub struct ExIoError(std::io::Error);

/// Why hiding or recovering a payload failed.
#[derive(Debug)]
pub enum SteganoError {
    /// The payload and its terminator need more channel samples than the image has.
    MessageTooLong,
    /// The image is not a full-colour pixmap, or its samples are not integers.
    BadFormat,
    /// No terminated message was found, or the message is not valid UTF-8.
    ImpossibleToParse,
    /// Reading or writing a file failed.
    FileError(std::io::Error),
    /// The image codec refused the image.
    ImageError(image::error::ImageError),
}

/// Formats a `std::io::Error` through its `Display` impl. The text is that of
/// the operating system or of whoever made the error, so nothing is claimed
/// of it.
#[verifier::external_body]
fn io_error_text(e: &std::io::Error) -> String {
    format!("{}", e)
}

/// Formats an `image::error::ImageError` through its `Display` impl. Nothing
/// is claimed of the text.
#[verifier::external_body]
fn image_error_text(e: &image::error::ImageError) -> String {
    format!("{}", e)
}

impl SteganoError {
    /// What went wrong, in words. The library's own failures have a fixed
    /// text; a failure of the file layer or of the image codec has the text
    /// that its own error gives.
    pub fn message(&self) -> (text: String)
        ensures
            self is MessageTooLong ==> text@ == "Message is too long"@,
            self is BadFormat ==> text@ == "Incompatible format(Only .ppm image)"@,
            self is ImpossibleToParse ==> text@ == "Impossible to parse the hidden message"@,
    {
        match self {
            SteganoError::MessageTooLong => "Message is too long".to_owned(),
            SteganoError::BadFormat => "Incompatible format(Only .ppm image)".to_owned(),
            SteganoError::ImpossibleToParse => "Impossible to parse the hidden message".to_owned(),
            SteganoError::FileError(e) => io_error_text(e),
            SteganoError::ImageError(e) => image_error_text(e),
        }
    }
}

impl From<std::io::Error> for SteganoError {
    fn from(e: std::io::Error) -> (r: Self) {
        SteganoError::FileError(e)
    }
}

impl FromSpecImpl<std::io::Error> for SteganoError {
    open spec fn obeys_from_spec() -> bool {
        true
    }

    open spec fn from_spec(e: std::io::Error) -> Self {
        SteganoError::FileError(e)
    }
}

impl From<image::error::ImageError> for SteganoError {
    fn from(e: image::error::ImageError) -> (r: Self) {
        SteganoError::ImageError(e)
    }
}

impl FromSpecImpl<image::error::ImageError> for SteganoError {
    open spec fn obeys_from_spec() -> bool {
        true
    }

    open spec fn from_spec(e: image::error::ImageError) -> Self {
        SteganoError::ImageError(e)
    }
}

} // verus!
