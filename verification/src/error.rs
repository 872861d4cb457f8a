//! The error type shared by the whole library.

use vstd::prelude::*;
use vstd::string::StringExecFns;

verus! {

/// `image::ImageError`, the error of the image decoder. It is carried through
/// unopened: nothing is assumed of what it holds.
#[verifier::external_type_specification]
#[verifier::external_body]
pub struct ExImageError(image::ImageError);

/// Why the bytes of a font were rejected.
#[derive(Clone, Copy, Debug, PartialEq, Eq, Structural)]
pub enum FontError {
    /// The data is in no format that the font parser recognizes.
    UnrecognizedFormat,
    /// The data is ill-formed, for example lacking necessary tables.
    IllFormed,
    /// A font collection has no font at the requested index.
    CollectionIndexOutOfBounds,
    /// A font collection holds more than one font where one was expected.
    CollectionContainsMultipleFonts,
}

/// Everything that can go wrong while building a scene.
#[derive(Debug)]
pub enum Error {
    /// A color string was rejected; holds the string and the reason.
    InvalidColorString(String, &'static str),
    /// No installed font matches the requested properties.
    FontNotFound,
    /// The bytes of a font could not be parsed.
    BadFont(FontError),
    /// The bytes of an image could not be decoded.
    BadImage(image::ImageError),
}

pub type Result<T> = std::result::Result<T, Error>;

/// The text that describes each font error.
pub open spec fn font_error_text(error: FontError) -> Seq<char> {
    match error {
        FontError::UnrecognizedFormat => "Font data in unrecognized format"@,
        FontError::IllFormed => "Font data is ill-formed"@,
        FontError::CollectionIndexOutOfBounds => "Font collection has no font at the given index"@,
        FontError::CollectionContainsMultipleFonts =>
            "Attempted to convert collection into a font, but collection contais more than one font"@,
    }
}

impl FontError {
    /// A description of the error.
    pub fn description(&self) -> (text: &'static str)
        ensures
            text@ == font_error_text(*self),
    {
        match self {
            FontError::UnrecognizedFormat => "Font data in unrecognized format",
            FontError::IllFormed => "Font data is ill-formed",
            FontError::CollectionIndexOutOfBounds => "Font collection has no font at the given index",
            FontError::CollectionContainsMultipleFonts =>
                "Attempted to convert collection into a font, but collection contais more than one font",
        }
    }
}

/// Formats an `image::ImageError` through its `Display` impl. Nothing is
/// assumed of the text.
#[verifier::external_body]
fn image_error_text(error: &image::ImageError) -> (text: String) {
    format!("{}", error)
}

impl Error {
    /// The error as a line of text for people to read.
    pub fn message(&self) -> (text: String)
        ensures
            match *self {
                Error::InvalidColorString(color, reason) => text@ == "invalid color string: "@
                    + color@ + "; "@ + reason@,
                Error::FontNotFound => text@ == "font with given constraints is not found"@,
                Error::BadFont(error) => text@ == "bad font loaded: "@ + font_error_text(error),
                Error::BadImage(_) => "bad image: "@.is_prefix_of(text@),
            },
    {
        match self {
            Error::InvalidColorString(color, reason) => {
                let mut text = String::from_str("invalid color string: ");
                text.append(color.as_str());
                text.append("; ");
                text.append(reason);
                text
            },
            Error::FontNotFound => String::from_str("font with given constraints is not found"),
            Error::BadFont(error) => {
                let mut text = String::from_str("bad font loaded: ");
                text.append(error.description());
                text
            },
            Error::BadImage(error) => {
                let mut text = String::from_str("bad image: ");
                let detail = image_error_text(error);
                text.append(detail.as_str());
                text
            },
        }
    }
}

impl From<FontError> for Error {
    fn from(error: FontError) -> (result: Error)
        ensures
            result == Error::BadFont(error),
    {
        Error::BadFont(error)
    }
}

impl vstd::std_specs::convert::FromSpecImpl<FontError> for Error {
    open spec fn obeys_from_spec() -> bool {
        true
    }

    open spec fn from_spec(error: FontError) -> Error {
        Error::BadFont(error)
    }
}

impl From<image::ImageError> for Error {
    fn from(error: image::ImageError) -> (result: Error)
        ensures
            result == Error::BadImage(error),
    {
        Error::BadImage(error)
    }
}

impl vstd::std_specs::convert::FromSpecImpl<image::ImageError> for Error {
    open spec fn obeys_from_spec() -> bool {
        true
    }

    open spec fn from_spec(error: image::ImageError) -> Error {
        Error::BadImage(error)
    }
}

} // verus!
