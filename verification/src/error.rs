//! Why an image is turned away.

use vstd::prelude::*;

verus! {

/// The reasons for which an image cannot be used.
#[derive(Clone, Copy, Debug, PartialEq, Eq, Structural)]
pub enum ImageError {
    /// The image, moved inward by its padding, does not lie within the canvas.
    Oversize,
    /// The image is neither grayscale nor RGB.
    UnsupportedFormat,
}

impl ImageError {
    /// The text shown to the user for this error.
    pub fn message(&self) -> (text: &'static str)
        ensures
            *self == ImageError::Oversize ==> text@ == "PCB to large!"@,
            *self == ImageError::UnsupportedFormat ==> text@
                == "Error: Unsupported image type, only Grayscale and RGB supported at the moment."@,
    {
        match self {
            ImageError::Oversize => "PCB to large!",
            ImageError::UnsupportedFormat => {
                "Error: Unsupported image type, only Grayscale and RGB supported at the moment."
            },
        }
    }
}

} // verus!
