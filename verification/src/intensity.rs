//! From decoded pixel bytes to intensity samples and to RGB triplets.

use crate::error::ImageError;
use vstd::prelude::*;

verus! {

/// How the bytes of a decoded image are laid out.
#[derive(Clone, Copy, Debug, PartialEq, Eq, Structural)]
pub enum ColorLayout {
    /// One byte per pixel.
    Grayscale,
    /// Three bytes per pixel: red, green, blue.
    Rgb,
    /// One palette index per pixel.
    Indexed,
    /// Two bytes per pixel: gray, alpha.
    GrayscaleAlpha,
    /// Four bytes per pixel: red, green, blue, alpha.
    Rgba,
}

impl ColorLayout {
    /// Only grayscale and RGB images can be used.
    pub open spec fn supported(self) -> bool {
        self == ColorLayout::Grayscale || self == ColorLayout::Rgb
    }

    /// Tells whether images of this layout can be used.
    pub fn is_supported(&self) -> (yes: bool)
        ensures
            yes == self.supported(),
    {
        match self {
            ColorLayout::Grayscale | ColorLayout::Rgb => true,
            _ => false,
        }
    }
}

/// The first byte of each complete group of three bytes.
pub open spec fn first_channels(bytes: Seq<u8>) -> Seq<u8> {
    Seq::new((bytes.len() / 3) as nat, |i: int| bytes[3 * i])
}

/// One intensity sample per pixel: a grayscale byte as it is, or the first
/// channel of an RGB pixel. No other layout has one.
pub open spec fn intensity(bytes: Seq<u8>, layout: ColorLayout) -> Option<Seq<u8>> {
    match layout {
        ColorLayout::Grayscale => Some(bytes),
        ColorLayout::Rgb => Some(first_channels(bytes)),
        _ => None,
    }
}

/// Each gray byte three times.
pub open spec fn gray_triplets(bytes: Seq<u8>) -> Seq<(u8, u8, u8)> {
    Seq::new(bytes.len(), |i: int| (bytes[i], bytes[i], bytes[i]))
}

/// Each complete group of three bytes as one triplet.
pub open spec fn rgb_groups(bytes: Seq<u8>) -> Seq<(u8, u8, u8)> {
    Seq::new((bytes.len() / 3) as nat, |i: int| (bytes[3 * i], bytes[3 * i + 1], bytes[3 * i + 2]))
}

/// One RGB triplet per pixel: a gray byte in all three channels, or the
/// three bytes of an RGB pixel. No other layout has one.
pub open spec fn triplets(bytes: Seq<u8>, layout: ColorLayout) -> Option<Seq<(u8, u8, u8)>> {
    match layout {
        ColorLayout::Grayscale => Some(gray_triplets(bytes)),
        ColorLayout::Rgb => Some(rgb_groups(bytes)),
        _ => None,
    }
}

/// Reduces the bytes of a decoded image to one intensity sample per pixel.
/// An image that is neither grayscale nor RGB is refused.
pub fn reduce_to_intensity(bytes: &[u8], layout: ColorLayout) -> (reduced: Result<
    Vec<u8>,
    ImageError,
>)
    ensures
        match intensity(bytes@, layout) {
            Some(samples) => reduced is Ok && reduced->Ok_0@ == samples,
            None => reduced == Err::<Vec<u8>, ImageError>(ImageError::UnsupportedFormat),
        },
{
    match layout {
        ColorLayout::Grayscale => {
            let mut samples: Vec<u8> = Vec::with_capacity(bytes.len());
            let mut i: usize = 0;
            while i < bytes.len()
                invariant
                    i <= bytes.len(),
                    samples@ == bytes@.take(i as int),
                decreases bytes.len() - i,
            {
                samples.push(bytes[i]);
                i = i + 1;
            }
            assert(bytes@.take(bytes.len() as int) == bytes@);
            Ok(samples)
        },
        ColorLayout::Rgb => {
            let pixels = bytes.len() / 3;
            let mut samples: Vec<u8> = Vec::with_capacity(pixels);
            let mut i: usize = 0;
            while i < pixels
                invariant
                    pixels == bytes.len() / 3,
                    i <= pixels,
                    samples@ == first_channels(bytes@).take(i as int),
                decreases pixels - i,
            {
                samples.push(bytes[i * 3]);
                i = i + 1;
            }
            assert(first_channels(bytes@).take(pixels as int) == first_channels(bytes@));
            Ok(samples)
        },
        _ => Err(ImageError::UnsupportedFormat),
    }
}

/// Turns the bytes of a decoded preview image into one RGB triplet per
/// pixel. An image that is neither grayscale nor RGB is refused.
pub fn rgb_triplets(bytes: &[u8], layout: ColorLayout) -> (pixels: Result<
    Vec<(u8, u8, u8)>,
    ImageError,
>)
    ensures
        match triplets(bytes@, layout) {
            Some(colors) => pixels is Ok && pixels->Ok_0@ == colors,
            None => pixels == Err::<Vec<(u8, u8, u8)>, ImageError>(ImageError::UnsupportedFormat),
        },
{
    match layout {
        ColorLayout::Grayscale => {
            let mut rgb_tuples: Vec<(u8, u8, u8)> = Vec::with_capacity(bytes.len());
            let mut i: usize = 0;
            while i < bytes.len()
                invariant
                    i <= bytes.len(),
                    rgb_tuples@ == gray_triplets(bytes@).take(i as int),
                decreases bytes.len() - i,
            {
                let v = bytes[i];
                rgb_tuples.push((v, v, v));
                i = i + 1;
            }
            assert(gray_triplets(bytes@).take(bytes.len() as int) == gray_triplets(bytes@));
            Ok(rgb_tuples)
        },
        ColorLayout::Rgb => {
            let count = bytes.len() / 3;
            let mut rgb_tuples: Vec<(u8, u8, u8)> = Vec::with_capacity(count);
            let mut i: usize = 0;
            while i < count
                invariant
                    count == bytes.len() / 3,
                    i <= count,
                    rgb_tuples@ == rgb_groups(bytes@).take(i as int),
                decreases count - i,
            {
                rgb_tuples.push((bytes[i * 3], bytes[i * 3 + 1], bytes[i * 3 + 2]));
                i = i + 1;
            }
            assert(rgb_groups(bytes@).take(count as int) == rgb_groups(bytes@));
            Ok(rgb_tuples)
        },
        _ => Err(ImageError::UnsupportedFormat),
    }
}

} // verus!
