//! From a decoded image to the canvas of the print layer.

use crate::canvas::{fits, fits_canvas, placed, position_bw_image, Corner};
use crate::error::ImageError;
use crate::intensity::{intensity, reduce_to_intensity, ColorLayout};
use vstd::prelude::*;

verus! {

/// Key that the print layer is encoded under and that the file declares.
pub const ENCRYPTION_KEY: u32 = 1741386203;

/// Encryption mode that the file declares.
pub const ENCRYPTION_MODE: u32 = 0xF;

/// Index of the one layer of the file.
pub const LAYER_INDEX: u32 = 0;

/// A buffer of `len` bytes in `layout` holds every pixel of an image of `w`
/// by `h` pixels. Nothing is asked of a layout that cannot be used.
pub open spec fn holds_image(len: int, layout: ColorLayout, w: int, h: int) -> bool {
    match layout {
        ColorLayout::Grayscale => w * h <= len,
        ColorLayout::Rgb => w * h <= len / 3,
        _ => true,
    }
}

/// What becomes of an image: it is refused when it does not lie within the
/// canvas, else when its layout cannot be used; otherwise its intensity
/// samples are placed on the canvas.
pub open spec fn layer_of(
    bytes: Seq<u8>,
    w: int,
    h: int,
    layout: ColorLayout,
    px: int,
    py: int,
    corner: Corner,
) -> Result<Seq<u8>, ImageError> {
    if !fits(w, h, px, py) {
        Err(ImageError::Oversize)
    } else {
        match intensity(bytes, layout) {
            Some(samples) => Ok(placed(samples, w, h, px, py, corner)),
            None => Err(ImageError::UnsupportedFormat),
        }
    }
}

/// Tells whether a buffer of `len` bytes in `layout` holds every pixel of an
/// image of `width` by `height` pixels.
pub fn buffer_holds(len: usize, layout: ColorLayout, width: usize, height: usize) -> (ok: bool)
    ensures
        ok == holds_image(len as int, layout, width as int, height as int),
{
    let pixels = match layout {
        ColorLayout::Grayscale => len,
        ColorLayout::Rgb => len / 3,
        _ => { return true; },
    };
    match width.checked_mul(height) {
        Some(needed) => needed <= pixels,
        None => false,
    }
}

/// Makes the canvas of the print layer from a decoded image: checks that the
/// image with its padding lies within the canvas, reduces it to intensity
/// samples and places them at `corner`.
pub fn prepare_layer(
    bytes: &[u8],
    width: usize,
    height: usize,
    layout: ColorLayout,
    padding_x: usize,
    padding_y: usize,
    corner: Corner,
) -> (layer: Result<Vec<u8>, ImageError>)
    requires
        holds_image(bytes@.len() as int, layout, width as int, height as int),
    ensures
        match layer_of(
            bytes@,
            width as int,
            height as int,
            layout,
            padding_x as int,
            padding_y as int,
            corner,
        ) {
            Ok(canvas) => layer is Ok && layer->Ok_0@ == canvas,
            Err(reason) => layer == Err::<Vec<u8>, ImageError>(reason),
        },
{
    if !fits_canvas(width, height, padding_x, padding_y) {
        return Err(ImageError::Oversize);
    }
    match reduce_to_intensity(bytes, layout) {
        Ok(samples) => Ok(position_bw_image(samples, width, height, padding_x, padding_y, corner)),
        Err(reason) => Err(reason),
    }
}

} // verus!
