use pcb2ctb::error::ImageError;
use pcb2ctb::intensity::{reduce_to_intensity, rgb_triplets, ColorLayout};

const UNSUPPORTED: [ColorLayout; 3] =
    [ColorLayout::Indexed, ColorLayout::GrayscaleAlpha, ColorLayout::Rgba];

#[test]
fn grayscale_passes_through() {
    let bytes = [0u8, 1, 128, 255, 7];
    assert_eq!(reduce_to_intensity(&bytes, ColorLayout::Grayscale), Ok(vec![0, 1, 128, 255, 7]));
}

#[test]
fn rgb_keeps_the_first_channel() {
    let bytes = [10u8, 20, 30, 40, 50, 60, 70, 80, 90];
    assert_eq!(reduce_to_intensity(&bytes, ColorLayout::Rgb), Ok(vec![10, 40, 70]));
}

#[test]
fn rgb_is_no_luminance() {
    let bytes = [0u8, 255, 255, 255, 0, 0];
    assert_eq!(reduce_to_intensity(&bytes, ColorLayout::Rgb), Ok(vec![0, 255]));
}

#[test]
fn rgb_drops_an_incomplete_pixel() {
    let bytes = [1u8, 2, 3, 4, 5];
    assert_eq!(reduce_to_intensity(&bytes, ColorLayout::Rgb), Ok(vec![1]));
    assert_eq!(rgb_triplets(&bytes, ColorLayout::Rgb), Ok(vec![(1, 2, 3)]));
}

#[test]
fn empty_buffers_reduce_to_nothing() {
    assert_eq!(reduce_to_intensity(&[], ColorLayout::Grayscale), Ok(vec![]));
    assert_eq!(reduce_to_intensity(&[], ColorLayout::Rgb), Ok(vec![]));
    assert_eq!(rgb_triplets(&[], ColorLayout::Grayscale), Ok(vec![]));
    assert_eq!(rgb_triplets(&[], ColorLayout::Rgb), Ok(vec![]));
}

#[test]
fn other_layouts_are_refused() {
    let bytes = [1u8, 2, 3, 4, 5, 6, 7, 8];
    for layout in UNSUPPORTED {
        assert_eq!(reduce_to_intensity(&bytes, layout), Err(ImageError::UnsupportedFormat));
        assert_eq!(rgb_triplets(&bytes, layout), Err(ImageError::UnsupportedFormat));
        assert!(!layout.is_supported());
    }
    assert!(ColorLayout::Grayscale.is_supported());
    assert!(ColorLayout::Rgb.is_supported());
}

#[test]
fn gray_preview_repeats_each_byte() {
    let bytes = [3u8, 200];
    assert_eq!(rgb_triplets(&bytes, ColorLayout::Grayscale), Ok(vec![(3, 3, 3), (200, 200, 200)]));
}

#[test]
fn rgb_preview_keeps_all_channels() {
    let bytes = [10u8, 20, 30, 40, 50, 60];
    assert_eq!(rgb_triplets(&bytes, ColorLayout::Rgb), Ok(vec![(10, 20, 30), (40, 50, 60)]));
}

#[test]
fn four_channel_preview_is_skipped_and_layer_still_made() {
    let preview = [1u8, 2, 3, 255, 4, 5, 6, 255];
    assert_eq!(rgb_triplets(&preview, ColorLayout::Rgba), Err(ImageError::UnsupportedFormat));
    let layer = pcb2ctb::layer::prepare_layer(
        &[9u8, 9, 9, 9],
        2,
        2,
        ColorLayout::Grayscale,
        0,
        0,
        pcb2ctb::canvas::Corner::NorthWest,
    );
    let canvas = layer.unwrap();
    assert_eq!(canvas.len(), 3840 * 2400);
    assert_eq!(&canvas[0..2], &[9, 9]);
    assert_eq!(&canvas[3840..3842], &[9, 9]);
}

#[test]
fn error_messages() {
    assert_eq!(ImageError::Oversize.message(), "PCB to large!");
    assert_eq!(
        ImageError::UnsupportedFormat.message(),
        "Error: Unsupported image type, only Grayscale and RGB supported at the moment."
    );
}
