use pcb2ctb::canvas::{position_bw_image, Corner};
use pcb2ctb::error::ImageError;
use pcb2ctb::intensity::ColorLayout;
use pcb2ctb::layer::{buffer_holds, prepare_layer, ENCRYPTION_KEY, ENCRYPTION_MODE, LAYER_INDEX};

#[test]
fn oversize_image_is_refused() {
    let bytes = vec![255u8; 4000 * 3000];
    let layer = prepare_layer(&bytes, 4000, 3000, ColorLayout::Grayscale, 0, 0, Corner::NorthWest);
    assert_eq!(layer, Err(ImageError::Oversize));
}

#[test]
fn image_too_wide_or_too_high_is_refused() {
    let wide = vec![1u8; 3841];
    assert_eq!(
        prepare_layer(&wide, 3841, 1, ColorLayout::Grayscale, 0, 0, Corner::NorthEast),
        Err(ImageError::Oversize)
    );
    let high = vec![1u8; 2401];
    assert_eq!(
        prepare_layer(&high, 1, 2401, ColorLayout::Grayscale, 0, 0, Corner::SouthWest),
        Err(ImageError::Oversize)
    );
}

#[test]
fn padding_counts_towards_the_size() {
    let bytes = vec![1u8; 100];
    assert_eq!(
        prepare_layer(&bytes, 10, 10, ColorLayout::Grayscale, 3831, 0, Corner::NorthWest),
        Err(ImageError::Oversize)
    );
    assert_eq!(
        prepare_layer(&bytes, 10, 10, ColorLayout::Grayscale, 0, 2391, Corner::NorthWest),
        Err(ImageError::Oversize)
    );
    assert!(prepare_layer(&bytes, 10, 10, ColorLayout::Grayscale, 3830, 2390, Corner::NorthWest)
        .is_ok());
}

#[test]
fn oversize_comes_before_unsupported_format() {
    let bytes = vec![0u8; 16];
    assert_eq!(
        prepare_layer(&bytes, 4000, 3000, ColorLayout::Rgba, 0, 0, Corner::NorthWest),
        Err(ImageError::Oversize)
    );
}

#[test]
fn unsupported_layer_format_is_refused() {
    let bytes = vec![0u8; 16];
    for layout in [ColorLayout::Indexed, ColorLayout::GrayscaleAlpha, ColorLayout::Rgba] {
        assert_eq!(
            prepare_layer(&bytes, 2, 2, layout, 0, 0, Corner::NorthWest),
            Err(ImageError::UnsupportedFormat)
        );
    }
}

#[test]
fn grayscale_layer_is_the_placed_image() {
    let bytes = vec![5u8, 6, 7, 8, 9, 10];
    for corner in [Corner::NorthWest, Corner::NorthEast, Corner::SouthWest, Corner::SouthEast] {
        let layer = prepare_layer(&bytes, 3, 2, ColorLayout::Grayscale, 4, 5, corner).unwrap();
        assert!(layer == position_bw_image(bytes.clone(), 3, 2, 4, 5, corner));
    }
}

#[test]
fn rgb_layer_places_the_first_channel() {
    let bytes = vec![1u8, 0, 0, 2, 0, 0, 3, 0, 0, 4, 0, 0];
    let layer = prepare_layer(&bytes, 2, 2, ColorLayout::Rgb, 1, 1, Corner::NorthWest).unwrap();
    assert!(layer == position_bw_image(vec![1, 2, 3, 4], 2, 2, 1, 1, Corner::NorthWest));
    assert_eq!(&layer[3840 + 1..3840 + 3], &[1, 2]);
    assert_eq!(&layer[2 * 3840 + 1..2 * 3840 + 3], &[3, 4]);
}

#[test]
fn black_image_gives_black_canvas() {
    let bytes = vec![0u8; 3840 * 2400];
    let layer =
        prepare_layer(&bytes, 3840, 2400, ColorLayout::Grayscale, 0, 0, Corner::NorthWest).unwrap();
    assert_eq!(layer.len(), 3840 * 2400);
    assert!(layer.iter().all(|v| *v == 0));
}

#[test]
fn buffer_must_hold_every_pixel() {
    assert!(buffer_holds(6, ColorLayout::Grayscale, 3, 2));
    assert!(buffer_holds(7, ColorLayout::Grayscale, 3, 2));
    assert!(!buffer_holds(5, ColorLayout::Grayscale, 3, 2));
    assert!(buffer_holds(18, ColorLayout::Rgb, 3, 2));
    assert!(buffer_holds(20, ColorLayout::Rgb, 3, 2));
    assert!(!buffer_holds(17, ColorLayout::Rgb, 3, 2));
    assert!(buffer_holds(0, ColorLayout::Grayscale, 0, 5));
    assert!(buffer_holds(0, ColorLayout::Rgba, 3, 2));
    assert!(!buffer_holds(10, ColorLayout::Grayscale, usize::MAX, 2));
}

#[test]
fn file_constants() {
    assert_eq!(ENCRYPTION_KEY, 1741386203);
    assert_eq!(ENCRYPTION_MODE, 0xF);
    assert_eq!(LAYER_INDEX, 0);
}
