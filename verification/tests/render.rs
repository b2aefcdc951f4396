use gorillas::render::{align_to, screenshot_rgb_bytes, PixelLayout, ReadbackShape, UnsupportedLayout};

fn shape(width: u32, height: u32, padded: u32) -> ReadbackShape {
    ReadbackShape {
        width,
        height,
        padded_bytes_per_row: padded,
        unpadded_bytes_per_row: width * 4,
    }
}

#[test]
fn align_to_rounds_up_to_the_alignment() {
    assert_eq!(align_to(0, 256), 0);
    assert_eq!(align_to(1, 256), 256);
    assert_eq!(align_to(256, 256), 256);
    assert_eq!(align_to(2560, 256), 2560);
    assert_eq!(align_to(2564, 256), 2816);
    assert_eq!(align_to(7, 1), 7);
}

#[test]
fn bgra_rows_are_unpadded_and_swizzled() {
    let data = vec![
        1, 2, 3, 4, 5, 6, 7, 8, 0xee, 0xee, //
        9, 10, 11, 12, 13, 14, 15, 16, 0xee, 0xee,
    ];
    let rgb = screenshot_rgb_bytes(shape(2, 2, 10), PixelLayout::Bgra, &data).unwrap();
    assert_eq!(rgb, vec![3, 2, 1, 7, 6, 5, 11, 10, 9, 15, 14, 13]);
}

#[test]
fn rgba_rows_keep_channel_order() {
    let data = vec![1, 2, 3, 4, 5, 6, 7, 8];
    let rgb = screenshot_rgb_bytes(shape(2, 1, 8), PixelLayout::Rgba, &data).unwrap();
    assert_eq!(rgb, vec![1, 2, 3, 5, 6, 7]);
}

#[test]
fn last_row_needs_no_padding() {
    let data = vec![1, 2, 3, 4, 0, 0, 0, 0, 5, 6, 7, 8];
    let rgb = screenshot_rgb_bytes(shape(1, 2, 8), PixelLayout::Rgba, &data).unwrap();
    assert_eq!(rgb, vec![1, 2, 3, 5, 6, 7]);
}

#[test]
fn unsupported_layout_is_an_error() {
    let data = vec![0u8; 16];
    assert_eq!(
        screenshot_rgb_bytes(shape(2, 2, 8), PixelLayout::Unsupported, &data),
        Err(UnsupportedLayout)
    );
}

#[test]
fn empty_image_converts_whatever_the_layout() {
    assert_eq!(screenshot_rgb_bytes(shape(0, 3, 0), PixelLayout::Unsupported, &[]), Ok(vec![]));
    assert_eq!(screenshot_rgb_bytes(shape(4, 0, 16), PixelLayout::Unsupported, &[]), Ok(vec![]));
}
