use athanor::shelld::image::{accept, Raw, MAX_SIDE};

fn raw(width: i32, height: i32, rowstride: i32, has_alpha: bool, channels: i32, data: &[u8]) -> Raw<'_> {
    Raw { width, height, rowstride, has_alpha, bits_per_sample: 8, channels, data }
}

#[test]
fn a_padded_rgb_image_is_copied_with_opaque_alpha() {
    let data = [1, 2, 3, 4, 5, 6, 0, 0, 7, 8, 9, 10, 11, 12];
    let image = accept(&raw(2, 2, 8, false, 3, &data)).expect("valid");
    assert_eq!((image.width, image.height), (2, 2));
    assert_eq!(image.rgba, [1, 2, 3, 255, 4, 5, 6, 255, 7, 8, 9, 255, 10, 11, 12, 255]);
    assert!(accept(&raw(2, 2, 8, false, 3, &[0; 16])).is_some(), "every row padded");
}

#[test]
fn fields_that_disagree_or_exceed_the_bounds_are_refused() {
    let data = [0u8; 14];
    assert!(accept(&raw(2, 2, 8, false, 3, &data[..13])).is_none(), "length");
    assert!(accept(&raw(2, 2, 8, true, 3, &data)).is_none(), "alpha with 3 channels");
    assert!(accept(&raw(2, 2, 5, false, 3, &data)).is_none(), "rowstride shorter than a row");
    assert!(accept(&raw(2, 2, -8, false, 3, &data)).is_none(), "negative rowstride");
    assert!(accept(&raw(0, 2, 8, false, 3, &data)).is_none(), "zero width");
    assert!(accept(&raw(MAX_SIDE + 1, 1, 4 * 1025, true, 4, &data)).is_none(), "too wide");
    assert!(accept(&raw(i32::MAX, i32::MAX, i32::MAX, true, 4, &data)).is_none(), "overflow bait");
    assert!(accept(&raw(2, 2, 8 + 65, false, 3, &data)).is_none(), "absurd padding");
    let mut deep = raw(2, 2, 8, false, 3, &data);
    deep.bits_per_sample = 16;
    assert!(accept(&deep).is_none(), "16 bits");
}

#[test]
fn a_large_image_is_scaled_to_the_popup_size_keeping_its_shape() {
    let pixel = [10u8, 20, 30, 255];
    let data: Vec<u8> = pixel.iter().copied().cycle().take(1024 * 512 * 4).collect();
    let image = accept(&raw(1024, 512, 4096, true, 4, &data)).expect("valid");
    assert_eq!((image.width, image.height), (96, 48));
    assert!(image.rgba.chunks_exact(4).all(|p| p == pixel));
}

#[test]
fn transparent_pixels_do_not_darken_their_neighbours() {
    let mut data = Vec::new();
    for x in 0..200 {
        data.extend_from_slice(if x < 100 { &[255, 0, 0, 255] } else { &[0, 0, 255, 0] });
    }
    let image = accept(&raw(200, 1, 800, true, 4, &data)).expect("valid");
    assert_eq!(image.width, 96);
    assert_eq!(&image.rgba[..4], &[255, 0, 0, 255]);
    assert_eq!(&image.rgba[image.rgba.len() - 4..], &[0, 0, 0, 0]);
}

#[test]
fn a_small_image_is_never_scaled_up() {
    let data = [9u8; 4];
    let image = accept(&raw(1, 1, 4, true, 4, &data)).expect("valid");
    assert_eq!((image.width, image.height, image.rgba.len()), (1, 1, 4));
}
