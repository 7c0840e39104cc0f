use eye_tracker::image::{
    apply_table, equalize, histogram, preprocess, reduce_colors, reduce_table, sharpen, to_gray,
    ColorImage, GrayImage,
};

fn color(rows: usize, cols: usize, data: Vec<u8>) -> ColorImage {
    ColorImage::new(rows, cols, data).unwrap()
}

fn gray(rows: usize, cols: usize, data: Vec<u8>) -> GrayImage {
    GrayImage::new(rows, cols, data).unwrap()
}

#[test]
fn construction_checks_the_extent() {
    assert!(ColorImage::new(2, 2, vec![0; 12]).is_some());
    assert!(ColorImage::new(2, 2, vec![0; 11]).is_none());
    assert!(GrayImage::new(2, 2, vec![0; 4]).is_some());
    assert!(GrayImage::new(2, 2, vec![0; 5]).is_none());
}

#[test]
fn grayscale_keeps_the_extent_with_one_channel() {
    let img = color(2, 3, vec![7; 18]);
    let g = to_gray(&img);
    assert_eq!(g.rows, 2);
    assert_eq!(g.cols, 3);
    assert_eq!(g.data.len(), 6);
}

#[test]
fn grayscale_weights_the_channels() {
    // One pixel each of pure blue, pure green, pure red (channels are
    // interleaved blue, green, red).
    let img = color(1, 3, vec![255, 0, 0, 0, 255, 0, 0, 0, 255]);
    let g = to_gray(&img);
    assert_eq!(g.data, vec![29, 150, 76]);
}

#[test]
fn grayscale_keeps_an_equal_channel_pixel() {
    let img = color(1, 2, vec![77, 77, 77, 200, 200, 200]);
    let g = to_gray(&img);
    assert_eq!(g.data, vec![77, 200]);
}

#[test]
fn histogram_counts_every_value() {
    let h = histogram(&vec![0, 0, 100, 200, 255, 255, 255]);
    assert_eq!(h.len(), 256);
    assert_eq!(h[0], 2);
    assert_eq!(h[100], 1);
    assert_eq!(h[200], 1);
    assert_eq!(h[255], 3);
    assert_eq!(h[1], 0);
}

#[test]
fn equalization_spreads_the_range() {
    let g0 = gray(2, 2, vec![0, 0, 100, 200]);
    let e = equalize(&g0);
    // Counts: two at 0, one at 100, one at 200; the lowest bin drops
    // out of the scale, so 100 maps to the middle and 200 to the top.
    assert_eq!(e.data, vec![0, 0, 128, 255]);
    assert_eq!(e.rows, 2);
    assert_eq!(e.cols, 2);
}

#[test]
fn equalization_leaves_a_flat_frame_alone() {
    let g0 = gray(3, 2, vec![90; 6]);
    let e = equalize(&g0);
    assert_eq!(e.data, vec![90; 6]);
}

#[test]
fn equalization_of_an_empty_frame() {
    let g0 = gray(0, 0, Vec::new());
    let e = equalize(&g0);
    assert!(e.data.is_empty());
}

#[test]
fn preprocessing_keeps_the_extent() {
    let img = color(4, 5, (0u8..60).collect());
    let g = preprocess(&img);
    assert_eq!(g.rows, 4);
    assert_eq!(g.cols, 5);
    assert_eq!(g.data.len(), 20);
}

#[test]
fn preprocessing_a_flat_frame_twice_changes_nothing() {
    // A flat equal-channel frame is already grayscale and already
    // equalized: one pass keeps every intensity, and a second pass
    // over the re-expanded result keeps it again.
    let img = color(2, 2, vec![77; 12]);
    let once = preprocess(&img);
    assert_eq!(once.data, vec![77; 4]);

    let expanded: Vec<u8> = once.data.iter().flat_map(|&v| [v, v, v]).collect();
    let again = preprocess(&color(2, 2, expanded));
    assert_eq!(again.data, once.data);
}

#[test]
fn reduction_table_rounds_down_to_multiples() {
    let t = reduce_table(100);
    assert_eq!(t.len(), 256);
    assert_eq!(t[0], 0);
    assert_eq!(t[99], 0);
    assert_eq!(t[100], 100);
    assert_eq!(t[255], 200);
}

#[test]
fn lookup_table_application_is_pointwise() {
    let mut t: Vec<u8> = (0u8..=255).collect();
    t[10] = 42;
    let out = apply_table(&vec![10, 0, 255, 10], &t);
    assert_eq!(out, vec![42, 0, 255, 42]);
}

#[test]
fn color_reduction_maps_every_channel() {
    let img = color(1, 2, vec![0, 99, 100, 199, 200, 255]);
    let out = reduce_colors(&img, 100);
    assert_eq!(out.data, vec![0, 0, 100, 100, 200, 200]);
}

#[test]
fn sharpening_combines_the_five_point_neighborhood() {
    let mut data = Vec::new();
    for v in [10u8, 20, 30, 40, 50, 60, 70] {
        data.extend_from_slice(&[v, v, v]);
    }
    let img = color(1, 7, data);
    let out = sharpen(&img);
    // Only the pixel three in from each border is interior here:
    // 5 * 40 - 10 - 30 - 50 - 70 = 40.
    let mut expected = vec![0u8; 21];
    expected[9] = 40;
    expected[10] = 40;
    expected[11] = 40;
    assert_eq!(out.data, expected);
}

#[test]
fn sharpening_wraps_the_byte_arithmetic() {
    let mut data = vec![0u8; 21];
    data[9] = 200;
    data[10] = 200;
    data[11] = 200;
    let img = color(1, 7, data);
    let out = sharpen(&img);
    // 5 * 200 = 1000, which wraps to 232 modulo 256.
    let mut expected = vec![0u8; 21];
    expected[9] = 232;
    expected[10] = 232;
    expected[11] = 232;
    assert_eq!(out.data, expected);
}

#[test]
fn sharpening_keeps_the_extent_and_zeroes_the_border() {
    let img = color(1, 5, vec![50; 15]);
    let out = sharpen(&img);
    assert_eq!(out.rows, 1);
    assert_eq!(out.cols, 5);
    assert_eq!(out.data, vec![0; 15]);
}
