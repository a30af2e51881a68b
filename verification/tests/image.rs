use rendering::image::compute_channel_difference;
use rendering::image::dimensions_equal;
use rendering::image::Image;

#[test]
fn image_new_is_black_and_sized() {
    let image = Image::new(200, 100, 4);
    assert_eq!(image.size(), 20000);
    assert_eq!(image.width, 200);
    assert_eq!(image.height, 100);
    assert_eq!(image.chan, 4);
    assert_eq!(image.get_value(0, 0, 0), 0);
    assert_eq!(image.get_value(199, 99, 3), 0);
}

#[test]
fn frame_buffer_byte_length() {
    // A 200 x 100 frame must serialize to 200 * 100 * 4 == 80,000 bytes.
    let image = Image::new(200, 100, 4);
    let flat = image.as_flat_vec_u8();
    assert_eq!(flat.len(), 80000);
    assert!(flat.iter().all(|byte| *byte == 0));
}

#[test]
fn from_vec_reads_four_bytes_per_pixel() {
    let source: Vec<u8> = (0..16).collect();
    let image = Image::from_vec(2, 2, 4, source);
    assert_eq!(image.size(), 4);
    assert_eq!(image.get_value(0, 0, 0), 0);
    assert_eq!(image.get_value(0, 0, 3), 3);
    assert_eq!(image.get_value(1, 0, 0), 4);
    assert_eq!(image.get_value(0, 1, 2), 10);
    assert_eq!(image.get_value(1, 1, 3), 15);
}

#[test]
fn from_vec_then_flat_round_trip() {
    let source: Vec<u8> = (0..24).map(|v| (v * 7 % 256) as u8).collect();
    let image = Image::from_vec(3, 2, 4, source.clone());
    let flat = image.as_flat_vec_u8();
    assert_eq!(flat, source);
}

#[test]
fn set_pixel_then_get_value() {
    let mut image = Image::new(4, 3, 4);
    // Linear index 7 is (x, y) == (3, 1) in a 4-wide image.
    image.set_pixel(7, [10, 20, 30, 40]);
    assert_eq!(image.get_value(3, 1, 0), 10);
    assert_eq!(image.get_value(3, 1, 1), 20);
    assert_eq!(image.get_value(3, 1, 2), 30);
    assert_eq!(image.get_value(3, 1, 3), 40);
    // The neighbouring pixels are untouched.
    assert_eq!(image.get_value(2, 1, 0), 0);
    assert_eq!(image.get_value(3, 2, 0), 0);
}

#[test]
fn pixel_coordinate_splits_linear_index() {
    assert_eq!(Image::pixel_coordinate(200, 10050), (50, 50));
    assert_eq!(Image::pixel_coordinate(200, 0), (0, 0));
    assert_eq!(Image::pixel_coordinate(200, 199), (199, 0));
    assert_eq!(Image::pixel_coordinate(200, 200), (0, 1));
}

#[test]
fn get_pixel_coordinate_matches_static_split() {
    let image = Image::new(7, 5, 4);
    for index in 0..35 {
        let (x, y) = image.get_pixel_coordinate(index);
        assert_eq!((x, y), Image::pixel_coordinate(7, index));
        assert_eq!(y as usize * 7 + x as usize, index);
    }
}

#[test]
fn dimensions_equal_accepts_same_size() {
    let first = Image::new(64, 32, 4);
    let second = Image::new(64, 32, 4);
    assert_eq!(dimensions_equal(&first, &second), Ok(true));
}

#[test]
fn dimensions_equal_reports_second_size() {
    let first = Image::new(128, 32, 4);
    let second = Image::new(64, 32, 4);
    let result = dimensions_equal(&first, &second);
    assert_eq!(result, Err(String::from("Dimension mismatch: 64,32")));
}

#[test]
fn channel_difference_of_identical_images_is_opaque_black() {
    let source: Vec<u8> = (0..32).map(|v| (v * 3) as u8).collect();
    let first = Image::from_vec(4, 2, 4, source.clone());
    let second = Image::from_vec(4, 2, 4, source);
    let diff = compute_channel_difference(&first, &second).unwrap();
    assert_eq!(diff.len(), 32);
    for pixel in diff.chunks(4) {
        assert_eq!(pixel, &[0, 0, 0, 255]);
    }
}

#[test]
fn channel_difference_doubles_and_truncates_red() {
    let first = Image::from_vec(1, 1, 4, vec![200, 30, 2, 255]);
    let second = Image::from_vec(1, 1, 4, vec![0, 10, 50, 255]);
    let diff = compute_channel_difference(&first, &second).unwrap();
    // Red: |200 - 0| * 2 == 400, truncated to a byte == 144.
    assert_eq!(diff, vec![144, 20, 48, 255]);
}

#[test]
fn channel_difference_rejects_size_mismatch() {
    let first = Image::new(2, 2, 4);
    let second = Image::new(3, 2, 4);
    let result = compute_channel_difference(&first, &second);
    assert_eq!(result, Err(String::from("Dimension mismatch: 3,2")));
}
