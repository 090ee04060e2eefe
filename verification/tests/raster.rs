use glassvis::pixel::diff_marker;
use glassvis::pixel::Rgba;
use glassvis::raster::Image;
use glassvis::raster::MAX_SIDE;

#[test]
fn image_from_raw_wants_four_bytes_to_the_pixel() {
    assert!(Image::from_raw(2, 3, vec![0; 24]).is_some());
    assert!(Image::from_raw(2, 3, vec![0; 23]).is_none());
    assert!(Image::from_raw(2, 3, vec![0; 25]).is_none());
    assert!(Image::from_raw(0, 0, Vec::new()).is_some());
    assert!(Image::from_raw(0, 5, Vec::new()).is_some());
    assert!(Image::from_raw(0, 5, vec![0; 4]).is_none());
}

#[test]
fn image_sides_are_bounded() {
    assert_eq!(MAX_SIDE, i32::MAX as u32);
    assert!(Image::from_raw(MAX_SIDE, 0, Vec::new()).is_some());
    assert!(Image::from_raw(MAX_SIDE + 1, 0, Vec::new()).is_none());
    assert!(Image::from_raw(0, MAX_SIDE + 1, Vec::new()).is_none());
    assert!(Image::from_raw(u32::MAX, u32::MAX, Vec::new()).is_none());
}

#[test]
fn image_pixels_lie_row_by_row() {
    let data: Vec<u8> = (0..24).collect();
    let image = Image::from_raw(3, 2, data.clone()).unwrap();
    assert_eq!(image.width(), 3);
    assert_eq!(image.height(), 2);
    assert_eq!(image.get_pixel(0, 0), Rgba { r: 0, g: 1, b: 2, a: 3 });
    assert_eq!(image.get_pixel(2, 0), Rgba { r: 8, g: 9, b: 10, a: 11 });
    assert_eq!(image.get_pixel(0, 1), Rgba { r: 12, g: 13, b: 14, a: 15 });
    assert_eq!(image.get_pixel(2, 1), Rgba { r: 20, g: 21, b: 22, a: 23 });
    assert_eq!(image.as_raw(), &data);
    assert_eq!(image.into_raw(), data);
}

#[test]
fn put_pixel_changes_one_pixel() {
    let mut image = Image::from_raw(3, 2, vec![5; 24]).unwrap();
    image.put_pixel(1, 1, Rgba { r: 1, g: 2, b: 3, a: 4 });
    let mut expected = vec![5; 24];
    expected[16] = 1;
    expected[17] = 2;
    expected[18] = 3;
    expected[19] = 4;
    assert_eq!(image.into_raw(), expected);
}

#[test]
fn diff_marker_is_red_without_alpha() {
    assert_eq!(diff_marker(), Rgba { r: 255, g: 0, b: 0, a: 0 });
    assert_eq!(Rgba::from_channels([9, 8, 7, 6]), Rgba { r: 9, g: 8, b: 7, a: 6 });
}
