use glassvis::detect::exceeds_threshold;
use glassvis::detect::find_diffs;
use glassvis::detect::mark_diffs;
use glassvis::detect::mark_points;
use glassvis::detect::threshold_of;
use glassvis::error::DiffError;
use glassvis::geometry::Point;
use glassvis::pixel::diff_marker;
use glassvis::pixel::pixels_differ;
use glassvis::pixel::Rgba;
use glassvis::raster::Image;

fn uniform(width: u32, height: u32, p: Rgba) -> Image {
    let mut data = Vec::new();
    for _ in 0..(width * height) {
        data.extend_from_slice(&[p.r, p.g, p.b, p.a]);
    }
    Image::from_raw(width, height, data).unwrap()
}

fn gray(v: u8) -> Rgba {
    Rgba { r: v, g: v, b: v, a: 255 }
}

const RED: Rgba = Rgba { r: 255, g: 0, b: 0, a: 255 };
const GREEN: Rgba = Rgba { r: 0, g: 255, b: 0, a: 255 };
const BLUE: Rgba = Rgba { r: 0, g: 0, b: 255, a: 255 };

fn gradient(width: u32, height: u32, step: u8) -> Image {
    let mut data = Vec::new();
    for i in 0..(width * height) {
        let v = (i as u8).wrapping_mul(step);
        data.extend_from_slice(&[v, v, v, 255]);
    }
    Image::from_raw(width, height, data).unwrap()
}

#[test]
fn luma_weighs_the_channels() {
    assert_eq!(RED.luma(), 54);
    assert_eq!(GREEN.luma(), 182);
    assert_eq!(BLUE.luma(), 18);
    assert_eq!(Rgba { r: 0, g: 0, b: 0, a: 255 }.luma(), 0);
}

#[test]
fn luma_ignores_alpha() {
    let opaque = Rgba { r: 40, g: 90, b: 200, a: 255 };
    let clear = Rgba { r: 40, g: 90, b: 200, a: 0 };
    assert_eq!(opaque.luma(), clear.luma());
}

#[test]
fn threshold_divides_the_luma_range() {
    assert_eq!(threshold_of(1), Ok(255));
    assert_eq!(threshold_of(2), Ok(127));
    assert_eq!(threshold_of(10), Ok(25));
    assert_eq!(threshold_of(254), Ok(1));
    assert_eq!(threshold_of(255), Ok(1));
}

#[test]
fn threshold_of_zero_is_refused() {
    assert_eq!(threshold_of(0), Err(DiffError::InvalidSignificance));
}

#[test]
fn exceeds_threshold_is_strict_and_symmetric() {
    assert!(exceeds_threshold(100, 150, 25));
    assert!(exceeds_threshold(150, 100, 25));
    assert!(!exceeds_threshold(100, 150, 127));
    assert!(!exceeds_threshold(100, 125, 25));
    assert!(exceeds_threshold(100, 126, 25));
    assert!(!exceeds_threshold(126, 101, 25));
    assert!(!exceeds_threshold(0, 255, 255));
    assert!(exceeds_threshold(0, 255, 254));
    assert!(!exceeds_threshold(7, 7, 0));
}

#[test]
fn pixels_differ_in_any_channel() {
    assert!(!pixels_differ([1, 2, 3, 4], [1, 2, 3, 4]));
    assert!(pixels_differ([0, 2, 3, 4], [1, 2, 3, 4]));
    assert!(pixels_differ([1, 0, 3, 4], [1, 2, 3, 4]));
    assert!(pixels_differ([1, 2, 0, 4], [1, 2, 3, 4]));
    assert!(pixels_differ([1, 2, 3, 0], [1, 2, 3, 4]));
}

#[test]
fn identical_images_have_no_diffs() {
    let reference = gradient(7, 5, 9);
    for significance in [1u8, 2, 10, 100, 255] {
        let mut captured = gradient(7, 5, 9);
        let (points, width, height, count) =
            mark_diffs(&reference, &mut captured, significance).unwrap();
        assert!(points.is_empty());
        assert_eq!(count, 0);
        assert_eq!((width, height), (7, 5));
        assert_eq!(captured, reference);
    }
}

#[test]
fn uniform_images_fifty_apart() {
    let reference = uniform(10, 10, gray(100));
    let mut captured = uniform(10, 10, gray(150));
    let (points, width, height, count) = mark_diffs(&reference, &mut captured, 10).unwrap();
    assert_eq!(count, 100);
    assert_eq!(points.len(), 100);
    assert_eq!((width, height), (10, 10));
    assert_eq!(captured, uniform(10, 10, diff_marker()));

    let mut captured = uniform(10, 10, gray(150));
    let (points, _, _, count) = mark_diffs(&reference, &mut captured, 2).unwrap();
    assert_eq!(count, 0);
    assert!(points.is_empty());
    assert_eq!(captured, uniform(10, 10, gray(150)));
}

#[test]
fn count_does_not_fall_as_significance_rises() {
    let reference = gradient(16, 16, 1);
    let captured = gradient(16, 16, 3);
    let mut last = 0usize;
    for significance in 1..=255u8 {
        let points = find_diffs(&reference, &captured, significance).unwrap();
        assert!(points.len() >= last);
        last = points.len();
    }
    assert!(last > 0);
}

#[test]
fn lower_level_lists_a_part_of_the_higher_level() {
    let reference = gradient(16, 16, 1);
    let captured = gradient(16, 16, 3);
    let low = find_diffs(&reference, &captured, 3).unwrap();
    let high = find_diffs(&reference, &captured, 40).unwrap();
    assert!(low.len() < high.len());
    for p in low.iter() {
        assert!(high.contains(p));
    }
}

#[test]
fn threshold_is_a_strict_bound() {
    // The lumas of pure red and pure blue are 54 and 18: 36 apart.
    let reference = uniform(2, 2, RED);
    let captured = uniform(2, 2, BLUE);
    assert_eq!(find_diffs(&reference, &captured, 7).unwrap().len(), 0);
    assert_eq!(find_diffs(&reference, &captured, 8).unwrap().len(), 4);
    assert_eq!(find_diffs(&captured, &reference, 7).unwrap().len(), 0);
    assert_eq!(find_diffs(&captured, &reference, 8).unwrap().len(), 4);
}

#[test]
fn points_come_in_row_major_order() {
    let reference = uniform(3, 2, gray(10));
    let mut captured = uniform(3, 2, gray(10));
    captured.put_pixel(0, 1, gray(200));
    captured.put_pixel(2, 0, gray(200));
    captured.put_pixel(1, 1, gray(200));
    let (points, _, _, count) = mark_diffs(&reference, &mut captured, 10).unwrap();
    assert_eq!(count, 3);
    assert_eq!(
        points,
        vec![Point { x: 2, y: 0 }, Point { x: 0, y: 1 }, Point { x: 1, y: 1 }]
    );
}

#[test]
fn marked_pixels_get_the_marker_and_others_stay() {
    let reference = uniform(3, 3, gray(10));
    let mut captured = uniform(3, 3, gray(10));
    captured.put_pixel(1, 2, gray(200));
    captured.put_pixel(2, 2, gray(20));
    let before = captured.clone();
    mark_diffs(&reference, &mut captured, 10).unwrap();
    for y in 0..3 {
        for x in 0..3 {
            if (x, y) == (1, 2) {
                assert_eq!(captured.get_pixel(x, y), Rgba { r: 255, g: 0, b: 0, a: 0 });
            } else {
                assert_eq!(captured.get_pixel(x, y), before.get_pixel(x, y));
            }
        }
    }
}

#[test]
fn pixels_that_differ_in_alpha_alone_are_not_marked() {
    let reference = uniform(4, 4, Rgba { r: 9, g: 99, b: 199, a: 255 });
    let mut captured = uniform(4, 4, Rgba { r: 9, g: 99, b: 199, a: 0 });
    let before = captured.clone();
    let (points, _, _, count) = mark_diffs(&reference, &mut captured, 255).unwrap();
    assert_eq!(count, 0);
    assert!(points.is_empty());
    assert_eq!(captured, before);
}

#[test]
fn detection_on_marked_pair_finds_nothing() {
    let reference = gradient(8, 8, 1);
    let mut captured = gradient(8, 8, 5);
    let (_, _, _, count) = mark_diffs(&reference, &mut captured, 10).unwrap();
    assert!(count > 0);
    let marked = captured.clone();
    let (points, _, _, again) = mark_diffs(&marked, &mut captured, 10).unwrap();
    assert_eq!(again, 0);
    assert!(points.is_empty());
    assert_eq!(captured, marked);
}

#[test]
fn mismatched_dimensions_are_refused() {
    let reference = uniform(5, 5, gray(100));
    let mut captured = uniform(6, 6, gray(150));
    let before_reference = reference.clone();
    let before_captured = captured.clone();
    assert_eq!(
        mark_diffs(&reference, &mut captured, 10),
        Err(DiffError::DimensionMismatch)
    );
    assert_eq!(reference, before_reference);
    assert_eq!(captured, before_captured);
    assert_eq!(
        find_diffs(&reference, &captured, 10),
        Err(DiffError::DimensionMismatch)
    );
}

#[test]
fn same_area_but_other_shape_is_refused() {
    let reference = uniform(4, 9, gray(100));
    let mut captured = uniform(9, 4, gray(150));
    assert_eq!(
        mark_diffs(&reference, &mut captured, 10),
        Err(DiffError::DimensionMismatch)
    );
}

#[test]
fn zero_significance_is_refused_first() {
    let reference = uniform(5, 5, gray(100));
    let mut captured = uniform(6, 6, gray(150));
    let before = captured.clone();
    assert_eq!(
        mark_diffs(&reference, &mut captured, 0),
        Err(DiffError::InvalidSignificance)
    );
    assert_eq!(captured, before);
    let mut same = uniform(5, 5, gray(150));
    assert_eq!(
        mark_diffs(&reference, &mut same, 0),
        Err(DiffError::InvalidSignificance)
    );
    assert_eq!(same, uniform(5, 5, gray(150)));
}

#[test]
fn empty_images_have_no_diffs() {
    let reference = Image::from_raw(0, 7, Vec::new()).unwrap();
    let mut captured = Image::from_raw(0, 7, Vec::new()).unwrap();
    let (points, width, height, count) = mark_diffs(&reference, &mut captured, 10).unwrap();
    assert!(points.is_empty());
    assert_eq!((width, height, count), (0, 7, 0));
}

#[test]
fn find_diffs_lists_what_mark_diffs_marks() {
    let reference = gradient(9, 4, 2);
    let mut captured = gradient(9, 4, 7);
    let listed = find_diffs(&reference, &captured, 20).unwrap();
    let (points, _, _, _) = mark_diffs(&reference, &mut captured, 20).unwrap();
    assert_eq!(listed, points);
    let mut painted = gradient(9, 4, 7);
    mark_points(&mut painted, &listed, diff_marker());
    assert_eq!(painted, captured);
}

#[test]
fn mark_points_passes_over_points_outside() {
    let mut image = uniform(3, 2, gray(50));
    let points = vec![
        Point { x: -1, y: 0 },
        Point { x: 3, y: 0 },
        Point { x: 0, y: 2 },
        Point { x: 1, y: -5 },
        Point { x: 2, y: 1 },
        Point { x: 2, y: 1 },
    ];
    mark_points(&mut image, &points, GREEN);
    let mut expected = uniform(3, 2, gray(50));
    expected.put_pixel(2, 1, GREEN);
    assert_eq!(image, expected);
}
