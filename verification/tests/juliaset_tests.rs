use juliaset::converge_point;
use juliaset::converge_point_set;
use juliaset::draw_image;
use juliaset::default_tolerance;
use juliaset::make_color_map;
use juliaset::make_square_xy_pair;
use juliaset::make_xy_coordinate_pair;
use juliaset::map_coordinates;
use juliaset::scan_points;
use juliaset::scan_points_chunked;
use juliaset::transform_point;
use juliaset::Coordinate;
use juliaset::ParamSet;
use juliaset::Point;

const LOW_COLOR_R: u8 = 0;
const LOW_COLOR_G: u8 = 32;
const LOW_COLOR_B: u8 = 81;
const HIGH_COLOR_R: u8 = 253;
const HIGH_COLOR_G: u8 = 233;
const HIGH_COLOR_B: u8 = 69;

fn coord(text: &str) -> Coordinate {
    Coordinate::parse(text).unwrap()
}

fn epsilon() -> Coordinate {
    coord(&f32::EPSILON.to_string())
}

fn bits_of(values: &[Coordinate]) -> Vec<u32> {
    values.iter().map(|v| v.bits()).collect()
}

fn expected_bits(values: &[f32]) -> Vec<u32> {
    values.iter().map(|v| v.to_bits()).collect()
}

#[test]
fn test_full_param_set() {
    let x_offset = coord("0.5");
    let y_offset = coord("0.125");
    let max_iter: i32 = 20;
    let n_pixels: isize = 16;
    let csv_filename = Some("input.csv".to_string());
    let image_filename = Some("input.png".to_string());

    let actual = ParamSet::new(
        x_offset,
        y_offset,
        max_iter,
        n_pixels,
        &csv_filename,
        &image_filename,
    );
    assert_eq!(actual.x_offset.bits(), 0.5f32.to_bits());
    assert_eq!(actual.y_offset.bits(), 0.125f32.to_bits());
    assert_eq!(actual.max_iter, max_iter);
    assert_eq!(actual.n_pixels, n_pixels);
    assert_eq!(actual.csv_filename, Some("input.csv".to_string()));
    assert_eq!(actual.image_filename, Some("input.png".to_string()));
}

#[test]
fn test_partial_param_set() {
    let x_offset = coord("0.25");
    let y_offset = coord("0.375");
    let max_iter: i32 = 10;
    let n_pixels: isize = 32;
    let csv_filename = None;
    let image_filename = None;

    let actual = ParamSet::new(
        x_offset,
        y_offset,
        max_iter,
        n_pixels,
        &csv_filename,
        &image_filename,
    );
    assert_eq!(actual.x_offset.bits(), 0.25f32.to_bits());
    assert_eq!(actual.y_offset.bits(), 0.375f32.to_bits());
    assert_eq!(actual.max_iter, max_iter);
    assert_eq!(actual.n_pixels, n_pixels);
    assert!(actual.csv_filename.is_none());
    assert!(actual.image_filename.is_none());
}

#[test]
fn test_transform_point() {
    let from = Point::new(&Coordinate::from_int(2), &Coordinate::from_int(4));
    let offset = Point::new(&Coordinate::from_int(3), &Coordinate::from_int(5));
    let actual = transform_point(&from, &offset);
    assert_eq!(actual.x_bits(), (-9.0f32).to_bits());
    assert_eq!(actual.y_bits(), 21.0f32.to_bits());
}

#[test]
fn test_converge_point() {
    let eps = epsilon();
    let zero = Point::new(&Coordinate::from_int(0), &Coordinate::from_int(0));

    // Min count
    let actual = converge_point(&coord("23.0"), &coord("0.0"), &zero, 100, &eps);
    assert_eq!(actual, 0);

    // Eps
    let actual = converge_point(&coord("0.9"), &coord("0.0"), &zero, 100, &coord("0.001"));
    assert_eq!(actual, 6);

    // Converged
    let offset_c = Point::new(&coord("0.375"), &coord("0.375"));
    let actual = converge_point(&coord("0.375"), &coord("0.375"), &offset_c, 100, &coord("0.01"));
    assert_eq!(actual, 15);

    // Max count
    let actual = converge_point(&coord("0.375"), &coord("0.375"), &offset_c, 11, &coord("0.01"));
    assert_eq!(actual, 11);

    // The machine epsilon
    let one_plus_eps = Coordinate::from_int(1).plus(&eps);
    let actual = converge_point(&one_plus_eps, &coord("0.0"), &zero, 100, &eps);
    assert_eq!(actual, 0);

    // Some converged cases
    let offset_a = Point::new(&coord("0.5"), &coord("0.375"));
    let actual = converge_point(&coord("0.0"), &coord("0.0"), &offset_a, 100, &eps);
    assert_eq!(actual, 4);

    let offset_b = Point::new(&coord("0.375"), &coord("0.5"));
    let actual = converge_point(&coord("0.0"), &coord("0.0"), &offset_b, 100, &eps);
    assert_eq!(actual, 8);

    let actual = converge_point(&coord("0.5"), &coord("0.375"), &offset_b, 100, &eps);
    assert_eq!(actual, 3);

    let actual = converge_point(&coord("0.375"), &coord("0.5"), &offset_a, 100, &eps);
    assert_eq!(actual, 7);
}

#[test]
fn test_converge_point_set_row() {
    let xs = vec![coord("0.375"), coord("0.5")];
    let ys = vec![coord("0.375")];
    let offset = Point::new(&coord("0.375"), &coord("0.375"));
    let eps = epsilon();
    let actual = converge_point_set(&xs, &ys, &offset, 100, &eps);
    assert_eq!(actual.len(), 1);
    assert_eq!(actual[0].len(), 2);
    assert_eq!(actual[0][0], 15);
    assert_eq!(actual[0][1], 7);
}

#[test]
fn test_converge_point_set_column() {
    let xs = vec![coord("0.375")];
    let ys = vec![coord("0.375"), coord("0.5")];
    let offset = Point::new(&coord("0.375"), &coord("0.375"));
    let eps = epsilon();
    let actual = converge_point_set(&xs, &ys, &offset, 100, &eps);
    assert_eq!(actual.len(), 2);
    assert_eq!(actual[0].len(), 1);
    assert_eq!(actual[0][0], 15);
    assert_eq!(actual[1][0], 24);
}

#[test]
fn test_converge_point_set_limit() {
    let xs = vec![coord("0.375"), coord("0.5")];
    let ys = vec![coord("0.375")];
    let offset = Point::new(&coord("0.5"), &coord("0.375"));
    let eps = epsilon();
    let actual = converge_point_set(&xs, &ys, &offset, 5, &eps);
    assert_eq!(actual.len(), 1);
    assert_eq!(actual[0].len(), 2);
    assert_eq!(actual[0][0], 5);
    assert_eq!(actual[0][1], 3);
}

#[test]
fn test_map_coordinates_negative() {
    let actual = map_coordinates(&coord("-1.0"), &coord("1.0"), -1);
    assert_eq!(actual.len(), 0);
}

#[test]
fn test_map_coordinates_zero() {
    let actual = map_coordinates(&coord("-1.0"), &coord("0.0"), 0);
    assert_eq!(actual.len(), 0);
}

#[test]
fn test_map_coordinates_one() {
    let actual = map_coordinates(&coord("-1.0"), &coord("1.0"), 1);
    assert_eq!(actual.len(), 1);
    assert_eq!(actual[0].bits(), 0.0f32.to_bits());
}

#[test]
fn test_map_coordinates_one_midpoint() {
    let actual = map_coordinates(&coord("-1.0"), &coord("3.0"), 1);
    assert_eq!(actual.len(), 1);
    assert_eq!(actual[0].bits(), 1.0f32.to_bits());
}

#[test]
fn test_map_coordinates_two() {
    let actual = map_coordinates(&coord("-2.0"), &coord("3.0"), 2);
    assert_eq!(bits_of(&actual), expected_bits(&[-2.0, 3.0]));
}

#[test]
fn test_map_coordinates_many() {
    let actual_odd = map_coordinates(&coord("-3.0"), &coord("1.0"), 5);
    assert_eq!(bits_of(&actual_odd), expected_bits(&[-3.0, -2.0, -1.0, 0.0, 1.0]));

    let actual_even = map_coordinates(&coord("-5.0"), &coord("7.0"), 4);
    assert_eq!(bits_of(&actual_even), expected_bits(&[-5.0, -1.0, 3.0, 7.0]));
}

#[test]
fn test_map_coordinates_reverse() {
    let actual = map_coordinates(&coord("2.0"), &coord("-2.0"), 5);
    assert_eq!(bits_of(&actual), expected_bits(&[2.0, 1.0, 0.0, -1.0, -2.0]));
}

#[test]
fn test_map_coordinates_frac() {
    let lower = Coordinate::from_int(2).sqrt();
    let upper = Coordinate::from_int(3).sqrt();
    let actual = map_coordinates(&lower, &upper, 7);
    assert_eq!(actual.len(), 7);
    assert_eq!(actual[0].bits(), 2.0f32.sqrt().to_bits());
    assert_eq!(actual[6].bits(), 3.0f32.sqrt().to_bits());
}

#[test]
fn test_make_xy_coordinate_pair() {
    let (xs, ys) = make_xy_coordinate_pair(&coord("2.0"), &coord("6.0"), 5, 4);
    assert_eq!(bits_of(&xs), expected_bits(&[-2.0, -1.0, 0.0, 1.0, 2.0]));
    assert_eq!(bits_of(&ys), expected_bits(&[-6.0, -2.0, 2.0, 6.0]));
}

#[test]
fn test_make_square_xy_pair() {
    let half_length = 2.0f32.sqrt() + 0.1;
    let half2_length = half_length / 2.0;
    let expected = expected_bits(&[-half_length, -half2_length, 0.0, half2_length, half_length]);
    let (xs, ys) = make_square_xy_pair(5);
    assert_eq!(bits_of(&xs), expected);
    assert_eq!(bits_of(&ys), expected);
}

fn square_half_extent() -> Coordinate {
    Coordinate::from_int(2)
        .sqrt()
        .plus(&Coordinate::from_int(1).div(&Coordinate::from_int(10)))
}

#[test]
fn test_map_scan_points_square() {
    let half_length = square_half_extent();
    let (xs, ys) = make_xy_coordinate_pair(&half_length, &half_length, 4, 5);
    let actual = scan_points(&coord("0.25"), &coord("-0.75"), 100, &xs, &ys);
    let expected = vec![
        vec![0, 1, 0, 0],
        vec![0, 5, 1, 0],
        vec![0, 2, 2, 0],
        vec![0, 1, 5, 0],
        vec![0, 0, 1, 0],
    ];
    assert_eq!(actual, expected);
}

#[test]
fn test_map_scan_points_scattered() {
    let xs = vec![coord("-0.25"), coord("-0.125"), coord("-0.0625")];
    let ys = vec![coord("0.375"), coord("0.5"), coord("0.625"), coord("0.75")];
    let actual = scan_points(&coord("-0.625"), &coord("0.75"), 100, &xs, &ys);
    let expected = vec![vec![6, 5, 4], vec![6, 5, 4], vec![6, 6, 5], vec![8, 9, 6]];
    assert_eq!(actual, expected);
}

#[test]
fn test_map_scan_points_capped() {
    let xs = vec![coord("-0.25"), coord("-0.125"), coord("-0.0625")];
    let ys = vec![coord("0.375"), coord("0.5"), coord("0.625"), coord("0.75")];
    let actual = scan_points(&coord("-0.625"), &coord("0.75"), 6, &xs, &ys);
    let expected = vec![vec![6, 5, 4], vec![6, 5, 4], vec![6, 6, 5], vec![6, 6, 6]];
    assert_eq!(actual, expected);
}

#[test]
fn test_scan_points_chunk_invariance() {
    let xs = vec![coord("-0.25"), coord("-0.125"), coord("-0.0625")];
    let ys = vec![coord("0.375"), coord("0.5"), coord("0.625"), coord("0.75")];
    let whole = scan_points(&coord("-0.625"), &coord("0.75"), 100, &xs, &ys);
    for chunk_len in 1..=5usize {
        let chunked =
            scan_points_chunked(&coord("-0.625"), &coord("0.75"), 100, &xs, &ys, chunk_len);
        assert_eq!(chunked, whole);
    }
}

#[test]
fn test_scan_points_empty_axes() {
    let xs: Vec<Coordinate> = Vec::new();
    let ys = vec![coord("0.5")];
    let actual = scan_points(&coord("0.0"), &coord("0.0"), 10, &xs, &ys);
    assert_eq!(actual.len(), 1);
    assert_eq!(actual[0].len(), 0);

    let actual = scan_points(&coord("0.0"), &coord("0.0"), 10, &ys, &xs);
    assert_eq!(actual.len(), 0);
}

#[test]
fn test_known_grid_size_four() {
    let (xs, ys) = make_square_xy_pair(4);
    let actual = scan_points(&coord("0.25"), &coord("0.75"), 100, &xs, &ys);
    let expected = vec![
        vec![0, 0, 1, 0],
        vec![0, 2, 5, 0],
        vec![0, 5, 2, 0],
        vec![0, 1, 0, 0],
    ];
    assert_eq!(actual, expected);
}

#[test]
fn test_fixed_point_stabilizes_quickly() {
    let zero = Point::new(&Coordinate::from_int(0), &Coordinate::from_int(0));
    let eps = default_tolerance();
    let actual = converge_point(&coord("0.0"), &coord("0.0"), &zero, 100, &eps);
    assert!(actual <= 2);
}

#[test]
fn test_far_point_returns_zero() {
    let zero = Point::new(&Coordinate::from_int(0), &Coordinate::from_int(0));
    let eps = default_tolerance();
    let actual = converge_point(&coord("23.0"), &coord("0.0"), &zero, 100, &eps);
    assert_eq!(actual, 0);
}

#[test]
fn test_default_tolerance_exceeds_machine_epsilon() {
    let tolerance = f32::from_bits(default_tolerance().bits());
    assert_eq!(tolerance, 1e-6f32);
    assert!(tolerance > f32::EPSILON);
}

#[test]
fn test_coordinate_parse_rejects_text() {
    assert!(Coordinate::parse("a.b").is_none());
    assert!(Coordinate::parse("").is_none());
}

#[test]
fn test_make_color_map_empty() {
    let count_set: Vec<Vec<i32>> = vec![vec![], vec![]];
    let color_map = make_color_map(&count_set);
    assert_eq!(color_map.len(), 1);
    assert_eq!(color_map[0].r, HIGH_COLOR_R);
    assert_eq!(color_map[0].g, HIGH_COLOR_G);
    assert_eq!(color_map[0].b, HIGH_COLOR_B);
}

#[test]
fn test_make_color_map_monotone() {
    let count_set = vec![vec![0, 0], vec![0, 0]];
    let color_map = make_color_map(&count_set);
    assert_eq!(color_map.len(), 1);
    assert_eq!(color_map[0].r, HIGH_COLOR_R);
    assert_eq!(color_map[0].g, HIGH_COLOR_G);
    assert_eq!(color_map[0].b, HIGH_COLOR_B);
}

#[test]
fn test_make_color_map_many_colors() {
    for count in 1..=10 {
        let count_set = vec![vec![0, 1, 1], vec![0, 1, count]];
        let color_map = make_color_map(&count_set);
        let max_index = count as usize;
        assert_eq!(color_map.len(), max_index + 1);
        assert_eq!(color_map[0].r, LOW_COLOR_R);
        assert_eq!(color_map[0].g, LOW_COLOR_G);
        assert_eq!(color_map[0].b, LOW_COLOR_B);

        for index in 1..max_index {
            assert_ne!(color_map[index].r, LOW_COLOR_R);
            assert_ne!(color_map[index].g, LOW_COLOR_G);
            assert_ne!(color_map[index].b, LOW_COLOR_B);
            assert_ne!(color_map[index].r, HIGH_COLOR_R);
            assert_ne!(color_map[index].g, HIGH_COLOR_G);
            assert_ne!(color_map[index].b, HIGH_COLOR_B);
        }

        assert_eq!(color_map[max_index].r, HIGH_COLOR_R);
        assert_eq!(color_map[max_index].g, HIGH_COLOR_G);
        assert_eq!(color_map[max_index].b, HIGH_COLOR_B);
    }
}

#[test]
fn test_draw_image_monotone() {
    let count_set = vec![vec![1, 1, 1], vec![1, 1, 1]];
    let width = 3u32;
    let height = 2u32;
    let image = draw_image(&count_set);
    assert_eq!(image.len(), (width * height * 3) as usize);

    for y in 0..height {
        for x in 0..width {
            let base = (3 * (y * width + x)) as usize;
            assert_eq!(image[base], HIGH_COLOR_R);
            assert_eq!(image[base + 1], HIGH_COLOR_G);
            assert_eq!(image[base + 2], HIGH_COLOR_B);
        }
    }
}

#[test]
fn test_draw_image_two_colors() {
    let count_set = vec![vec![0, 0, 0], vec![1, 0, 0]];
    let width = 3u32;
    let height = 2u32;
    let image = draw_image(&count_set);

    for y in 0..height {
        for x in 0..width {
            let base = (3 * (y * width + x)) as usize;
            if (x == 0) && (y == 1) {
                assert_eq!(image[base], HIGH_COLOR_R);
                assert_eq!(image[base + 1], HIGH_COLOR_G);
                assert_eq!(image[base + 2], HIGH_COLOR_B);
            } else {
                assert_eq!(image[base], LOW_COLOR_R);
                assert_eq!(image[base + 1], LOW_COLOR_G);
                assert_eq!(image[base + 2], LOW_COLOR_B);
            }
        }
    }
}

#[test]
fn test_draw_image_many_colors() {
    let count_set = vec![vec![0, 4, 8], vec![16, 32, 64]];
    let width = 3u32;
    let height = 2u32;
    let image = draw_image(&count_set);

    let mut prev = 0u8;
    for y in 0..height {
        for x in 0..width {
            let base = (3 * (y * width + x)) as usize;
            let current = image[base + 1];
            if (x == 0) && (y == 0) {
                assert_eq!(current, LOW_COLOR_G);
            } else {
                assert!(current > prev);
            }
            prev = current;
        }
    }
}
