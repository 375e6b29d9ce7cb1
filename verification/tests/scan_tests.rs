//! The cardinal-point scanner and the masking pixel grabber.

use pixel_caster::PixelError;
use pixel_caster::bgra_management::Matcher;
use pixel_caster::scan::get_cardinal_points_until_nonestreak_x;
use pixel_caster::scan::pixel_grabber;

/// A `width x height` buffer, fully transparent except for the given
/// opaque column ranges, which are filled at every row.
fn sheet_with_columns(width: usize, height: usize, opaque_cols: &[(usize, usize)]) -> Vec<u8> {
    let mut bytes = vec![0u8; width * height * 4];
    for &(lo, hi) in opaque_cols {
        for x in lo..=hi {
            for y in 0..height {
                let i = (y * width + x) * 4;
                bytes[i] = 10;
                bytes[i + 1] = 20;
                bytes[i + 2] = 30;
                bytes[i + 3] = 255;
            }
        }
    }
    bytes
}

#[test]
fn scan_all_matching_region_returns_its_corners() {
    let buffer = sheet_with_columns(8, 6, &[(0, 7)]);
    let points = get_cardinal_points_until_nonestreak_x(&buffer, 6, 2, 1, 5, 4, 3, Matcher::Visible);
    assert_eq!(points.left_x, 2);
    assert_eq!(points.right_x, 2 + 5 - 1);
    assert_eq!(points.top_y, 1);
    assert_eq!(points.bottom_y, 1 + 4 - 1);
    assert_eq!(points.width().unwrap(), 5);
    assert_eq!(points.height().unwrap(), 4);
}

#[test]
fn scan_without_match_refuses_width_and_height() {
    let buffer = vec![0u8; 8 * 6 * 4];
    let points = get_cardinal_points_until_nonestreak_x(&buffer, 6, 0, 0, 8, 6, 8, Matcher::Visible);
    assert_eq!(points.left_x, 8);
    assert_eq!(points.right_x, 0);
    assert_eq!(points.top_y, 6);
    assert_eq!(points.bottom_y, 0);
    assert_eq!(points.width(), Err(PixelError::NoMatchFound));
    assert_eq!(points.height(), Err(PixelError::NoMatchFound));
}

#[test]
fn scan_gap_tolerance_stops_before_the_next_glyph() {
    // Matches at columns 0..=1 and 10..=11; a tolerance of three empty
    // columns ends the scan before the second block.
    let buffer = sheet_with_columns(20, 2, &[(0, 1), (10, 11)]);
    let points = get_cardinal_points_until_nonestreak_x(
        &buffer,
        2,
        0,
        0,
        20,
        2,
        3,
        Matcher::Visible,
    );
    assert_eq!(points.left_x, 0);
    assert_eq!(points.right_x, 1);

    // A tolerance as wide as the range reaches the second block.
    let all = get_cardinal_points_until_nonestreak_x(&buffer, 2, 0, 0, 20, 2, 20, Matcher::Visible);
    assert_eq!(all.left_x, 0);
    assert_eq!(all.right_x, 11);
}

#[test]
fn scan_records_first_index_reaching_each_extreme() {
    let buffer = sheet_with_columns(4, 3, &[(1, 2)]);
    let points = get_cardinal_points_until_nonestreak_x(&buffer, 3, 0, 0, 4, 3, 4, Matcher::Visible);
    // Column 1 is scanned first, row 0 within it: stride is 16.
    assert_eq!(points.left_x_index, 4);
    assert_eq!(points.top_y_index, 4);
    // The right edge is first reached at column 2, row 0; the bottom at
    // column 1, row 2.
    assert_eq!(points.right_x_index, 8);
    assert_eq!(points.bottom_y_index, 2 * 16 + 4);
}

#[test]
fn grabber_copies_matches_and_masks_the_rest() {
    let mut buffer = sheet_with_columns(4, 2, &[(1, 1)]);
    // Give the non-matching pixel at (2, 0) a color that must be masked.
    let i = (0 * 4 + 2) * 4;
    buffer[i] = 77;
    buffer[i + 1] = 88;
    buffer[i + 2] = 99;
    buffer[i + 3] = 0;
    let (grabbed, points) = pixel_grabber(&buffer, 2, 1, 0, 2, 2, Matcher::Visible);
    assert_eq!(
        grabbed,
        vec![
            10, 20, 30, 255, 0, 0, 0, 0,
            10, 20, 30, 255, 0, 0, 0, 0,
        ]
    );
    // Extremes are relative to the grabbed rectangle.
    assert_eq!(points.left_x, 0);
    assert_eq!(points.right_x, 0);
    assert_eq!(points.top_y, 0);
    assert_eq!(points.bottom_y, 1);
}
