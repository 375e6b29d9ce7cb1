//! Buffers, their constructor's checks, and the recoloring operations.

use pixel_caster::PixelError;
use pixel_caster::PixelValues;
use pixel_caster::PixelsCollection;
use pixel_caster::PixelsSendMode;
use pixel_caster::bgra_management::Alterator;
use pixel_caster::bgra_management::ColorAlteration;
use pixel_caster::bgra_management::Matcher;
use pixel_caster::bgra_management::image_lowest_visible_bgr;
use pixel_caster::bgra_management::image_opaquest_bgr;
use pixel_caster::bytes_alterators::all_to_zero;
use pixel_caster::bytes_alterators::transparent_white;
use pixel_caster::bytes_matchers::fully_opaque;
use pixel_caster::bytes_matchers::not_fully_opaque;
use pixel_caster::bytes_matchers::visible;
use pixel_caster::bytes_matchers::visible_not_white;

#[test]
fn create_checks_the_shape() {
    let ok = PixelsCollection::<u8>::create(2, 2, vec![0; 16]).unwrap();
    assert_eq!(ok.width, 2);
    assert_eq!(ok.height, 2);
    assert_eq!(ok.row_length, 8);
    assert_eq!(ok.units_per_pixel, 4);

    assert_eq!(
        PixelsCollection::<u8>::create(2, 2, vec![0; 15]).unwrap_err(),
        PixelError::ShapeMismatch
    );
    assert_eq!(
        PixelsCollection::<u8>::create(2, 2, vec![0; 12]).unwrap_err(),
        PixelError::ShapeMismatch
    );
    assert_eq!(
        PixelsCollection::<u8>::create(2, 0, Vec::new()).unwrap_err(),
        PixelError::ShapeMismatch
    );

    let packed = PixelsCollection::<u32>::create(2, 2, vec![0u32; 4]).unwrap();
    assert_eq!(packed.units_per_pixel, 1);
    assert_eq!(packed.row_length, 2);
}

#[test]
fn initialize_vec_is_zeroed_and_sized() {
    let planar: Vec<u8> = <u8 as PixelValues<u8>>::initialize_vec(3, 2);
    assert_eq!(planar, vec![0u8; 24]);
    let packed: Vec<u32> = <u32 as PixelValues<u32>>::initialize_vec(3, 2);
    assert_eq!(packed, vec![0u32; 6]);
    assert_eq!(<u8 as PixelValues<u8>>::units_per_pixel(), 4);
    assert_eq!(<u32 as PixelValues<u32>>::units_per_pixel(), 1);
    assert_eq!(7u8.get_units_per_pixel(), 4);
    assert_eq!(7u32.get_units_per_pixel(), 1);
}

#[test]
fn coord_to_index_walks_row_major() {
    let pc = PixelsCollection::<u8>::create(4, 3, vec![0; 48]).unwrap();
    assert_eq!(pc.coord_to_index(0, 0), 0);
    assert_eq!(pc.coord_to_index(3, 0), 12);
    assert_eq!(pc.coord_to_index(1, 2), (4 * 2 + 1) * 4);
    assert_eq!(pc.coord_to_index_with_offset_coord(1, 2, 2, -1), (4 * 1 + 3) * 4);
}

#[test]
fn stock_matchers_answer_by_alpha_and_color() {
    assert!(visible(0, 0, 0, 1));
    assert!(!visible(9, 9, 9, 0));
    assert!(visible_not_white(254, 255, 255, 10));
    assert!(!visible_not_white(255, 255, 255, 10));
    assert!(fully_opaque(0, 0, 0, 255));
    assert!(!fully_opaque(0, 0, 0, 254));
    assert!(not_fully_opaque(0, 0, 0, 254));
    assert!(!not_fully_opaque(0, 0, 0, 255));
}

#[test]
fn stock_alterators_rewrite_in_place() {
    let mut v = vec![1u8, 2, 3, 4];
    all_to_zero(&mut v);
    assert_eq!(v, vec![0, 0, 0, 0]);
    let mut w = vec![1u8, 2, 3, 4, 5];
    transparent_white(&mut w);
    assert_eq!(w, vec![255, 255, 255, 0, 5]);
}

#[test]
fn color_alteration_rewrites_matching_pixels() {
    let mut v = vec![255u8, 255, 255, 255, 100, 0, 200, 255, 0, 255, 0, 100];
    v.color_matcher_and_new_color(Matcher::FullyOpaque, 255, 0, 0, 255);
    assert_eq!(v, vec![255, 0, 0, 255, 255, 0, 0, 255, 0, 255, 0, 100]);

    let mut w = vec![255u8, 255, 255, 255, 100, 0, 200, 255];
    w.color_matcher_and_alterator(Matcher::VisibleNotWhite, Alterator::AllToZero);
    assert_eq!(w, vec![255, 255, 255, 255, 0, 0, 0, 0]);

    let mut s = vec![1u8, 2, 3, 9, 4, 5, 6, 9];
    s.set_bgr(7, 8, 9);
    assert_eq!(s, vec![7, 8, 9, 9, 7, 8, 9, 9]);

    let mut m = vec![1u8, 2, 3, 9];
    m.match_bgr_set_alpha(1, 2, 3, 77);
    assert_eq!(m, vec![1, 2, 3, 77]);
    m.match_alpha_set_bgr(77, 4, 5, 6);
    assert_eq!(m, vec![4, 5, 6, 77]);
    m.match_bgra_set_bgra(4, 5, 6, 77, 9, 9, 9, 9);
    assert_eq!(m, vec![9, 9, 9, 9]);
    m.alpha_not_max_clear_color(3);
    assert_eq!(m, vec![0, 0, 0, 0]);
}

#[test]
fn address_and_position_writes_land_where_told() {
    let mut v = vec![0u8; 16];
    v.set_addresses_bgra(&[0, 8], 1, 2, 3, 4);
    assert_eq!(v, vec![1, 2, 3, 4, 0, 0, 0, 0, 1, 2, 3, 4, 0, 0, 0, 0]);
    v.set_addresses_optional_bgra(&[0], None, Some(9), None, None);
    assert_eq!(&v[0..4], &[1, 9, 3, 4]);

    // Two rows of two pixels: position (x 1, y 1) is the last pixel.
    let mut p = vec![0u8; 16];
    p.set_positions_bgra(2, &[(1, 1)], 5, 6, 7, 8);
    assert_eq!(&p[12..16], &[5, 6, 7, 8]);
}

#[test]
fn collection_recolor_helpers() {
    let mut pc = PixelsCollection::<u8>::create(2, 1, vec![0, 0, 0, 0, 1, 2, 3, 4]).unwrap();
    pc.set_bgra_for_invisible(9, 8, 7, 6);
    assert_eq!(pc.bytes, vec![9, 8, 7, 6, 1, 2, 3, 4]);
    pc.matching_color_change(1, 2, 3, 4, 4, 3, 2, 1);
    assert_eq!(pc.bytes, vec![9, 8, 7, 6, 4, 3, 2, 1]);
    pc.set_bgr(1, 1, 1);
    assert_eq!(pc.bytes, vec![1, 1, 1, 6, 1, 1, 1, 1]);
}

#[test]
fn try_switch_bytes_reports_bad_indexes() {
    let mut pc = PixelsCollection::<u8>::create(1, 1, vec![1, 2, 3, 4]).unwrap();
    assert_eq!(pc.try_switch_bytes(0, 4).unwrap_err(), PixelError::InvalidChannelIndex);
    assert_eq!(pc.try_switch_bytes(1, 1).unwrap_err(), PixelError::InvalidChannelIndex);
    assert_eq!(pc.bytes, vec![1, 2, 3, 4]);
    pc.try_switch_bytes(0, 2).unwrap();
    assert_eq!(pc.bytes, vec![3, 2, 1, 4]);
}

#[test]
fn grey_scale_into_black_splits_at_the_threshold() {
    let mut v = vec![200u8, 200, 200, 9, 100, 100, 100, 9, 1, 2, 3, 9];
    PixelsCollection::<u8>::grey_scale_into_black(&mut v, 149);
    assert_eq!(v, vec![0, 0, 0, 0, 0, 0, 0, 255, 1, 2, 3, 9]);
}

#[test]
fn white_gradient_fades_whites_out() {
    // The lowest channel value anywhere in the image is the last
    // pixel's blue of 1, so blue is the adjusting base: a fully opaque
    // non-white pixel's alpha becomes `255 - blue + 1`.
    let v = vec![55u8, 255, 255, 255, 255, 255, 255, 255, 155, 255, 255, 255, 1, 2, 3, 7];
    let out = PixelsCollection::<u8>::white_background_to_transparency_gradient(&v);
    assert_eq!(
        out,
        vec![55, 255, 255, 201, 255, 255, 255, 0, 155, 255, 255, 101, 1, 2, 3, 7]
    );
}

#[test]
fn black_gradient_fades_blacks_out() {
    // Highest channel value is blue's 200, so blue is the adjusting
    // base; a fully opaque pixel's alpha becomes its own blue value.
    let v = vec![200u8, 0, 0, 255, 0, 0, 0, 255, 120, 0, 0, 255, 1, 2, 3, 7];
    let out = PixelsCollection::<u8>::black_background_to_transparency_gradient(&v);
    assert_eq!(out, vec![200, 0, 0, 200, 0, 0, 0, 0, 120, 0, 0, 120, 1, 2, 3, 7]);
}

#[test]
fn image_statistics_follow_the_sweep_rules() {
    let v = vec![9u8, 8, 7, 100, 5, 4, 3, 200, 6, 6, 6, 200, 1, 1, 1, 50];
    let lowest = image_lowest_visible_bgr(&v);
    // Only pixels whose alpha reaches the running maximum count: the
    // sweep visits alphas 100, 200, 200, 50.
    assert_eq!(
        (lowest.0, lowest.1, lowest.2, lowest.3),
        (5, 4, 3, 200)
    );
    let opaquest = image_opaquest_bgr(&v);
    assert_eq!(opaquest, vec![6, 6, 6, 200]);
}

#[test]
fn send_mode_treats_max_custom_alpha_as_disabled() {
    assert!(matches!(
        PixelsSendMode::CustomAlpha(255).effective(),
        PixelsSendMode::AlphaDisabled
    ));
    assert!(matches!(
        PixelsSendMode::CustomAlpha(9).effective(),
        PixelsSendMode::CustomAlpha(9)
    ));
    assert!(matches!(PixelsSendMode::AlphaEnabled.effective(), PixelsSendMode::AlphaEnabled));
}
