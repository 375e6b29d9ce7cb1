//! Glyph segmentation of a sprite sheet and text composition.

use pixel_caster::PixelError;
use pixel_caster::PixelsCollection;
use pixel_caster::bgra_management::Matcher;
use pixel_caster::pixels_string::BGRA;
use pixel_caster::pixels_string::CharsCollection;
use pixel_caster::pixels_string::PixelsChar;
use pixel_caster::pixels_string::char_collection_from_image;

/// A `width x height` sheet, transparent except for the given opaque
/// column ranges, filled at every row with an opaque probe color.
fn sheet_with_columns(width: usize, height: usize, opaque_cols: &[(usize, usize)]) -> Vec<u8> {
    let mut bytes = vec![0u8; width * height * 4];
    for &(lo, hi) in opaque_cols {
        for x in lo..=hi {
            for y in 0..height {
                let i = (y * width + x) * 4;
                bytes[i] = 10;
                bytes[i + 1] = 20;
                bytes[i + 2] = 30;
                bytes[i + 3] = 255;
            }
        }
    }
    bytes
}

/// A glyph of the given size whose pixels all carry the same color.
fn solid_glyph(character: char, w: usize, h: usize, color: [u8; 4]) -> PixelsChar<u8> {
    let mut bytes = Vec::new();
    for _ in 0..w * h {
        bytes.extend_from_slice(&color);
    }
    PixelsChar::create(character, &character.to_string(), w, h, bytes).unwrap()
}

#[test]
fn build_from_sheet_cuts_two_glyphs_and_a_space() {
    let sheet = sheet_with_columns(100, 20, &[(0, 9), (20, 29)]);
    let coll = char_collection_from_image(&sheet, 20, 0, 0, 100, 20, 5, "ab", 5, Matcher::Visible)
        .unwrap();
    assert_eq!(coll.chars.len(), 3);

    assert_eq!(coll.chars[0].character, 'a');
    assert_eq!(coll.chars[0].char_name, "LATIN SMALL LETTER A");
    assert_eq!(coll.chars[0].pixels.width, 10);
    assert_eq!(coll.chars[0].pixels.height, 20);

    assert_eq!(coll.chars[1].character, 'b');
    assert_eq!(coll.chars[1].pixels.width, 10);
    assert_eq!(coll.chars[1].pixels.height, 20);

    assert_eq!(coll.chars[2].character, ' ');
    assert_eq!(coll.chars[2].char_name, "SPACE");
    assert_eq!(coll.chars[2].pixels.width, 5);
    assert_eq!(coll.chars[2].pixels.height, 20);
    assert!(coll.chars[2].pixels.bytes.iter().all(|&b| b == 0));

    // The cut glyphs hold the sheet's own opaque pixels.
    assert_eq!(&coll.chars[0].pixels.bytes[0..4], &[10, 20, 30, 255]);
    assert_eq!(&coll.chars[1].pixels.bytes[0..4], &[10, 20, 30, 255]);
}

#[test]
fn build_from_sheet_keeps_an_existing_space_glyph_single() {
    let sheet = sheet_with_columns(100, 20, &[(0, 9), (20, 29)]);
    let coll = char_collection_from_image(&sheet, 20, 0, 0, 100, 20, 5, "a ", 7, Matcher::Visible)
        .unwrap();
    // The second requested character is the space itself, cut from the
    // sheet's second block; no synthetic space is appended after it.
    assert_eq!(coll.chars.len(), 2);
    assert_eq!(coll.chars[1].character, ' ');
    assert_eq!(coll.chars[1].pixels.width, 10);
}

#[test]
fn build_from_sheet_masks_pixels_failing_the_matcher() {
    let mut sheet = sheet_with_columns(30, 4, &[(2, 5)]);
    // Poison one in-block pixel with a transparent color: the cut glyph
    // must hold the invisible value there, not the color.
    let i = (1 * 30 + 3) * 4;
    sheet[i] = 200;
    sheet[i + 1] = 201;
    sheet[i + 2] = 202;
    sheet[i + 3] = 0;
    let coll = char_collection_from_image(&sheet, 4, 0, 0, 30, 4, 3, "x", 1, Matcher::Visible)
        .unwrap();
    let glyph = &coll.chars[0];
    assert_eq!(glyph.pixels.width, 4);
    assert_eq!(glyph.pixels.height, 4);
    let j = (1 * 4 + 1) * 4;
    assert_eq!(&glyph.pixels.bytes[j..j + 4], &[0, 0, 0, 0]);
}

#[test]
fn build_from_sheet_names_unknown_characters_by_themselves() {
    // The tilde has no entry in the stock name table, so its glyph is
    // named by the character itself.
    let sheet = sheet_with_columns(30, 4, &[(0, 3)]);
    let coll = char_collection_from_image(&sheet, 4, 0, 0, 30, 4, 3, "~", 1, Matcher::Visible)
        .unwrap();
    assert_eq!(coll.chars[0].character, '~');
    assert_eq!(coll.chars[0].char_name, "~");
    assert_eq!(coll.chars[1].char_name, "SPACE");
}

#[test]
fn build_from_sheet_fails_without_any_match() {
    let sheet = vec![0u8; 100 * 20 * 4];
    assert_eq!(
        char_collection_from_image(&sheet, 20, 0, 0, 100, 20, 5, "ab", 5, Matcher::Visible)
            .unwrap_err(),
        PixelError::NoMatchFound
    );
}

#[test]
fn build_from_sheet_fails_when_a_character_region_is_empty() {
    // One block only: the scan for the second character finds nothing.
    let sheet = sheet_with_columns(100, 20, &[(0, 9)]);
    assert_eq!(
        char_collection_from_image(&sheet, 20, 0, 0, 100, 20, 5, "ab", 5, Matcher::Visible)
            .unwrap_err(),
        PixelError::NoMatchFound
    );
}

#[test]
fn build_from_sheet_fails_when_the_sheet_runs_out() {
    // The cursor would pass the sheet width before the second
    // character is placed.
    let sheet = sheet_with_columns(20, 4, &[(0, 9), (12, 19)]);
    assert_eq!(
        char_collection_from_image(&sheet, 4, 0, 0, 20, 4, 15, "ab", 1, Matcher::Visible)
            .unwrap_err(),
        PixelError::IncompleteGlyphSet
    );
}

#[test]
fn try_create_char_collection_takes_the_lowest_visible_color() {
    let sheet = sheet_with_columns(100, 20, &[(0, 9), (20, 29)]);
    let pc = PixelsCollection::<u8>::create(100, 20, sheet).unwrap();
    let coll = pc.try_create_char_collection(5, "ab", 5, Matcher::Visible).unwrap();
    assert_eq!(coll.chars.len(), 3);
    // The lowest visible B, G, R of the sheet is the probe color.
    assert_eq!(
        (coll.bgra.0, coll.bgra.1, coll.bgra.2, coll.bgra.3),
        (10, 20, 30, 255)
    );
}

#[test]
fn compose_two_glyphs_side_by_side() {
    let coll = CharsCollection {
        chars: vec![
            solid_glyph('a', 10, 20, [1, 2, 3, 255]),
            solid_glyph('b', 10, 20, [4, 5, 6, 255]),
        ],
        path: String::new(),
        bgra: BGRA(9, 9, 9, 255),
    };
    let out = coll.create_pixels_string("ab", 0);
    assert_eq!(out.pixels.width, 20);
    assert_eq!(out.pixels.height, 20);
    assert_eq!(out.pixels.bytes.len(), 20 * 20 * 4);
    // Row 0: ten columns of 'a' then ten of 'b'.
    assert_eq!(&out.pixels.bytes[0..4], &[1, 2, 3, 255]);
    assert_eq!(&out.pixels.bytes[10 * 4..10 * 4 + 4], &[4, 5, 6, 255]);
}

#[test]
fn compose_emits_fallback_columns_for_missing_characters() {
    let coll = CharsCollection {
        chars: vec![
            solid_glyph('a', 10, 20, [1, 2, 3, 255]),
            solid_glyph('b', 10, 20, [4, 5, 6, 255]),
        ],
        path: String::new(),
        bgra: BGRA(70, 80, 90, 10),
    };
    let out = coll.create_pixels_string("az", 0);
    // The missing 'z' fills exactly the widest glyph's width with the
    // fallback color at full opacity.
    assert_eq!(out.pixels.width, 20);
    assert_eq!(out.pixels.height, 20);
    for row in 0..20 {
        let base = (row * 20 + 10) * 4;
        assert_eq!(&out.pixels.bytes[base..base + 4], &[70, 80, 90, 255]);
    }
}

#[test]
fn compose_spacing_grows_and_shrinks_widths() {
    let coll = CharsCollection {
        chars: vec![
            solid_glyph('a', 10, 4, [1, 2, 3, 255]),
            solid_glyph('b', 6, 4, [4, 5, 6, 255]),
        ],
        path: String::new(),
        bgra: BGRA(9, 9, 9, 255),
    };
    // Positive spacing pads each glyph with invisible columns.
    let wide = coll.create_pixels_string("ab", 3);
    assert_eq!(wide.pixels.width, 13 + 9);
    assert_eq!(&wide.pixels.bytes[10 * 4..10 * 4 + 4], &[0, 0, 0, 0]);
    // Negative spacing trims columns, and is floored at zero.
    let narrow = coll.create_pixels_string("ab", -8);
    assert_eq!(narrow.pixels.width, 2);
    // A missing character's filler never shrinks below the widest width.
    let fallback = coll.create_pixels_string("z", -8);
    assert_eq!(fallback.pixels.width, 10);
}

#[test]
fn compose_pads_rows_beyond_a_short_glyph() {
    let coll = CharsCollection {
        chars: vec![
            solid_glyph('a', 2, 1, [1, 2, 3, 255]),
            solid_glyph('b', 2, 3, [4, 5, 6, 255]),
        ],
        path: String::new(),
        bgra: BGRA(9, 9, 9, 255),
    };
    let out = coll.create_pixels_string("ab", 0);
    assert_eq!(out.pixels.width, 4);
    assert_eq!(out.pixels.height, 3);
    // Row 1 holds invisible padding where 'a' has no pixels, and 'b'.
    let row1 = &out.pixels.bytes[16..32];
    assert_eq!(row1, &[0, 0, 0, 0, 0, 0, 0, 0, 4, 5, 6, 255, 4, 5, 6, 255]);
}

#[test]
fn segmented_glyphs_compose_back_into_text() {
    let sheet = sheet_with_columns(100, 20, &[(0, 9), (20, 29)]);
    let coll = char_collection_from_image(&sheet, 20, 0, 0, 100, 20, 5, "ab", 5, Matcher::Visible)
        .unwrap();
    let out = coll.create_pixels_string("ba b", 0);
    // b (10) + a (10) + space (5) + b (10) columns, at the shared height.
    assert_eq!(out.pixels.width, 35);
    assert_eq!(out.pixels.height, 20);
    // The first column holds b's pixels, cut from the sheet's probe color.
    assert_eq!(&out.pixels.bytes[0..4], &[10, 20, 30, 255]);
    // The space glyph's columns are invisible.
    let base = 20 * 4;
    assert_eq!(&out.pixels.bytes[base..base + 4], &[0, 0, 0, 0]);
}

#[test]
fn glyph_create_and_switch_bytes() {
    let mut g = PixelsChar::create('q', "q", 1, 1, vec![1, 2, 3, 4]).unwrap();
    assert_eq!(g.character, 'q');
    assert_eq!(g.char_name, "q");
    g.switch_bytes(0, 2);
    assert_eq!(g.pixels.bytes, vec![3, 2, 1, 4]);
    assert_eq!(
        PixelsChar::create('q', "q", 2, 1, vec![1, 2, 3, 4]).unwrap_err(),
        PixelError::ShapeMismatch
    );
}

#[test]
fn collection_recoloring_applies_to_every_glyph() {
    let mut coll = CharsCollection {
        chars: vec![
            solid_glyph('a', 1, 1, [0, 0, 0, 0]),
            solid_glyph('b', 1, 1, [1, 2, 3, 200]),
        ],
        path: String::new(),
        bgra: BGRA(9, 9, 9, 255),
    };
    coll.set_bgra_for_invisible(5, 6, 7, 8);
    assert_eq!(coll.chars[0].pixels.bytes, vec![5, 6, 7, 8]);
    assert_eq!(coll.chars[1].pixels.bytes, vec![1, 2, 3, 200]);

    coll.matching_color_change(1, 2, 3, 200, 9, 9, 9, 9);
    assert_eq!(coll.chars[1].pixels.bytes, vec![9, 9, 9, 9]);

    coll.alpha_match_set_bgr(8, 1, 1, 1);
    assert_eq!(coll.chars[0].pixels.bytes, vec![1, 1, 1, 8]);
    assert_eq!((coll.bgra.0, coll.bgra.1, coll.bgra.2, coll.bgra.3), (1, 1, 1, 8));

    coll.set_bgr(2, 2, 2);
    assert_eq!(coll.chars[0].pixels.bytes, vec![2, 2, 2, 8]);
    assert_eq!(coll.chars[1].pixels.bytes, vec![2, 2, 2, 9]);
    assert_eq!((coll.bgra.0, coll.bgra.1, coll.bgra.2, coll.bgra.3), (2, 2, 2, 8));

    coll.grey_scale_into_black(100);
    assert_eq!(coll.chars[0].pixels.bytes, vec![0, 0, 0, 255]);

    let v = BGRA(1u8, 2, 3, 4).to_vec();
    assert_eq!(v, vec![1, 2, 3, 4]);
}
