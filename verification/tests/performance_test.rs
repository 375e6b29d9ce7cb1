//! A battery of matcher and alterator checks, each predicate written
//! out as a plain function and run against the recoloring operations.

#![allow(dead_code)]

use pixel_caster::bgra_management::Alterator;
use pixel_caster::bgra_management::ColorAlteration;
use pixel_caster::bgra_management::Matcher;

fn full_opacity(_b: u8, _g: u8, _r: u8, a: u8) -> bool {
    a >= 255
}

fn max_blue_full_opacity(a: u8, b: u8, _g: u8, _r: u8) -> bool {
    b == 255 && a == 255
}

fn slice_full_opacity(slice: &[u8]) -> bool {
    slice[3] >= 255
}

fn slice_max_blue_full_opacity(slice: &[u8]) -> bool {
    slice[1] == 255 && slice[0] == 255
}

fn max_blue_max_alpha(a: &mut u8, b: &mut u8, _g: &mut u8, _r: &mut u8) {
    *b = 255;
    *a = 255;
}

fn slice_max_blue_max_alpha(slice: &mut [u8]) {
    slice[3] = 255;
}

fn not_fully_opaque(_b: u8, _g: u8, _r: u8, a: u8) -> bool {
    a < 255
}

fn low_red(slice: &mut [u8], index: usize) {
    slice[index] = 0;
    slice[index + 1] = 0;
    slice[index + 2] = 100;
    slice[index + 3] = 255;
}

fn slice_max_blue_max_alphaxxx(slice: &[u8]) -> bool {
    slice[3] == 255 && slice[0] == 33
}

fn slice_max_blue_max_alphayyy(slice: &mut [u8]) {
    slice[3] = 100;
    slice[0] = 22;
}

fn not_fully_opaquexxxx(_b: u8, _g: u8, _r: u8, a: u8) -> bool {
    a < 255
}

fn max_blue_max_alphayyyy(b: &mut u8, _g: &mut u8, _r: &mut u8, a: &mut u8) {
    *b = 200;
    *a = 255;
}

fn nobbb(_b: u8, _g: u8, _r: u8, a: u8) -> bool {
    a < 255
}

fn noxxx(b: &mut u8, _g: &mut u8, _r: &mut u8, a: &mut u8) {
    *b = 255;
    *a = 255;
}

fn tsts(_b: u8, _g: u8, _r: u8, a: u8) -> bool {
    a < 255
}

fn test_x(_b: u8, g: u8, _r: u8, a: u8) -> bool {
    a < 33 && g > 4
}

fn all_to_zero(slice: &mut [u8]) {
    slice[0] = 0;
    slice[1] = 0;
    slice[2] = 0;
}

#[test]
fn main() {
    let bgra_vec = vec![30_u8, 120, 120, 255];
    assert!(full_opacity(bgra_vec[0], bgra_vec[1], bgra_vec[2], bgra_vec[3]));
    assert!(full_opacity(bgra_vec[0], bgra_vec[1], bgra_vec[2], bgra_vec[3]));

    let mut bgra_3vec = vec![30_u8, 120, 120, 255, 30_u8, 120, 120, 255, 30_u8, 120, 120, 255];
    bgra_3vec.color_matcher_and_new_color(Matcher::FullyOpaque, 255, 255, 255, 255);
    assert_eq!(bgra_3vec, vec![255, 255, 255, 255, 255, 255, 255, 255, 255, 255, 255, 255]);

    let abgr_vec = vec![255, 255, 0, 0];
    assert!(max_blue_full_opacity(abgr_vec[0], abgr_vec[1], abgr_vec[2], abgr_vec[3]));
    assert!(max_blue_full_opacity(abgr_vec[0], abgr_vec[1], abgr_vec[2], abgr_vec[3]));

    let bgra_vec = vec![30_u8, 120, 120, 255];
    let bgra_vec_slice = &bgra_vec[0..=3];
    assert!(slice_full_opacity(bgra_vec_slice));
    assert!(slice_full_opacity(bgra_vec_slice));

    let mut bgra_3vec = vec![30_u8, 120, 120, 255, 30_u8, 120, 120, 255, 30_u8, 120, 120, 255];
    bgra_3vec.color_matcher_and_new_color(Matcher::FullyOpaque, 255, 255, 255, 255);
    assert_eq!(bgra_3vec, vec![255, 255, 255, 255, 255, 255, 255, 255, 255, 255, 255, 255]);

    let abgr_vec = vec![255_u8, 255, 0, 0];
    let abgr_vec_slice = &abgr_vec[0..=3];
    assert!(slice_max_blue_full_opacity(abgr_vec_slice));
    assert!(slice_max_blue_full_opacity(abgr_vec_slice));

    let mut bb = 24_u8;
    let mut gg = 24_u8;
    let mut rr = 24_u8;
    let mut aa = 24_u8;
    max_blue_max_alpha(&mut bb, &mut gg, &mut rr, &mut aa);
    println!("b{} g{} r{} a{}", bb, gg, rr, aa);
    let mut bbb = 24_u8;
    let mut ggg = 24_u8;
    let mut rrr = 24_u8;
    let mut aaa = 24_u8;
    max_blue_max_alpha(&mut bbb, &mut ggg, &mut rrr, &mut aaa);
    println!("b{} g{} r{} a{}", bbb, ggg, rrr, aaa);

    let mut bgra_vec = vec![30_u8, 120, 120, 33, 40, 13, 44, 22];
    slice_max_blue_max_alpha(&mut bgra_vec[0..=3]);
    assert_eq!(bgra_vec[0..=3], [30_u8, 120, 120, 255]);
    slice_max_blue_max_alpha(&mut bgra_vec[4..=7]);
    assert_eq!(bgra_vec[4..=7], [40, 13, 44, 255]);
    println!("{:?}", bgra_vec);

    let mut bgra_vec = vec![30_u8, 120, 120, 255, 40, 13, 44, 22];
    for _ in 0..bgra_vec.len() / 4 {
        let mut i = 0;
        for _ in 0..bgra_vec.len() / 4 {
            if not_fully_opaque(bgra_vec[i], bgra_vec[i + 1], bgra_vec[i + 2], bgra_vec[i + 3]) {
                low_red(&mut bgra_vec, i);
            }
            i += 4;
        }
    }
    println!("{:?}", bgra_vec);
    assert_eq!(bgra_vec[0..=3], [30_u8, 120, 120, 255]);
    assert_eq!(bgra_vec[4..=7], [0, 0, 100, 255]);

    println!("ended");

    let tmp = vec![33, 120, 120, 255, 40, 13, 44, 22];
    let res = slice_max_blue_max_alphaxxx(&tmp[0..=3]);
    println!("{}", res);

    let tmpxxxx = vec![33, 120, 120, 233, 40, 13, 44, 22];
    println!("{}", not_fully_opaquexxxx(0, 0, 0, tmpxxxx[3]));
    let mut bb = 10_u8;
    let mut aa = 233_u8;
    let mut zero1 = 0_u8;
    let mut zero2 = 0_u8;
    max_blue_max_alphayyyy(&mut bb, &mut zero1, &mut zero2, &mut aa);
    max_blue_max_alphayyyy(&mut bb, &mut 0, &mut 0, &mut aa);
    println!("bb{} aa{}", bb, aa);
    let tmpxxxx = vec![33_u8, 120, 120, 233, 40, 13, 44, 22];
    println!("fn {}", nobbb(0, 0, 0, tmpxxxx[3]));
    println!("macro {}", nobbb(0, 0, 0, tmpxxxx[3]));

    let tmpxxxx = vec![33, 120, 120, 233, 40, 13, 44, 22];
    println!("{}", tsts(0, 0, 0, tmpxxxx[3]));
    println!("{}", tsts(0, 0, 0, tmpxxxx[3]));
    println!("fn (0,5,40,22) : {}", test_x(0, 5, 40, 22));
    println!("macro (2,4,100,66) : {}", test_x(2, 4, 100, 66));

    let mut chunk = vec![9_u8, 9, 9, 9];
    all_to_zero(&mut chunk);
    assert_eq!(chunk, vec![0, 0, 0, 9]);

    let mut via_alterator = vec![9_u8, 9, 9, 200];
    via_alterator.color_matcher_and_alterator(Matcher::NotFullyOpaque, Alterator::AllToZero);
    assert_eq!(via_alterator, vec![0, 0, 0, 0]);
}
