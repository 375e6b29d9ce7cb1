//! Packing, unpacking, channel swaps and the alpha adjustment.

use pixel_caster::PixelValues;
use pixel_caster::PixelsCollection;
use pixel_caster::bgra_management::SwitchBytes;
use pixel_caster::bgra_management::pack_planar_bytes;
use pixel_caster::bgra_management::unpack_packed_words;
use pixel_caster::bgra_management::u32_bytes_oredered_indexes_and_fullvalues;
use pixel_caster::endian::Endianness;
use pixel_caster::endian::channel_byte;
use pixel_caster::endian::pack_pixel;
use pixel_caster::pixels::adjust_alpha_planar;
use pixel_caster::pixels::adjust_alpha_packed;

#[test]
fn pack_pixel_places_channels_by_endianness() {
    assert_eq!(pack_pixel(255, 0, 0, 125, Endianness::Little), 0x7D00_00FF);
    assert_eq!(pack_pixel(255, 0, 0, 125, Endianness::Big), 0xFF00_007D);
    assert_eq!(channel_byte(0x7D00_00FF, 0, Endianness::Little), 255);
    assert_eq!(channel_byte(0x7D00_00FF, 3, Endianness::Little), 125);
    assert_eq!(channel_byte(0xFF00_007D, 0, Endianness::Big), 255);
    assert_eq!(channel_byte(0xFF00_007D, 3, Endianness::Big), 125);
}

#[test]
fn test_u8_u32_convertion() {
    let mut bytes_u8_bgra: Vec<u8> = Vec::new();
    //                                B    G  R   A
    //                                blue
    bytes_u8_bgra.extend_from_slice(&[255, 0, 0, 125]);
    //                                  green
    bytes_u8_bgra.extend_from_slice(&[0, 255, 0, 125]);
    //                                      red
    bytes_u8_bgra.extend_from_slice(&[0, 0, 255, 125]);

    // On this little-endian machine the four planar bytes come out in
    // reverse significance: the word reads 0xAARRGGBB.
    let bytes_u32_bgra = <u8 as SwitchBytes<u8, u32>>::u8_u32_casting(&bytes_u8_bgra);
    // A = 125, R = 0, G = 0, B = 255
    assert_eq!(bytes_u32_bgra[0], 0x7D00_00FF);

    let mut bytes_u32_rgba_from_u32_bgra = bytes_u32_bgra.clone();
    <u32 as SwitchBytes<u32, u8>>::switch_bytes(&mut bytes_u32_rgba_from_u32_bgra, 0, 2);
    // A = 125, R = 255, G = 0, B = 0, after switching the blue value
    // (index 0 in BGRA) with the red one (index 2 in BGRA).
    assert_eq!(bytes_u32_rgba_from_u32_bgra[0], 0x7DFF_0000);

    let bytes_u8_rgba_from_u32_rgba =
        <u32 as SwitchBytes<u32, u8>>::u8_u32_casting(&bytes_u32_rgba_from_u32_bgra);
    assert_eq!(&bytes_u8_rgba_from_u32_rgba[0..4], &[0, 0, 255, 125]);
}

#[test]
fn planar_packed_round_trip_both_endiannesses() {
    let bytes: Vec<u8> = vec![255, 0, 0, 125, 0, 255, 0, 125, 0, 0, 255, 125];
    for e in [Endianness::Little, Endianness::Big] {
        let words = pack_planar_bytes(&bytes, e);
        assert_eq!(words.len(), 3);
        let back = unpack_packed_words(&words, e);
        assert_eq!(back, bytes);
    }
}

#[test]
fn native_casting_round_trip() {
    let bytes: Vec<u8> = vec![255, 0, 0, 125, 0, 255, 0, 125, 0, 0, 255, 125];
    let words: Vec<u32> = <u8 as SwitchBytes<u8, u32>>::u8_u32_casting(&bytes);
    let back: Vec<u8> = <u32 as SwitchBytes<u32, u8>>::u8_u32_casting(&words);
    assert_eq!(back, bytes);
}

#[test]
fn switch_bytes_planar_swaps_and_is_self_inverse() {
    let original: Vec<u8> = vec![1, 2, 3, 4, 5, 6, 7, 8];
    let mut v = original.clone();
    <u8 as SwitchBytes<u8, u32>>::switch_bytes(&mut v, 0, 2);
    assert_eq!(v, vec![3, 2, 1, 4, 7, 6, 5, 8]);
    <u8 as SwitchBytes<u8, u32>>::switch_bytes(&mut v, 0, 2);
    assert_eq!(v, original);

    // A degenerate index pair, or a length that is not a multiple of
    // four, leaves the buffer untouched.
    let mut same = original.clone();
    <u8 as SwitchBytes<u8, u32>>::switch_bytes(&mut same, 2, 2);
    assert_eq!(same, original);
    <u8 as SwitchBytes<u8, u32>>::switch_bytes(&mut same, 0, 4);
    assert_eq!(same, original);
    let mut odd: Vec<u8> = vec![1, 2, 3, 4, 5];
    <u8 as SwitchBytes<u8, u32>>::switch_bytes(&mut odd, 0, 2);
    assert_eq!(odd, vec![1, 2, 3, 4, 5]);
}

#[test]
fn switch_bytes_packed_swaps_and_is_self_inverse() {
    let bytes: Vec<u8> = vec![255, 0, 10, 125, 20, 255, 0, 125];
    let original: Vec<u32> = <u8 as SwitchBytes<u8, u32>>::u8_u32_casting(&bytes);
    let mut words = original.clone();
    <u32 as SwitchBytes<u32, u8>>::switch_bytes(&mut words, 0, 2);
    let swapped: Vec<u8> = <u32 as SwitchBytes<u32, u8>>::u8_u32_casting(&words);
    assert_eq!(swapped, vec![10, 0, 255, 125, 0, 255, 20, 125]);
    <u32 as SwitchBytes<u32, u8>>::switch_bytes(&mut words, 0, 2);
    assert_eq!(words, original);
}

#[test]
fn swap_blue_with_red_copies() {
    let bytes: Vec<u8> = vec![1, 2, 3, 4];
    let swapped = <u8 as SwitchBytes<u8, u32>>::swap_blue_with_red(&bytes);
    assert_eq!(swapped, vec![3, 2, 1, 4]);
    assert_eq!(bytes, vec![1, 2, 3, 4]);
}

#[test]
fn adjust_alpha_clamps_channels_to_alpha() {
    let adjusted = adjust_alpha_planar(&[200, 200, 200, 100]);
    assert_eq!(adjusted, vec![100, 100, 100, 100]);
    let unchanged = adjust_alpha_planar(&[50, 50, 50, 255]);
    assert_eq!(unchanged, vec![50, 50, 50, 255]);
    let mixed = adjust_alpha_planar(&[10, 120, 50, 60]);
    assert_eq!(mixed, vec![10, 60, 50, 60]);
}

#[test]
fn adjust_alpha_packed_matches_planar() {
    for e in [Endianness::Little, Endianness::Big] {
        let word = pack_pixel(200, 200, 200, 100, e);
        let adjusted = adjust_alpha_packed(&[word], e);
        assert_eq!(adjusted, vec![pack_pixel(100, 100, 100, 100, e)]);
    }
}

#[test]
fn create_adjusted_vec_on_both_sample_types() {
    let planar = <u8 as PixelValues<u8>>::create_adjusted_vec(&[200, 200, 200, 100]);
    assert_eq!(planar, vec![100, 100, 100, 100]);

    let words = <u8 as SwitchBytes<u8, u32>>::u8_u32_casting(&[200, 200, 200, 100]);
    let adjusted = <u32 as PixelValues<u32>>::create_adjusted_vec(&words);
    let back = <u32 as SwitchBytes<u32, u8>>::u8_u32_casting(&adjusted);
    assert_eq!(back, vec![100, 100, 100, 100]);
}

#[test]
fn channel_table_matches_this_machine() {
    let (indexes, fullvalues) = u32_bytes_oredered_indexes_and_fullvalues();
    // Whatever the byte order, the table's masks isolate the bytes at
    // the table's offsets.
    for k in 0..4 {
        assert_eq!(fullvalues[k], 0xFFu32 << indexes[k]);
    }
    let mut sorted = indexes;
    sorted.sort();
    assert_eq!(sorted, [0, 8, 16, 24]);
}

#[test]
fn collection_switch_bytes_keeps_shape() {
    let mut pc = PixelsCollection::<u8>::create(2, 1, vec![1, 2, 3, 4, 5, 6, 7, 8]).unwrap();
    pc.switch_bytes(0, 2);
    assert_eq!(pc.bytes, vec![3, 2, 1, 4, 7, 6, 5, 8]);
    assert_eq!(pc.width, 2);
    assert_eq!(pc.height, 1);
    assert_eq!(pc.row_length, 8);
    assert_eq!(pc.units_per_pixel, 4);
}
