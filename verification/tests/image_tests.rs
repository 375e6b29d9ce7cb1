//! Round trips through the in-memory PNG encode and decode.

use pixel_caster::PixelError;
use pixel_caster::PixelsCollection;
use pixel_caster::image_io::dynamic_image_data_to_pixels_collection;
use pixel_caster::image_io::pixels_collection_to_dynamic_image_data;

#[test]
fn png_round_trip_keeps_rgba_samples() {
    let bytes = vec![10u8, 20, 30, 255, 40, 50, 60, 128, 70, 80, 90, 0, 1, 2, 3, 200];
    let pc = PixelsCollection::<u8>::create(2, 2, bytes.clone()).unwrap();
    let png = pixels_collection_to_dynamic_image_data(pc, true).unwrap();
    // A PNG stream begins with its fixed signature.
    assert_eq!(&png[0..4], &[0x89, b'P', b'N', b'G']);

    let decoded = dynamic_image_data_to_pixels_collection(png, true).unwrap();
    assert_eq!(decoded.width, 2);
    assert_eq!(decoded.height, 2);
    assert_eq!(decoded.bytes, bytes);
}

#[test]
fn png_round_trip_without_alpha_pads_fully_opaque() {
    let bytes = vec![10u8, 20, 30, 255, 40, 50, 60, 128];
    let pc = PixelsCollection::<u8>::create(2, 1, bytes).unwrap();
    let png = pixels_collection_to_dynamic_image_data(pc, false).unwrap();
    let decoded = dynamic_image_data_to_pixels_collection(png, false).unwrap();
    assert_eq!(decoded.width, 2);
    assert_eq!(decoded.height, 1);
    // The alpha byte was stripped before encoding and comes back as
    // fully opaque.
    assert_eq!(decoded.bytes, vec![10, 20, 30, 255, 40, 50, 60, 255]);
}

#[test]
fn undecodable_bytes_are_reported() {
    let err = dynamic_image_data_to_pixels_collection(vec![1, 2, 3], true).unwrap_err();
    assert!(matches!(err, PixelError::DecodeError(_)));
}
