use std::io::Cursor;

use skin_builder::Image;
use skin_builder::Pixel;
use skin_builder::pipeline::SkinError;
use skin_builder::pipeline::SourceSlot;
use skin_builder::pipeline::build_skin;
use skin_builder::pipeline::check_output_path;
use skin_builder::pipeline::decode_and_resize;
use skin_builder::pipeline::extension_warning_needed;

/// A solid-colored PNG file, built through the image crate.
fn solid_png(width: u32, height: u32, rgba: [u8; 4]) -> Vec<u8> {
    let buf = image::RgbaImage::from_pixel(width, height, image::Rgba(rgba));
    let mut bytes: Vec<u8> = Vec::new();
    buf.write_to(&mut Cursor::new(&mut bytes), image::ImageFormat::Png).unwrap();
    bytes
}

#[test]
fn existing_output_without_overwrite_is_conflict() {
    let r = check_output_path(true, false, false);
    assert_eq!(r, Err(SkinError::PathConflict));
}

#[test]
fn existing_output_with_overwrite_is_allowed() {
    assert_eq!(check_output_path(true, false, true), Ok(()));
    assert_eq!(check_output_path(false, false, false), Ok(()));
}

#[test]
fn directory_output_is_conflict_regardless_of_overwrite() {
    assert_eq!(check_output_path(true, true, false), Err(SkinError::PathConflict));
    assert_eq!(check_output_path(true, true, true), Err(SkinError::PathConflict));
}

#[test]
fn extension_warning_cases() {
    assert!(extension_warning_needed(&Some(b"jpg".to_vec())));
    assert!(extension_warning_needed(&Some(b"jpeg".to_vec())));
    assert!(extension_warning_needed(&Some(b"pn".to_vec())));
    assert!(!extension_warning_needed(&Some(b"png".to_vec())));
    assert!(!extension_warning_needed(&Some(b"PNG".to_vec())));
    assert!(!extension_warning_needed(&Some(b"pNg".to_vec())));
    assert!(!extension_warning_needed(&None));
}

#[test]
fn decode_and_resize_reads_real_pixels() {
    let bytes = solid_png(3, 5, [10, 20, 30, 40]);
    let img: Image = decode_and_resize(&bytes, 2, 2).unwrap();
    assert_eq!(img.width(), 2);
    assert_eq!(img.height(), 2);
    for y in 0..2 {
        for x in 0..2 {
            assert_eq!(img.get(x, y), Pixel { r: 10, g: 20, b: 30, a: 40 });
        }
    }
}

#[test]
fn decode_and_resize_is_deterministic() {
    let bytes = solid_png(9, 4, [1, 2, 3, 4]);
    let a = decode_and_resize(&bytes, 44, 44).unwrap();
    let b = decode_and_resize(&bytes, 44, 44).unwrap();
    for y in 0..44 {
        for x in 0..44 {
            assert_eq!(a.get(x, y), b.get(x, y));
        }
    }
}

#[test]
fn decode_and_resize_rejects_garbage() {
    assert!(decode_and_resize(b"not an image at all", 44, 44).is_none());
}

#[test]
fn garbage_front_is_front_decode_error() {
    let back = solid_png(32, 32, [0, 255, 0, 255]);
    let r = build_skin(b"this is no image", &back);
    assert_eq!(r, Err(SkinError::DecodeError(SourceSlot::Front)));
}

#[test]
fn garbage_back_is_back_decode_error() {
    let front = solid_png(44, 44, [255, 0, 0, 255]);
    let r = build_skin(&front, b"neither is this");
    assert_eq!(r, Err(SkinError::DecodeError(SourceSlot::Back)));
}

#[test]
fn build_skin_emits_valid_png() {
    let front = solid_png(44, 44, [255, 0, 0, 255]);
    let back = solid_png(32, 32, [0, 255, 0, 255]);
    let out = build_skin(&front, &back).unwrap();
    // The output is PNG data whatever the requested file name was.
    assert_eq!(image::guess_format(&out).unwrap(), image::ImageFormat::Png);
    let reloaded = image::load_from_memory(&out).unwrap().to_rgba8();
    assert_eq!(reloaded.dimensions(), (64, 64));
    // Every pixel is pure red, pure green or fully transparent: no blending.
    for p in reloaded.pixels() {
        let ok = p.0 == [255, 0, 0, 255] || p.0 == [0, 255, 0, 255] || p.0 == [0, 0, 0, 0];
        assert!(ok);
    }
}

#[test]
fn build_skin_scales_any_source_size() {
    // Source sizes other than 44 and 32 are resampled to the fixed sizes.
    let front = solid_png(7, 3, [255, 0, 0, 255]);
    let back = solid_png(100, 60, [0, 255, 0, 255]);
    let out = build_skin(&front, &back).unwrap();
    let reloaded = image::load_from_memory(&out).unwrap().to_rgba8();
    assert_eq!(reloaded.dimensions(), (64, 64));
}
