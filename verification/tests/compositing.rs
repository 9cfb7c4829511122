use skin_builder::Image;
use skin_builder::Pixel;
use skin_builder::compose::back_regions;
use skin_builder::compose::compose;
use skin_builder::compose::compose_with_tables;
use skin_builder::compose::copy_back_regions;
use skin_builder::compose::copy_front_regions;
use skin_builder::compose::front_regions;
use skin_builder::regions::Region;
use skin_builder::regions::copy_region;
use skin_builder::regions::copy_region_rotated_180;
use skin_builder::resample::resample;

fn px(r: u8, g: u8, b: u8, a: u8) -> Pixel {
    Pixel { r, g, b, a }
}

/// A small image whose every pixel encodes its own coordinates.
fn coordinate_image(width: u32, height: u32) -> Image {
    let mut img = Image::new_fill(width, height, px(0, 0, 0, 0));
    for y in 0..height {
        for x in 0..width {
            img.set(x, y, px(x as u8, y as u8, 7, 255));
        }
    }
    img
}

fn covers(r: &Region, x: u32, y: u32) -> bool {
    x >= r.dest_x && x < r.dest_x + r.width && y >= r.dest_y && y < r.dest_y + r.height
}

#[test]
fn blank_canvas_is_transparent() {
    let img = Image::blank(5, 3);
    assert_eq!(img.width(), 5);
    assert_eq!(img.height(), 3);
    for y in 0..3 {
        for x in 0..5 {
            assert_eq!(img.get(x, y), px(0, 0, 0, 0));
        }
    }
}

#[test]
fn set_then_get_roundtrip() {
    let mut img = Image::new_fill(4, 4, px(9, 9, 9, 9));
    img.set(2, 1, px(1, 2, 3, 4));
    assert_eq!(img.get(2, 1), px(1, 2, 3, 4));
    assert_eq!(img.get(1, 2), px(9, 9, 9, 9));
}

#[test]
fn copy_region_copies_block_and_leaves_rest() {
    let src = coordinate_image(4, 4);
    let mut dest = Image::blank(8, 8);
    copy_region(&src, &mut dest, (5, 6), (1, 2), (2, 2));
    // The copied block: dest (5+dx, 6+dy) == src (1+dx, 2+dy).
    for dy in 0..2 {
        for dx in 0..2 {
            assert_eq!(dest.get(5 + dx, 6 + dy), px((1 + dx) as u8, (2 + dy) as u8, 7, 255));
        }
    }
    // Everything else is still transparent.
    for y in 0..8 {
        for x in 0..8 {
            if !(x >= 5 && x < 7 && y >= 6 && y < 8) {
                assert_eq!(dest.get(x, y), px(0, 0, 0, 0));
            }
        }
    }
}

#[test]
fn rotated_copy_point_reflects_block() {
    let src = coordinate_image(4, 4);
    let mut dest = Image::blank(8, 8);
    copy_region_rotated_180(&src, &mut dest, (0, 0), (0, 0), (3, 2));
    // dest (dx, dy) holds src (3 - 1 - dx, 2 - 1 - dy).
    for dy in 0..2 {
        for dx in 0..3 {
            assert_eq!(dest.get(dx, dy), px((2 - dx) as u8, (1 - dy) as u8, 7, 255));
        }
    }
}

#[test]
fn rotated_copy_twice_is_involution() {
    let src = coordinate_image(6, 6);
    let mut mid = Image::blank(10, 10);
    copy_region_rotated_180(&src, &mut mid, (4, 4), (1, 1), (4, 4));
    let mut out = Image::blank(10, 10);
    copy_region_rotated_180(&mid, &mut out, (2, 3), (4, 4), (4, 4));
    // Rotating the block 180 degrees twice reproduces the original block.
    for dy in 0..4 {
        for dx in 0..4 {
            assert_eq!(out.get(2 + dx, 3 + dy), src.get(1 + dx, 1 + dy));
        }
    }
}

#[test]
fn resample_upscale_picks_nearest() {
    let src = coordinate_image(2, 2);
    let out = resample(&src, 4, 4);
    assert_eq!(out.width(), 4);
    assert_eq!(out.height(), 4);
    for y in 0..4 {
        for x in 0..4 {
            // floor(x * 2 / 4) is 0, 0, 1, 1.
            assert_eq!(out.get(x, y), src.get(x * 2 / 4, y * 2 / 4));
        }
    }
}

#[test]
fn resample_downscale_picks_nearest() {
    let src = coordinate_image(4, 4);
    let out = resample(&src, 2, 2);
    for y in 0..2 {
        for x in 0..2 {
            // floor(x * 4 / 2) is 0, 2.
            assert_eq!(out.get(x, y), src.get(x * 2, y * 2));
        }
    }
}

#[test]
fn resample_same_size_is_identity() {
    let src = coordinate_image(3, 3);
    let out = resample(&src, 3, 3);
    for y in 0..3 {
        for x in 0..3 {
            assert_eq!(out.get(x, y), src.get(x, y));
        }
    }
}

#[test]
fn resample_is_deterministic() {
    let src = coordinate_image(5, 7);
    let a = resample(&src, 44, 44);
    let b = resample(&src, 44, 44);
    for y in 0..44 {
        for x in 0..44 {
            assert_eq!(a.get(x, y), b.get(x, y));
        }
    }
}

#[test]
fn compose_canvas_is_64_by_64() {
    let front = Image::new_fill(44, 44, px(255, 0, 0, 255));
    let back = Image::new_fill(32, 32, px(0, 255, 0, 255));
    let canvas = compose(&front, &back);
    assert_eq!(canvas.width(), 64);
    assert_eq!(canvas.height(), 64);
}

#[test]
fn compose_solid_sources_never_blend() {
    let red = px(255, 0, 0, 255);
    let green = px(0, 255, 0, 255);
    let front = Image::new_fill(44, 44, red);
    let back = Image::new_fill(32, 32, green);
    let canvas = compose(&front, &back);
    let fr = front_regions();
    let br = back_regions();
    for y in 0..64 {
        for x in 0..64 {
            let front_covered = fr.iter().any(|r| covers(r, x, y));
            let back_covered = br.iter().any(|r| covers(r, x, y));
            let got = canvas.get(x, y);
            if front_covered {
                assert_eq!(got, red);
            } else if back_covered {
                assert_eq!(got, green);
            } else {
                assert_eq!(got, px(0, 0, 0, 0));
            }
        }
    }
}

#[test]
fn compose_known_pixels() {
    let red = px(255, 0, 0, 255);
    let green = px(0, 255, 0, 255);
    let front = Image::new_fill(44, 44, red);
    let back = Image::new_fill(32, 32, green);
    let canvas = compose(&front, &back);
    // (0, 0) lies in the front head block.
    assert_eq!(canvas.get(0, 0), red);
    // (24, 8) lies in the back head block and in no front block.
    assert_eq!(canvas.get(24, 8), green);
    // (0, 63) lies in no block at all.
    assert_eq!(canvas.get(0, 63), px(0, 0, 0, 0));
}

#[test]
fn front_pixels_do_not_depend_on_back() {
    let red = px(255, 0, 0, 255);
    let front = Image::new_fill(44, 44, red);
    let back_a = Image::new_fill(32, 32, px(0, 255, 0, 255));
    let back_b = Image::new_fill(32, 32, px(0, 0, 255, 255));
    let canvas_a = compose(&front, &back_a);
    let canvas_b = compose(&front, &back_b);
    let fr = front_regions();
    for y in 0..64 {
        for x in 0..64 {
            if fr.iter().any(|r| covers(r, x, y)) {
                // The front table is applied after the back table: wherever a
                // front region writes, the back source cannot show through.
                assert_eq!(canvas_a.get(x, y), canvas_b.get(x, y));
                assert_eq!(canvas_a.get(x, y), red);
            }
        }
    }
}

#[test]
fn manual_two_pass_matches_compose() {
    let front = Image::new_fill(44, 44, px(255, 0, 0, 255));
    let back = Image::new_fill(32, 32, px(0, 255, 0, 255));
    let mut canvas = Image::blank(64, 64);
    copy_back_regions(&back, &mut canvas);
    copy_front_regions(&front, &mut canvas);
    let composed = compose(&front, &back);
    for y in 0..64 {
        for x in 0..64 {
            assert_eq!(canvas.get(x, y), composed.get(x, y));
        }
    }
}

#[test]
fn compose_with_tables_takes_the_layout_as_input() {
    let front = Image::new_fill(44, 44, px(255, 0, 0, 255));
    let back = Image::new_fill(32, 32, px(0, 255, 0, 255));
    // One single-region layout per source.
    let front_layout = vec![Region {
        dest_x: 1,
        dest_y: 2,
        src_x: 0,
        src_y: 0,
        width: 3,
        height: 3,
        rotated: false,
    }];
    let back_layout = vec![Region {
        dest_x: 10,
        dest_y: 10,
        src_x: 0,
        src_y: 0,
        width: 2,
        height: 2,
        rotated: true,
    }];
    let canvas = compose_with_tables(&front, &back, &front_layout, &back_layout);
    assert_eq!(canvas.get(1, 2), px(255, 0, 0, 255));
    assert_eq!(canvas.get(10, 10), px(0, 255, 0, 255));
    assert_eq!(canvas.get(40, 40), px(0, 0, 0, 0));
}

#[test]
fn region_tables_have_expected_shape() {
    let br = back_regions();
    let fr = front_regions();
    assert_eq!(br.len(), 6);
    assert_eq!(fr.len(), 17);
    for r in br.iter() {
        assert!(!r.rotated);
        assert!(r.src_x + r.width <= 32 && r.src_y + r.height <= 32);
        assert!(r.dest_x + r.width <= 64 && r.dest_y + r.height <= 64);
    }
    for r in fr.iter() {
        assert!(r.src_x + r.width <= 44 && r.src_y + r.height <= 44);
        assert!(r.dest_x + r.width <= 64 && r.dest_y + r.height <= 64);
    }
    assert_eq!(fr.iter().filter(|r| r.rotated).count(), 5);
}
