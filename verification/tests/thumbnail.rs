use media_metadata_plus::thumbnail::{
    apply_rotation, encode_thumbnail, pack_rows, rotate_180, rotate_270cw, rotate_90cw,
    scale_plan, seek_target_ms, ScalePlan, ThumbnailError,
};

/// A 3×2 image whose pixel (r, c) is [r, c, 9].
fn image_3x2() -> Vec<u8> {
    let mut p = Vec::new();
    for r in 0..2u8 {
        for c in 0..3u8 {
            p.extend_from_slice(&[r, c, 9]);
        }
    }
    p
}

#[test]
fn rotate_90cw_moves_row_col_to_col_flipped_row() {
    let p = image_3x2();
    let out = rotate_90cw(&p, 3, 2);
    // Output is 2 wide, 3 tall; output (c, h-1-r) = input (r, c).
    for r in 0..2usize {
        for c in 0..3usize {
            let dst = (c * 2 + (2 - 1 - r)) * 3;
            assert_eq!(&out[dst..dst + 3], &[r as u8, c as u8, 9]);
        }
    }
}

#[test]
fn rotate_270_undoes_rotate_90() {
    let p = image_3x2();
    assert_eq!(rotate_270cw(&rotate_90cw(&p, 3, 2), 2, 3), p);
    assert_eq!(rotate_90cw(&rotate_270cw(&p, 3, 2), 2, 3), p);
}

#[test]
fn two_quarter_turns_make_a_half_turn() {
    let p = image_3x2();
    assert_eq!(rotate_90cw(&rotate_90cw(&p, 3, 2), 2, 3), rotate_180(p.clone()));
}

#[test]
fn rotate_180_twice_is_identity_and_keeps_partial_pixel() {
    let p = vec![1, 2, 3, 4, 5, 6, 7];
    let once = rotate_180(p.clone());
    assert_eq!(once, vec![4, 5, 6, 1, 2, 3, 7]);
    assert_eq!(rotate_180(once), p);
}

#[test]
fn rotate_90cw_zero_fills_extra_bytes() {
    let mut p = image_3x2();
    p.extend_from_slice(&[5, 5]);
    let out = rotate_90cw(&p, 3, 2);
    assert_eq!(out.len(), p.len());
    assert_eq!(&out[18..], &[0, 0]);
}

#[test]
fn apply_rotation_normalises_angle() {
    let p = image_3x2();
    let (a, aw, ah) = apply_rotation(p.clone(), 3, 2, -90);
    let (b, bw, bh) = apply_rotation(p.clone(), 3, 2, 270);
    assert_eq!((a.clone(), aw, ah), (b, bw, bh));
    assert_eq!((aw, ah), (2, 3));
    let (c, cw, ch) = apply_rotation(p.clone(), 3, 2, 450);
    assert_eq!((c, cw, ch), (rotate_90cw(&p, 3, 2), 2, 3));
    let (d, dw, dh) = apply_rotation(p.clone(), 3, 2, 45);
    assert_eq!((d, dw, dh), (p.clone(), 3, 2));
    let (e, _, _) = apply_rotation(p.clone(), 3, 2, -180);
    assert_eq!(e, rotate_180(p));
}

#[test]
fn encode_thumbnail_produces_jpeg() {
    let pixels = vec![200u8; 16 * 8 * 3];
    let jpeg = encode_thumbnail(pixels.clone(), 16, 8, 90).unwrap();
    assert_eq!(&jpeg[..2], &[0xFF, 0xD8]);
    assert_eq!(&jpeg[jpeg.len() - 2..], &[0xFF, 0xD9]);
    assert_ne!(jpeg, pixels);
    assert!(matches!(
        encode_thumbnail(Vec::new(), 0, 0, 0),
        Err(ThumbnailError::ZeroImageDimensions { width: 0, height: 0 })
    ));
    assert!(matches!(
        encode_thumbnail(vec![0u8; 10], 4, 4, 0),
        Err(ThumbnailError::BadImageData { length: 10, required: 48 })
    ));
    // A 65 536-pixel-wide frame is 0 wide in 16 bits.
    assert!(matches!(
        encode_thumbnail(Vec::new(), 65_536, 0, 180),
        Err(ThumbnailError::ZeroImageDimensions { width: 0, height: 0 })
    ));
}

#[test]
fn pack_rows_skips_stride_padding() {
    let data = vec![1, 2, 3, 0, 4, 5, 6, 0, 7, 8, 9];
    assert_eq!(pack_rows(&data, 4, 3, 3), vec![1, 2, 3, 4, 5, 6, 7, 8, 9]);
    assert_eq!(pack_rows(&data, 4, 3, 0), Vec::<u8>::new());
}

#[test]
fn seek_target_defaults_to_a_tenth_of_duration() {
    assert_eq!(seek_target_ms(Some(5000), 100_000), 5000);
    assert_eq!(seek_target_ms(None, 100_000), 10_000);
    assert_eq!(seek_target_ms(None, -25), -2);
}

#[test]
fn scale_plan_bounds_the_side_shown_as_width() {
    assert_eq!(scale_plan(1920, 1080, 640, 0), ScalePlan::Width);
    assert_eq!(scale_plan(1920, 1080, 640, 90), ScalePlan::Height);
    assert_eq!(scale_plan(1920, 1080, 640, -90), ScalePlan::Height);
    assert_eq!(scale_plan(1920, 600, 640, 270), ScalePlan::Keep);
    assert_eq!(scale_plan(600, 1920, 640, 180), ScalePlan::Keep);
    assert_eq!(scale_plan(0, 1920, 640, 0), ScalePlan::Keep);
    assert_eq!(scale_plan(640, 480, 640, 0), ScalePlan::Keep);
}
