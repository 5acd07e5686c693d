use twang::color::{hsv_rainbow, scale8, scale8_video};

#[test]
fn scale8_full_scale_is_identity() {
    for v in 0..=255u8 {
        assert_eq!(scale8(v, 255), v);
    }
}

#[test]
fn scale8_zero_scale_is_zero() {
    for v in 0..=255u8 {
        assert_eq!(scale8(v, 0), 0);
        assert_eq!(scale8(0, v), 0);
    }
}

#[test]
fn scale8_exact_values() {
    assert_eq!(scale8(255, 128), 128);
    assert_eq!(scale8(100, 51), 20);
    assert_eq!(scale8(1, 254), 0);
}

#[test]
fn scale8_video_nonzero_on_nonzero_inputs() {
    for v in 1..=255u8 {
        assert!(scale8_video(v, 1) > 0);
        assert!(scale8_video(1, v) > 0);
    }
    assert_eq!(scale8_video(0, 200), 0);
    assert_eq!(scale8_video(200, 0), 0);
    assert_eq!(scale8_video(255, 255), 255);
}

#[test]
fn hsv_rainbow_section_boundaries() {
    assert_eq!(hsv_rainbow(0, 255, 255), [255, 0, 0]);
    assert_eq!(hsv_rainbow(32, 255, 255), [171, 85, 0]);
    assert_eq!(hsv_rainbow(64, 255, 255), [171, 170, 0]);
    assert_eq!(hsv_rainbow(96, 255, 255), [0, 255, 0]);
    assert_eq!(hsv_rainbow(128, 255, 255), [0, 171, 85]);
    assert_eq!(hsv_rainbow(160, 255, 255), [0, 0, 255]);
    assert_eq!(hsv_rainbow(192, 255, 255), [85, 0, 171]);
    assert_eq!(hsv_rainbow(224, 255, 255), [170, 0, 85]);
}

#[test]
fn hsv_rainbow_zero_saturation_is_white_before_value() {
    assert_eq!(hsv_rainbow(77, 0, 255), [255, 255, 255]);
}

#[test]
fn hsv_rainbow_zero_value_is_black() {
    assert_eq!(hsv_rainbow(77, 255, 0), [0, 0, 0]);
}
