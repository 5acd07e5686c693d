use twang::led_string::{LEDString, LED, LED_STRING_LENGTH};
use twang::utils::{constrain, range_map, range_map_u32, sini8, sinu8};

#[test]
fn vtor_is_monotonic_and_hits_both_ends() {
    let s = LEDString::new();
    assert_eq!(s.vtor(0), 0);
    assert_eq!(s.vtor(999), (LED_STRING_LENGTH - 1) as i32);
    let mut prev = 0i32;
    for v in 0..1000i32 {
        let r = s.vtor(v);
        assert!(r >= prev);
        assert!(r >= 0 && r < LED_STRING_LENGTH as i32);
        prev = r;
    }
}

#[test]
fn buffer_scale_full_is_identity_and_zero_blacks_out() {
    let mut s = LEDString::new();
    for i in 0..LED_STRING_LENGTH {
        s.set_rgb(i as i32, [i as u8, 255 - i as u8, 7]);
    }
    let before: Vec<LED> = (0..LED_STRING_LENGTH).map(|i| s.get_raw(i)).collect();
    s.nscale8(255);
    for i in 0..LED_STRING_LENGTH {
        assert_eq!(s.get_raw(i), before[i]);
    }
    s.nscale8(0);
    for i in 0..LED_STRING_LENGTH {
        assert_eq!(s.get_raw(i), LED { r: 0, g: 0, b: 0 });
    }
}

#[test]
fn clear_blacks_out_every_pixel() {
    let mut s = LEDString::new();
    s.set_rgb(3, [9, 9, 9]);
    s.clear();
    for i in 0..LED_STRING_LENGTH {
        assert_eq!(s.get_raw(i), LED { r: 0, g: 0, b: 0 });
    }
}

#[test]
fn additive_blend_saturates() {
    let mut s = LEDString::new();
    s.set_rgb(5, [200, 10, 0]);
    s.add_at(5, LED { r: 100, g: 5, b: 3 });
    assert_eq!(s.get_raw(5), LED { r: 255, g: 15, b: 3 });
}

#[test]
fn out_of_range_writes_hit_the_sink_only() {
    let mut s = LEDString::new();
    for i in 0..LED_STRING_LENGTH {
        s.set_rgb(i as i32, [1, 2, 3]);
    }
    s.set_rgb(-1, [9, 9, 9]);
    s.set_rgb(LED_STRING_LENGTH as i32, [9, 9, 9]);
    for i in 0..LED_STRING_LENGTH {
        assert_eq!(s.get_raw(i), LED { r: 1, g: 2, b: 3 });
    }
    assert_eq!(s.get(-1), LED { r: 9, g: 9, b: 9 });
}

#[test]
fn range_map_maps_endpoints_and_inverts() {
    assert_eq!(range_map(0, 0, 10, 0, 100), 0);
    assert_eq!(range_map(10, 0, 10, 0, 100), 100);
    assert_eq!(range_map(5, 0, 10, 0, 100), 50);
    // inverted output range
    assert_eq!(range_map(0, 0, 10, 100, 0), 100);
    assert_eq!(range_map(10, 0, 10, 100, 0), 0);
    // inverted input range
    assert_eq!(range_map(10, 10, 0, 0, 100), 0);
    assert_eq!(range_map(0, 10, 0, 0, 100), 100);
}

#[test]
fn range_map_u32_fades_downward() {
    assert_eq!(range_map_u32(0, 0, 500, 100, 5), 100);
    assert_eq!(range_map_u32(500, 0, 500, 100, 5), 5);
    assert_eq!(range_map_u32(250, 0, 500, 255, 0), 128);
}

#[test]
fn constrain_clamps() {
    assert_eq!(constrain(-5, 0, 143), 0);
    assert_eq!(constrain(200, 0, 143), 143);
    assert_eq!(constrain(42, 0, 143), 42);
}

#[test]
fn sine_tables_are_symmetric() {
    assert_eq!(sinu8(0), 0);
    assert_eq!(sinu8(64), 255 - 124);
    assert_eq!(sinu8(127), 255);
    assert_eq!(sinu8(128), 255);
    assert_eq!(sinu8(255), 0);
    assert_eq!(sini8(-128), -128);
    assert_eq!(sini8(0), 127);
    assert_eq!(sini8(-64), 3);
}
