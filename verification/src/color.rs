//! Perceptual 8-bit color model: multiplicative scaling primitives and the
//! rainbow hue wheel used by every drawing routine.

use vstd::prelude::*;

verus! {

/// `v * s / 255`: one byte scaled by another treated as a fraction of 255.
pub open spec fn spec_scale8(v: u8, s: u8) -> u8 {
    (((v as int) * (s as int)) / 255) as u8
}

/// Like `spec_scale8` but with denominator 256 and a guarantee that two
/// non-zero inputs give a non-zero output, so dimmed animations never get
/// stuck at black.
pub open spec fn spec_scale8_video(v: u8, s: u8) -> u8 {
    if v > 0 && s > 0 {
        ((((v as int) * (s as int)) / 256) + 1) as u8
    } else {
        0u8
    }
}

proof fn lemma_scale8_fits(v: u8, s: u8)
    ensures
        0 <= (v as int) * (s as int) / 255 <= 255,
        0 <= (v as int) * (s as int) / 256 < 255,
{
    assert((v as int) * (s as int) <= 255 * 255) by (nonlinear_arith)
        requires v <= 255 && s <= 255;
    assert((v as int) * (s as int) >= 0) by (nonlinear_arith);
}

/// Scale one byte by a second one treated as the numerator of a fraction
/// whose denominator is 255.
pub fn scale8(val: u8, scaler: u8) -> (r: u8)
    ensures
        r == spec_scale8(val, scaler),
{
    proof { lemma_scale8_fits(val, scaler); }
    (((val as u32) * (scaler as u32)) / 255) as u8
}

/// The "video" variant of `scale8`: guaranteed non-zero whenever both inputs
/// are non-zero.
pub fn scale8_video(val: u8, scaler: u8) -> (r: u8)
    ensures
        r == spec_scale8_video(val, scaler),
{
    proof { lemma_scale8_fits(val, scaler); }
    let mut ret: u16 = ((val as u16) * (scaler as u16)) / 256;
    if val > 0 && scaler > 0 {
        ret += 1;
    }
    ret as u8
}

/// Scaling by a full-strength scaler is the identity and scaling by zero
/// gives zero, for every input byte.
pub proof fn lemma_scale8_extremes(v: u8)
    ensures
        spec_scale8(v, 255) == v,
        spec_scale8(v, 0) == 0,
        spec_scale8(0, v) == 0,
{
}

/// Sub-hue within the current hue section, widened to the full byte range.
pub open spec fn spec_hue_offset8(h: u8) -> u8 {
    (((h as int) % 32) * 8) as u8
}

/// One third of the widened sub-hue.
pub open spec fn spec_hue_third(h: u8) -> u8 {
    spec_scale8(spec_hue_offset8(h), 85)
}

/// Two thirds of the widened sub-hue.
pub open spec fn spec_hue_twothirds(h: u8) -> u8 {
    spec_scale8(spec_hue_offset8(h), 170)
}

/// Raw fully-saturated, full-value color of a hue: the wheel is split into 8
/// sections of 32 hue units and interpolated within each section, with the
/// yellow sections boosted to match perceived luminance.
pub open spec fn spec_hsv_raw(h: u8) -> (u8, u8, u8) {
    let third = spec_hue_third(h);
    let twothirds = spec_hue_twothirds(h);
    let section = (h as int) / 32;
    if section == 0 {
        ((255 - third) as u8, third, 0u8)
    } else if section == 1 {
        (171u8, (85 + third) as u8, 0u8)
    } else if section == 2 {
        ((171 - twothirds) as u8, (170 + third) as u8, 0u8)
    } else if section == 3 {
        (0u8, (255 - third) as u8, third)
    } else if section == 4 {
        (0u8, (171 - twothirds) as u8, (85 + twothirds) as u8)
    } else if section == 5 {
        (third, 0u8, (255 - third) as u8)
    } else if section == 6 {
        ((85 + third) as u8, 0u8, (171 - third) as u8)
    } else {
        ((170 + third) as u8, 0u8, (85 - third) as u8)
    }
}

/// Desaturation of one channel: scale it down by the saturation and add the
/// saturation-dependent brightness floor `scale8(255-s, 255-s)`.
pub open spec fn spec_desat_channel(c: u8, s: u8) -> u8 {
    if s == 255 {
        c
    } else if s == 0 {
        255u8
    } else {
        (spec_scale8(c, s) + spec_scale8((255 - s) as u8, (255 - s) as u8)) as u8
    }
}

/// Value scaling of one channel through the video scaler, so that a non-zero
/// value never extinguishes a lit channel.
pub open spec fn spec_value_channel(c: u8, v: u8) -> u8 {
    if v == 255 {
        c
    } else {
        let v2 = spec_scale8_video(v, v);
        if v2 == 0 {
            0u8
        } else {
            spec_scale8(c, v2)
        }
    }
}

/// The full hue/saturation/value to RGB conversion: raw rainbow color, then
/// desaturation, then value scaling, in that fixed order.
pub open spec fn spec_hsv_rainbow(h: u8, s: u8, v: u8) -> (u8, u8, u8) {
    let raw = spec_hsv_raw(h);
    let ds = (
        spec_desat_channel(raw.0, s),
        spec_desat_channel(raw.1, s),
        spec_desat_channel(raw.2, s),
    );
    (spec_value_channel(ds.0, v), spec_value_channel(ds.1, v), spec_value_channel(ds.2, v))
}

proof fn lemma_hue_fracs(h: u8)
    ensures
        spec_hue_offset8(h) <= 248,
        spec_hue_third(h) <= 82,
        spec_hue_twothirds(h) <= 165,
{
    let o = spec_hue_offset8(h) as int;
    assert((h as int) % 32 < 32);
    assert(o * 85 <= 248 * 85) by (nonlinear_arith)
        requires 0 <= o <= 248;
    assert(o * 170 <= 248 * 170) by (nonlinear_arith)
        requires 0 <= o <= 248;
}

proof fn lemma_desat_fits(c: u8, s: u8)
    requires
        1 <= s <= 254,
    ensures
        spec_scale8(c, s) + spec_scale8((255 - s) as u8, (255 - s) as u8) <= 255,
{
    let cs = (c as int) * (s as int);
    let d = (255 - s) as int;
    let ds = d * d;
    assert(cs + ds <= 64_771) by (nonlinear_arith)
        requires
            cs == (c as int) * (s as int),
            ds == d * d,
            d == 255 - s,
            0 <= c <= 255,
            1 <= s <= 254,
    ;
    assert(0 <= cs) by (nonlinear_arith)
        requires cs == (c as int) * (s as int) && 0 <= c && 0 <= s;
    assert(0 <= ds) by (nonlinear_arith)
        requires ds == d * d;
    vstd::arithmetic::div_mod::lemma_fundamental_div_mod(cs, 255);
    vstd::arithmetic::div_mod::lemma_fundamental_div_mod(ds, 255);
    assert(255 * (cs / 255 + ds / 255) <= cs + ds);
    assert(cs / 255 + ds / 255 <= 254) by (nonlinear_arith)
        requires 255 * (cs / 255 + ds / 255) <= cs + ds && cs + ds <= 64_771;
}

fn desat_channel(c: u8, s: u8) -> (r: u8)
    ensures
        r == spec_desat_channel(c, s),
{
    if s == 255 {
        c
    } else if s == 0 {
        255
    } else {
        proof { lemma_desat_fits(c, s); }
        let scaled = scale8(c, s);
        let desat = 255 - s;
        let floor = scale8(desat, desat);
        scaled + floor
    }
}

fn value_channel(c: u8, v: u8) -> (r: u8)
    ensures
        r == spec_value_channel(c, v),
{
    if v == 255 {
        c
    } else {
        let v2 = scale8_video(v, v);
        if v2 == 0 {
            0
        } else {
            scale8(c, v2)
        }
    }
}

/// 8-bit hue wheel conversion from hue, saturation and value to RGB.
/// Desaturation is applied before value scaling; the order is part of the
/// color model and must not be swapped.
pub fn hsv_rainbow(h: u8, s: u8, v: u8) -> (rgb: [u8; 3])
    ensures
        rgb[0] == spec_hsv_rainbow(h, s, v).0,
        rgb[1] == spec_hsv_rainbow(h, s, v).1,
        rgb[2] == spec_hsv_rainbow(h, s, v).2,
{
    proof { lemma_hue_fracs(h); }
    let offset = h % 32;
    let offset8 = offset * 8;
    let third = scale8(offset8, 85);
    let twothirds = scale8(offset8, 170);

    let mut r: u8 = 0;
    let mut g: u8 = 0;
    let mut b: u8 = 0;
    let section = h / 32;
    if section == 0 {
        // red -> orange
        r = 255 - third;
        g = third;
        b = 0;
    } else if section == 1 {
        // orange -> yellow, moderately boosted
        r = 171;
        g = 85 + third;
        b = 0;
    } else if section == 2 {
        // yellow -> green, moderately boosted
        r = 171 - twothirds;
        g = 170 + third;
        b = 0;
    } else if section == 3 {
        // green -> aqua
        r = 0;
        g = 255 - third;
        b = third;
    } else if section == 4 {
        // aqua -> blue
        r = 0;
        g = 171 - twothirds;
        b = 85 + twothirds;
    } else if section == 5 {
        // blue -> purple
        r = third;
        g = 0;
        b = 255 - third;
    } else if section == 6 {
        // purple -> pink
        r = 85 + third;
        g = 0;
        b = 171 - third;
    } else {
        // pink -> red
        r = 170 + third;
        g = 0;
        b = 85 - third;
    }

    r = desat_channel(r, s);
    g = desat_channel(g, s);
    b = desat_channel(b, s);

    r = value_channel(r, v);
    g = value_channel(g, v);
    b = value_channel(b, v);

    [r, g, b]
}

} // verus!
