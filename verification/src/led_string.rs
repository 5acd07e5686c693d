//! The pixel buffer: a fixed physical array of RGB pixels, a
//! virtual-to-physical coordinate mapper, and a discarded sink cell that
//! absorbs every out-of-range access.

use crate::color::{hsv_rainbow, scale8, spec_hsv_rainbow, spec_scale8};
use crate::utils::{range_map, spec_range_map};
use vstd::prelude::*;

verus! {

/// Number of physical pixels on the strip.
pub const LED_STRING_LENGTH: usize = 144;

/// Length of the virtual coordinate space that gameplay runs in.
pub const LED_STRING_VLENGTH: i32 = 1000;

/// One RGB pixel.
#[derive(Clone, Copy, Debug, PartialEq, Eq, Structural)]
pub struct LED {
    pub r: u8,
    pub g: u8,
    pub b: u8,
}

/// The pixel `c` uniformly dimmed by `scale`.
pub open spec fn spec_led_scaled(c: LED, scale: u8) -> LED {
    LED { r: spec_scale8(c.r, scale), g: spec_scale8(c.g, scale), b: spec_scale8(c.b, scale) }
}

/// Per-channel saturating addition of two pixels.
pub open spec fn spec_led_add(a: LED, b: LED) -> LED {
    LED {
        r: if a.r + b.r > 255 { 255u8 } else { (a.r + b.r) as u8 },
        g: if a.g + b.g > 255 { 255u8 } else { (a.g + b.g) as u8 },
        b: if a.b + b.b > 255 { 255u8 } else { (a.b + b.b) as u8 },
    }
}

/// The pixel holding an RGB triple.
pub open spec fn spec_led(rgb: [u8; 3]) -> LED {
    LED { r: rgb[0], g: rgb[1], b: rgb[2] }
}

/// A black (all channels zero) pixel.
pub open spec fn spec_led_black() -> LED {
    LED { r: 0u8, g: 0u8, b: 0u8 }
}

impl LED {
    /// A pixel from an RGB triple.
    pub fn new(color: [u8; 3]) -> (l: LED)
        ensures
            l == spec_led(color),
    {
        LED { r: color[0], g: color[1], b: color[2] }
    }

    /// Overwrite with an RGB triple.
    pub fn set_rgb(&mut self, rgb: [u8; 3])
        ensures
            *final(self) == spec_led(rgb),
    {
        self.r = rgb[0];
        self.g = rgb[1];
        self.b = rgb[2];
    }

    /// Overwrite with the rainbow color of a hue/saturation/value triple.
    pub fn set_hsv(&mut self, h: u8, s: u8, v: u8)
        ensures
            *final(self) == (LED {
                r: spec_hsv_rainbow(h, s, v).0,
                g: spec_hsv_rainbow(h, s, v).1,
                b: spec_hsv_rainbow(h, s, v).2,
            }),
    {
        self.set_rgb(hsv_rainbow(h, s, v));
    }

    /// Dim every channel by `scale`.
    pub fn nscale8(&mut self, scale: u8)
        ensures
            *final(self) == spec_led_scaled(*old(self), scale),
    {
        self.r = scale8(self.r, scale);
        self.g = scale8(self.g, scale);
        self.b = scale8(self.b, scale);
    }

    /// Blend another pixel in with per-channel saturating addition, so that
    /// overlapping glows brighten without wrapping around.
    pub fn add_sat(&mut self, rhs: LED)
        ensures
            *final(self) == spec_led_add(*old(self), rhs),
    {
        self.r = self.r.saturating_add(rhs.r);
        self.g = self.g.saturating_add(rhs.g);
        self.b = self.b.saturating_add(rhs.b);
    }
}

/// Physical pixel index of a virtual coordinate: the linear range map from
/// `0..LED_STRING_VLENGTH` onto `0..LED_STRING_LENGTH`.
pub open spec fn spec_vtor(v: int) -> int {
    spec_range_map(v, 0, LED_STRING_VLENGTH as int, 0, LED_STRING_LENGTH as int)
}

/// The strip contents after a clamped write of pixel `l` at physical index
/// `i`: out-of-range writes leave the strip unchanged.
pub open spec fn spec_write(v: Seq<LED>, i: int, l: LED) -> Seq<LED> {
    if 0 <= i < v.len() {
        v.update(i, l)
    } else {
        v
    }
}

/// The sink cell after a clamped write at physical index `i`: out-of-range
/// writes land here.
pub open spec fn spec_write_sink(sink: LED, i: int, l: LED) -> LED {
    if 0 <= i < LED_STRING_LENGTH {
        sink
    } else {
        l
    }
}

/// The fixed-length strip of physical pixels plus the sink cell.
#[derive(Debug)]
pub struct LEDString {
    pub leds: Vec<LED>,
    pub null: LED,
}

impl View for LEDString {
    type V = Seq<LED>;

    open spec fn view(&self) -> Seq<LED> {
        self.leds@
    }
}

impl LEDString {
    /// The buffer always holds exactly the physical pixel count.
    pub open spec fn wf(&self) -> bool {
        self@.len() == LED_STRING_LENGTH
    }

    /// The sink cell that out-of-range accesses read and write.
    pub open spec fn sink(&self) -> LED {
        self.null
    }

    /// A fully black strip.
    pub fn new() -> (s: LEDString)
        ensures
            s.wf(),
            forall|i: int| 0 <= i < LED_STRING_LENGTH ==> s@[i] == spec_led_black(),
            s.sink() == spec_led_black(),
    {
        let black = LED { r: 0, g: 0, b: 0 };
        let mut leds: Vec<LED> = Vec::new();
        let mut i: usize = 0;
        while i < LED_STRING_LENGTH
            invariant
                i == leds@.len() <= LED_STRING_LENGTH,
                black == spec_led_black(),
                forall|j: int| 0 <= j < i ==> leds@[j] == spec_led_black(),
            decreases LED_STRING_LENGTH - i,
        {
            leds.push(black);
            i += 1;
        }
        LEDString { leds, null: black }
    }

    /// Number of physical pixels.
    pub fn len(&self) -> (n: usize)
        ensures
            n == LED_STRING_LENGTH,
    {
        LED_STRING_LENGTH
    }

    /// Number of physical pixels, as seen by the host that drains the frame.
    pub fn raw_len(&self) -> (n: usize)
        ensures
            n == LED_STRING_LENGTH,
    {
        LED_STRING_LENGTH
    }

    /// Length of the virtual coordinate space.
    pub fn vlen(&self) -> (n: i32)
        ensures
            n == LED_STRING_VLENGTH,
    {
        LED_STRING_VLENGTH
    }

    /// Map a virtual coordinate to its physical pixel index.  Out-of-range
    /// virtual coordinates map to out-of-range physical indices, which the
    /// accessors then clamp to the sink.
    pub fn vtor(&self, v: i32) -> (r: i32)
        requires
            -15_000 <= v <= 15_000,
        ensures
            r == spec_vtor(v as int),
    {
        range_map(v, 0, LED_STRING_VLENGTH, 0, LED_STRING_LENGTH as i32)
    }

    /// Read the pixel at a physical index, or the sink when out of range.
    pub fn get(&self, i: i32) -> (l: LED)
        requires
            self.wf(),
        ensures
            0 <= i < LED_STRING_LENGTH ==> l == self@[i as int],
            !(0 <= i < LED_STRING_LENGTH) ==> l == self.sink(),
    {
        if i >= 0 && (i as usize) < self.leds.len() {
            self.leds[i as usize]
        } else {
            self.null
        }
    }

    /// Read the pixel at a physical index for the host, or the sink when out
    /// of range.
    pub fn get_raw(&self, i: usize) -> (l: LED)
        requires
            self.wf(),
        ensures
            i < LED_STRING_LENGTH ==> l == self@[i as int],
            i >= LED_STRING_LENGTH ==> l == self.sink(),
    {
        if i < self.leds.len() {
            self.leds[i]
        } else {
            self.null
        }
    }

    /// Overwrite the pixel at a physical index with an RGB triple;
    /// out-of-range writes land in the sink.
    pub fn set_rgb(&mut self, i: i32, rgb: [u8; 3])
        requires
            old(self).wf(),
        ensures
            final(self).wf(),
            final(self)@ == spec_write(old(self)@, i as int, spec_led(rgb)),
            final(self).sink() == spec_write_sink(old(self).sink(), i as int, spec_led(rgb)),
    {
        let l = LED::new(rgb);
        if i >= 0 && (i as usize) < self.leds.len() {
            self.leds[i as usize] = l;
        } else {
            self.null = l;
        }
    }

    /// Overwrite the pixel at a physical index with a rainbow color;
    /// out-of-range writes land in the sink.
    pub fn set_hsv(&mut self, i: i32, h: u8, s: u8, v: u8)
        requires
            old(self).wf(),
        ensures
            final(self).wf(),
            final(self)@ == spec_write(
                old(self)@,
                i as int,
                (LED {
                    r: spec_hsv_rainbow(h, s, v).0,
                    g: spec_hsv_rainbow(h, s, v).1,
                    b: spec_hsv_rainbow(h, s, v).2,
                }),
            ),
            final(self).sink() == spec_write_sink(
                old(self).sink(),
                i as int,
                (LED {
                    r: spec_hsv_rainbow(h, s, v).0,
                    g: spec_hsv_rainbow(h, s, v).1,
                    b: spec_hsv_rainbow(h, s, v).2,
                }),
            ),
    {
        self.set_rgb(i, hsv_rainbow(h, s, v));
    }

    /// Saturating additive blend into the pixel at a physical index;
    /// out-of-range blends land in the sink.
    pub fn add_at(&mut self, i: i32, rhs: LED)
        requires
            old(self).wf(),
        ensures
            final(self).wf(),
            final(self)@ == spec_write(
                old(self)@,
                i as int,
                spec_led_add(if 0 <= i < LED_STRING_LENGTH { old(self)@[i as int] } else { old(self).sink() }, rhs),
            ),
            final(self).sink() == spec_write_sink(
                old(self).sink(),
                i as int,
                spec_led_add(old(self).sink(), rhs),
            ),
    {
        if i >= 0 && (i as usize) < self.leds.len() {
            let mut l = self.leds[i as usize];
            l.add_sat(rhs);
            self.leds[i as usize] = l;
        } else {
            let mut l = self.null;
            l.add_sat(rhs);
            self.null = l;
        }
    }

    /// Zero every physical pixel.
    pub fn clear(&mut self)
        requires
            old(self).wf(),
        ensures
            final(self).wf(),
            forall|i: int| 0 <= i < LED_STRING_LENGTH ==> final(self)@[i] == spec_led_black(),
            final(self).sink() == old(self).sink(),
    {
        let n = self.leds.len();
        let mut i: usize = 0;
        while i < n
            invariant
                n == LED_STRING_LENGTH,
                self.wf(),
                i <= n,
                forall|j: int| 0 <= j < i ==> self@[j] == spec_led_black(),
                self.sink() == old(self).sink(),
            decreases n - i,
        {
            self.leds[i] = LED { r: 0, g: 0, b: 0 };
            i += 1;
        }
    }

    /// Dim every physical pixel by `scale`.
    pub fn nscale8(&mut self, scale: u8)
        requires
            old(self).wf(),
        ensures
            final(self).wf(),
            forall|i: int| 0 <= i < LED_STRING_LENGTH ==> final(self)@[i] == spec_led_scaled(
                old(self)@[i],
                scale,
            ),
            final(self).sink() == old(self).sink(),
    {
        let n = self.leds.len();
        let mut i: usize = 0;
        while i < n
            invariant
                n == LED_STRING_LENGTH,
                self.wf(),
                old(self).wf(),
                i <= n,
                forall|j: int| 0 <= j < i ==> self@[j] == spec_led_scaled(old(self)@[j], scale),
                forall|j: int| i <= j < n ==> self@[j] == old(self)@[j],
                self.sink() == old(self).sink(),
            decreases n - i,
        {
            let mut l = self.leds[i];
            l.nscale8(scale);
            self.leds[i] = l;
            i += 1;
        }
    }
}

/// Scaling a pixel by full strength is the identity and scaling by zero
/// blacks it out, so `nscale8(255)` leaves a buffer unchanged and
/// `nscale8(0)` zeroes it, pixel for pixel.
pub proof fn lemma_led_scale_extremes(l: LED)
    ensures
        spec_led_scaled(l, 255) == l,
        spec_led_scaled(l, 0) == spec_led_black(),
{
    crate::color::lemma_scale8_extremes(l.r);
    crate::color::lemma_scale8_extremes(l.g);
    crate::color::lemma_scale8_extremes(l.b);
}

/// The virtual-to-physical mapper is monotonic, sends virtual 0 to physical
/// 0, and sends the last virtual coordinate to the last physical pixel.
pub proof fn lemma_vtor_monotonic(a: int, b: int)
    requires
        0 <= a <= b < LED_STRING_VLENGTH,
    ensures
        0 <= spec_vtor(a) <= spec_vtor(b) < LED_STRING_LENGTH,
        spec_vtor(0) == 0,
        spec_vtor(LED_STRING_VLENGTH - 1) == LED_STRING_LENGTH - 1,
{
    assert(a * 144 <= b * 144) by (nonlinear_arith)
        requires a <= b;
    vstd::arithmetic::div_mod::lemma_div_is_ordered(a * 144, b * 144, 1000);
    assert(b * 144 <= 999 * 144) by (nonlinear_arith)
        requires b <= 999;
    vstd::arithmetic::div_mod::lemma_div_is_ordered(b * 144, 143_856int, 1000);
    assert(0 <= a * 144) by (nonlinear_arith)
        requires 0 <= a;
    vstd::arithmetic::div_mod::lemma_div_is_ordered(0, a * 144, 1000);
}

/// The mapper stays within a modest band around the strip for virtual
/// coordinates within a modest band around the field.
pub proof fn lemma_vtor_bounds(v: int)
    requires
        -3000 <= v <= 3000,
    ensures
        -450 <= spec_vtor(v) <= 450,
{
    assert(-432_000 <= v * 144 <= 432_000) by (nonlinear_arith)
        requires -3000 <= v <= 3000;
    if v >= 0 {
        vstd::arithmetic::div_mod::lemma_div_is_ordered(0, v * 144, 1000);
        vstd::arithmetic::div_mod::lemma_div_is_ordered(v * 144, 432_000int, 1000);
    } else {
        vstd::arithmetic::div_mod::lemma_div_is_ordered(0, -(v * 144), 1000);
        vstd::arithmetic::div_mod::lemma_div_is_ordered(-(v * 144), 432_000int, 1000);
    }
}

/// Every in-range virtual coordinate maps to an in-range physical pixel.
pub proof fn lemma_vtor_in_range(v: int)
    requires
        0 <= v < LED_STRING_VLENGTH,
    ensures
        0 <= spec_vtor(v) < LED_STRING_LENGTH,
{
    lemma_vtor_monotonic(v, v);
}

} // verus!
