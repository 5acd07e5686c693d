//! A screensaver variant of the attract animations that owns its own 32-bit
//! linear-congruential stream, so the idle display can run with a seed of
//! its own without touching the gameplay stream.

use crate::attract::{
    spec_attract_bowl, spec_bowl_blob, spec_bowl_hue, spec_bowl_pos, spec_hsv_led,
};
use crate::led_string::{LED, LEDString, LED_STRING_LENGTH, spec_led_black, spec_led_scaled};
use crate::utils::{sinu8, spec_sinu8};
use vstd::prelude::*;

verus! {

/// A 32-bit linear-congruential generator with an explicit seed.
#[derive(Clone, Copy, Debug, PartialEq, Eq, Structural)]
pub struct PRand {
    /// Current seed; the next draw returns the updated seed itself.
    pub seed: u32,
}

/// The seed after one step of the 32-bit linear-congruential update.
pub open spec fn spec_prand_next(s: u32) -> u32 {
    vstd::wrapping::u32_specs::wrapping_add(
        vstd::wrapping::u32_specs::wrapping_mul(134_775_813, s),
        1,
    )
}

/// The seed after `n` draws.
pub open spec fn spec_prand_iter(s: u32, n: int) -> u32
    decreases n,
{
    if n <= 0 {
        s
    } else {
        spec_prand_next(spec_prand_iter(s, n - 1))
    }
}

impl PRand {
    /// A generator starting from `seed`.
    pub fn new(seed: u32) -> (r: PRand)
        ensures
            r.seed == seed,
    {
        PRand { seed }
    }

    /// Advance the stream once and return the new seed.
    pub fn next_u32(&mut self) -> (r: u32)
        ensures
            final(self).seed == spec_prand_next(old(self).seed),
            r == final(self).seed,
    {
        let a: u32 = 134775813;
        let c: u32 = 1;
        self.seed = a.wrapping_mul(self.seed).wrapping_add(c);
        self.seed
    }
}

/// Number of random draws one screensaver tick consumes: one per fifth
/// pixel in the flash mode, one per sixth pixel in the sparkle mode.
pub open spec fn spec_screensaver_draws(time: u32) -> int {
    let mode = crate::attract::spec_attract_mode(time);
    if mode == 1 {
        29
    } else if mode == 4 {
        24
    } else {
        0
    }
}

/// Marching dots: the strip dimmed slightly, with every hundredth pixel set
/// to a breathing hue.
pub open spec fn spec_screensaver_march(time: u32, v: Seq<LED>) -> Seq<LED> {
    let n = ((time as int) / 250) % 100;
    let c = (20 + ((spec_sinu8((((time as int) / 62) % 256) as u8) as int * 66) / 255) % 255) as u8;
    Seq::new(
        v.len(),
        |j: int|
            if j % 100 == n {
                spec_hsv_led(c, 255, 150)
            } else {
                spec_led_scaled(v[j], 250)
            },
    )
}

/// Rare flashes: the strip dimmed slightly; every fifth pixel flashes when
/// its draw of the stream lands on a multiple of 1000.
pub open spec fn spec_screensaver_flashes(seed: u32, v: Seq<LED>) -> Seq<LED> {
    Seq::new(
        v.len(),
        |j: int|
            if j % 5 == 0 && spec_prand_iter(seed, j / 5 + 1) % 1000 == 0 {
                spec_hsv_led(25, 255, 100)
            } else {
                spec_led_scaled(v[j], 250)
            },
    )
}

/// Sparkles: the strip half-dimmed; every sixth pixel lights white-grey
/// when the low byte of its draw falls under the time-driven threshold.
pub open spec fn spec_screensaver_sparkle(time: u32, seed: u32, v: Seq<LED>) -> Seq<LED> {
    Seq::new(
        v.len(),
        |j: int|
            if j % 6 == 0 && spec_prand_iter(seed, j / 6 + 1) % 256
                <= spec_screensaver_threshold(time) {
                LED { r: 100u8, g: 100u8, b: 100u8 }
            } else {
                spec_led_scaled(v[j], 128)
            },
    )
}

/// Sparkle threshold at `time`: high right after each 800 ms beat, then
/// minimal.
pub open spec fn spec_screensaver_threshold(time: u32) -> int {
    let c = (time as int) % 800;
    if c < 240 {
        121 - c / 2
    } else {
        1
    }
}

/// Scrolling dots: every sixth pixel blinks in a five-beat cycle; the rest
/// keep their previous value.
pub open spec fn spec_screensaver_scroll(time: u32, v: Seq<LED>) -> Seq<LED> {
    Seq::new(
        v.len(),
        |j: int|
            if j % 6 == 0 {
                if (j / 6 + (time as int) / 100) % 5 == 0 {
                    LED { r: 100u8, g: 100u8, b: 100u8 }
                } else {
                    spec_led_black()
                }
            } else {
                v[j]
            },
    )
}

/// The frame one screensaver tick leaves, by the mode `time` selects.
pub open spec fn spec_screensaver_view(time: u32, seed: u32, v: Seq<LED>) -> Seq<LED> {
    let mode = crate::attract::spec_attract_mode(time);
    if mode == 0 {
        spec_screensaver_march(time, v)
    } else if mode == 1 {
        spec_screensaver_flashes(seed, v)
    } else if mode == 2 || mode == 3 {
        spec_attract_bowl(time, v)
    } else if mode == 4 {
        spec_screensaver_sparkle(time, seed, v)
    } else {
        spec_screensaver_scroll(time, v)
    }
}

/// The screensaver animator with its own seeded stream.
pub struct Screensaver {
    /// The stream the flash and sparkle modes draw from.
    pub rand: PRand,
}

impl Screensaver {
    /// A screensaver whose stream starts from `seed`.
    pub fn new(seed: u32) -> (s: Screensaver)
        ensures
            s.rand.seed == seed,
    {
        Screensaver { rand: PRand::new(seed) }
    }

    /// Render one idle frame for `time` over the previous frame.
    #[verifier::rlimit(60)]
    pub fn tick(&mut self, led_string: &mut LEDString, time: u32)
        requires
            old(led_string).wf(),
        ensures
            final(led_string).wf(),
            final(led_string)@ == spec_screensaver_view(
                time,
                old(self).rand.seed,
                old(led_string)@,
            ),
            final(led_string).sink() == old(led_string).sink(),
            final(self).rand.seed == spec_prand_iter(
                old(self).rand.seed,
                spec_screensaver_draws(time),
            ),
    {
        let mode = (time / 5000) % 6;
        let len = led_string.len();
        if mode == 0 {
            // marching green <> orange dots
            led_string.nscale8(250);
            let n = ((time / 250) % 100) as usize;
            let c = 20 + ((((sinu8(((time / 62) % 256) as u8) as u32) * 66) / 255) % 255) as u8;
            let ghost v1 = led_string@;
            let mut i = n;
            while i < len
                invariant
                    led_string.wf(),
                    led_string.sink() == old(led_string).sink(),
                    v1.len() == LED_STRING_LENGTH,
                    n < 100,
                    len == LED_STRING_LENGTH,
                    n <= i,
                    i % 100 == n as int % 100,
                    c == (20 + ((spec_sinu8((((time as int) / 62) % 256) as u8) as int * 66) / 255)
                        % 255) as u8,
                    forall|j: int| 0 <= j < v1.len() ==> led_string@[j] == (if j % 100 == n as int
                        && j < i {
                        spec_hsv_led(c, 255, 150)
                    } else {
                        v1[j]
                    }),
                decreases len + 100 - i,
            {
                led_string.set_hsv(i as i32, c, 255, 150);
                i += 100;
            }
            proof {
                assert(led_string@ =~= spec_screensaver_march(time, old(led_string)@));
            }
        } else if mode == 1 {
            // rare orange flashes
            led_string.nscale8(250);
            let ghost v1 = led_string@;
            let ghost seed0 = self.rand.seed;
            let mut i: usize = 0;
            while i < len
                invariant
                    led_string.wf(),
                    led_string.sink() == old(led_string).sink(),
                    v1.len() == LED_STRING_LENGTH,
                    len == LED_STRING_LENGTH,
                    i <= len + 4,
                    i % 5 == 0,
                    self.rand.seed == spec_prand_iter(seed0, i as int / 5),
                    forall|j: int| 0 <= j < v1.len() ==> led_string@[j] == (if j < i && j % 5 == 0
                        && spec_prand_iter(seed0, j / 5 + 1) % 1000 == 0 {
                        spec_hsv_led(25, 255, 100)
                    } else {
                        v1[j]
                    }),
                decreases len + 5 - i,
            {
                if self.rand.next_u32() % 1000 == 0 {
                    led_string.set_hsv(i as i32, 25, 255, 100);
                }
                i += 5;
            }
            proof {
                assert(led_string@ =~= spec_screensaver_flashes(seed0, old(led_string)@));
                assert(self.rand.seed == spec_prand_iter(seed0, 29));
            }
        } else if mode == 2 || mode == 3 {
            // dots in a bowl
            led_string.clear();
            let ghost v1 = led_string@;
            let mut d: u32 = 0;
            while d < 3
                invariant
                    led_string.wf(),
                    led_string.sink() == old(led_string).sink(),
                    led_string@.len() == LED_STRING_LENGTH,
                    v1.len() == LED_STRING_LENGTH,
                    d <= 3,
                    crate::attract::spec_bowl_from(time, v1, 0) == crate::attract::spec_bowl_from(
                        time,
                        led_string@,
                        d as int,
                    ),
                decreases 3 - d,
            {
                let ghost v_before = led_string@;
                let mm = (d * 21845).wrapping_add(time.wrapping_mul(11));
                let mm16 = mm % 65536;
                let mmf = mm16 / 256;
                let nsin = sinu8(mmf as u8) as usize;
                let n = 2 + ((LED_STRING_LENGTH - 5) * nsin) / 255;
                let c: u8 = ((mm / 50) % 255) as u8;
                proof {
                    assert(n as int == spec_bowl_pos(time, d as int));
                    assert(c == spec_bowl_hue(time, d as int));
                    assert(2 <= n <= 141);
                }
                led_string.add_at(n as i32 - 2, LED::new(crate::color::hsv_rainbow(c, 255, 63)));
                led_string.add_at(n as i32 - 1, LED::new(crate::color::hsv_rainbow(c, 255, 127)));
                led_string.add_at(n as i32, LED::new(crate::color::hsv_rainbow(c, 255, 255)));
                led_string.add_at(n as i32 + 1, LED::new(crate::color::hsv_rainbow(c, 255, 127)));
                led_string.add_at(n as i32 + 2, LED::new(crate::color::hsv_rainbow(c, 255, 63)));
                proof {
                    assert(led_string@ =~= spec_bowl_blob(
                        v_before,
                        spec_bowl_pos(time, d as int),
                        spec_bowl_hue(time, d as int),
                    ));
                }
                d += 1;
            }
            proof {
                assert(v1 =~= Seq::new(old(led_string)@.len(), |j: int| spec_led_black()));
                assert(led_string@ =~= spec_attract_bowl(time, old(led_string)@));
            }
        } else if mode == 4 {
            // sparkles
            led_string.nscale8(128);
            let c = time % 800;
            let n: u32 = if c < 240 {
                121 - c / 2
            } else {
                1
            };
            let ghost v1 = led_string@;
            let ghost seed0 = self.rand.seed;
            let mut i: usize = 0;
            while i < len
                invariant
                    led_string.wf(),
                    led_string.sink() == old(led_string).sink(),
                    v1.len() == LED_STRING_LENGTH,
                    len == LED_STRING_LENGTH,
                    i <= len + 5,
                    i % 6 == 0,
                    n == spec_screensaver_threshold(time),
                    self.rand.seed == spec_prand_iter(seed0, i as int / 6),
                    forall|j: int| 0 <= j < v1.len() ==> led_string@[j] == (if j < i && j % 6 == 0
                        && spec_prand_iter(seed0, j / 6 + 1) % 256 <= spec_screensaver_threshold(
                        time,
                    ) {
                        LED { r: 100u8, g: 100u8, b: 100u8 }
                    } else {
                        v1[j]
                    }),
                decreases len + 6 - i,
            {
                let val: u8 = (self.rand.next_u32() % 256) as u8;
                if val <= n as u8 {
                    led_string.set_rgb(i as i32, [100, 100, 100]);
                }
                i += 6;
            }
            proof {
                assert(led_string@ =~= spec_screensaver_sparkle(time, seed0, old(led_string)@));
                assert(self.rand.seed == spec_prand_iter(seed0, 24));
            }
        } else {
            // scrolling dots on every sixth pixel
            let t: i32 = (time / 100) as i32;
            let ghost v1 = led_string@;
            let mut i: usize = 0;
            while i < len
                invariant
                    led_string.wf(),
                    led_string.sink() == old(led_string).sink(),
                    v1.len() == LED_STRING_LENGTH,
                    len == LED_STRING_LENGTH,
                    i <= len + 5,
                    i % 6 == 0,
                    t == (time as int) / 100,
                    forall|j: int| 0 <= j < v1.len() ==> led_string@[j] == (if j < i && j % 6
                        == 0 {
                        if (j / 6 + (time as int) / 100) % 5 == 0 {
                            LED { r: 100u8, g: 100u8, b: 100u8 }
                        } else {
                            spec_led_black()
                        }
                    } else {
                        v1[j]
                    }),
                decreases len + 6 - i,
            {
                if (((i / 6) as i32) + t) % 5 == 0 {
                    led_string.set_rgb(i as i32, [100, 100, 100]);
                } else {
                    led_string.set_rgb(i as i32, [0, 0, 0]);
                }
                i += 6;
            }
            proof {
                assert(led_string@ =~= spec_screensaver_scroll(time, old(led_string)@));
            }
        }
    }
}

} // verus!
