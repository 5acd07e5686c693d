//! The attract mode: idle animations that rotate on a fixed period, driven
//! only by the clock and the random stream, and that never touch gameplay
//! state.

use crate::color::spec_hsv_rainbow;
use crate::led_string::{
    LED, LEDString, LED_STRING_LENGTH, spec_led_add, spec_led_black, spec_led_scaled,
};
use crate::rand::{random8, random8lim, spec_rand8_iter, spec_rand8_lim, spec_rand8_out, Rand8};
use crate::utils::{sinu8, spec_sinu8};
use vstd::prelude::*;

verus! {

/// The animation chosen at `time`: one of six, rotating every five seconds.
pub open spec fn spec_attract_mode(time: u32) -> int {
    (((time as int) / 5000) % 6)
}

/// Number of random draws one attract tick consumes: one per pixel in the
/// two flickering modes, none otherwise.
pub open spec fn spec_attract_draws(time: u32) -> int {
    if spec_attract_mode(time) == 1 || spec_attract_mode(time) == 4 {
        LED_STRING_LENGTH as int
    } else {
        0
    }
}

/// The pixel a rainbow color triple paints.
pub open spec fn spec_hsv_led(h: u8, s: u8, v: u8) -> LED {
    LED {
        r: spec_hsv_rainbow(h, s, v).0,
        g: spec_hsv_rainbow(h, s, v).1,
        b: spec_hsv_rainbow(h, s, v).2,
    }
}

/// Marching dots: the whole strip dimmed slightly, with every tenth pixel
/// set to a hue that breathes between green and orange.
pub open spec fn spec_attract_march(time: u32, v: Seq<LED>) -> Seq<LED> {
    let n = ((time as int) / 250) % 10;
    let c = (20 + ((spec_sinu8((((time as int) / 62) % 256) as u8) as int * 66) / 255) % 255) as u8;
    Seq::new(
        v.len(),
        |j: int|
            if j % 10 == n {
                spec_hsv_led(c, 255, 150)
            } else {
                spec_led_scaled(v[j], 250)
            },
    )
}

/// Random flashes: the strip dimmed slightly, each pixel flashing orange
/// when its draw of the random stream comes up zero.
pub open spec fn spec_attract_flashes(seed: u16, v: Seq<LED>) -> Seq<LED> {
    Seq::new(
        v.len(),
        |j: int|
            if spec_rand8_lim(spec_rand8_out(spec_rand8_iter(seed, j + 1)), 20) == 0 {
                spec_hsv_led(25, 255, 100)
            } else {
                spec_led_scaled(v[j], 250)
            },
    )
}

/// Additive blend at an in-range physical index.
pub open spec fn spec_add_at(v: Seq<LED>, idx: int, l: LED) -> Seq<LED> {
    v.update(idx, spec_led_add(v[idx], l))
}

/// One glowing dot: a bright center with dimmer shoulders, blended
/// additively over five pixels.
pub open spec fn spec_bowl_blob(v: Seq<LED>, n: int, c: u8) -> Seq<LED> {
    let v1 = spec_add_at(v, n - 2, spec_hsv_led(c, 255, 63));
    let v2 = spec_add_at(v1, n - 1, spec_hsv_led(c, 255, 127));
    let v3 = spec_add_at(v2, n, spec_hsv_led(c, 255, 255));
    let v4 = spec_add_at(v3, n + 1, spec_hsv_led(c, 255, 127));
    spec_add_at(v4, n + 2, spec_hsv_led(c, 255, 63))
}

/// Center pixel of bowl dot `d` at `time`.
pub open spec fn spec_bowl_pos(time: u32, d: int) -> int {
    let mm = vstd::wrapping::u32_specs::wrapping_add(
        (d * 21845) as u32,
        vstd::wrapping::u32_specs::wrapping_mul(time, 11),
    );
    let mmf = ((mm as int) % 65536) / 256;
    2 + ((LED_STRING_LENGTH - 5) * spec_sinu8(mmf as u8)) / 255
}

/// Hue of bowl dot `d` at `time`.
pub open spec fn spec_bowl_hue(time: u32, d: int) -> u8 {
    let mm = vstd::wrapping::u32_specs::wrapping_add(
        (d * 21845) as u32,
        vstd::wrapping::u32_specs::wrapping_mul(time, 11),
    );
    (((mm as int) / 50) % 255) as u8
}

/// Dots-in-a-bowl after the dots numbered `d` and up are blended in.
pub open spec fn spec_bowl_from(time: u32, v: Seq<LED>, d: int) -> Seq<LED>
    decreases 3 - d,
{
    if d < 0 || d >= 3 {
        v
    } else {
        spec_bowl_from(time, spec_bowl_blob(v, spec_bowl_pos(time, d), spec_bowl_hue(time, d)), d + 1)
    }
}

/// Dots in a bowl: the strip cleared, then three colored dots swinging on
/// sine paths.
pub open spec fn spec_attract_bowl(time: u32, v: Seq<LED>) -> Seq<LED> {
    spec_bowl_from(time, Seq::new(v.len(), |j: int| spec_led_black()), 0)
}

/// Sparkle threshold at `time`: high right after each 800 ms beat, then
/// minimal.
pub open spec fn spec_sparkle_threshold(time: u32) -> u8 {
    let c = ((time as int) % 800) % 256;
    if c < 240 {
        (121 - c / 2) as u8
    } else {
        1u8
    }
}

/// Sparkles: the strip half-dimmed, pixels lighting white-grey when their
/// random draw falls under the threshold.
pub open spec fn spec_attract_sparkle(time: u32, seed: u16, v: Seq<LED>) -> Seq<LED> {
    Seq::new(
        v.len(),
        |j: int|
            if spec_rand8_out(spec_rand8_iter(seed, j + 1)) <= spec_sparkle_threshold(time) {
                LED { r: 100u8, g: 100u8, b: 100u8 }
            } else {
                spec_led_scaled(v[j], 128)
            },
    )
}

/// Scrolling dots: every fifth pixel lit, drifting with time.
pub open spec fn spec_attract_scroll(time: u32, v: Seq<LED>) -> Seq<LED> {
    Seq::new(
        v.len(),
        |j: int|
            if (j + (time as int) / 100) % 5 == 0 {
                LED { r: 100u8, g: 100u8, b: 100u8 }
            } else {
                spec_led_black()
            },
    )
}

/// The frame one attract tick leaves, by the mode `time` selects.
pub open spec fn spec_attract_view(time: u32, seed: u16, v: Seq<LED>) -> Seq<LED> {
    let mode = spec_attract_mode(time);
    if mode == 0 {
        spec_attract_march(time, v)
    } else if mode == 1 {
        spec_attract_flashes(seed, v)
    } else if mode == 2 || mode == 3 {
        spec_attract_bowl(time, v)
    } else if mode == 4 {
        spec_attract_sparkle(time, seed, v)
    } else {
        spec_attract_scroll(time, v)
    }
}

/// The attract-mode animator.  It holds no state of its own: every frame is
/// a function of the clock and the random stream.
pub struct Attract {}

impl Attract {
    /// The animator.
    pub fn new() -> (a: Attract) {
        Attract {  }
    }

    /// Render one idle frame for `time` over the previous frame, consuming
    /// random draws only in the flickering modes.
    pub fn tick(&mut self, led_string: &mut LEDString, rng: &mut Rand8, time: u32)
        requires
            old(led_string).wf(),
        ensures
            final(led_string).wf(),
            final(led_string)@ == spec_attract_view(time, old(rng).seed, old(led_string)@),
            final(led_string).sink() == old(led_string).sink(),
            final(rng).seed == spec_rand8_iter(old(rng).seed, spec_attract_draws(time)),
    {
        let mode = (time / 5000) % 6;
        let len = led_string.len();
        if mode == 0 {
            // marching green <> orange dots
            led_string.nscale8(250);
            let n = ((time / 250) % 10) as usize;
            let c = 20 + ((((sinu8(((time / 62) % 256) as u8) as u32) * 66) / 255) % 255) as u8;
            let ghost v1 = led_string@;
            let mut i = n;
            while i < len
                invariant
                    led_string.wf(),
                    led_string.sink() == old(led_string).sink(),
                    v1.len() == LED_STRING_LENGTH,
                    n < 10,
                    len == LED_STRING_LENGTH,
                    n <= i,
                    c == (20 + ((spec_sinu8((((time as int) / 62) % 256) as u8) as int * 66) / 255)
                        % 255) as u8,
                    forall|j: int| 0 <= j < v1.len() ==> led_string@[j] == (if j % 10 == n as int
                        && j < i {
                        spec_hsv_led(c, 255, 150)
                    } else {
                        v1[j]
                    }),
                decreases len - i,
            {
                if i % 10 == n {
                    led_string.set_hsv(i as i32, c, 255, 150);
                }
                i += 1;
            }
            proof {
                assert(led_string@ =~= spec_attract_march(time, old(led_string)@));
            }
        } else if mode == 1 {
            // random orange flashes
            led_string.nscale8(250);
            let ghost v1 = led_string@;
            let ghost seed0 = rng.seed;
            let mut i: usize = 0;
            while i < len
                invariant
                    led_string.wf(),
                    led_string.sink() == old(led_string).sink(),
                    v1.len() == LED_STRING_LENGTH,
                    len == LED_STRING_LENGTH,
                    i <= len,
                    rng.seed == spec_rand8_iter(seed0, i as int),
                    forall|j: int| 0 <= j < v1.len() ==> led_string@[j] == (if j < i
                        && spec_rand8_lim(spec_rand8_out(spec_rand8_iter(seed0, j + 1)), 20)
                        == 0 {
                        spec_hsv_led(25, 255, 100)
                    } else {
                        v1[j]
                    }),
                decreases len - i,
            {
                if random8lim(rng, 20) == 0 {
                    led_string.set_hsv(i as i32, 25, 255, 100);
                }
                i += 1;
            }
            proof {
                assert(led_string@ =~= spec_attract_flashes(seed0, old(led_string)@));
            }
        } else if mode == 2 || mode == 3 {
            // dots in a bowl
            led_string.clear();
            let ghost v1 = led_string@;
            let mut d: u32 = 0;
            while d < 3
                invariant
                    led_string.wf(),
                    led_string.sink() == old(led_string).sink(),
                    led_string@.len() == LED_STRING_LENGTH,
                    v1.len() == LED_STRING_LENGTH,
                    d <= 3,
                    spec_bowl_from(time, v1, 0) == spec_bowl_from(time, led_string@, d as int),
                decreases 3 - d,
            {
                let ghost v_before = led_string@;
                let mm = (d * 21845).wrapping_add(time.wrapping_mul(11));
                let mm16 = mm % 65536;
                let mmf = mm16 / 256;
                let nsin = sinu8(mmf as u8) as usize;
                let n = 2 + ((LED_STRING_LENGTH - 5) * nsin) / 255;
                let c: u8 = ((mm / 50) % 255) as u8;
                proof {
                    assert(n as int == spec_bowl_pos(time, d as int));
                    assert(c == spec_bowl_hue(time, d as int));
                    assert(2 <= n <= 141);
                }
                led_string.add_at(n as i32 - 2, LED::new(crate::color::hsv_rainbow(c, 255, 63)));
                led_string.add_at(n as i32 - 1, LED::new(crate::color::hsv_rainbow(c, 255, 127)));
                led_string.add_at(n as i32, LED::new(crate::color::hsv_rainbow(c, 255, 255)));
                led_string.add_at(n as i32 + 1, LED::new(crate::color::hsv_rainbow(c, 255, 127)));
                led_string.add_at(n as i32 + 2, LED::new(crate::color::hsv_rainbow(c, 255, 63)));
                proof {
                    assert(led_string@ =~= spec_bowl_blob(
                        v_before,
                        spec_bowl_pos(time, d as int),
                        spec_bowl_hue(time, d as int),
                    ));
                }
                d += 1;
            }
            proof {
                assert(v1 =~= Seq::new(old(led_string)@.len(), |j: int| spec_led_black()));
                assert(led_string@ =~= spec_attract_bowl(time, old(led_string)@));
            }
        } else if mode == 4 {
            // sparkles
            led_string.nscale8(128);
            let c = ((time % 800) % 256) as u8;
            let n: u8 = if c < 240 {
                121 - c / 2
            } else {
                1
            };
            let ghost v1 = led_string@;
            let ghost seed0 = rng.seed;
            let mut i: usize = 0;
            while i < len
                invariant
                    led_string.wf(),
                    led_string.sink() == old(led_string).sink(),
                    v1.len() == LED_STRING_LENGTH,
                    len == LED_STRING_LENGTH,
                    i <= len,
                    n == spec_sparkle_threshold(time),
                    rng.seed == spec_rand8_iter(seed0, i as int),
                    forall|j: int| 0 <= j < v1.len() ==> led_string@[j] == (if j < i
                        && spec_rand8_out(spec_rand8_iter(seed0, j + 1))
                        <= spec_sparkle_threshold(time) {
                        LED { r: 100u8, g: 100u8, b: 100u8 }
                    } else {
                        v1[j]
                    }),
                decreases len - i,
            {
                let r = random8(rng);
                if r <= n {
                    led_string.set_rgb(i as i32, [100, 100, 100]);
                }
                i += 1;
            }
            proof {
                assert(led_string@ =~= spec_attract_sparkle(time, seed0, old(led_string)@));
            }
        } else {
            // scrolling dots
            let t: i32 = (time / 100) as i32;
            let mut i: usize = 0;
            while i < len
                invariant
                    led_string.wf(),
                    led_string.sink() == old(led_string).sink(),
                    led_string@.len() == LED_STRING_LENGTH,
                    len == LED_STRING_LENGTH,
                    i <= len,
                    t == (time as int) / 100,
                    forall|j: int| 0 <= j < led_string@.len() ==> led_string@[j] == (if j < i {
                        if (j + (time as int) / 100) % 5 == 0 {
                            LED { r: 100u8, g: 100u8, b: 100u8 }
                        } else {
                            spec_led_black()
                        }
                    } else {
                        old(led_string)@[j]
                    }),
                decreases len - i,
            {
                if ((i as i32) + t) % 5 == 0 {
                    led_string.set_rgb(i as i32, [100, 100, 100]);
                } else {
                    led_string.set_rgb(i as i32, [0, 0, 0]);
                }
                i += 1;
            }
            proof {
                assert(led_string@ =~= spec_attract_scroll(time, old(led_string)@));
            }
        }
    }
}

} // verus!
