//! Conveyors: passive spans that nudge the player along by their signed
//! speed during collision resolution, drawn as a slow marching pattern.

use crate::led_string::{LEDString, LED, LED_STRING_VLENGTH, spec_led, spec_vtor};
use crate::utils::range_map;
use vstd::prelude::*;

verus! {

/// Peak brightness of the marching conveyor pattern.
pub const CONVEYOR_BRIGHTNESS: u8 = 40;

/// One conveyor slot in the fixed pool.
#[derive(Clone, Copy, Debug, PartialEq, Eq, Structural)]
pub struct Conveyor {
    /// First virtual coordinate of the span.
    pub pos_start: i32,
    /// One past the last virtual coordinate of the span.
    pub pos_end: i32,
    /// Signed per-collision displacement applied to a player on the span.
    pub speed: i32,
    /// Whether this pool slot is occupied.
    pub alive: bool,
}

/// The phase of the marching pattern at physical index `i`: pixels cycle
/// through five brightness steps, drifting with time against the belt
/// direction.
pub open spec fn spec_conveyor_phase(c: Conveyor, time: u32, i: int) -> int {
    let t = (vstd::wrapping::u32_specs::wrapping_add(time, 10000) / 100) as int;
    (if c.speed >= 0 {
        t - i
    } else {
        t + i
    }) % 5
}

/// The color the conveyor leaves at physical index `i` of its mapped span:
/// blue ramping with the phase, with phase zero leaving the pixel untouched.
pub open spec fn spec_conveyor_pixel(c: Conveyor, time: u32, i: int, was: LED) -> LED {
    let b = spec_conveyor_phase(c, time, i) * 8;
    if b > 0 {
        LED { r: 0u8, g: 0u8, b: b as u8 }
    } else {
        was
    }
}

impl Conveyor {
    /// Field bounds that every pool slot maintains.
    pub open spec fn wf(&self) -> bool {
        &&& 0 <= self.pos_start <= self.pos_end < LED_STRING_VLENGTH
        &&& -1000 <= self.speed <= 1000
    }

    /// A dead slot with default fields.
    pub fn new() -> (c: Conveyor)
        ensures
            c == spec_conveyor_new(),
            c.wf(),
    {
        Conveyor { pos_start: 0, pos_end: 0, speed: 0, alive: false }
    }

    /// Paint the marching pattern over the mapped span.
    pub fn draw(&self, led_string: &mut LEDString, time: u32)
        requires
            old(led_string).wf(),
            self.wf(),
        ensures
            final(led_string).wf(),
            final(led_string).sink() == old(led_string).sink(),
            !self.alive ==> *final(led_string) == *old(led_string),
            self.alive ==> final(led_string)@.len() == old(led_string)@.len() && forall|j: int|
                0 <= j < old(led_string)@.len() ==> final(led_string)@[j] == (if spec_vtor(
                    self.pos_start as int,
                ) <= j < spec_vtor(self.pos_end as int) {
                    spec_conveyor_pixel(*self, time, j, old(led_string)@[j])
                } else {
                    old(led_string)@[j]
                }),
    {
        if !self.alive {
            return;
        }
        let t: i32 = (time.wrapping_add(10000) / 100) as i32;
        let start = led_string.vtor(self.pos_start);
        let end = led_string.vtor(self.pos_end);
        proof {
            crate::led_string::lemma_vtor_monotonic(self.pos_start as int, self.pos_end as int);
        }
        let mut i = start;
        while i < end
            invariant
                old(led_string).wf(),
                led_string.wf(),
                led_string.sink() == old(led_string).sink(),
                self.alive,
                self.wf(),
                t == (vstd::wrapping::u32_specs::wrapping_add(time, 10000) / 100) as int,
                0 <= t <= 42_949_672,
                start == spec_vtor(self.pos_start as int),
                end == spec_vtor(self.pos_end as int),
                0 <= start <= i,
                i <= end < 144,
                start <= end,
                forall|j: int| 0 <= j < old(led_string)@.len() ==> led_string@[j] == (if start
                    <= j < i {
                    spec_conveyor_pixel(*self, time, j, old(led_string)@[j])
                } else {
                    old(led_string)@[j]
                }),
            decreases end - i,
        {
            let raw: i32 = if self.speed >= 0 {
                t - i
            } else {
                t + i
            };
            let m = raw % 5;
            let n: i32 = if m < 0 {
                m + 5
            } else {
                m
            };
            proof {
                if raw % 5 != 0 && raw < 0 {
                    vstd::arithmetic::div_mod::lemma_mod_add_multiples_vanish(
                        raw as int,
                        5,
                    );
                }
                assert(n == (raw as int) % 5);
            }
            let b = range_map(n, 0, 5, 0, CONVEYOR_BRIGHTNESS as i32);
            if b > 0 {
                led_string.set_rgb(i, [0, 0, b as u8]);
            }
            i += 1;
        }
    }

    /// Free the pool slot.
    pub fn reset(&mut self)
        ensures
            *final(self) == (Conveyor { alive: false, ..*old(self) }),
            old(self).wf() ==> final(self).wf(),
    {
        self.alive = false;
    }

    /// Occupy the slot with a fresh conveyor span.
    pub fn spawn(&mut self, pos_start: i32, pos_end: i32, speed: i32)
        requires
            0 <= pos_start <= pos_end < LED_STRING_VLENGTH,
            -1000 <= speed <= 1000,
        ensures
            *final(self) == (Conveyor { pos_start, pos_end, speed, alive: true }),
            final(self).wf(),
    {
        self.pos_start = pos_start;
        self.pos_end = pos_end;
        self.speed = speed;
        self.alive = true;
    }
}

/// The dead default slot.
pub open spec fn spec_conveyor_new() -> Conveyor {
    Conveyor { pos_start: 0, pos_end: 0, speed: 0, alive: false }
}

} // verus!
