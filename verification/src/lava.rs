//! Lava spans: ranges of the field that alternate between an "off" ember
//! glow and a deadly "on" state on independent on/off durations, with an
//! optional startup phase offset.

use crate::led_string::{LEDString, LED, LED_STRING_VLENGTH, spec_vtor};
use crate::utils::{spec_expired, TIME_HALF_RANGE};
use vstd::prelude::*;

verus! {

/// Base brightness of the ember glow while the lava is off.
pub const LAVA_OFF_BRIGHTNESS: u8 = 15;

/// One lava slot in the fixed pool.
#[derive(Clone, Copy, Debug, PartialEq, Eq, Structural)]
pub struct Lava {
    /// First virtual coordinate of the span.
    pub pos_start: i32,
    /// One past the last virtual coordinate of the span.
    pub pos_end: i32,
    /// How long the lava stays on, in ms.
    pub ontime: u32,
    /// How long the lava stays off, in ms.
    pub offtime: u32,
    /// Startup phase offset applied once at spawn, in ms.
    pub offset: u32,
    /// Timestamp of the last state flip.
    pub laston: u32,
    /// Whether the lava is currently on (deadly).
    pub state: bool,
    /// Whether this pool slot is occupied.
    pub alive: bool,
}

/// One tick of the lava duty cycle: flip off to on once the off duration has
/// elapsed since the last flip, and back once the on duration has.  A flip
/// timestamp still in the future (the spawn-time phase offset) keeps the
/// span waiting.
pub open spec fn spec_lava_after_tick(l: Lava, time: u32) -> Lava {
    if !l.alive {
        l
    } else if !l.state {
        if spec_expired(time, l.laston, l.offtime) {
            Lava { state: true, laston: time, ..l }
        } else {
            l
        }
    } else {
        if spec_expired(time, l.laston, l.ontime) {
            Lava { state: false, laston: time, ..l }
        } else {
            l
        }
    }
}

/// The color an alive lava paints at physical index `i` of its mapped span.
pub open spec fn spec_lava_pixel(l: Lava, i: int) -> LED {
    if !l.state {
        if i % 3 == 0 {
            LED { r: 22u8, g: 33u8, b: 0u8 }
        } else {
            LED { r: 30u8, g: 45u8, b: 0u8 }
        }
    } else {
        if i % 3 == 0 {
            LED { r: 150u8, g: 0u8, b: 0u8 }
        } else {
            LED { r: 180u8, g: 100u8, b: 0u8 }
        }
    }
}

impl Lava {
    /// Field bounds that every pool slot maintains.
    pub open spec fn wf(&self) -> bool {
        0 <= self.pos_start <= self.pos_end < LED_STRING_VLENGTH
    }

    /// A dead slot with default fields.
    pub fn new() -> (l: Lava)
        ensures
            l == spec_lava_new(),
            l.wf(),
    {
        Lava {
            pos_start: 0,
            pos_end: 0,
            ontime: 0,
            offtime: 0,
            offset: 0,
            laston: 0,
            state: false,
            alive: false,
        }
    }

    /// Paint the mapped span: a dim ember pattern while off, bright fire
    /// while on, alternating every third pixel.
    pub fn draw(&self, led_string: &mut LEDString)
        requires
            old(led_string).wf(),
            self.wf(),
        ensures
            final(led_string).wf(),
            final(led_string).sink() == old(led_string).sink(),
            !self.alive ==> *final(led_string) == *old(led_string),
            self.alive ==> final(led_string)@.len() == old(led_string)@.len() && forall|j: int|
                0 <= j < old(led_string)@.len() ==> final(led_string)@[j] == (if spec_vtor(
                    self.pos_start as int,
                ) <= j < spec_vtor(self.pos_end as int) {
                    spec_lava_pixel(*self, j)
                } else {
                    old(led_string)@[j]
                }),
    {
        if !self.alive {
            return;
        }
        let start = led_string.vtor(self.pos_start);
        let end = led_string.vtor(self.pos_end);
        proof {
            crate::led_string::lemma_vtor_monotonic(self.pos_start as int, self.pos_end as int);
        }
        let mut i = start;
        while i < end
            invariant
                old(led_string).wf(),
                led_string.wf(),
                led_string.sink() == old(led_string).sink(),
                start == spec_vtor(self.pos_start as int),
                end == spec_vtor(self.pos_end as int),
                0 <= start <= i,
                i <= end < 144,
                start <= end,
                forall|j: int| 0 <= j < old(led_string)@.len() ==> led_string@[j] == (if start
                    <= j < i {
                    spec_lava_pixel(*self, j)
                } else {
                    old(led_string)@[j]
                }),
            decreases end - i,
        {
            if !self.state {
                let flicker = if i % 3 == 0 { LAVA_OFF_BRIGHTNESS / 2 } else { LAVA_OFF_BRIGHTNESS };
                led_string.set_rgb(
                    i,
                    [LAVA_OFF_BRIGHTNESS + flicker, (LAVA_OFF_BRIGHTNESS + flicker) * 3 / 2, 0],
                );
            } else {
                if i % 3 == 0 {
                    led_string.set_rgb(i, [150, 0, 0]);
                } else {
                    led_string.set_rgb(i, [180, 100, 0]);
                }
            }
            i += 1;
        }
    }

    /// Advance the duty cycle.
    pub fn tick(&mut self, time: u32)
        ensures
            *final(self) == spec_lava_after_tick(*old(self), time),
            old(self).wf() ==> final(self).wf(),
    {
        if !self.alive {
            return;
        }
        if !self.state {
            let d = time.wrapping_sub(self.laston);
            if d > self.offtime && d < TIME_HALF_RANGE {
                self.state = true;
                self.laston = time;
            }
        } else {
            let d = time.wrapping_sub(self.laston);
            if d > self.ontime && d < TIME_HALF_RANGE {
                self.state = false;
                self.laston = time;
            }
        }
    }

    /// Free the pool slot.
    pub fn reset(&mut self)
        ensures
            *final(self) == (Lava { alive: false, ..*old(self) }),
            old(self).wf() ==> final(self).wf(),
    {
        self.alive = false;
    }

    /// Occupy the slot with a fresh lava span; the phase offset delays the
    /// first flip once.
    pub fn spawn(
        &mut self,
        time: u32,
        pos_start: i32,
        pos_end: i32,
        ontime: u32,
        offtime: u32,
        offset: u32,
        state: bool,
    )
        requires
            0 <= pos_start <= pos_end < LED_STRING_VLENGTH,
        ensures
            *final(self) == spec_lava_spawned(time, pos_start, pos_end, ontime, offtime, offset, state),
            final(self).wf(),
    {
        self.pos_start = pos_start;
        self.pos_end = pos_end;
        self.ontime = ontime;
        self.offtime = offtime;
        self.offset = offset;
        self.laston = time.wrapping_add(offset);
        self.state = state;
        self.alive = true;
    }
}

/// The dead default slot.
pub open spec fn spec_lava_new() -> Lava {
    Lava {
        pos_start: 0,
        pos_end: 0,
        ontime: 0,
        offtime: 0,
        offset: 0,
        laston: 0,
        state: false,
        alive: false,
    }
}

/// A freshly spawned lava span.
pub open spec fn spec_lava_spawned(
    time: u32,
    pos_start: i32,
    pos_end: i32,
    ontime: u32,
    offtime: u32,
    offset: u32,
    state: bool,
) -> Lava {
    Lava {
        pos_start,
        pos_end,
        ontime,
        offtime,
        offset,
        laston: vstd::wrapping::u32_specs::wrapping_add(time, offset),
        state,
        alive: true,
    }
}

} // verus!
