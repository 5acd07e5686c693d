//! Death-explosion particles: sparks with decaying speed and intensity that
//! bounce off the ends of the field and additively blend a glow into the
//! frame.

use crate::led_string::{LEDString, LED, LED_STRING_VLENGTH, spec_led_add, spec_vtor};
use crate::rand::{random8, spec_rand8_next, spec_rand8_out, Rand8};
use crate::utils::spec_tdiv;
use vstd::prelude::*;

verus! {

/// One particle slot in the fixed pool.
#[derive(Clone, Copy, Debug, PartialEq, Eq, Structural)]
pub struct Particle {
    /// Current virtual position.
    pub position: i32,
    /// Remaining intensity; the particle dies when it reaches zero.
    pub power: u8,
    /// Ticks lived so far (offset by the initial speed at spawn).
    pub life: u8,
    /// Whether this pool slot is occupied.
    pub alive: bool,
    /// Signed speed in sevenths of a virtual unit per tick.
    pub speed: i8,
}

/// Clamp a mathematical integer into the signed byte range.
pub open spec fn spec_sat_i8(x: int) -> i8 {
    if x > 127 {
        127i8
    } else if x < -128 {
        -128i8
    } else {
        x as i8
    }
}

/// One tick of particle physics: age, decay the speed toward zero at a rate
/// proportional to the life, apply gravity past the bend, recompute power as
/// 255 wrapping-minus life (dying at zero), then advance by a seventh of the
/// speed and bounce at the field ends, halving the speed.
pub open spec fn spec_particle_after_tick(p: Particle, gravity: bool, bend: i32) -> Particle {
    if !p.alive {
        p
    } else {
        let nl = vstd::wrapping::u8_specs::wrapping_add(p.life, 1);
        let d = (nl as int) / 10;
        let s1 = if p.speed > 0 {
            spec_sat_i8(p.speed - d)
        } else {
            spec_sat_i8(p.speed + d)
        };
        let s2 = if gravity && p.position > bend {
            spec_sat_i8(s1 - 10)
        } else {
            s1
        };
        let power = vstd::wrapping::u8_specs::wrapping_sub(255, nl);
        if power == 0 {
            Particle { life: nl, speed: s2, power, alive: false, ..p }
        } else {
            let moved = p.position + spec_tdiv(s2 as int, 7);
            if moved > LED_STRING_VLENGTH - 1 {
                Particle {
                    life: nl,
                    power,
                    position: (LED_STRING_VLENGTH - 1) as i32,
                    speed: spec_sat_i8(-spec_tdiv(s2 as int, 2)),
                    ..p
                }
            } else if moved < 0 {
                Particle {
                    life: nl,
                    power,
                    position: 0i32,
                    speed: spec_sat_i8(-spec_tdiv(s2 as int, 2)),
                    ..p
                }
            } else {
                Particle { life: nl, power, position: moved as i32, speed: s2, ..p }
            }
        }
    }
}

/// The glow an alive particle blends in: a soft warm glow below the
/// intensity threshold, a red glow proportional to the power above it.
pub open spec fn spec_particle_glow(p: Particle) -> LED {
    if p.power < 5 {
        let b = ((5 - p.power) * 10) as u8;
        LED { r: b, g: (b / 2) as u8, b: (b / 2) as u8 }
    } else {
        LED { r: p.power, g: 0u8, b: 0u8 }
    }
}

/// Whether an alive particle still counts as active for the state machine.
pub open spec fn spec_particle_active(p: Particle) -> bool {
    p.alive && p.power >= 5
}

/// A freshly spawned particle at `position` whose speed came from the random
/// byte `r`.
pub open spec fn spec_particle_spawned(position: i32, r: u8) -> Particle {
    let sp = (r as int) - 128;
    Particle {
        position,
        speed: sp as i8,
        power: 255u8,
        alive: true,
        life: (220 - (if sp < 0 { -sp } else { sp })) as u8,
    }
}

impl Particle {
    /// Field bounds that every pool slot maintains.
    pub open spec fn wf(&self) -> bool {
        0 <= self.position < LED_STRING_VLENGTH
    }

    /// A dead slot with default fields.
    pub fn new() -> (p: Particle)
        ensures
            p == (Particle { position: 0i32, power: 0u8, life: 0u8, alive: false, speed: 0i8 }),
            p.wf(),
    {
        Particle { position: 0, power: 0, life: 0, alive: false, speed: 0 }
    }

    /// Blend the particle's glow into the frame; the result reports whether
    /// the particle is still active, which gates the death-state transition.
    pub fn draw(&self, led_string: &mut LEDString) -> (r: bool)
        requires
            old(led_string).wf(),
            self.wf(),
        ensures
            final(led_string).wf(),
            r == spec_particle_active(*self),
            final(led_string).sink() == old(led_string).sink(),
            !self.alive ==> *final(led_string) == *old(led_string),
            self.alive ==> final(led_string)@ == old(led_string)@.update(
                spec_vtor(self.position as int),
                spec_led_add(old(led_string)@[spec_vtor(self.position as int)], spec_particle_glow(*self)),
            ),
    {
        if !self.alive {
            return false;
        }
        let pos = led_string.vtor(self.position);
        proof {
            crate::led_string::lemma_vtor_in_range(self.position as int);
        }
        if self.power < 5 {
            let brightness = (5 - self.power) * 10;
            led_string.add_at(pos, LED { r: brightness, g: brightness / 2, b: brightness / 2 });
            false
        } else {
            led_string.add_at(pos, LED { r: self.power, g: 0, b: 0 });
            true
        }
    }

    /// One tick of particle physics.
    pub fn tick(&mut self, gravity: bool, bend: i32)
        requires
            old(self).wf(),
        ensures
            *final(self) == spec_particle_after_tick(*old(self), gravity, bend),
            final(self).wf(),
    {
        if !self.alive {
            return;
        }
        self.life = self.life.wrapping_add(1);

        let d = (self.life / 10) as i32;
        let mut sp = self.speed as i32;
        if sp > 0 {
            sp = sp - d;
        } else {
            sp = sp + d;
        }
        if gravity && self.position > bend {
            sp = sp - 10;
        }
        let sp8: i8 = if sp > 127 {
            127
        } else if sp < -128 {
            -128
        } else {
            sp as i8
        };
        self.speed = sp8;

        self.power = 255u8.wrapping_sub(self.life);
        if self.power == 0 {
            self.alive = false;
            return;
        }

        self.position = self.position + (self.speed as i32) / 7;
        if self.position > 999 {
            self.position = 999;
            self.speed = -(self.speed / 2);
        } else if self.position < 0 {
            self.position = 0;
            self.speed = -(self.speed / 2);
        }
    }

    /// Occupy the slot with a spark at `position`, drawing its speed from
    /// the random stream.
    pub fn spawn(&mut self, position: i32, rng: &mut Rand8)
        requires
            0 <= position < LED_STRING_VLENGTH,
        ensures
            final(rng).seed == spec_rand8_next(old(rng).seed),
            *final(self) == spec_particle_spawned(position, spec_rand8_out(final(rng).seed)),
            final(self).wf(),
    {
        let r = random8(rng);
        let sp: i32 = (r as i32) - 128;
        self.position = position;
        self.speed = sp as i8;
        self.power = 255;
        self.alive = true;
        let a: i32 = if sp < 0 {
            -sp
        } else {
            sp
        };
        self.life = (220 - a) as u8;
    }
}

} // verus!
