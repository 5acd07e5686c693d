//! Enemies: dots that either travel linearly until they leave the field or
//! wobble sinusoidally around a fixed origin, and that can only be killed
//! from the side the player first approached them from.

use crate::lava::Lava;
use crate::led_string::{
    LEDString, LED_STRING_VLENGTH, spec_led, spec_vtor, spec_write, spec_write_sink,
};
use crate::player::Player;
use crate::utils::{sinu8, spec_sinu8, spec_tdiv};
use vstd::prelude::*;

verus! {

/// One enemy slot in the fixed pool.
#[derive(Clone, Copy, Debug, PartialEq, Eq, Structural)]
pub struct Enemy {
    /// Current virtual position.
    pub position: i32,
    /// Virtual position the wobble oscillates around.
    pub origin: i32,
    /// Signed speed: per-tick displacement when not wobbling, phase rate
    /// otherwise.
    pub speed: i32,
    /// Oscillation radius around the origin; zero means linear motion.
    pub wobble: i32,
    /// Whether this pool slot is occupied.
    pub alive: bool,
    /// Which side of the player the enemy latched onto: -1 or +1 once
    /// decided, 0 while undecided (an undecided enemy cannot be killed).
    pub player_side: i32,
}

impl Enemy {
    /// Field bounds that every pool slot maintains.
    pub open spec fn wf(&self) -> bool {
        &&& -2000 <= self.position <= 2000
        &&& 0 <= self.origin < LED_STRING_VLENGTH
        &&& -1000 <= self.speed <= 1000
        &&& 0 <= self.wobble <= 1000
        &&& (self.alive && self.wobble == 0 ==> 0 <= self.position < LED_STRING_VLENGTH)
    }

    /// A dead slot with default fields.
    pub fn new() -> (e: Enemy)
        ensures
            e == spec_enemy_new(),
            e.wf(),
    {
        Enemy { position: 500, origin: 500, speed: 0, wobble: 0, alive: false, player_side: 0 }
    }

    /// Paint the enemy red at its mapped position.
    pub fn draw(&self, led_string: &mut LEDString)
        requires
            old(led_string).wf(),
            self.wf(),
        ensures
            final(led_string).wf(),
            self.alive ==> final(led_string)@ == spec_write(
                old(led_string)@,
                spec_vtor(self.position as int),
                spec_led([255u8, 0u8, 0u8]),
            ) && final(led_string).sink() == spec_write_sink(
                old(led_string).sink(),
                spec_vtor(self.position as int),
                spec_led([255u8, 0u8, 0u8]),
            ),
            !self.alive ==> *final(led_string) == *old(led_string),
    {
        if self.alive {
            let pos = led_string.vtor(self.position);
            led_string.set_rgb(pos, [255, 0, 0]);
        }
    }

    /// Advance one tick: linear motion with boundary death, or wobble around
    /// the origin with no boundary death.
    pub fn tick(&mut self, led_string: &LEDString, time: u32)
        requires
            old(self).wf(),
        ensures
            *final(self) == spec_enemy_after_tick(*old(self), time),
            final(self).wf(),
    {
        if !self.alive {
            return;
        }
        if self.wobble != 0 {
            let q = time / 37;
            proof {
                vstd::arithmetic::div_mod::lemma_div_is_ordered(time as int, 4_294_967_295int, 37);
                assert((q as i64) * (self.speed as i64) <= 116_141_007_000int
                    && (q as i64) * (self.speed as i64) >= -116_141_007_000int) by (nonlinear_arith)
                    requires 0 <= q <= 116_081_548 && -1000 <= self.speed <= 1000;
            }
            let prod: i64 = (q as i64) * (self.speed as i64);
            let m = prod % 256;
            let ph: i64 = if m < 0 { m + 256 } else { m };
            let idx: u8 = ((ph + 128) % 256) as u8;
            let s = (sinu8(idx) as i32) - 128;
            proof {
                assert(-128 * 1000 <= s * self.wobble <= 127 * 1000) by (nonlinear_arith)
                    requires -128 <= s <= 127 && 0 <= self.wobble <= 1000;
                assert((-128000int) / 255 <= spec_tdiv(s as int * self.wobble as int, 255) <= 127000int / 255);
            }
            self.position = self.origin + (s * self.wobble) / 255;
        } else {
            self.position = self.position + self.speed;
            if self.position >= led_string.vlen() || self.position < 0 {
                self.alive = false;
            }
        }
    }

    /// First contact latches which side of the player the enemy sits on;
    /// after that the enemy dies only while the player is attacking and the
    /// enemy stands strictly inside the attack span.
    pub fn collide_player(&mut self, player: &Player)
        requires
            player.wf(),
        ensures
            *final(self) == spec_enemy_after_collide_player(*old(self), *player),
            old(self).wf() ==> final(self).wf(),
    {
        if !self.alive {
            return;
        }
        if self.player_side == 0 {
            if self.position < player.position {
                self.player_side = -1;
            } else if self.position > player.position {
                self.player_side = 1;
            }
            return;
        }
        if player.attacking {
            let amin = player.position - (player.attack_width / 2);
            let amax = player.position + (player.attack_width / 2);
            if amin < self.position && self.position < amax {
                self.alive = false;
            }
        }
    }

    /// An enemy standing inside an alive, currently-on lava span dies.
    pub fn collide_lava(&mut self, lava: &Lava)
        ensures
            *final(self) == spec_enemy_after_collide_lava(*old(self), *lava),
            old(self).wf() ==> final(self).wf(),
    {
        if !self.alive || !lava.alive || !lava.state {
            return;
        }
        if self.position >= lava.pos_start && self.position < lava.pos_end {
            self.alive = false;
        }
    }

    /// Free the pool slot.
    pub fn reset(&mut self)
        ensures
            *final(self) == (Enemy { alive: false, ..*old(self) }),
            old(self).wf() ==> final(self).wf(),
    {
        self.alive = false;
    }

    /// Occupy the slot with a fresh enemy at `position`.
    pub fn spawn(&mut self, position: i32, speed: i32, wobble: i32)
        requires
            0 <= position < LED_STRING_VLENGTH,
            -1000 <= speed <= 1000,
            0 <= wobble <= 1000,
        ensures
            *final(self) == spec_enemy_spawned(position, speed, wobble),
            final(self).wf(),
    {
        self.alive = true;
        self.position = position;
        self.origin = position;
        self.speed = speed;
        self.wobble = wobble;
        self.player_side = 0;
    }
}

/// The dead default slot.
pub open spec fn spec_enemy_new() -> Enemy {
    Enemy { position: 500, origin: 500, speed: 0, wobble: 0, alive: false, player_side: 0 }
}

/// A freshly spawned enemy.
pub open spec fn spec_enemy_spawned(position: i32, speed: i32, wobble: i32) -> Enemy {
    Enemy { position, origin: position, speed, wobble, alive: true, player_side: 0 }
}

/// Oscillation phase byte of a wobbling enemy: the time-and-speed product
/// reduced to the low byte.
pub open spec fn spec_wobble_phase(time: u32, speed: i32) -> int {
    (((time as int) / 37) * (speed as int)) % 256
}

/// Position of a wobbling enemy: the 8-bit sine of its phase, scaled by the
/// wobble radius, around the origin.
pub open spec fn spec_wobble_position(e: Enemy, time: u32) -> int {
    let ph = spec_wobble_phase(time, e.speed);
    let s = spec_sinu8((((ph + 128) % 256) as u8)) - 128;
    e.origin + spec_tdiv(s * (e.wobble as int), 255)
}

/// One tick of enemy motion.
pub open spec fn spec_enemy_after_tick(e: Enemy, time: u32) -> Enemy {
    if !e.alive {
        e
    } else if e.wobble != 0 {
        Enemy { position: spec_wobble_position(e, time) as i32, ..e }
    } else {
        let p = e.position + e.speed;
        if p >= LED_STRING_VLENGTH || p < 0 {
            Enemy { position: p as i32, alive: false, ..e }
        } else {
            Enemy { position: p as i32, ..e }
        }
    }
}

/// One player-collision evaluation of an enemy.
pub open spec fn spec_enemy_after_collide_player(e: Enemy, p: Player) -> Enemy {
    if !e.alive {
        e
    } else if e.player_side == 0 {
        if e.position < p.position {
            Enemy { player_side: -1i32, ..e }
        } else if e.position > p.position {
            Enemy { player_side: 1i32, ..e }
        } else {
            e
        }
    } else if p.attacking && p.position - p.attack_width / 2 < e.position
        && e.position < p.position + p.attack_width / 2 {
        Enemy { alive: false, ..e }
    } else {
        e
    }
}

/// The enemy after a whole run of ticks, one per clock reading.
pub open spec fn spec_enemy_run(e: Enemy, times: Seq<u32>) -> Enemy
    decreases times.len(),
{
    if times.len() == 0 {
        e
    } else {
        spec_enemy_run(spec_enemy_after_tick(e, times[0]), times.drop_first())
    }
}

/// Linear motion: an alive enemy with no wobble and speed `s` stands at
/// `position + n * s` and is still alive after any `n` ticks, as long as
/// every position along the way stays inside the virtual field.  In
/// particular a freshly spawned enemy moves linearly from its origin.
pub proof fn lemma_enemy_linear_motion(e: Enemy, times: Seq<u32>)
    requires
        e.alive,
        e.wobble == 0,
        0 <= e.position < LED_STRING_VLENGTH,
        -1000 <= e.speed <= 1000,
        forall|k: int| 1 <= k <= times.len() ==> 0 <= e.position + #[trigger] (k * e.speed)
            < LED_STRING_VLENGTH,
    ensures
        spec_enemy_run(e, times) == (Enemy {
            position: (e.position + times.len() * e.speed) as i32,
            ..e
        }),
    decreases times.len(),
{
    if times.len() == 0 {
        assert(e.position + 0 * e.speed == e.position) by (nonlinear_arith);
    } else {
        assert(e.position + 1 * e.speed == e.position + e.speed) by (nonlinear_arith);
        let e1 = Enemy { position: (e.position + e.speed) as i32, ..e };
        assert(spec_enemy_after_tick(e, times[0]) == e1);
        assert forall|k: int| 1 <= k <= times.len() - 1 implies 0 <= e1.position + #[trigger] (k
            * e1.speed) < LED_STRING_VLENGTH by {
            assert(e1.position + k * e1.speed == e.position + (k + 1) * e.speed)
                by (nonlinear_arith)
                requires e1.position == e.position + e.speed && e1.speed == e.speed;
            assert(0 <= e.position + (k + 1) * e.speed < LED_STRING_VLENGTH);
        }
        lemma_enemy_linear_motion(e1, times.drop_first());
        assert(e1.position + (times.len() - 1) * e1.speed == e.position + times.len() * e.speed)
            by (nonlinear_arith)
            requires e1.position == e.position + e.speed && e1.speed == e.speed;
    }
}

/// Once an enemy has left the field and died, no run of ticks revives it.
pub proof fn lemma_enemy_dead_stays_dead(e: Enemy, times: Seq<u32>)
    requires
        !e.alive,
    ensures
        !spec_enemy_run(e, times).alive,
    decreases times.len(),
{
    if times.len() > 0 {
        lemma_enemy_dead_stays_dead(spec_enemy_after_tick(e, times[0]), times.drop_first());
    }
}

/// One lava-collision evaluation of an enemy.
pub open spec fn spec_enemy_after_collide_lava(e: Enemy, l: Lava) -> Enemy {
    if e.alive && l.alive && l.state && l.pos_start <= e.position < l.pos_end {
        Enemy { alive: false, ..e }
    } else {
        e
    }
}

} // verus!
