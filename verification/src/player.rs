//! The player token: lateral motion with boundary clamping, a timed attack
//! with a fading blue bar, and collision rules against enemies, lava,
//! conveyors and the boss.

use crate::boss::Boss;
use crate::conveyor::Conveyor;
use crate::enemy::Enemy;
use crate::lava::Lava;
use crate::led_string::{
    LEDString, LED, LED_STRING_LENGTH, LED_STRING_VLENGTH, spec_led, spec_vtor, spec_write,
    spec_write_sink,
};
use crate::utils::{range_map_u32, spec_constrain, spec_elapsed, spec_expired, spec_range_map,
    TIME_HALF_RANGE};
use vstd::prelude::*;

verus! {

/// Default width of the attack span, in virtual coordinates.
pub const ATTACK_WIDTH: i32 = 70;

/// Default duration of an attack, in ms.
pub const ATTACK_DURATION: u32 = 500;

/// The player token.
#[derive(Clone, Copy, Debug, PartialEq, Eq, Structural)]
pub struct Player {
    /// Current virtual position.
    pub position: i32,
    /// Sign applied to the lateral input.
    pub direction: i32,
    /// Width of the attack span, in virtual coordinates.
    pub attack_width: i32,
    /// Whether an attack is in progress.
    pub attacking: bool,
    /// Timestamp at which the current attack started.
    pub attacking_millis: u32,
    /// How long an attack lasts, in ms.
    pub attack_duration: u32,
    /// Lateral speed from the host's input, in virtual units per tick.
    pub speed: i32,
    /// Lives remaining.
    pub lives: u8,
    /// Whether the player is on the field.
    pub alive: bool,
}

/// One tick: an expired attack ends; otherwise the player advances by
/// `speed * direction`, clamped to the virtual field.
pub open spec fn spec_player_after_tick(p: Player, time: u32) -> Player {
    if !p.alive {
        p
    } else if p.attacking {
        if spec_expired(time, p.attacking_millis, p.attack_duration) {
            Player { attacking: false, ..p }
        } else {
            p
        }
    } else {
        Player {
            position: spec_constrain(
                p.position + p.speed * p.direction,
                0,
                LED_STRING_VLENGTH - 1,
            ) as i32,
            ..p
        }
    }
}

/// The player after losing a life.
pub open spec fn spec_player_dead(p: Player) -> Player {
    Player { lives: if p.lives > 0 { (p.lives - 1) as u8 } else { 0u8 }, alive: false, ..p }
}

/// Whether a latched enemy currently catches the player: the player stands
/// on, or has moved past, the enemy on the enemy's latched side.
pub open spec fn spec_enemy_catches(p: Player, e: Enemy) -> bool {
    e.alive && ((e.player_side == 1 && p.position >= e.position) || (e.player_side == -1
        && p.position <= e.position))
}

/// Whether an alive, currently-on lava span holds the player's position.
pub open spec fn spec_lava_catches(p: Player, l: Lava) -> bool {
    l.alive && l.state && l.pos_start <= p.position < l.pos_end
}

/// Whether the player stands on the alive boss band.
pub open spec fn spec_boss_catches(p: Player, b: Boss) -> bool {
    b.alive && b.start <= p.position <= b.stop
}

/// The player after conveyor resolution: nudged by the belt speed while
/// standing on an alive span.
pub open spec fn spec_player_after_conveyor(p: Player, c: Conveyor) -> Player {
    if c.alive && c.pos_start <= p.position < c.pos_end {
        Player { position: (p.position + c.speed) as i32, ..p }
    } else {
        p
    }
}

/// Brightness of the attack bar: fades from 100 down to 5 over the attack
/// duration.
pub open spec fn spec_attack_fade(p: Player, time: u32) -> u8 {
    let dt0 = spec_elapsed(time, p.attacking_millis);
    let dt = if dt0 > p.attack_duration { p.attack_duration } else { dt0 };
    spec_range_map(dt as int, 0, p.attack_duration as int, 100, 5) as u8
}

/// First physical pixel of the attack bar proper.
pub open spec fn spec_attack_from(p: Player) -> int {
    spec_vtor(p.position - p.attack_width / 2) + 1
}

/// Physical pixel of the trailing attack accent.
pub open spec fn spec_attack_to(p: Player) -> int {
    spec_vtor(p.position + p.attack_width / 2)
}

/// The strip during an attack: the fading blue bar over the attack span,
/// the player pixel white early in the attack and green later, and two
/// accent pixels bracketing the bar.
pub open spec fn spec_player_attack_view(p: Player, time: u32, v: Seq<LED>) -> Seq<LED> {
    let n = spec_attack_fade(p, time);
    let a: u8 = if n > 90 { 255u8 } else { 0u8 };
    let from = spec_attack_from(p);
    let to = spec_attack_to(p);
    let pp = spec_vtor(p.position as int);
    Seq::new(
        v.len(),
        |j: int|
            if j == to {
                LED { r: a, g: a, b: 255u8 }
            } else if j == from - 1 {
                LED { r: a, g: a, b: 255u8 }
            } else if j == pp {
                if n > 90 {
                    LED { r: 255u8, g: 255u8, b: 255u8 }
                } else {
                    LED { r: 0u8, g: 255u8, b: 0u8 }
                }
            } else if from <= j < to {
                LED { r: 0u8, g: 0u8, b: n }
            } else {
                v[j]
            },
    )
}

/// The sink cell during an attack: whichever unclamped accent or player
/// write landed out of range last.
pub open spec fn spec_player_attack_sink(p: Player, time: u32, sink: LED) -> LED {
    let n = spec_attack_fade(p, time);
    let a: u8 = if n > 90 { 255u8 } else { 0u8 };
    let from = spec_attack_from(p);
    let to = spec_attack_to(p);
    let pp = spec_vtor(p.position as int);
    if !(0 <= to < LED_STRING_LENGTH) {
        LED { r: a, g: a, b: 255u8 }
    } else if !(0 <= from - 1 < LED_STRING_LENGTH) {
        LED { r: a, g: a, b: 255u8 }
    } else if !(0 <= pp < LED_STRING_LENGTH) {
        if n > 90 {
            LED { r: 255u8, g: 255u8, b: 255u8 }
        } else {
            LED { r: 0u8, g: 255u8, b: 0u8 }
        }
    } else {
        sink
    }
}

impl Player {
    /// Field bounds that the simulation maintains.
    pub open spec fn wf(&self) -> bool {
        &&& -2000 <= self.position <= 2000
        &&& (self.direction == 1 || self.direction == -1)
        &&& 0 <= self.attack_width <= 1000
        &&& 1 <= self.attack_duration <= 65_535
    }

    /// A fresh player, off the field, facing `direction`.
    pub fn new(direction: i32) -> (p: Player)
        requires
            direction == 1 || direction == -1,
        ensures
            p == spec_player_new(direction),
            p.wf(),
    {
        Player {
            position: 0,
            direction,
            attack_width: ATTACK_WIDTH,
            attacking: false,
            attacking_millis: 0,
            attack_duration: ATTACK_DURATION,
            speed: 0,
            lives: 0,
            alive: false,
        }
    }

    /// Paint the player: a green dot, or the attack bar while attacking.
    pub fn draw(&self, led_string: &mut LEDString, time: u32)
        requires
            old(led_string).wf(),
            self.wf(),
        ensures
            final(led_string).wf(),
            !self.alive ==> *final(led_string) == *old(led_string),
            self.alive && !self.attacking ==> final(led_string)@ == spec_write(
                old(led_string)@,
                spec_vtor(self.position as int),
                spec_led([0u8, 255u8, 0u8]),
            ) && final(led_string).sink() == spec_write_sink(
                old(led_string).sink(),
                spec_vtor(self.position as int),
                spec_led([0u8, 255u8, 0u8]),
            ),
            self.alive && self.attacking ==> final(led_string)@ == spec_player_attack_view(
                *self,
                time,
                old(led_string)@,
            ) && final(led_string).sink() == spec_player_attack_sink(
                *self,
                time,
                old(led_string).sink(),
            ),
    {
        if !self.alive {
            return;
        }
        if !self.attacking {
            let pos = led_string.vtor(self.position);
            led_string.set_rgb(pos, [0, 255, 0]);
        } else {
            self.draw_attack(led_string, time);
        }
    }

    /// Paint the attack: the fading bar, the player pixel, and the two
    /// accent pixels, in that order.
    fn draw_attack(&self, led_string: &mut LEDString, time: u32)
        requires
            old(led_string).wf(),
            self.wf(),
            self.alive,
            self.attacking,
        ensures
            final(led_string).wf(),
            final(led_string)@ == spec_player_attack_view(*self, time, old(led_string)@),
            final(led_string).sink() == spec_player_attack_sink(*self, time, old(led_string).sink()),
    {
        let dt0 = time.wrapping_sub(self.attacking_millis);
        let dt = if dt0 > self.attack_duration {
            self.attack_duration
        } else {
            dt0
        };
        let nf = range_map_u32(dt, 0, self.attack_duration, 100, 5) as u8;
        let from = led_string.vtor(self.position - self.attack_width / 2) + 1;
        let to = led_string.vtor(self.position + self.attack_width / 2);
        let pp = led_string.vtor(self.position);
        let len = led_string.len() as i32;
        proof {
            crate::led_string::lemma_vtor_bounds(self.position - self.attack_width / 2);
            crate::led_string::lemma_vtor_bounds(self.position + self.attack_width / 2);
        }
        let ghost v0 = led_string@;
        let mut i = from;
        while i < to
            invariant
                led_string.wf(),
                v0.len() == LED_STRING_LENGTH,
                led_string.sink() == old(led_string).sink(),
                from <= i,
                i <= to || i == from,
                len == LED_STRING_LENGTH,
                -500 <= from <= 500,
                -500 <= to <= 500,
                forall|j: int| 0 <= j < v0.len() ==> led_string@[j] == (if from <= j < i && from
                    <= j < to {
                    LED { r: 0u8, g: 0u8, b: nf }
                } else {
                    v0[j]
                }),
            decreases to - i,
        {
            if i >= 0 && i < len {
                led_string.set_rgb(i, [0, 0, nf]);
            }
            i += 1;
        }
        if nf > 90 {
            led_string.set_rgb(pp, [255, 255, 255]);
        } else {
            led_string.set_rgb(pp, [0, 255, 0]);
        }
        let a: u8 = if nf > 90 {
            255
        } else {
            0
        };
        led_string.set_rgb(from - 1, [a, a, 255]);
        led_string.set_rgb(to, [a, a, 255]);
        proof {
            assert(led_string@ =~= spec_player_attack_view(*self, time, v0));
        }
    }

    /// One tick of player motion and attack timing.
    pub fn tick(&mut self, led_string: &LEDString, time: u32)
        requires
            old(self).wf(),
        ensures
            *final(self) == spec_player_after_tick(*old(self), time),
            final(self).wf(),
    {
        if !self.alive {
            return;
        }
        if self.attacking {
            let d = time.wrapping_sub(self.attacking_millis);
            if d > self.attack_duration && d < TIME_HALF_RANGE {
                self.attacking = false;
            }
            return;
        }
        let len = led_string.vlen();
        proof {
            assert(-2_147_483_648int <= (self.speed as int) * (self.direction as int)
                <= 2_147_483_648int) by (nonlinear_arith)
                requires
                    (self.direction == 1 || self.direction == -1) && -2_147_483_648
                        <= self.speed <= 2_147_483_647,
            ;
        }
        let amount: i64 = (self.speed as i64) * (self.direction as i64);
        let mut next: i64 = (self.position as i64) + amount;
        if next < 0 {
            next = 0;
        } else if next >= len as i64 {
            next = (len - 1) as i64;
        }
        self.position = next as i32;
    }

    /// A latched enemy that has caught the player kills it.
    pub fn collide_enemy(&mut self, enemy: &Enemy)
        ensures
            *final(self) == (if old(self).alive && spec_enemy_catches(*old(self), *enemy) {
                spec_player_dead(*old(self))
            } else {
                *old(self)
            }),
            old(self).wf() ==> final(self).wf(),
    {
        if !self.alive || !enemy.alive {
            return;
        }
        if (enemy.player_side == 1 && self.position >= enemy.position) || (enemy.player_side == -1
            && self.position <= enemy.position) {
            self.die();
        }
    }

    /// Standing in an alive, currently-on lava span kills the player.
    pub fn collide_lava(&mut self, lava: &Lava)
        ensures
            *final(self) == (if old(self).alive && spec_lava_catches(*old(self), *lava) {
                spec_player_dead(*old(self))
            } else {
                *old(self)
            }),
            old(self).wf() ==> final(self).wf(),
    {
        if !self.alive || !lava.alive || !lava.state {
            return;
        }
        if self.position >= lava.pos_start && self.position < lava.pos_end {
            self.die();
        }
    }

    /// An alive conveyor span under the player nudges it by the belt speed.
    pub fn collide_conveyor(&mut self, conveyor: &Conveyor)
        requires
            old(self).wf(),
            conveyor.wf(),
        ensures
            *final(self) == (if old(self).alive {
                spec_player_after_conveyor(*old(self), *conveyor)
            } else {
                *old(self)
            }),
            old(self).wf() ==> final(self).wf(),
    {
        if !self.alive || !conveyor.alive {
            return;
        }
        if self.position >= conveyor.pos_start && self.position < conveyor.pos_end {
            self.position = self.position + conveyor.speed;
        }
    }

    /// Touching the alive boss band kills the player.
    pub fn collide_boss(&mut self, boss: &Boss)
        ensures
            *final(self) == (if old(self).alive && spec_boss_catches(*old(self), *boss) {
                spec_player_dead(*old(self))
            } else {
                *old(self)
            }),
            old(self).wf() ==> final(self).wf(),
    {
        if !self.alive || !boss.alive {
            return;
        }
        if self.position >= boss.start && self.position <= boss.stop {
            self.die();
        }
    }

    /// Take the player off the field and spend a life.
    pub fn die(&mut self)
        ensures
            *final(self) == spec_player_dead(*old(self)),
            old(self).wf() ==> final(self).wf(),
    {
        self.lives = if self.lives > 0 {
            self.lives - 1
        } else {
            0
        };
        self.alive = false;
    }

    /// Start an attack at `time`.
    pub fn attack(&mut self, time: u32)
        ensures
            *final(self) == (Player { attacking: true, attacking_millis: time, ..*old(self) }),
            old(self).wf() ==> final(self).wf(),
    {
        self.attacking_millis = time;
        self.attacking = true;
    }

    /// Return to the level-start configuration, off the field.
    pub fn reset(&mut self)
        ensures
            *final(self) == (Player {
                position: 0,
                attack_width: ATTACK_WIDTH,
                attack_duration: ATTACK_DURATION,
                alive: false,
                ..*old(self)
            }),
            old(self).wf() ==> final(self).wf(),
    {
        self.position = 0;
        self.attack_width = ATTACK_WIDTH;
        self.attack_duration = ATTACK_DURATION;
        self.alive = false;
    }

    /// Place the player on the field at `position`.
    pub fn spawn(&mut self, position: i32)
        requires
            0 <= position < LED_STRING_VLENGTH,
        ensures
            *final(self) == (Player { position, alive: true, ..*old(self) }),
            old(self).wf() ==> final(self).wf(),
    {
        self.position = position;
        self.alive = true;
    }
}

/// The initial player value.
pub open spec fn spec_player_new(direction: i32) -> Player {
    Player {
        position: 0,
        direction,
        attack_width: ATTACK_WIDTH,
        attacking: false,
        attacking_millis: 0,
        attack_duration: ATTACK_DURATION,
        speed: 0,
        lives: 0,
        alive: false,
    }
}

} // verus!
