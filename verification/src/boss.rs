//! The boss: a wide band with three lives.  Each hit relocates it to the
//! next entry of its per-life position table and re-arms its two flanking
//! spawners, pointed outward, at that life's spawn rate; the last hit
//! defeats it.

use crate::led_string::{LEDString, LED, spec_vtor};
use crate::player::Player;
use crate::spawner::{spec_spawner_spawned, Spawner};
use vstd::prelude::*;

verus! {

/// Width of the boss band, in virtual coordinates.
pub const BOSS_WIDTH: i32 = 40;

/// Number of lives the boss starts with.
pub const BOSS_LIVES: u8 = 3;

/// The boss.
#[derive(Clone, Copy, Debug)]
pub struct Boss {
    /// Center of the band, in virtual coordinates.
    pub position: i32,
    /// First virtual coordinate of the band.
    pub start: i32,
    /// Last virtual coordinate of the band.
    pub stop: i32,
    /// Lives remaining.
    pub lives: u8,
    /// Band center for each remaining-lives count, indexed by lives - 1.
    pub live_pos: [i32; 3],
    /// Flanking-spawner period for each remaining-lives count.
    pub live_spawn_rate: [u32; 3],
    /// Whether the boss is on the field.
    pub alive: bool,
    /// Whether the boss has been beaten.
    pub defeated: bool,
}

/// The boss relocated to the entry of its table for its current lives
/// count.
pub open spec fn spec_boss_moved(b: Boss) -> Boss {
    let p = b.live_pos[b.lives - 1];
    Boss { position: p, start: (p - BOSS_WIDTH / 2) as i32, stop: (p + BOSS_WIDTH / 2) as i32, ..b }
}

/// The two flanking spawners after a relocation at `time`: one at each edge
/// of the band, pointed outward, at the current life's rate.
pub open spec fn spec_boss_spawners(b: Boss, time: u32) -> Seq<Spawner> {
    let moved = spec_boss_moved(b);
    let rate = b.live_spawn_rate[b.lives - 1];
    seq![
        spec_spawner_spawned(time, moved.start as i32, rate, -3i32, 0),
        spec_spawner_spawned(time, moved.stop as i32, rate, 3i32, 0),
    ]
}

/// The boss after taking a hit: defeated at zero lives, relocated
/// otherwise.
pub open spec fn spec_boss_after_hit(b: Boss) -> Boss {
    let b1 = Boss { lives: (b.lives - 1) as u8, ..b };
    if b1.lives == 0 {
        Boss { alive: false, defeated: true, ..b1 }
    } else {
        spec_boss_moved(b1)
    }
}

/// Whether the player's attack span overlaps the boss band.
pub open spec fn spec_attack_hits_boss(b: Boss, p: Player) -> bool {
    let pmin = p.position - p.attack_width / 2;
    let pmax = pmin + p.attack_width;
    (pmax >= b.start && pmax <= b.stop) || (pmin <= b.stop && pmin >= b.start)
}

impl Boss {
    /// Bounds that the boss maintains: position entries keep the band and
    /// its flanking spawners on the field, and an alive boss has between one
    /// and three lives.
    pub open spec fn wf(&self) -> bool {
        &&& forall|i: int| 0 <= i < 3 ==> BOSS_WIDTH / 2 <= #[trigger] self.live_pos[i] < 1000
            - BOSS_WIDTH / 2
        &&& (self.alive ==> 1 <= self.lives <= 3)
        &&& (self.alive ==> 0 <= self.start <= self.stop < 1000)
        &&& -2000 <= self.start <= 2000
        &&& -2000 <= self.stop <= 2000
    }

    /// A fresh boss, off the field.
    pub fn new() -> (b: Boss)
        ensures
            b == spec_boss_new(),
            b.wf(),
    {
        Boss {
            position: 0,
            start: 20,
            stop: 20,
            lives: 3,
            live_pos: [20, 20, 20],
            live_spawn_rate: [0, 0, 0],
            alive: false,
            defeated: false,
        }
    }

    /// Paint the band dark red over its mapped span.
    pub fn draw(&self, led_string: &mut LEDString)
        requires
            old(led_string).wf(),
            self.wf(),
        ensures
            final(led_string).wf(),
            final(led_string).sink() == old(led_string).sink(),
            !self.alive ==> *final(led_string) == *old(led_string),
            self.alive ==> final(led_string)@.len() == old(led_string)@.len() && forall|j: int|
                0 <= j < old(led_string)@.len() ==> final(led_string)@[j] == (if spec_vtor(
                    self.start as int,
                ) <= j < spec_vtor(self.stop as int) + 1 {
                    LED { r: 0x37u8, g: 0u8, b: 0u8 }
                } else {
                    old(led_string)@[j]
                }),
    {
        if !self.alive {
            return;
        }
        let start = led_string.vtor(self.start);
        let stop = led_string.vtor(self.stop) + 1;
        proof {
            crate::led_string::lemma_vtor_monotonic(self.start as int, self.stop as int);
        }
        let mut i = start;
        while i < stop
            invariant
                old(led_string).wf(),
                led_string.wf(),
                led_string.sink() == old(led_string).sink(),
                start == spec_vtor(self.start as int),
                stop == spec_vtor(self.stop as int) + 1,
                0 <= start <= i,
                i <= stop <= 144,
                start < stop,
                forall|j: int| 0 <= j < old(led_string)@.len() ==> led_string@[j] == (if start
                    <= j < i {
                    LED { r: 0x37u8, g: 0u8, b: 0u8 }
                } else {
                    old(led_string)@[j]
                }),
            decreases stop - i,
        {
            led_string.set_rgb(i, [0x37, 0x00, 0x00]);
            i += 1;
        }
    }

    /// An attacking player whose span overlaps the band lands a hit.
    pub fn collide_player(&mut self, player: &Player, spawners: &mut Vec<Spawner>, time: u32)
        requires
            old(self).wf(),
            player.wf(),
            old(spawners)@.len() == 2,
        ensures
            final(self).wf(),
            final(spawners)@.len() == 2,
            old(self).alive && player.attacking && spec_attack_hits_boss(*old(self), *player)
                ==> *final(self) == spec_boss_after_hit(*old(self)) && (if final(self).alive {
                final(spawners)@ == spec_boss_spawners(
                    Boss { lives: (old(self).lives - 1) as u8, ..*old(self) },
                    time,
                )
            } else {
                final(spawners)@ == old(spawners)@
            }),
            !(old(self).alive && player.attacking && spec_attack_hits_boss(*old(self), *player))
                ==> *final(self) == *old(self) && final(spawners)@ == old(spawners)@,
    {
        if !self.alive {
            return;
        }
        if !player.attacking {
            return;
        }
        let pmin = player.position - (player.attack_width / 2);
        let pmax = pmin + player.attack_width;
        let bmin = self.start;
        let bmax = self.stop;
        if (pmax >= bmin && pmax <= bmax) || (pmin <= bmax && pmin >= bmin) {
            self.hit(spawners, time);
        }
    }

    /// Spend one boss life: defeat at zero, relocation otherwise.
    pub fn hit(&mut self, spawners: &mut Vec<Spawner>, time: u32)
        requires
            old(self).wf(),
            old(self).alive,
            old(spawners)@.len() == 2,
        ensures
            final(self).wf(),
            final(spawners)@.len() == 2,
            *final(self) == spec_boss_after_hit(*old(self)),
            final(self).alive ==> final(spawners)@ == spec_boss_spawners(
                Boss { lives: (old(self).lives - 1) as u8, ..*old(self) },
                time,
            ),
            !final(self).alive ==> final(spawners)@ == old(spawners)@,
    {
        self.lives = self.lives - 1;
        if self.lives == 0 {
            self.alive = false;
            self.defeated = true;
        } else {
            self.do_move(spawners, time);
        }
    }

    /// Relocate to the table entry for the current lives count and re-arm
    /// the flanking spawners.
    pub fn do_move(&mut self, spawners: &mut Vec<Spawner>, time: u32)
        requires
            forall|i: int| 0 <= i < 3 ==> BOSS_WIDTH / 2 <= #[trigger] old(self).live_pos[i]
                < 1000 - BOSS_WIDTH / 2,
            1 <= old(self).lives <= 3,
            old(spawners)@.len() == 2,
        ensures
            *final(self) == spec_boss_moved(*old(self)),
            final(spawners)@ == spec_boss_spawners(*old(self), time),
    {
        self.position = self.live_pos[(self.lives - 1) as usize];
        self.start = self.position - BOSS_WIDTH / 2;
        self.stop = self.position + BOSS_WIDTH / 2;
        let mut s0 = spawners[0];
        s0.reset();
        let mut s1 = spawners[1];
        s1.reset();
        let rate = self.live_spawn_rate[(self.lives - 1) as usize];
        s0.spawn(time, self.start, rate, -3, 0);
        s1.spawn(time, self.stop, rate, 3, 0);
        spawners[0] = s0;
        spawners[1] = s1;
        proof {
            assert(spawners@ =~= spec_boss_spawners(*old(self), time));
        }
    }

    /// Take the boss off the field and clear the defeated flag.
    pub fn reset(&mut self)
        ensures
            *final(self) == (Boss { alive: false, defeated: false, ..*old(self) }),
            old(self).wf() ==> final(self).wf(),
    {
        self.alive = false;
        self.defeated = false;
    }

    /// Put the boss on the field with its per-life tables, relocated to its
    /// first position with its flanking spawners armed.
    pub fn spawn(
        &mut self,
        time: u32,
        positions: [i32; 3],
        spawn_rates: [u32; 3],
        spawners: &mut Vec<Spawner>,
    )
        requires
            old(self).wf(),
            forall|i: int| 0 <= i < 3 ==> BOSS_WIDTH / 2 <= #[trigger] positions[i] < 1000
                - BOSS_WIDTH / 2,
            old(spawners)@.len() == 2,
        ensures
            final(self).wf(),
            *final(self) == spec_boss_moved(
                (Boss {
                    live_pos: positions,
                    live_spawn_rate: spawn_rates,
                    lives: BOSS_LIVES,
                    alive: true,
                    ..*old(self)
                }),
            ),
            final(spawners)@ == spec_boss_spawners(
                (Boss {
                    live_pos: positions,
                    live_spawn_rate: spawn_rates,
                    lives: BOSS_LIVES,
                    alive: true,
                    ..*old(self)
                }),
                time,
            ),
    {
        self.live_pos = positions;
        self.live_spawn_rate = spawn_rates;
        self.lives = BOSS_LIVES;
        self.alive = true;
        self.do_move(spawners, time);
    }
}

/// The initial boss value.
pub open spec fn spec_boss_new() -> Boss {
    Boss {
        position: 0,
        start: 20,
        stop: 20,
        lives: 3,
        live_pos: [20int as i32, 20int as i32, 20int as i32],
        live_spawn_rate: [0u32, 0u32, 0u32],
        alive: false,
        defeated: false,
    }
}

} // verus!
