//! Spawners: fixed emitters that, once their activation time has passed,
//! respawn a dead enemy slot at their position once per period, skipping
//! (not queueing) attempts while the pool is full.

use crate::enemy::{spec_enemy_spawned, Enemy};
use crate::led_string::{
    LEDString, LED_STRING_VLENGTH, spec_led, spec_vtor, spec_write, spec_write_sink,
};
use crate::utils::{spec_expired, TIME_HALF_RANGE};
use vstd::prelude::*;

verus! {

/// One spawner slot in the fixed pool.
#[derive(Clone, Copy, Debug, PartialEq, Eq, Structural)]
pub struct Spawner {
    /// Virtual position enemies emerge from.
    pub position: i32,
    /// Spawn period in ms.
    pub rate: u32,
    /// Speed and direction given to spawned enemies.
    pub speed: i32,
    /// Timestamp of the last spawn; zero means none yet, so the first
    /// eligible tick spawns immediately.
    pub last_spawned: u32,
    /// Timestamp at which the spawner becomes active.
    pub activate: u32,
    /// Whether this pool slot is occupied.
    pub alive: bool,
}

/// Index of the first dead slot at or after `i`, or -1 when every slot from
/// `i` on is alive.
pub open spec fn spec_first_dead_from(s: Seq<Enemy>, i: int) -> int
    decreases s.len() - i,
{
    if i < 0 || i >= s.len() {
        -1
    } else if !s[i].alive {
        i
    } else {
        spec_first_dead_from(s, i + 1)
    }
}

/// Index of the first dead slot of the pool, or -1 when it is full.
pub open spec fn spec_first_dead(s: Seq<Enemy>) -> int {
    spec_first_dead_from(s, 0)
}

/// Scanning over a stretch of alive slots does not change the answer.
pub proof fn lemma_first_dead_skip(s: Seq<Enemy>, i: int, j: int)
    requires
        0 <= i <= j <= s.len(),
        forall|k: int| i <= k < j ==> s[k].alive,
    ensures
        spec_first_dead_from(s, i) == spec_first_dead_from(s, j),
    decreases j - i,
{
    if i < j {
        lemma_first_dead_skip(s, i + 1, j);
    }
}

/// The first-dead index is either -1 or a valid pool index, and when valid
/// it names a dead slot preceded only by alive slots.
pub proof fn lemma_first_dead_range(s: Seq<Enemy>, i: int)
    requires
        0 <= i <= s.len(),
    ensures
        spec_first_dead_from(s, i) == -1 || i <= spec_first_dead_from(s, i) < s.len(),
        spec_first_dead_from(s, i) >= 0 ==> !s[spec_first_dead_from(s, i)].alive,
    decreases s.len() - i,
{
    if i < s.len() && s[i].alive {
        lemma_first_dead_range(s, i + 1);
    }
}

/// Whether the spawner owes a spawn at `time`: it is alive, its activation
/// time lies strictly in the past, and either it has never spawned or a full
/// period has elapsed since the last spawn.
pub open spec fn spec_spawner_due(s: Spawner, time: u32) -> bool {
    s.alive && spec_expired(time, s.activate, 0) && (s.last_spawned == 0 || spec_expired(
        time,
        s.last_spawned,
        s.rate,
    ))
}

/// A spawner that owes a spawn and has a free slot spawns exactly then: it
/// fills the first dead slot with a fresh enemy at its position and records
/// the time, so the next spawn is owed only a full period later.  The first
/// spawn is owed immediately once the activation time has passed.
pub proof fn lemma_spawner_spawns_when_due(s: Spawner, en: Seq<Enemy>, time: u32)
    requires
        spec_spawner_due(s, time),
        spec_first_dead(en) >= 0,
        spec_first_dead(en) < en.len(),
    ensures
        crate::world::spec_spawner_tick_one(s, en, time).0 == (Spawner {
            last_spawned: time,
            ..s
        }),
        crate::world::spec_spawner_tick_one(s, en, time).1[spec_first_dead(en)]
            == spec_enemy_spawned(s.position, s.speed, 0),
        forall|k: int| 0 <= k < en.len() && k != spec_first_dead(en)
            ==> crate::world::spec_spawner_tick_one(s, en, time).1[k] == en[k],
{
}

/// Between spawns nothing happens: while a spawner owes no spawn — it is
/// inert, still waiting for activation, or within a period of its last
/// spawn — a tick leaves it and the enemy pool untouched.
pub proof fn lemma_spawner_holds_between_spawns(s: Spawner, en: Seq<Enemy>, time: u32)
    requires
        !spec_spawner_due(s, time),
    ensures
        crate::world::spec_spawner_tick_one(s, en, time) == (s, en),
{
}

impl Spawner {
    /// Field bounds that every pool slot maintains.
    pub open spec fn wf(&self) -> bool {
        &&& 0 <= self.position < LED_STRING_VLENGTH
        &&& -1000 <= self.speed <= 1000
    }

    /// A dead slot with default fields.
    pub fn new() -> (s: Spawner)
        ensures
            s == spec_spawner_new(),
            s.wf(),
    {
        Spawner { position: 500, rate: 0, speed: 0, last_spawned: 0, activate: 0, alive: false }
    }

    /// Paint the spawner as a dim purple marker at its mapped position.
    pub fn draw(&self, led_string: &mut LEDString)
        requires
            old(led_string).wf(),
            self.wf(),
        ensures
            final(led_string).wf(),
            self.alive ==> final(led_string)@ == spec_write(
                old(led_string)@,
                spec_vtor(self.position as int),
                spec_led([64u8, 0u8, 64u8]),
            ) && final(led_string).sink() == spec_write_sink(
                old(led_string).sink(),
                spec_vtor(self.position as int),
                spec_led([64u8, 0u8, 64u8]),
            ),
            !self.alive ==> *final(led_string) == *old(led_string),
    {
        if self.alive {
            let pos = led_string.vtor(self.position);
            led_string.set_rgb(pos, [64, 0, 64]);
        }
    }

    /// One tick: when a spawn is owed, fill the first dead enemy slot with a
    /// fresh enemy at the spawner's position and record the spawn time; when
    /// the pool is full, skip and retry on the next eligible tick.
    pub fn tick(&mut self, time: u32, enemies: &mut Vec<Enemy>)
        requires
            old(self).wf(),
        ensures
            final(self).wf(),
            !spec_spawner_due(*old(self), time) ==> *final(self) == *old(self)
                && final(enemies)@ == old(enemies)@,
            spec_spawner_due(*old(self), time) && spec_first_dead(old(enemies)@) == -1
                ==> *final(self) == *old(self) && final(enemies)@ == old(enemies)@,
            spec_spawner_due(*old(self), time) && spec_first_dead(old(enemies)@) >= 0
                ==> final(enemies)@ == old(enemies)@.update(
                    spec_first_dead(old(enemies)@),
                    spec_enemy_spawned(old(self).position, old(self).speed, 0),
                ) && *final(self) == (Spawner { last_spawned: time, ..*old(self) }),
    {
        if !self.alive {
            return;
        }
        let da = time.wrapping_sub(self.activate);
        if !(da > 0 && da < TIME_HALF_RANGE) {
            return;
        }
        let dl = time.wrapping_sub(self.last_spawned);
        if self.last_spawned == 0 || (dl > self.rate && dl < TIME_HALF_RANGE) {
            let n = enemies.len();
            let mut i: usize = 0;
            while i < n
                invariant
                    n == enemies@.len(),
                    i <= n,
                    *self == *old(self),
                    self.wf(),
                    spec_spawner_due(*old(self), time),
                    enemies@ == old(enemies)@,
                    forall|k: int| 0 <= k < i ==> enemies@[k].alive,
                decreases n - i,
            {
                if !enemies[i].alive {
                    proof {
                        lemma_first_dead_skip(enemies@, 0, i as int);
                    }
                    let mut e = enemies[i];
                    e.spawn(self.position, self.speed, 0);
                    enemies[i] = e;
                    self.last_spawned = time;
                    return;
                }
                i += 1;
            }
            proof {
                lemma_first_dead_skip(enemies@, 0, n as int);
            }
        }
    }

    /// Free the pool slot.
    pub fn reset(&mut self)
        ensures
            *final(self) == (Spawner { alive: false, ..*old(self) }),
            old(self).wf() ==> final(self).wf(),
    {
        self.alive = false;
    }

    /// Occupy the slot with a fresh spawner that activates `activate` ms
    /// after `time`.
    pub fn spawn(&mut self, time: u32, position: i32, rate: u32, speed: i32, activate: u32)
        requires
            0 <= position < LED_STRING_VLENGTH,
            -1000 <= speed <= 1000,
        ensures
            *final(self) == spec_spawner_spawned(time, position, rate, speed, activate),
            final(self).wf(),
    {
        self.position = position;
        self.rate = rate;
        self.speed = speed;
        self.last_spawned = 0;
        self.activate = time.wrapping_add(activate);
        self.alive = true;
    }
}

/// The dead default slot.
pub open spec fn spec_spawner_new() -> Spawner {
    Spawner { position: 500, rate: 0, speed: 0, last_spawned: 0, activate: 0, alive: false }
}

/// A freshly spawned spawner.
pub open spec fn spec_spawner_spawned(
    time: u32,
    position: i32,
    rate: u32,
    speed: i32,
    activate: u32,
) -> Spawner {
    Spawner {
        position,
        rate,
        speed,
        last_spawned: 0,
        activate: vstd::wrapping::u32_specs::wrapping_add(time, activate),
        alive: true,
    }
}

} // verus!
