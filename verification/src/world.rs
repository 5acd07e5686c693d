//! The world: one player, one boss, and a fixed-capacity pool of each other
//! entity kind, advanced tick → collide → draw each frame.  Every spawn is a
//! first-fit write into the first free slot of the matching pool and is
//! silently dropped when the pool is full.

use crate::boss::{spec_boss_moved, spec_boss_spawners, Boss, BOSS_WIDTH};
use crate::conveyor::Conveyor;
use crate::enemy::{spec_enemy_after_collide_lava, spec_enemy_after_collide_player,
    spec_enemy_after_tick, spec_enemy_spawned, Enemy};
use crate::lava::{spec_lava_after_tick, spec_lava_spawned, Lava};
use crate::led_string::{LED, LEDString, LED_STRING_LENGTH, LED_STRING_VLENGTH, spec_led, spec_vtor};
use crate::particle::{spec_particle_after_tick, spec_particle_spawned, Particle};
use crate::player::{spec_enemy_catches, spec_lava_catches, spec_player_after_conveyor,
    spec_player_after_tick, spec_player_dead, Player};
use crate::rand::{spec_rand8_next, spec_rand8_out, Rand8};
use crate::spawner::{spec_first_dead, spec_spawner_due, Spawner};
use vstd::prelude::*;

verus! {

/// Capacity of the enemy pool.
pub const ENEMY_POOL_COUNT: usize = 10;

/// Capacity of the spawner pool.
pub const SPAWNER_POOL_COUNT: usize = 2;

/// Capacity of the lava pool.
pub const LAVA_POOL_COUNT: usize = 4;

/// Capacity of the conveyor pool.
pub const CONVEYOR_POOL_COUNT: usize = 2;

/// Capacity of the particle pool.
pub const PARTICLE_POOL_COUNT: usize = 40;

/// The world.
pub struct World {
    /// The player token.
    pub player: Player,
    /// The boss, off the field except on the boss level.
    pub boss: Boss,
    /// Enemy pool; occupancy is the slot's alive flag.
    pub enemies: Vec<Enemy>,
    /// Spawner pool.
    pub spawners: Vec<Spawner>,
    /// Lava pool.
    pub lavas: Vec<Lava>,
    /// Conveyor pool.
    pub conveyors: Vec<Conveyor>,
    /// Particle pool for the death explosion.
    pub particles: Vec<Particle>,
}

/// One spawner's effect on itself and on the enemy pool in a tick.
pub open spec fn spec_spawner_tick_one(s: Spawner, en: Seq<Enemy>, time: u32) -> (
    Spawner,
    Seq<Enemy>,
) {
    if spec_spawner_due(s, time) && spec_first_dead(en) >= 0 {
        (
            Spawner { last_spawned: time, ..s },
            en.update(spec_first_dead(en), spec_enemy_spawned(s.position, s.speed, 0)),
        )
    } else {
        (s, en)
    }
}

/// The spawner pass of a world tick: each spawner in turn acts on the enemy
/// pool left by the previous one.
pub open spec fn spec_spawners_tick_from(
    sp: Seq<Spawner>,
    en: Seq<Enemy>,
    time: u32,
    i: int,
) -> (Seq<Spawner>, Seq<Enemy>)
    decreases sp.len() - i,
{
    if i < 0 || i >= sp.len() {
        (sp, en)
    } else {
        let (s1, e1) = spec_spawner_tick_one(sp[i], en, time);
        spec_spawners_tick_from(sp.update(i, s1), e1, time, i + 1)
    }
}

/// One world tick: the player, then every enemy, then every spawner against
/// the enemy pool, then every lava, in that fixed order.
pub open spec fn spec_world_after_tick(w: WorldView, time: u32) -> WorldView {
    let en1 = Seq::new(w.enemies.len(), |j: int| spec_enemy_after_tick(w.enemies[j], time));
    let (sp1, en2) = spec_spawners_tick_from(w.spawners, en1, time, 0);
    WorldView {
        player: spec_player_after_tick(w.player, time),
        enemies: en2,
        spawners: sp1,
        lavas: Seq::new(w.lavas.len(), |j: int| spec_lava_after_tick(w.lavas[j], time)),
        ..w
    }
}

impl View for World {
    type V = WorldView;

    open spec fn view(&self) -> WorldView {
        WorldView {
            player: self.player,
            boss: self.boss,
            enemies: self.enemies@,
            spawners: self.spawners@,
            lavas: self.lavas@,
            conveyors: self.conveyors@,
            particles: self.particles@,
        }
    }
}

/// The mathematical value of a world: the player, the boss, and one sequence
/// per pool.
#[verifier::ext_equal]
pub struct WorldView {
    /// The player token.
    pub player: Player,
    /// The boss.
    pub boss: Boss,
    /// Enemy pool contents.
    pub enemies: Seq<Enemy>,
    /// Spawner pool contents.
    pub spawners: Seq<Spawner>,
    /// Lava pool contents.
    pub lavas: Seq<Lava>,
    /// Conveyor pool contents.
    pub conveyors: Seq<Conveyor>,
    /// Particle pool contents.
    pub particles: Seq<Particle>,
}

impl World {
    /// Pool capacities and every entity's field bounds hold.
    pub open spec fn wf(&self) -> bool {
        &&& self.player.wf()
        &&& self.boss.wf()
        &&& self.enemies@.len() == ENEMY_POOL_COUNT
        &&& self.spawners@.len() == SPAWNER_POOL_COUNT
        &&& self.lavas@.len() == LAVA_POOL_COUNT
        &&& self.conveyors@.len() == CONVEYOR_POOL_COUNT
        &&& self.particles@.len() == PARTICLE_POOL_COUNT
        &&& forall|i: int| 0 <= i < self.enemies@.len() ==> (#[trigger] self.enemies@[i]).wf()
        &&& forall|i: int| 0 <= i < self.spawners@.len() ==> (#[trigger] self.spawners@[i]).wf()
        &&& forall|i: int| 0 <= i < self.lavas@.len() ==> (#[trigger] self.lavas@[i]).wf()
        &&& forall|i: int| 0 <= i < self.conveyors@.len() ==> (#[trigger] self.conveyors@[i]).wf()
        &&& forall|i: int| 0 <= i < self.particles@.len() ==> (#[trigger] self.particles@[i]).wf()
    }

    /// An empty world: every slot free, the player and boss off the field.
    pub fn new() -> (w: World)
        ensures
            w.wf(),
            w.player == crate::player::spec_player_new(1),
            w.boss == crate::boss::spec_boss_new(),
            forall|i: int| 0 <= i < ENEMY_POOL_COUNT ==> !(#[trigger] w.enemies@[i]).alive,
            forall|i: int| 0 <= i < SPAWNER_POOL_COUNT ==> !(#[trigger] w.spawners@[i]).alive,
            forall|i: int| 0 <= i < LAVA_POOL_COUNT ==> !(#[trigger] w.lavas@[i]).alive,
            forall|i: int| 0 <= i < CONVEYOR_POOL_COUNT ==> !(#[trigger] w.conveyors@[i]).alive,
            forall|i: int| 0 <= i < PARTICLE_POOL_COUNT ==> !(#[trigger] w.particles@[i]).alive,
    {
        let mut enemies: Vec<Enemy> = Vec::new();
        let mut i: usize = 0;
        while i < ENEMY_POOL_COUNT
            invariant
                i == enemies@.len() <= ENEMY_POOL_COUNT,
                forall|j: int| 0 <= j < i ==> (#[trigger] enemies@[j]) == crate::enemy::spec_enemy_new(),
            decreases ENEMY_POOL_COUNT - i,
        {
            enemies.push(Enemy::new());
            i += 1;
        }
        let mut spawners: Vec<Spawner> = Vec::new();
        let mut i: usize = 0;
        while i < SPAWNER_POOL_COUNT
            invariant
                i == spawners@.len() <= SPAWNER_POOL_COUNT,
                forall|j: int| 0 <= j < i ==> (#[trigger] spawners@[j])
                    == crate::spawner::spec_spawner_new(),
            decreases SPAWNER_POOL_COUNT - i,
        {
            spawners.push(Spawner::new());
            i += 1;
        }
        let mut lavas: Vec<Lava> = Vec::new();
        let mut i: usize = 0;
        while i < LAVA_POOL_COUNT
            invariant
                i == lavas@.len() <= LAVA_POOL_COUNT,
                forall|j: int| 0 <= j < i ==> (#[trigger] lavas@[j]) == crate::lava::spec_lava_new(),
            decreases LAVA_POOL_COUNT - i,
        {
            lavas.push(Lava::new());
            i += 1;
        }
        let mut conveyors: Vec<Conveyor> = Vec::new();
        let mut i: usize = 0;
        while i < CONVEYOR_POOL_COUNT
            invariant
                i == conveyors@.len() <= CONVEYOR_POOL_COUNT,
                forall|j: int| 0 <= j < i ==> (#[trigger] conveyors@[j])
                    == crate::conveyor::spec_conveyor_new(),
            decreases CONVEYOR_POOL_COUNT - i,
        {
            conveyors.push(Conveyor::new());
            i += 1;
        }
        let mut particles: Vec<Particle> = Vec::new();
        let mut i: usize = 0;
        while i < PARTICLE_POOL_COUNT
            invariant
                i == particles@.len() <= PARTICLE_POOL_COUNT,
                forall|j: int| 0 <= j < i ==> (#[trigger] particles@[j]) == (Particle {
                    position: 0i32,
                    power: 0u8,
                    life: 0u8,
                    alive: false,
                    speed: 0i8,
                }),
            decreases PARTICLE_POOL_COUNT - i,
        {
            particles.push(Particle::new());
            i += 1;
        }
        World {
            player: Player::new(1),
            boss: Boss::new(),
            enemies,
            spawners,
            lavas,
            conveyors,
            particles,
        }
    }

    /// Advance the whole world one tick, in the fixed order: player, every
    /// enemy, every spawner against the enemy pool, every lava.
    pub fn tick(&mut self, led_string: &LEDString, time: u32)
        requires
            old(self).wf(),
        ensures
            final(self).wf(),
            final(self)@ == spec_world_after_tick(old(self)@, time),
    {
        self.player.tick(led_string, time);

        let ghost w1 = self@;
        let ghost en0 = self.enemies@;
        let n = self.enemies.len();
        let mut i: usize = 0;
        while i < n
            invariant
                n == self.enemies@.len() == en0.len(),
                i <= n,
                self@ == (WorldView { enemies: self.enemies@, ..w1 }),
                forall|j: int| 0 <= j < self.enemies@.len() ==> (#[trigger] self.enemies@[j]).wf(),
                forall|j: int| i <= j < n ==> self.enemies@[j] == en0[j],
                forall|j: int| 0 <= j < i ==> self.enemies@[j] == spec_enemy_after_tick(
                    en0[j],
                    time,
                ),
            decreases n - i,
        {
            let mut e = self.enemies[i];
            e.tick(led_string, time);
            self.enemies[i] = e;
            i += 1;
        }
        proof {
            assert(self.enemies@ =~= Seq::new(
                en0.len(),
                |j: int| spec_enemy_after_tick(en0[j], time),
            ));
        }

        let ghost w2 = self@;
        let ghost sp0 = self.spawners@;
        let ghost en1 = self.enemies@;
        let m = self.spawners.len();
        let mut i: usize = 0;
        while i < m
            invariant
                m == self.spawners@.len(),
                i <= m,
                self.enemies@.len() == en1.len(),
                self@ == (WorldView { enemies: self.enemies@, spawners: self.spawners@, ..w2 }),
                forall|j: int| 0 <= j < self.spawners@.len() ==> (
                #[trigger] self.spawners@[j]).wf(),
                forall|j: int| 0 <= j < self.enemies@.len() ==> (#[trigger] self.enemies@[j]).wf(),
                spec_spawners_tick_from(sp0, en1, time, 0) == spec_spawners_tick_from(
                    self.spawners@,
                    self.enemies@,
                    time,
                    i as int,
                ),
            decreases m - i,
        {
            let ghost sp_before = self.spawners@;
            let ghost en_before = self.enemies@;
            let mut s = self.spawners[i];
            s.tick(time, &mut self.enemies);
            self.spawners[i] = s;
            proof {
                crate::spawner::lemma_first_dead_range(en_before, 0);
                let one = spec_spawner_tick_one(sp_before[i as int], en_before, time);
                if spec_spawner_due(sp_before[i as int], time) && spec_first_dead(en_before)
                    >= 0 {
                    assert(s == (Spawner { last_spawned: time, ..sp_before[i as int] }));
                    assert(one.0 == s);
                    assert(self.enemies@ == one.1);
                } else {
                    assert(s == sp_before[i as int]);
                    assert(one.0 == s);
                    assert(self.enemies@ == one.1);
                }
                assert(self.spawners@ =~= sp_before.update(i as int, one.0));
                assert(spec_spawners_tick_from(sp_before, en_before, time, i as int)
                    == spec_spawners_tick_from(self.spawners@, self.enemies@, time, i + 1));
            }
            i += 1;
        }

        let ghost w3 = self@;
        let ghost la0 = self.lavas@;
        let k = self.lavas.len();
        let mut i: usize = 0;
        while i < k
            invariant
                k == self.lavas@.len() == la0.len(),
                i <= k,
                self@ == (WorldView { lavas: self.lavas@, ..w3 }),
                forall|j: int| 0 <= j < self.lavas@.len() ==> (#[trigger] self.lavas@[j]).wf(),
                forall|j: int| i <= j < k ==> self.lavas@[j] == la0[j],
                forall|j: int| 0 <= j < i ==> self.lavas@[j] == spec_lava_after_tick(la0[j], time),
            decreases k - i,
        {
            let mut l = self.lavas[i];
            l.tick(time);
            self.lavas[i] = l;
            i += 1;
        }
        proof {
            assert(self.lavas@ =~= Seq::new(la0.len(), |j: int| spec_lava_after_tick(la0[j], time)));
            assert(self@ =~= spec_world_after_tick(old(self)@, time));
        }
    }

    /// Set the player's lateral speed from the host input.
    pub fn player_set_speed(&mut self, val: i32)
        ensures
            *final(self) == (World { player: Player { speed: val, ..old(self).player }, ..*old(self) }),
            old(self).wf() ==> final(self).wf(),
    {
        self.player.speed = val;
    }

    /// Start a player attack at `time`.
    pub fn player_attack(&mut self, time: u32)
        ensures
            *final(self) == (World {
                player: Player { attacking: true, attacking_millis: time, ..old(self).player },
                ..*old(self)
            }),
            old(self).wf() ==> final(self).wf(),
    {
        self.player.attack(time);
    }

    /// Set the width of the player's attack span.
    pub fn player_set_attack_width(&mut self, width: i32)
        requires
            0 <= width <= 1000,
        ensures
            *final(self) == (World {
                player: Player { attack_width: width, ..old(self).player },
                ..*old(self)
            }),
            old(self).wf() ==> final(self).wf(),
    {
        self.player.attack_width = width;
    }

    /// Whether the player is on the field.
    pub fn player_alive(&self) -> (r: bool)
        ensures
            r == self.player.alive,
    {
        self.player.alive
    }

    /// The player's virtual position.
    pub fn player_position(&self) -> (r: i32)
        ensures
            r == self.player.position,
    {
        self.player.position
    }

    /// The player's remaining lives.
    pub fn player_lives(&self) -> (r: u8)
        ensures
            r == self.player.lives,
    {
        self.player.lives
    }

    /// Set the player's remaining lives.
    pub fn player_set_lives(&mut self, lives: u8)
        ensures
            *final(self) == (World { player: Player { lives, ..old(self).player }, ..*old(self) }),
            old(self).wf() ==> final(self).wf(),
    {
        self.player.lives = lives;
    }

    /// Whether the player has reached the terminal virtual coordinate.
    pub fn exit_n(&self) -> (r: bool)
        ensures
            r == (self.player.position == LED_STRING_VLENGTH - 1),
    {
        self.player.position == LED_STRING_VLENGTH - 1
    }

    /// Free every pool slot and take the player and boss off the field.
    pub fn reset(&mut self)
        requires
            old(self).wf(),
        ensures
            final(self).wf(),
            final(self).player == (Player {
                position: 0,
                attack_width: crate::player::ATTACK_WIDTH,
                attack_duration: crate::player::ATTACK_DURATION,
                alive: false,
                ..old(self).player
            }),
            final(self).boss == (Boss { alive: false, defeated: false, ..old(self).boss }),
            final(self).enemies@ == Seq::new(
                old(self).enemies@.len(),
                |j: int| Enemy { alive: false, ..old(self).enemies@[j] },
            ),
            final(self).spawners@ == Seq::new(
                old(self).spawners@.len(),
                |j: int| Spawner { alive: false, ..old(self).spawners@[j] },
            ),
            final(self).lavas@ == Seq::new(
                old(self).lavas@.len(),
                |j: int| Lava { alive: false, ..old(self).lavas@[j] },
            ),
            final(self).conveyors@ == Seq::new(
                old(self).conveyors@.len(),
                |j: int| Conveyor { alive: false, ..old(self).conveyors@[j] },
            ),
            final(self).particles@ == old(self).particles@,
    {
        self.player.reset();
        self.boss.reset();

        let ghost w1 = self@;
        let ghost en0 = self.enemies@;
        let n = self.enemies.len();
        let mut i: usize = 0;
        while i < n
            invariant
                n == self.enemies@.len() == en0.len(),
                i <= n,
                self@ == (WorldView { enemies: self.enemies@, ..w1 }),
                forall|j: int| 0 <= j < self.enemies@.len() ==> (#[trigger] self.enemies@[j]).wf(),
                forall|j: int| i <= j < n ==> self.enemies@[j] == en0[j],
                forall|j: int| 0 <= j < i ==> self.enemies@[j] == (Enemy {
                    alive: false,
                    ..en0[j]
                }),
            decreases n - i,
        {
            let mut e = self.enemies[i];
            e.reset();
            self.enemies[i] = e;
            i += 1;
        }
        proof {
            assert(self.enemies@ =~= Seq::new(
                en0.len(),
                |j: int| Enemy { alive: false, ..en0[j] },
            ));
        }

        let ghost w2 = self@;
        let ghost sp0 = self.spawners@;
        let n = self.spawners.len();
        let mut i: usize = 0;
        while i < n
            invariant
                n == self.spawners@.len() == sp0.len(),
                i <= n,
                self@ == (WorldView { spawners: self.spawners@, ..w2 }),
                forall|j: int| 0 <= j < self.spawners@.len() ==> (
                #[trigger] self.spawners@[j]).wf(),
                forall|j: int| i <= j < n ==> self.spawners@[j] == sp0[j],
                forall|j: int| 0 <= j < i ==> self.spawners@[j] == (Spawner {
                    alive: false,
                    ..sp0[j]
                }),
            decreases n - i,
        {
            let mut s = self.spawners[i];
            s.reset();
            self.spawners[i] = s;
            i += 1;
        }
        proof {
            assert(self.spawners@ =~= Seq::new(
                sp0.len(),
                |j: int| Spawner { alive: false, ..sp0[j] },
            ));
        }

        let ghost w3 = self@;
        let ghost la0 = self.lavas@;
        let n = self.lavas.len();
        let mut i: usize = 0;
        while i < n
            invariant
                n == self.lavas@.len() == la0.len(),
                i <= n,
                self@ == (WorldView { lavas: self.lavas@, ..w3 }),
                forall|j: int| 0 <= j < self.lavas@.len() ==> (#[trigger] self.lavas@[j]).wf(),
                forall|j: int| i <= j < n ==> self.lavas@[j] == la0[j],
                forall|j: int| 0 <= j < i ==> self.lavas@[j] == (Lava { alive: false, ..la0[j] }),
            decreases n - i,
        {
            let mut l = self.lavas[i];
            l.reset();
            self.lavas[i] = l;
            i += 1;
        }
        proof {
            assert(self.lavas@ =~= Seq::new(la0.len(), |j: int| Lava { alive: false, ..la0[j] }));
        }

        let ghost w4 = self@;
        let ghost co0 = self.conveyors@;
        let n = self.conveyors.len();
        let mut i: usize = 0;
        while i < n
            invariant
                n == self.conveyors@.len() == co0.len(),
                i <= n,
                self@ == (WorldView { conveyors: self.conveyors@, ..w4 }),
                forall|j: int| 0 <= j < self.conveyors@.len() ==> (
                #[trigger] self.conveyors@[j]).wf(),
                forall|j: int| i <= j < n ==> self.conveyors@[j] == co0[j],
                forall|j: int| 0 <= j < i ==> self.conveyors@[j] == (Conveyor {
                    alive: false,
                    ..co0[j]
                }),
            decreases n - i,
        {
            let mut c = self.conveyors[i];
            c.reset();
            self.conveyors[i] = c;
            i += 1;
        }
        proof {
            assert(self.conveyors@ =~= Seq::new(
                co0.len(),
                |j: int| Conveyor { alive: false, ..co0[j] },
            ));
        }
    }

    /// Place the player on the field at `position`.
    pub fn spawn_player(&mut self, position: i32)
        requires
            old(self).wf(),
            0 <= position < LED_STRING_VLENGTH,
        ensures
            final(self).wf(),
            *final(self) == (World {
                player: Player { position, alive: true, ..old(self).player },
                ..*old(self)
            }),
    {
        self.player.spawn(position);
    }

    /// First-fit spawn of an enemy; a full pool drops the request.
    pub fn spawn_enemy(&mut self, position: i32, speed: i32, wobble: i32)
        requires
            old(self).wf(),
            0 <= position < LED_STRING_VLENGTH,
            -1000 <= speed <= 1000,
            0 <= wobble <= 1000,
        ensures
            final(self).wf(),
            spec_first_dead(old(self).enemies@) == -1 ==> *final(self) == *old(self),
            spec_first_dead(old(self).enemies@) >= 0 ==> final(self)@ == (WorldView {
                enemies: old(self).enemies@.update(
                    spec_first_dead(old(self).enemies@),
                    spec_enemy_spawned(position, speed, wobble),
                ),
                ..old(self)@
            }),
    {
        let n = self.enemies.len();
        let mut i: usize = 0;
        while i < n
            invariant
                n == self.enemies@.len(),
                i <= n,
                *self == *old(self),
                self.wf(),
                0 <= position < LED_STRING_VLENGTH,
                -1000 <= speed <= 1000,
                0 <= wobble <= 1000,
                forall|k: int| 0 <= k < i ==> self.enemies@[k].alive,
            decreases n - i,
        {
            if !self.enemies[i].alive {
                proof {
                    crate::spawner::lemma_first_dead_skip(self.enemies@, 0, i as int);
                }
                let mut e = self.enemies[i];
                e.spawn(position, speed, wobble);
                self.enemies[i] = e;
                return;
            }
            i += 1;
        }
        proof {
            crate::spawner::lemma_first_dead_skip(self.enemies@, 0, n as int);
        }
    }

    /// First-fit spawn of a spawner; a full pool drops the request.
    pub fn spawn_spawner(&mut self, time: u32, position: i32, rate: u32, speed: i32, activate: u32)
        requires
            old(self).wf(),
            0 <= position < LED_STRING_VLENGTH,
            -1000 <= speed <= 1000,
        ensures
            final(self).wf(),
            spec_free_spawner(old(self).spawners@) == -1 ==> *final(self) == *old(self),
            spec_free_spawner(old(self).spawners@) >= 0 ==> final(self)@ == (WorldView {
                spawners: old(self).spawners@.update(
                    spec_free_spawner(old(self).spawners@),
                    crate::spawner::spec_spawner_spawned(time, position, rate, speed, activate),
                ),
                ..old(self)@
            }),
    {
        let n = self.spawners.len();
        let mut i: usize = 0;
        while i < n
            invariant
                n == self.spawners@.len(),
                i <= n,
                *self == *old(self),
                self.wf(),
                0 <= position < LED_STRING_VLENGTH,
                -1000 <= speed <= 1000,
                forall|k: int| 0 <= k < i ==> self.spawners@[k].alive,
            decreases n - i,
        {
            if !self.spawners[i].alive {
                proof {
                    lemma_free_spawner_skip(self.spawners@, 0, i as int);
                }
                let mut s = self.spawners[i];
                s.spawn(time, position, rate, speed, activate);
                self.spawners[i] = s;
                return;
            }
            i += 1;
        }
        proof {
            lemma_free_spawner_skip(self.spawners@, 0, n as int);
        }
    }

    /// First-fit spawn of a lava span; a full pool drops the request.
    pub fn spawn_lava(
        &mut self,
        time: u32,
        pos_start: i32,
        pos_end: i32,
        ontime: u32,
        offtime: u32,
        offset: u32,
        state: bool,
    )
        requires
            old(self).wf(),
            0 <= pos_start <= pos_end < LED_STRING_VLENGTH,
        ensures
            final(self).wf(),
            spec_free_lava(old(self).lavas@) == -1 ==> *final(self) == *old(self),
            spec_free_lava(old(self).lavas@) >= 0 ==> final(self)@ == (WorldView {
                lavas: old(self).lavas@.update(
                    spec_free_lava(old(self).lavas@),
                    spec_lava_spawned(time, pos_start, pos_end, ontime, offtime, offset, state),
                ),
                ..old(self)@
            }),
    {
        let n = self.lavas.len();
        let mut i: usize = 0;
        while i < n
            invariant
                n == self.lavas@.len(),
                i <= n,
                *self == *old(self),
                self.wf(),
                0 <= pos_start <= pos_end < LED_STRING_VLENGTH,
                forall|k: int| 0 <= k < i ==> self.lavas@[k].alive,
            decreases n - i,
        {
            if !self.lavas[i].alive {
                proof {
                    lemma_free_lava_skip(self.lavas@, 0, i as int);
                }
                let mut l = self.lavas[i];
                l.spawn(time, pos_start, pos_end, ontime, offtime, offset, state);
                self.lavas[i] = l;
                return;
            }
            i += 1;
        }
        proof {
            lemma_free_lava_skip(self.lavas@, 0, n as int);
        }
    }

    /// First-fit spawn of a conveyor; a full pool drops the request.
    pub fn spawn_conveyor(&mut self, pos_start: i32, pos_end: i32, speed: i32)
        requires
            old(self).wf(),
            0 <= pos_start <= pos_end < LED_STRING_VLENGTH,
            -1000 <= speed <= 1000,
        ensures
            final(self).wf(),
            spec_free_conveyor(old(self).conveyors@) == -1 ==> *final(self) == *old(self),
            spec_free_conveyor(old(self).conveyors@) >= 0 ==> final(self)@ == (WorldView {
                conveyors: old(self).conveyors@.update(
                    spec_free_conveyor(old(self).conveyors@),
                    (Conveyor { pos_start, pos_end, speed, alive: true }),
                ),
                ..old(self)@
            }),
    {
        let n = self.conveyors.len();
        let mut i: usize = 0;
        while i < n
            invariant
                n == self.conveyors@.len(),
                i <= n,
                *self == *old(self),
                self.wf(),
                0 <= pos_start <= pos_end < LED_STRING_VLENGTH,
                -1000 <= speed <= 1000,
                forall|k: int| 0 <= k < i ==> self.conveyors@[k].alive,
            decreases n - i,
        {
            if !self.conveyors[i].alive {
                proof {
                    lemma_free_conveyor_skip(self.conveyors@, 0, i as int);
                }
                let mut c = self.conveyors[i];
                c.spawn(pos_start, pos_end, speed);
                self.conveyors[i] = c;
                return;
            }
            i += 1;
        }
        proof {
            lemma_free_conveyor_skip(self.conveyors@, 0, n as int);
        }
    }

    /// Put the boss on the field with its per-life tables; its flanking
    /// spawners replace the contents of the spawner pool.
    pub fn spawn_boss(&mut self, time: u32, positions: [i32; 3], spawn_rates: [u32; 3])
        requires
            old(self).wf(),
            forall|i: int| 0 <= i < 3 ==> BOSS_WIDTH / 2 <= #[trigger] positions[i] < 1000
                - BOSS_WIDTH / 2,
        ensures
            final(self).wf(),
            final(self)@ == (WorldView {
                boss: spec_boss_moved(
                    (Boss {
                        live_pos: positions,
                        live_spawn_rate: spawn_rates,
                        lives: crate::boss::BOSS_LIVES,
                        alive: true,
                        ..old(self).boss
                    }),
                ),
                spawners: spec_boss_spawners(
                    (Boss {
                        live_pos: positions,
                        live_spawn_rate: spawn_rates,
                        lives: crate::boss::BOSS_LIVES,
                        alive: true,
                        ..old(self).boss
                    }),
                    time,
                ),
                ..old(self)@
            }),
    {
        self.boss.spawn(time, positions, spawn_rates, &mut self.spawners);
        proof {
            assert(forall|i: int| 0 <= i < self.spawners@.len() ==> (
            #[trigger] self.spawners@[i]).wf());
        }
    }

    /// Fill every free particle slot with a spark at `position`, drawing one
    /// random byte per spark.
    pub fn spawn_particles(&mut self, position: i32, rng: &mut Rand8)
        requires
            old(self).wf(),
            0 <= position < LED_STRING_VLENGTH,
        ensures
            final(self).wf(),
            final(self)@ == (WorldView {
                particles: spec_spawn_particles_from(
                    old(self).particles@,
                    position,
                    old(rng).seed,
                    0,
                ).0,
                ..old(self)@
            }),
            final(rng).seed == spec_spawn_particles_from(
                old(self).particles@,
                position,
                old(rng).seed,
                0,
            ).1,
    {
        let ghost w0 = self@;
        let ghost ps0 = self.particles@;
        let ghost seed0 = rng.seed;
        let n = self.particles.len();
        let mut i: usize = 0;
        while i < n
            invariant
                n == self.particles@.len(),
                i <= n,
                self@ == (WorldView { particles: self.particles@, ..w0 }),
                0 <= position < LED_STRING_VLENGTH,
                forall|j: int| 0 <= j < self.particles@.len() ==> (
                #[trigger] self.particles@[j]).wf(),
                spec_spawn_particles_from(ps0, position, seed0, 0) == spec_spawn_particles_from(
                    self.particles@,
                    position,
                    rng.seed,
                    i as int,
                ),
            decreases n - i,
        {
            let ghost ps_before = self.particles@;
            let ghost seed_before = rng.seed;
            if !self.particles[i].alive {
                let mut p = self.particles[i];
                p.spawn(position, rng);
                self.particles[i] = p;
                proof {
                    assert(self.particles@ =~= ps_before.update(
                        i as int,
                        spec_particle_spawned(
                            position,
                            spec_rand8_out(spec_rand8_next(seed_before)),
                        ),
                    ));
                }
            }
            i += 1;
        }
    }

    /// Tick and draw every particle; the result reports whether any particle
    /// is still active, which gates leaving the death state.
    pub fn cycle_particles(&mut self, led_string: &mut LEDString, gravity: bool, bend: i32) -> (r:
        bool)
        requires
            old(self).wf(),
            old(led_string).wf(),
        ensures
            final(self).wf(),
            final(led_string).wf(),
            final(self)@ == (WorldView {
                particles: Seq::new(
                    old(self).particles@.len(),
                    |j: int| spec_particle_after_tick(old(self).particles@[j], gravity, bend),
                ),
                ..old(self)@
            }),
            r == exists|j: int| 0 <= j < old(self).particles@.len()
                && crate::particle::spec_particle_active(
                #[trigger] spec_particle_after_tick(old(self).particles@[j], gravity, bend)),
            final(led_string)@ == spec_draw_particles(final(self).particles@, old(led_string)@, 0),
            final(led_string).sink() == old(led_string).sink(),
    {
        let ghost w0 = self@;
        let ghost ps0 = self.particles@;
        let ghost ticked = Seq::new(
            ps0.len(),
            |j: int| spec_particle_after_tick(ps0[j], gravity, bend),
        );
        let ghost v0 = led_string@;
        let n = self.particles.len();
        let mut i: usize = 0;
        let mut active = false;
        while i < n
            invariant
                n == self.particles@.len() == ps0.len() == ticked.len(),
                i <= n,
                self@ == (WorldView { particles: self.particles@, ..w0 }),
                led_string.wf(),
                led_string.sink() == old(led_string).sink(),
                ticked == Seq::new(
                    ps0.len(),
                    |j: int| spec_particle_after_tick(ps0[j], gravity, bend),
                ),
                forall|j: int| 0 <= j < self.particles@.len() ==> (
                #[trigger] self.particles@[j]).wf(),
                forall|j: int| i <= j < n ==> self.particles@[j] == ps0[j],
                forall|j: int| 0 <= j < i ==> self.particles@[j] == ticked[j],
                spec_draw_particles(ticked, v0, 0) == spec_draw_particles(
                    ticked,
                    led_string@,
                    i as int,
                ),
                active == exists|j: int| 0 <= j < i && crate::particle::spec_particle_active(
                    #[trigger] ticked[j],
                ),
            decreases n - i,
        {
            let ghost v_before = led_string@;
            let mut p = self.particles[i];
            p.tick(gravity, bend);
            self.particles[i] = p;
            let a = p.draw(led_string);
            proof {
                assert(led_string@ =~= spec_particle_layer(ticked[i as int], v_before));
            }
            if a {
                active = true;
            }
            i += 1;
        }
        proof {
            if active {
                let j = choose|j: int| 0 <= j < n && crate::particle::spec_particle_active(
                    #[trigger] ticked[j],
                );
                assert(crate::particle::spec_particle_active(
                    spec_particle_after_tick(ps0[j], gravity, bend),
                ));
            } else {
                assert forall|j: int| 0 <= j < ps0.len() implies !crate::particle::spec_particle_active(
                    #[trigger] spec_particle_after_tick(ps0[j], gravity, bend),
                ) by {
                    assert(ticked[j] == spec_particle_after_tick(ps0[j], gravity, bend));
                    assert(!crate::particle::spec_particle_active(ticked[j]));
                }
            }
        }
        active
    }

    /// Resolve every interaction, in the fixed order: player against each
    /// enemy and each enemy against the player, the player and every enemy
    /// against each lava, the player against each conveyor, the boss against
    /// the player's attack (which may relocate the boss and re-arm its
    /// spawners), and finally the player against the boss band.
    pub fn collide(&mut self, time: u32)
        requires
            old(self).wf(),
        ensures
            final(self).wf(),
            final(self)@ == spec_world_after_collide(old(self)@, time),
    {
        let ghost w0 = self@;
        let ghost p0 = self.player;
        let ghost en0 = self.enemies@;
        let n = self.enemies.len();
        let mut i: usize = 0;
        while i < n
            invariant
                n == self.enemies@.len(),
                i <= n,
                self@ == (WorldView { player: self.player, enemies: self.enemies@, ..w0 }),
                self.player.wf(),
                forall|j: int| 0 <= j < self.enemies@.len() ==> (#[trigger] self.enemies@[j]).wf(),
                spec_pe_pass(p0, en0, 0) == spec_pe_pass(self.player, self.enemies@, i as int),
            decreases n - i,
        {
            let ghost pl_before = self.player;
            let ghost en_before = self.enemies@;
            let e = self.enemies[i];
            self.player.collide_enemy(&e);
            let mut e2 = self.enemies[i];
            e2.collide_player(&self.player);
            self.enemies[i] = e2;
            proof {
                assert(self.enemies@ =~= en_before.update(
                    i as int,
                    spec_enemy_after_collide_player(en_before[i as int], self.player),
                ));
            }
            i += 1;
        }

        let ghost w1 = self@;
        let ghost p1 = self.player;
        let ghost en1 = self.enemies@;
        let m = self.lavas.len();
        let mut i: usize = 0;
        while i < m
            invariant
                m == self.lavas@.len(),
                i <= m,
                self.enemies@.len() == en1.len(),
                self@ == (WorldView { player: self.player, enemies: self.enemies@, ..w1 }),
                self.player.wf(),
                forall|j: int| 0 <= j < self.enemies@.len() ==> (#[trigger] self.enemies@[j]).wf(),
                forall|j: int| 0 <= j < self.lavas@.len() ==> (#[trigger] self.lavas@[j]).wf(),
                spec_lava_pass(p1, en1, self.lavas@, 0) == spec_lava_pass(
                    self.player,
                    self.enemies@,
                    self.lavas@,
                    i as int,
                ),
            decreases m - i,
        {
            let l = self.lavas[i];
            self.player.collide_lava(&l);
            let ghost wi = self@;
            let ghost en_before = self.enemies@;
            let k = self.enemies.len();
            let mut j: usize = 0;
            while j < k
                invariant
                    k == self.enemies@.len() == en_before.len(),
                    j <= k,
                    self@ == (WorldView { enemies: self.enemies@, ..wi }),
                    forall|q: int| 0 <= q < self.enemies@.len() ==> (
                    #[trigger] self.enemies@[q]).wf(),
                    forall|q: int| j <= q < k ==> self.enemies@[q] == en_before[q],
                    forall|q: int| 0 <= q < j ==> self.enemies@[q] == spec_enemy_after_collide_lava(
                        en_before[q],
                        l,
                    ),
                decreases k - j,
            {
                let mut e = self.enemies[j];
                e.collide_lava(&l);
                self.enemies[j] = e;
                j += 1;
            }
            proof {
                assert(self.enemies@ =~= Seq::new(
                    en_before.len(),
                    |q: int| spec_enemy_after_collide_lava(en_before[q], l),
                ));
            }
            i += 1;
        }

        let ghost w2 = self@;
        let ghost p2 = self.player;
        let c = self.conveyors.len();
        let mut i: usize = 0;
        while i < c
            invariant
                c == self.conveyors@.len(),
                i <= c,
                self@ == (WorldView { player: self.player, ..w2 }),
                self.player.wf(),
                forall|j: int| 0 <= j < self.conveyors@.len() ==> (
                #[trigger] self.conveyors@[j]).wf(),
                spec_conveyor_pass(p2, self.conveyors@, 0) == spec_conveyor_pass(
                    self.player,
                    self.conveyors@,
                    i as int,
                ),
            decreases c - i,
        {
            let cv = self.conveyors[i];
            self.player.collide_conveyor(&cv);
            i += 1;
        }

        self.boss.collide_player(&self.player, &mut self.spawners, time);
        proof {
            assert(forall|j: int| 0 <= j < self.spawners@.len() ==> (
            #[trigger] self.spawners@[j]).wf());
        }
        self.player.collide_boss(&self.boss);
        proof {
            assert(self@ =~= spec_world_after_collide(old(self)@, time));
        }
    }

    /// Paint the frame back to front: spawners, lava, conveyors, boss,
    /// enemies, player, and finally the exit marker at the last physical
    /// pixel — suppressed while the boss is alive, since there is no escape.
    pub fn draw(&self, led_string: &mut LEDString, time: u32)
        requires
            old(led_string).wf(),
            self.wf(),
        ensures
            final(led_string).wf(),
            final(led_string)@ == spec_world_draw(self@, old(led_string)@, time),
            !self.boss.alive ==> final(led_string)@[LED_STRING_LENGTH - 1] == spec_led(
                [0u8, 0u8, 255u8],
            ),
    {
        let ghost v0 = led_string@;
        let n = self.spawners.len();
        let mut i: usize = 0;
        while i < n
            invariant
                n == self.spawners@.len(),
                i <= n,
                led_string.wf(),
                self.wf(),
                spec_draw_spawners(self.spawners@, v0, 0) == spec_draw_spawners(
                    self.spawners@,
                    led_string@,
                    i as int,
                ),
            decreases n - i,
        {
            let ghost v_before = led_string@;
            let s = self.spawners[i];
            s.draw(led_string);
            proof {
                assert(led_string@ =~= spec_spawner_layer(self.spawners@[i as int], v_before));
            }
            i += 1;
        }

        let ghost v1 = led_string@;
        let n = self.lavas.len();
        let mut i: usize = 0;
        while i < n
            invariant
                n == self.lavas@.len(),
                i <= n,
                led_string.wf(),
                self.wf(),
                led_string@.len() == v1.len(),
                spec_draw_lavas(self.lavas@, v1, 0) == spec_draw_lavas(
                    self.lavas@,
                    led_string@,
                    i as int,
                ),
            decreases n - i,
        {
            let ghost v_before = led_string@;
            let l = self.lavas[i];
            l.draw(led_string);
            proof {
                assert(led_string@ =~= spec_lava_layer(self.lavas@[i as int], v_before));
            }
            i += 1;
        }

        let ghost v2 = led_string@;
        let n = self.conveyors.len();
        let mut i: usize = 0;
        while i < n
            invariant
                n == self.conveyors@.len(),
                i <= n,
                led_string.wf(),
                self.wf(),
                led_string@.len() == v2.len(),
                spec_draw_conveyors(self.conveyors@, v2, time, 0) == spec_draw_conveyors(
                    self.conveyors@,
                    led_string@,
                    time,
                    i as int,
                ),
            decreases n - i,
        {
            let ghost v_before = led_string@;
            let c = self.conveyors[i];
            c.draw(led_string, time);
            proof {
                assert(led_string@ =~= spec_conveyor_layer(
                    self.conveyors@[i as int],
                    time,
                    v_before,
                ));
            }
            i += 1;
        }

        let ghost v3 = led_string@;
        self.boss.draw(led_string);
        proof {
            assert(led_string@ =~= spec_boss_layer(self.boss, v3));
        }

        let ghost v4 = led_string@;
        let n = self.enemies.len();
        let mut i: usize = 0;
        while i < n
            invariant
                n == self.enemies@.len(),
                i <= n,
                led_string.wf(),
                self.wf(),
                spec_draw_enemies(self.enemies@, v4, 0) == spec_draw_enemies(
                    self.enemies@,
                    led_string@,
                    i as int,
                ),
            decreases n - i,
        {
            let ghost v_before = led_string@;
            let e = self.enemies[i];
            e.draw(led_string);
            proof {
                assert(led_string@ =~= spec_enemy_layer(self.enemies@[i as int], v_before));
            }
            i += 1;
        }

        self.player.draw(led_string, time);

        if !self.boss.alive {
            let exit = led_string.len() - 1;
            led_string.set_rgb(exit as i32, [0, 0, 255]);
        }
        proof {
            assert(led_string@ =~= spec_world_draw(self@, v0, time));
        }
    }
}

/// Index of the first free spawner slot at or after `i`, or -1.
pub open spec fn spec_free_spawner_from(s: Seq<Spawner>, i: int) -> int
    decreases s.len() - i,
{
    if i < 0 || i >= s.len() {
        -1
    } else if !s[i].alive {
        i
    } else {
        spec_free_spawner_from(s, i + 1)
    }
}

/// Index of the first free spawner slot, or -1 when the pool is full.
pub open spec fn spec_free_spawner(s: Seq<Spawner>) -> int {
    spec_free_spawner_from(s, 0)
}

proof fn lemma_free_spawner_skip(s: Seq<Spawner>, i: int, j: int)
    requires
        0 <= i <= j <= s.len(),
        forall|k: int| i <= k < j ==> s[k].alive,
    ensures
        spec_free_spawner_from(s, i) == spec_free_spawner_from(s, j),
    decreases j - i,
{
    if i < j {
        lemma_free_spawner_skip(s, i + 1, j);
    }
}

/// Index of the first free lava slot at or after `i`, or -1.
pub open spec fn spec_free_lava_from(s: Seq<Lava>, i: int) -> int
    decreases s.len() - i,
{
    if i < 0 || i >= s.len() {
        -1
    } else if !s[i].alive {
        i
    } else {
        spec_free_lava_from(s, i + 1)
    }
}

/// Index of the first free lava slot, or -1 when the pool is full.
pub open spec fn spec_free_lava(s: Seq<Lava>) -> int {
    spec_free_lava_from(s, 0)
}

proof fn lemma_free_lava_skip(s: Seq<Lava>, i: int, j: int)
    requires
        0 <= i <= j <= s.len(),
        forall|k: int| i <= k < j ==> s[k].alive,
    ensures
        spec_free_lava_from(s, i) == spec_free_lava_from(s, j),
    decreases j - i,
{
    if i < j {
        lemma_free_lava_skip(s, i + 1, j);
    }
}

/// Index of the first free conveyor slot at or after `i`, or -1.
pub open spec fn spec_free_conveyor_from(s: Seq<Conveyor>, i: int) -> int
    decreases s.len() - i,
{
    if i < 0 || i >= s.len() {
        -1
    } else if !s[i].alive {
        i
    } else {
        spec_free_conveyor_from(s, i + 1)
    }
}

/// Index of the first free conveyor slot, or -1 when the pool is full.
pub open spec fn spec_free_conveyor(s: Seq<Conveyor>) -> int {
    spec_free_conveyor_from(s, 0)
}

proof fn lemma_free_conveyor_skip(s: Seq<Conveyor>, i: int, j: int)
    requires
        0 <= i <= j <= s.len(),
        forall|k: int| i <= k < j ==> s[k].alive,
    ensures
        spec_free_conveyor_from(s, i) == spec_free_conveyor_from(s, j),
    decreases j - i,
{
    if i < j {
        lemma_free_conveyor_skip(s, i + 1, j);
    }
}

/// The particle pool and random seed after filling every free slot from `i`
/// on with a spark at `pos`, one random byte per spark.
pub open spec fn spec_spawn_particles_from(ps: Seq<Particle>, pos: i32, seed: u16, i: int) -> (
    Seq<Particle>,
    u16,
)
    decreases ps.len() - i,
{
    if i < 0 || i >= ps.len() {
        (ps, seed)
    } else if ps[i].alive {
        spec_spawn_particles_from(ps, pos, seed, i + 1)
    } else {
        let s1 = spec_rand8_next(seed);
        spec_spawn_particles_from(
            ps.update(i, spec_particle_spawned(pos, spec_rand8_out(s1))),
            pos,
            s1,
            i + 1,
        )
    }
}

/// The strip after one particle's glow is blended in.
pub open spec fn spec_particle_layer(p: Particle, v: Seq<LED>) -> Seq<LED> {
    if p.alive {
        v.update(
            spec_vtor(p.position as int),
            crate::led_string::spec_led_add(
                v[spec_vtor(p.position as int)],
                crate::particle::spec_particle_glow(p),
            ),
        )
    } else {
        v
    }
}

/// The strip after the glow of every particle from `i` on is blended in.
pub open spec fn spec_draw_particles(ps: Seq<Particle>, v: Seq<LED>, i: int) -> Seq<LED>
    decreases ps.len() - i,
{
    if i < 0 || i >= ps.len() {
        v
    } else {
        spec_draw_particles(ps, spec_particle_layer(ps[i], v), i + 1)
    }
}

/// The player-against-enemies pass: the player dies to the first latched
/// enemy that has caught it, and each enemy in turn latches its side or dies
/// to the attack, seeing the player state left by the enemies before it.
pub open spec fn spec_pe_pass(p: Player, en: Seq<Enemy>, i: int) -> (Player, Seq<Enemy>)
    decreases en.len() - i,
{
    if i < 0 || i >= en.len() {
        (p, en)
    } else {
        let p1 = if p.alive && spec_enemy_catches(p, en[i]) {
            spec_player_dead(p)
        } else {
            p
        };
        let e1 = spec_enemy_after_collide_player(en[i], p1);
        spec_pe_pass(p1, en.update(i, e1), i + 1)
    }
}

/// The lava pass: for each lava span in turn, the player dies if it stands
/// in it while on, and every enemy standing in it dies.
pub open spec fn spec_lava_pass(p: Player, en: Seq<Enemy>, ls: Seq<Lava>, i: int) -> (
    Player,
    Seq<Enemy>,
)
    decreases ls.len() - i,
{
    if i < 0 || i >= ls.len() {
        (p, en)
    } else {
        let p1 = if p.alive && spec_lava_catches(p, ls[i]) {
            spec_player_dead(p)
        } else {
            p
        };
        let en1 = Seq::new(en.len(), |j: int| spec_enemy_after_collide_lava(en[j], ls[i]));
        spec_lava_pass(p1, en1, ls, i + 1)
    }
}

/// The conveyor pass: each alive conveyor under the player nudges it.
pub open spec fn spec_conveyor_pass(p: Player, cs: Seq<Conveyor>, i: int) -> Player
    decreases cs.len() - i,
{
    if i < 0 || i >= cs.len() {
        p
    } else {
        let p1 = if p.alive {
            spec_player_after_conveyor(p, cs[i])
        } else {
            p
        };
        spec_conveyor_pass(p1, cs, i + 1)
    }
}

/// One full collision resolution, in the fixed order of `World::collide`.
pub open spec fn spec_world_after_collide(w: WorldView, time: u32) -> WorldView {
    let (p1, en1) = spec_pe_pass(w.player, w.enemies, 0);
    let (p2, en2) = spec_lava_pass(p1, en1, w.lavas, 0);
    let p3 = spec_conveyor_pass(p2, w.conveyors, 0);
    let hit = w.boss.alive && p3.attacking && crate::boss::spec_attack_hits_boss(w.boss, p3);
    let b1 = if hit {
        crate::boss::spec_boss_after_hit(w.boss)
    } else {
        w.boss
    };
    let sp1 = if hit && b1.alive {
        spec_boss_spawners(Boss { lives: (w.boss.lives - 1) as u8, ..w.boss }, time)
    } else {
        w.spawners
    };
    let p4 = if p3.alive && crate::player::spec_boss_catches(p3, b1) {
        spec_player_dead(p3)
    } else {
        p3
    };
    WorldView { player: p4, boss: b1, enemies: en2, spawners: sp1, ..w }
}

/// The strip after one spawner's marker is painted.
pub open spec fn spec_spawner_layer(s: Spawner, v: Seq<LED>) -> Seq<LED> {
    if s.alive {
        crate::led_string::spec_write(
            v,
            crate::led_string::spec_vtor(s.position as int),
            crate::led_string::spec_led([64u8, 0u8, 64u8]),
        )
    } else {
        v
    }
}

/// The strip after the markers of every spawner from `i` on.
pub open spec fn spec_draw_spawners(sp: Seq<Spawner>, v: Seq<LED>, i: int) -> Seq<LED>
    decreases sp.len() - i,
{
    if i < 0 || i >= sp.len() {
        v
    } else {
        spec_draw_spawners(sp, spec_spawner_layer(sp[i], v), i + 1)
    }
}

/// The strip after one lava span is painted.
pub open spec fn spec_lava_layer(l: Lava, v: Seq<LED>) -> Seq<LED> {
    if l.alive {
        Seq::new(
            v.len(),
            |j: int|
                if crate::led_string::spec_vtor(l.pos_start as int) <= j
                    < crate::led_string::spec_vtor(l.pos_end as int) {
                    crate::lava::spec_lava_pixel(l, j)
                } else {
                    v[j]
                },
        )
    } else {
        v
    }
}

/// The strip after every lava span from `i` on.
pub open spec fn spec_draw_lavas(ls: Seq<Lava>, v: Seq<LED>, i: int) -> Seq<LED>
    decreases ls.len() - i,
{
    if i < 0 || i >= ls.len() {
        v
    } else {
        spec_draw_lavas(ls, spec_lava_layer(ls[i], v), i + 1)
    }
}

/// The strip after one conveyor's marching pattern is painted.
pub open spec fn spec_conveyor_layer(c: Conveyor, time: u32, v: Seq<LED>) -> Seq<LED> {
    if c.alive {
        Seq::new(
            v.len(),
            |j: int|
                if crate::led_string::spec_vtor(c.pos_start as int) <= j
                    < crate::led_string::spec_vtor(c.pos_end as int) {
                    crate::conveyor::spec_conveyor_pixel(c, time, j, v[j])
                } else {
                    v[j]
                },
        )
    } else {
        v
    }
}

/// The strip after every conveyor from `i` on.
pub open spec fn spec_draw_conveyors(cs: Seq<Conveyor>, v: Seq<LED>, time: u32, i: int) -> Seq<LED>
    decreases cs.len() - i,
{
    if i < 0 || i >= cs.len() {
        v
    } else {
        spec_draw_conveyors(cs, spec_conveyor_layer(cs[i], time, v), time, i + 1)
    }
}

/// The strip after the boss band is painted.
pub open spec fn spec_boss_layer(b: Boss, v: Seq<LED>) -> Seq<LED> {
    if b.alive {
        Seq::new(
            v.len(),
            |j: int|
                if crate::led_string::spec_vtor(b.start as int) <= j < crate::led_string::spec_vtor(
                    b.stop as int,
                ) + 1 {
                    crate::led_string::LED { r: 0x37u8, g: 0u8, b: 0u8 }
                } else {
                    v[j]
                },
        )
    } else {
        v
    }
}

/// The strip after one enemy's dot is painted.
pub open spec fn spec_enemy_layer(e: Enemy, v: Seq<LED>) -> Seq<LED> {
    if e.alive {
        crate::led_string::spec_write(
            v,
            crate::led_string::spec_vtor(e.position as int),
            crate::led_string::spec_led([255u8, 0u8, 0u8]),
        )
    } else {
        v
    }
}

/// The strip after every enemy from `i` on.
pub open spec fn spec_draw_enemies(en: Seq<Enemy>, v: Seq<LED>, i: int) -> Seq<LED>
    decreases en.len() - i,
{
    if i < 0 || i >= en.len() {
        v
    } else {
        spec_draw_enemies(en, spec_enemy_layer(en[i], v), i + 1)
    }
}

/// The strip after the player is painted.
pub open spec fn spec_player_layer(p: Player, time: u32, v: Seq<LED>) -> Seq<LED> {
    if !p.alive {
        v
    } else if !p.attacking {
        crate::led_string::spec_write(
            v,
            crate::led_string::spec_vtor(p.position as int),
            crate::led_string::spec_led([0u8, 255u8, 0u8]),
        )
    } else {
        crate::player::spec_player_attack_view(p, time, v)
    }
}

/// One full frame, painted back to front; the exit marker at the last
/// physical pixel is suppressed while the boss is alive.
pub open spec fn spec_world_draw(w: WorldView, v: Seq<LED>, time: u32) -> Seq<LED> {
    let v1 = spec_draw_spawners(w.spawners, v, 0);
    let v2 = spec_draw_lavas(w.lavas, v1, 0);
    let v3 = spec_draw_conveyors(w.conveyors, v2, time, 0);
    let v4 = spec_boss_layer(w.boss, v3);
    let v5 = spec_draw_enemies(w.enemies, v4, 0);
    let v6 = spec_player_layer(w.player, time, v5);
    if w.boss.alive {
        v6
    } else {
        crate::led_string::spec_write(
            v6,
            crate::led_string::LED_STRING_LENGTH - 1,
            crate::led_string::spec_led([0u8, 0u8, 255u8]),
        )
    }
}

} // verus!
