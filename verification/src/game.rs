//! The top-level game: the state machine that sequences the screensaver,
//! the startup animation, play, death, the life display and game over, the
//! level table, and the single `cycle` entry point the host calls once per
//! tick with the inputs and the clock.

use crate::attract::{spec_attract_draws, spec_attract_view, Attract};
use crate::boss::{spec_boss_moved, spec_boss_spawners, Boss};
use crate::conveyor::Conveyor;
use crate::enemy::{spec_enemy_spawned, Enemy};
use crate::lava::{spec_lava_spawned, Lava};
use crate::led_string::{
    LED, LEDString, LED_STRING_LENGTH, LED_STRING_VLENGTH, spec_led, spec_led_black, spec_vtor,
};
use crate::particle::Particle;
use crate::player::Player;
use crate::rand::{
    random8lim, spec_rand8_iter, spec_rand8_lim, spec_rand8_next, spec_rand8_out, Rand8,
};
use crate::spawner::{spec_first_dead, Spawner};
use crate::utils::{
    constrain, range_map, range_map_u32, spec_constrain, spec_elapsed, spec_range_map,
};
use crate::world::{
    spec_draw_particles, spec_free_conveyor, spec_free_lava, spec_free_spawner,
    spec_spawn_particles_from, spec_world_after_collide, spec_world_after_tick, spec_world_draw,
    World, WorldView,
};
use vstd::prelude::*;

verus! {

/// Idle time in play after which the game falls back to the screensaver.
pub const GAME_TIMEOUT: u32 = 60000;

/// Duration of the startup green wipe.
pub const STARTUP_WIPEUP_DUR: u32 = 200;

/// Duration of the startup sparkle.
pub const STARTUP_SPARKLE_DUR: u32 = 1300;

/// Duration of the startup fade-out.
pub const STARTUP_FADE_DUR: u32 = 1500;

/// Duration of the death explosion band.
pub const DEATH_EXPLOSION_DUR: u32 = 200;

/// Physical half-width the death explosion expands to.
pub const DEATH_EXPLOSION_WIDTH: i32 = 10;

/// How long the life display is shown.
pub const LIVES_DISPLAY_DUR: u32 = 1000;

/// Lives a fresh game starts with.
pub const PLAYER_DEFAULT_LIVES: u8 = 3;

/// Duration of the game-over spread.
pub const GAMEOVER_SPREAD_DUR: u32 = 1000;

/// Duration of the game-over fade.
pub const GAMEOVER_FADE_DUR: u32 = 1500;

/// Highest level index the table defines.
pub const MAX_LEVEL: u32 = 19;

/// Stage of the startup animation.
#[derive(Clone, Copy, Debug, PartialEq, Eq, Structural)]
pub enum StartStage {
    /// Green fill sweeping across the strip.
    Wipeup,
    /// Random green flicker.
    Sparkle,
    /// Green fading out while sweeping.
    Fade,
}

/// Stage of the death animation.
#[derive(Clone, Copy, Debug, PartialEq, Eq, Structural)]
pub enum DeathStage {
    /// Expanding band at the death site.
    Explosion,
    /// Particles burning out.
    Particles,
}

/// Stage of the game-over animation.
#[derive(Clone, Copy, Debug, PartialEq, Eq, Structural)]
pub enum GameOverStage {
    /// Red band spreading outward from the death site.
    Spread,
    /// The red shrinking and dimming away.
    Fade,
}

/// The top-level game state.
#[derive(Clone, Copy, Debug, PartialEq, Eq, Structural)]
pub enum State {
    /// Idle animation; any input starts a game.
    Screensaver,
    /// Startup animation.
    Starting { stage: StartStage, start_time: u32 },
    /// A level in play, with the last time any input was seen.
    Playing { level: u32, timeout: u32 },
    /// Death animation.
    Death { level: u32, stage: DeathStage, start_time: u32 },
    /// Life display between deaths.
    Lives { level: u32, start_time: u32 },
    /// Game-over animation.
    GameOver { stage: GameOverStage, start_time: u32 },
    /// Reserved for the final-boss victory; restarts the startup animation.
    Win,
}

/// The world with the given slot of a pool filled, for the level table.
pub open spec fn spec_w_spawn_player(w: WorldView, position: i32) -> WorldView {
    WorldView { player: Player { position, alive: true, ..w.player }, ..w }
}

/// First-fit enemy spawn on the view.
pub open spec fn spec_w_spawn_enemy(w: WorldView, position: i32, speed: i32, wobble: i32) -> WorldView {
    let fd = spec_first_dead(w.enemies);
    if fd == -1 {
        w
    } else {
        WorldView { enemies: w.enemies.update(fd, spec_enemy_spawned(position, speed, wobble)), ..w }
    }
}

/// First-fit spawner spawn on the view.
pub open spec fn spec_w_spawn_spawner(
    w: WorldView,
    time: u32,
    position: i32,
    rate: u32,
    speed: i32,
    activate: u32,
) -> WorldView {
    let fd = spec_free_spawner(w.spawners);
    if fd == -1 {
        w
    } else {
        WorldView {
            spawners: w.spawners.update(
                fd,
                crate::spawner::spec_spawner_spawned(time, position, rate, speed, activate),
            ),
            ..w
        }
    }
}

/// First-fit lava spawn on the view.
pub open spec fn spec_w_spawn_lava(
    w: WorldView,
    time: u32,
    pos_start: i32,
    pos_end: i32,
    ontime: u32,
    offtime: u32,
) -> WorldView {
    let fd = spec_free_lava(w.lavas);
    if fd == -1 {
        w
    } else {
        WorldView {
            lavas: w.lavas.update(
                fd,
                spec_lava_spawned(time, pos_start, pos_end, ontime, offtime, 0, false),
            ),
            ..w
        }
    }
}

/// A lava spawn with a startup phase offset on the view.
pub open spec fn spec_w_spawn_lava_offset(
    w: WorldView,
    time: u32,
    pos_start: i32,
    pos_end: i32,
    ontime: u32,
    offtime: u32,
    offset: u32,
) -> WorldView {
    let fd = spec_free_lava(w.lavas);
    if fd == -1 {
        w
    } else {
        WorldView {
            lavas: w.lavas.update(
                fd,
                spec_lava_spawned(time, pos_start, pos_end, ontime, offtime, offset, false),
            ),
            ..w
        }
    }
}

/// First-fit conveyor spawn on the view.
pub open spec fn spec_w_spawn_conveyor(w: WorldView, pos_start: i32, pos_end: i32, speed: i32) -> WorldView {
    let fd = spec_free_conveyor(w.conveyors);
    if fd == -1 {
        w
    } else {
        WorldView {
            conveyors: w.conveyors.update(fd, (Conveyor { pos_start, pos_end, speed, alive: true })),
            ..w
        }
    }
}

/// The boss spawn on the view: the boss armed and relocated, its flanking
/// spawners replacing the spawner pool.
pub open spec fn spec_w_spawn_boss(
    w: WorldView,
    time: u32,
    positions: [i32; 3],
    spawn_rates: [u32; 3],
) -> WorldView {
    let armed = Boss {
        live_pos: positions,
        live_spawn_rate: spawn_rates,
        lives: crate::boss::BOSS_LIVES,
        alive: true,
        ..w.boss
    };
    WorldView { boss: spec_boss_moved(armed), spawners: spec_boss_spawners(armed, time), ..w }
}

/// A world reset: every slot freed, the player and boss off the field.
pub open spec fn spec_w_reset(w: WorldView) -> WorldView {
    WorldView {
        player: Player {
            position: 0,
            attack_width: crate::player::ATTACK_WIDTH,
            attack_duration: crate::player::ATTACK_DURATION,
            alive: false,
            ..w.player
        },
        boss: Boss { alive: false, defeated: false, ..w.boss },
        enemies: Seq::new(w.enemies.len(), |j: int| Enemy { alive: false, ..w.enemies[j] }),
        spawners: Seq::new(w.spawners.len(), |j: int| Spawner { alive: false, ..w.spawners[j] }),
        lavas: Seq::new(w.lavas.len(), |j: int| Lava { alive: false, ..w.lavas[j] }),
        conveyors: Seq::new(w.conveyors.len(), |j: int| Conveyor { alive: false, ..w.conveyors[j] }),
        ..w
    }
}

/// The hand-authored level table: the world populated for a level index.
/// Only indices up to `MAX_LEVEL` are defined.
#[verifier::opaque]
pub open spec fn spec_build_level(w: WorldView, level: u32, time: u32) -> WorldView {
    let b = spec_w_spawn_player(spec_w_reset(w), if level == 0 { 200i32 } else { 0i32 });
    if level == 0 {
        spec_w_spawn_enemy(b, 500, 0, 0)
    } else if level == 1 {
        spec_w_spawn_enemy(b, 999, -1i32, 0)
    } else if level == 2 {
        spec_w_spawn_spawner(b, time, 999, 3000, -2i32, 0)
    } else if level == 3 {
        spec_w_spawn_spawner(
            spec_w_spawn_enemy(spec_w_spawn_lava(b, time, 400, 490, 2000, 2000), 350, -1i32, 0),
            time,
            999,
            5500,
            -3i32,
            0,
        )
    } else if level == 4 {
        spec_w_spawn_enemy(spec_w_spawn_enemy(b, 700, 3, 275), 500, 2, 250)
    } else if level == 5 {
        spec_w_spawn_enemy(spec_w_spawn_conveyor(b, 100, 600, -6i32), 800, 0, 0)
    } else if level == 6 {
        spec_w_spawn_spawner(
            spec_w_spawn_enemy(
                spec_w_spawn_conveyor(spec_w_spawn_conveyor(b, 100, 600, 1), 600, 999, -1i32),
                600,
                0,
                0,
            ),
            time,
            999,
            5500,
            -3i32,
            0,
        )
    } else if level == 7 {
        spec_w_spawn_enemy(
            spec_w_spawn_enemy(
                spec_w_spawn_enemy(
                    spec_w_spawn_enemy(
                        spec_w_spawn_enemy(spec_w_spawn_enemy(b, 700, 3, 275), 500, 2, 250),
                        600,
                        3,
                        200,
                    ),
                    800,
                    2,
                    350,
                ),
                400,
                3,
                150,
            ),
            450,
            2,
            400,
        )
    } else if level == 8 {
        spec_w_spawn_conveyor(
            spec_w_spawn_spawner(
                spec_w_spawn_spawner(
                    spec_w_spawn_enemy(spec_w_spawn_enemy(b, 700, 7, 275), 500, 5, 250),
                    time,
                    999,
                    5500,
                    -4i32,
                    3000,
                ),
                time,
                0,
                5500,
                5,
                10000,
            ),
            100,
            900,
            -4i32,
        )
    } else if level == 9 {
        spec_w_spawn_enemy(
            spec_w_spawn_enemy(
                spec_w_spawn_enemy(
                    spec_w_spawn_enemy(
                        spec_w_spawn_enemy(
                            spec_w_spawn_enemy(
                                spec_w_spawn_enemy(
                                    spec_w_spawn_conveyor(b, 50, 998, 6),
                                    300,
                                    0,
                                    0,
                                ),
                                400,
                                0,
                                0,
                            ),
                            500,
                            0,
                            0,
                        ),
                        600,
                        0,
                        0,
                    ),
                    700,
                    0,
                    0,
                ),
                800,
                0,
                0,
            ),
            900,
            0,
            0,
        )
    } else if level == 10 {
        spec_w_spawn_spawner(
            spec_w_spawn_lava(
                spec_w_spawn_lava(
                    spec_w_spawn_lava(b, time, 195, 300, 2000, 2000),
                    time,
                    400,
                    500,
                    2000,
                    2000,
                ),
                time,
                600,
                700,
                2000,
                2000,
            ),
            time,
            999,
            3800,
            4,
            0,
        )
    } else if level == 11 {
        spec_w_spawn_conveyor(
            spec_w_spawn_spawner(
                spec_w_spawn_spawner(
                    spec_w_spawn_enemy(
                        spec_w_spawn_enemy(spec_w_spawn_enemy(b, 800, -7i32, 275), 700, -7i32, 275),
                        500,
                        -5i32,
                        250,
                    ),
                    time,
                    999,
                    3000,
                    -4i32,
                    3000,
                ),
                time,
                0,
                5500,
                5,
                10000,
            ),
            100,
            900,
            6,
        )
    } else if level == 12 {
        spec_w_spawn_enemy(
            spec_w_spawn_spawner(
                spec_w_spawn_lava(
                    spec_w_spawn_lava(b, time, 350, 455, 2000, 2000),
                    time,
                    660,
                    760,
                    2000,
                    2000,
                ),
                time,
                999,
                3800,
                -4i32,
                270,
            ),
            800,
            0,
            0,
        )
    } else if level == 13 {
        spec_w_spawn_spawner(
            spec_w_spawn_lava(
                spec_w_spawn_conveyor(b, 100, 800, 1),
                time,
                800,
                850,
                1000,
                2000,
            ),
            time,
            999,
            2000,
            -4i32,
            0,
        )
    } else if level == 14 {
        spec_w_spawn_spawner(
            spec_w_spawn_lava(
                spec_w_spawn_lava(
                    spec_w_spawn_spawner(b, time, 0, 2300, 6, 7000),
                    time,
                    200,
                    400,
                    1000,
                    2000,
                ),
                time,
                600,
                800,
                1000,
                2000,
            ),
            time,
            999,
            2500,
            -6i32,
            1000,
        )
    } else if level == 15 {
        spec_w_spawn_spawner(b, time, 900, 1300, -2i32, 0)
    } else if level == 16 {
        spec_w_spawn_spawner(
            (WorldView { player: Player { attack_width: 32, ..b.player }, ..b }),
            time,
            900,
            1800,
            -2i32,
            0,
        )
    } else if level == 17 {
        spec_w_spawn_spawner(
            spec_w_spawn_spawner(b, time, 550, 1500, -2i32, 0),
            time,
            550,
            1500,
            2,
            0,
        )
    } else if level == 18 {
        spec_w_spawn_lava_offset(
            spec_w_spawn_spawner(
                spec_w_spawn_spawner(b, time, 500, 1200, -2i32, 0),
                time,
                500,
                1200,
                2,
                0,
            ),
            time,
            900,
            950,
            2200,
            800,
            2000,
        )
    } else if level == 19 {
        spec_w_spawn_boss(b, time, [600i32, 200i32, 800i32], [1000u32, 1600u32, 1800u32])
    } else {
        b
    }
}

/// The world a playing tick leaves: the inputs applied to the player, one
/// world tick, then collision resolution.
pub open spec fn spec_playing_world(w: WorldView, lr_input: i32, fire_input: bool, time: u32) -> WorldView {
    let w1 = if fire_input {
        WorldView {
            player: Player { attacking: true, attacking_millis: time, ..w.player },
            ..w
        }
    } else {
        w
    };
    let w2 = WorldView { player: Player { speed: lr_input, ..w1.player }, ..w1 };
    spec_world_after_collide(spec_world_after_tick(w2, time), time)
}

/// An all-black frame.
pub open spec fn spec_cleared() -> Seq<LED> {
    Seq::new(LED_STRING_LENGTH as nat, |j: int| spec_led_black())
}

/// Elapsed stage time, clamped to the stage duration for the rendering
/// formulas.
pub open spec fn spec_stage_time(time: u32, start: u32, dur: u32) -> u32 {
    if spec_elapsed(time, start) > dur {
        dur
    } else {
        spec_elapsed(time, start)
    }
}

/// The startup wipe frame: green filled up to the sweep position.
pub open spec fn spec_wipeup_view(time: u32, start_time: u32) -> Seq<LED> {
    let e = spec_stage_time(time, start_time, STARTUP_WIPEUP_DUR);
    let n = spec_range_map(e as int, 0, STARTUP_WIPEUP_DUR as int, 0, LED_STRING_LENGTH as int);
    Seq::new(
        LED_STRING_LENGTH as nat,
        |j: int|
            if j < n {
                spec_led([0u8, 255u8, 0u8])
            } else {
                spec_led_black()
            },
    )
}

/// The startup sparkle frame and the seed it leaves: each pixel draws once,
/// stays green most of the time, and otherwise draws again for a flicker
/// level.
pub open spec fn spec_sparkle_fill(v: Seq<LED>, seed: u16, i: int) -> (Seq<LED>, u16)
    decreases v.len() - i,
{
    if i < 0 || i >= v.len() {
        (v, seed)
    } else {
        let s1 = spec_rand8_next(seed);
        if spec_rand8_lim(spec_rand8_out(s1), 30) < 28 {
            spec_sparkle_fill(v.update(i, spec_led([0u8, 255u8, 0u8])), s1, i + 1)
        } else {
            let s2 = spec_rand8_next(s1);
            let f = spec_rand8_lim(spec_rand8_out(s2), 250);
            spec_sparkle_fill(v.update(i, (LED { r: f, g: 150u8, b: f })), s2, i + 1)
        }
    }
}

/// The startup fade frame: black up to the sweep position, dimming green
/// after it.
pub open spec fn spec_fade_view(time: u32, start_time: u32) -> Seq<LED> {
    let e = spec_stage_time(time, start_time, STARTUP_FADE_DUR);
    let n = spec_range_map(e as int, 0, STARTUP_FADE_DUR as int, 0, LED_STRING_LENGTH as int);
    let b = spec_range_map(e as int, 0, STARTUP_FADE_DUR as int, 255, 0) as u8;
    Seq::new(
        LED_STRING_LENGTH as nat,
        |j: int|
            if j >= n {
                LED { r: 0u8, g: b, b: 0u8 }
            } else {
                spec_led_black()
            },
    )
}

/// The death-explosion frame: the ticked particles over black, overlaid by
/// an expanding band at the death site.
pub open spec fn spec_explosion_view(w: WorldView, time: u32, start_time: u32) -> Seq<LED> {
    let base = spec_draw_particles(
        Seq::new(
            w.particles.len(),
            |j: int| crate::particle::spec_particle_after_tick(w.particles[j], false, 0),
        ),
        spec_cleared(),
        0,
    );
    let e = spec_stage_time(time, start_time, DEATH_EXPLOSION_DUR);
    let b = spec_range_map(e as int, 0, DEATH_EXPLOSION_DUR as int, 255, 50) as u8;
    let pos = spec_vtor(w.player.position as int);
    let lo = spec_constrain(
        spec_range_map(e as int, 0, DEATH_EXPLOSION_DUR as int, pos, pos - DEATH_EXPLOSION_WIDTH),
        0,
        LED_STRING_LENGTH as int - 1,
    );
    let hi = spec_constrain(
        spec_range_map(e as int, 0, DEATH_EXPLOSION_DUR as int, pos, pos + DEATH_EXPLOSION_WIDTH),
        0,
        LED_STRING_LENGTH as int - 1,
    );
    Seq::new(
        LED_STRING_LENGTH as nat,
        |j: int|
            if lo <= j < hi {
                LED { r: 255u8, g: b, b }
            } else {
                base[j]
            },
    )
}

/// The burning-out frame: the ticked particles over black.
pub open spec fn spec_burnout_view(w: WorldView) -> Seq<LED> {
    spec_draw_particles(
        Seq::new(
            w.particles.len(),
            |j: int| crate::particle::spec_particle_after_tick(w.particles[j], true, 0),
        ),
        spec_cleared(),
        0,
    )
}

/// The life-display frame: one four-pixel green block per remaining life,
/// separated by single dark pixels.
pub open spec fn spec_lives_view(lives: u8) -> Seq<LED> {
    Seq::new(
        LED_STRING_LENGTH as nat,
        |j: int|
            if j / 5 < lives && j % 5 < 4 {
                spec_led([0u8, 255u8, 0u8])
            } else {
                spec_led_black()
            },
    )
}

/// The game-over spread frame: a red band spreading from the death site
/// toward both ends.
pub open spec fn spec_spread_view(w: WorldView, time: u32, start_time: u32) -> Seq<LED> {
    let e = spec_stage_time(time, start_time, GAMEOVER_SPREAD_DUR);
    let pos = spec_vtor(w.player.position as int);
    let lo = spec_range_map(e as int, 0, GAMEOVER_SPREAD_DUR as int, pos, 0);
    let hi = spec_range_map(e as int, 0, GAMEOVER_SPREAD_DUR as int, pos, LED_STRING_LENGTH as int - 1);
    Seq::new(
        LED_STRING_LENGTH as nat,
        |j: int|
            if lo <= j < hi {
                spec_led([255u8, 0u8, 0u8])
            } else {
                spec_led_black()
            },
    )
}

/// The game-over fade frame: the red shrinking back and dimming out.
pub open spec fn spec_gameover_fade_view(time: u32, start_time: u32) -> Seq<LED> {
    let e = spec_stage_time(time, start_time, GAMEOVER_FADE_DUR);
    let hi0 = spec_range_map(
        e as int,
        GAMEOVER_FADE_DUR as int,
        0,
        0,
        LED_STRING_LENGTH as int - 1,
    );
    let hi = if hi0 < 0 {
        0int
    } else {
        hi0
    };
    let b = spec_range_map(e as int, 0, GAMEOVER_FADE_DUR as int, 255, 0) as u8;
    Seq::new(
        LED_STRING_LENGTH as nat,
        |j: int|
            if j < hi {
                LED { r: b, g: 0u8, b: 0u8 }
            } else {
                spec_led_black()
            },
    )
}

/// Whether a stage that began at `start` has run its full `dur` by `time`.
pub open spec fn spec_stage_over(time: u32, start: u32, dur: u32) -> bool {
    !(spec_elapsed(time, start) < dur)
}

/// Everything one call of `cycle` produces: the next state, the next world,
/// the random seed left behind, and the rendered frame.
pub open spec fn spec_cycle(
    s: State,
    w: WorldView,
    seed: u16,
    led: Seq<LED>,
    lr_input: i32,
    fire_input: bool,
    time: u32,
) -> (State, WorldView, u16, Seq<LED>) {
    match s {
        State::Screensaver => {
            let s2 = if lr_input != 0 || fire_input {
                State::Starting { stage: StartStage::Wipeup, start_time: time }
            } else {
                State::Screensaver
            };
            (
                s2,
                w,
                spec_rand8_iter(seed, spec_attract_draws(time)),
                spec_attract_view(time, seed, led),
            )
        },
        State::Starting { stage: StartStage::Wipeup, start_time } => {
            let s2 = if spec_stage_over(time, start_time, STARTUP_WIPEUP_DUR) {
                State::Starting { stage: StartStage::Sparkle, start_time: time }
            } else {
                State::Starting { stage: StartStage::Wipeup, start_time }
            };
            (s2, w, seed, spec_wipeup_view(time, start_time))
        },
        State::Starting { stage: StartStage::Sparkle, start_time } => {
            let s2 = if spec_stage_over(time, start_time, STARTUP_SPARKLE_DUR) {
                State::Starting { stage: StartStage::Fade, start_time: time }
            } else {
                State::Starting { stage: StartStage::Sparkle, start_time }
            };
            (s2, w, spec_sparkle_fill(spec_cleared(), seed, 0).1, spec_sparkle_fill(
                spec_cleared(),
                seed,
                0,
            ).0)
        },
        State::Starting { stage: StartStage::Fade, start_time } => {
            if spec_stage_over(time, start_time, STARTUP_FADE_DUR) {
                let w1 = WorldView {
                    player: Player { lives: PLAYER_DEFAULT_LIVES, ..w.player },
                    ..w
                };
                (
                    State::Playing { level: 0, timeout: time },
                    spec_build_level(w1, 0, time),
                    seed,
                    spec_fade_view(time, start_time),
                )
            } else {
                (
                    State::Starting { stage: StartStage::Fade, start_time },
                    w,
                    seed,
                    spec_fade_view(time, start_time),
                )
            }
        },
        State::Playing { level, timeout } => {
            let wc = spec_playing_world(w, lr_input, fire_input, time);
            let frame = spec_world_draw(wc, spec_cleared(), time);
            if spec_elapsed(time, timeout) > GAME_TIMEOUT {
                (State::Screensaver, wc, seed, frame)
            } else if !wc.player.alive {
                let pos = spec_constrain(wc.player.position as int, 0, LED_STRING_VLENGTH as int - 1);
                let filled = spec_spawn_particles_from(wc.particles, pos as i32, seed, 0);
                (
                    State::Death { level, stage: DeathStage::Explosion, start_time: time },
                    WorldView { particles: filled.0, ..wc },
                    filled.1,
                    frame,
                )
            } else if wc.player.position == LED_STRING_VLENGTH - 1 {
                if level >= MAX_LEVEL {
                    (State::Win, wc, seed, frame)
                } else {
                    (
                        State::Playing { level: (level + 1) as u32, timeout: time },
                        spec_build_level(wc, (level + 1) as u32, time),
                        seed,
                        frame,
                    )
                }
            } else if lr_input == 0 && !fire_input {
                (State::Playing { level, timeout }, wc, seed, frame)
            } else {
                (State::Playing { level, timeout: time }, wc, seed, frame)
            }
        },
        State::Death { level, stage: DeathStage::Explosion, start_time } => {
            let w2 = WorldView {
                particles: Seq::new(
                    w.particles.len(),
                    |j: int| crate::particle::spec_particle_after_tick(w.particles[j], false, 0),
                ),
                ..w
            };
            let s2 = if spec_stage_over(time, start_time, DEATH_EXPLOSION_DUR) {
                State::Death { level, stage: DeathStage::Particles, start_time: time }
            } else {
                State::Death { level, stage: DeathStage::Explosion, start_time }
            };
            (s2, w2, seed, spec_explosion_view(w, time, start_time))
        },
        State::Death { level, stage: DeathStage::Particles, start_time } => {
            let ticked = Seq::new(
                w.particles.len(),
                |j: int| crate::particle::spec_particle_after_tick(w.particles[j], true, 0),
            );
            let any = exists|j: int| 0 <= j < w.particles.len()
                && crate::particle::spec_particle_active(#[trigger] ticked[j]);
            let w2 = WorldView { particles: ticked, ..w };
            if any {
                (
                    State::Death { level, stage: DeathStage::Particles, start_time },
                    w2,
                    seed,
                    spec_burnout_view(w),
                )
            } else {
                let w3 = if level == 0 {
                    WorldView {
                        player: Player { lives: PLAYER_DEFAULT_LIVES, ..w2.player },
                        ..w2
                    }
                } else {
                    w2
                };
                (State::Lives { level, start_time: time }, w3, seed, spec_burnout_view(w))
            }
        },
        State::Lives { level, start_time } => {
            if w.player.lives == 0 {
                (
                    State::GameOver { stage: GameOverStage::Spread, start_time: time },
                    w,
                    seed,
                    led,
                )
            } else if spec_stage_over(time, start_time, LIVES_DISPLAY_DUR) {
                (
                    State::Playing { level, timeout: time },
                    spec_build_level(w, level, time),
                    seed,
                    spec_lives_view(w.player.lives),
                )
            } else {
                (
                    State::Lives { level, start_time },
                    w,
                    seed,
                    spec_lives_view(w.player.lives),
                )
            }
        },
        State::GameOver { stage: GameOverStage::Spread, start_time } => {
            let s2 = if spec_stage_over(time, start_time, GAMEOVER_SPREAD_DUR) {
                State::GameOver { stage: GameOverStage::Fade, start_time: time }
            } else {
                State::GameOver { stage: GameOverStage::Spread, start_time }
            };
            (s2, w, seed, spec_spread_view(w, time, start_time))
        },
        State::GameOver { stage: GameOverStage::Fade, start_time } => {
            if spec_stage_over(time, start_time, GAMEOVER_FADE_DUR) {
                let w1 = WorldView {
                    player: Player { lives: PLAYER_DEFAULT_LIVES, ..w.player },
                    ..w
                };
                (
                    State::Playing { level: 0, timeout: time },
                    spec_build_level(w1, 0, time),
                    seed,
                    spec_gameover_fade_view(time, start_time),
                )
            } else {
                (
                    State::GameOver { stage: GameOverStage::Fade, start_time },
                    w,
                    seed,
                    spec_gameover_fade_view(time, start_time),
                )
            }
        },
        State::Win => (
            State::Starting { stage: StartStage::Wipeup, start_time: time },
            w,
            seed,
            led,
        ),
    }
}

/// The game: the pixel buffer, the attract animator, the random stream, the
/// state machine and the world.
pub struct Twang {
    /// The frame under construction, read back by the host each tick.
    pub led_string: LEDString,
    /// The idle animator.
    pub screensaver: Attract,
    /// The single deterministic random stream.
    pub rand: Rand8,
    /// The current top-level state.
    pub state: State,
    /// The simulated world.
    pub world: World,
}

impl Twang {
    /// The buffer and world invariants the game maintains, and the bound
    /// that every level index carried by the state stays inside the table.
    pub open spec fn wf(&self) -> bool {
        &&& self.led_string.wf()
        &&& self.world.wf()
        &&& spec_state_wf(self.state)
    }

    /// A fresh game on the screensaver, with the default seed.
    pub fn new() -> (t: Twang)
        ensures
            t.wf(),
            t.state == State::Screensaver,
            t.rand.seed == 1337,
            t.world.wf(),
            forall|i: int| 0 <= i < LED_STRING_LENGTH ==> t.led_string@[i] == spec_led_black(),
            !t.world.player.alive,
    {
        Twang {
            led_string: LEDString::new(),
            screensaver: Attract::new(),
            rand: Rand8::new(1337),
            state: State::Screensaver,
            world: World::new(),
        }
    }

    /// Reseed the random stream, for reproducible runs.
    pub fn set_seed(&mut self, seed: u16)
        ensures
            *final(self) == (Twang { rand: Rand8 { seed }, ..*old(self) }),
            old(self).wf() ==> final(self).wf(),
    {
        self.rand = Rand8::new(seed);
    }

    /// The current top-level state.
    pub fn state(&self) -> (s: State)
        ensures
            s == self.state,
    {
        self.state
    }

    /// One physical pixel of the finished frame, for the host.
    pub fn get_led(&self, i: usize) -> (rgb: [u8; 3])
        requires
            self.wf(),
        ensures
            i < LED_STRING_LENGTH ==> rgb[0] == self.led_string@[i as int].r && rgb[1]
                == self.led_string@[i as int].g && rgb[2] == self.led_string@[i as int].b,
    {
        let led = self.led_string.get_raw(i);
        [led.r, led.g, led.b]
    }

    /// Number of physical pixels the host should read.
    pub fn get_led_len(&self) -> (n: usize)
        ensures
            n == LED_STRING_LENGTH,
    {
        self.led_string.raw_len()
    }

    /// Build a level of the table: reset the world, place the player, and
    /// run the level's spawn sequence.  Only indices in the table may be
    /// requested; asking for any other index is a configuration defect.
    fn build_level(&mut self, level: u32, time: u32)
        requires
            old(self).wf(),
            level <= MAX_LEVEL,
        ensures
            final(self).wf(),
            final(self).world@ == spec_build_level(old(self).world@, level, time),
            final(self).led_string == old(self).led_string,
            final(self).rand == old(self).rand,
            final(self).state == old(self).state,
    {
        if level <= 4 {
            self.build_level_opening(level, time);
        } else if level <= 9 {
            self.build_level_early(level, time);
        } else if level <= 14 {
            self.build_level_middle(level, time);
        } else {
            self.build_level_late(level, time);
        }
    }

    /// Levels 0 through 4 of the table.
    #[verifier::rlimit(100)]
    fn build_level_opening(&mut self, level: u32, time: u32)
        requires
            old(self).wf(),
            0 <= level <= 4,
        ensures
            final(self).wf(),
            final(self).world@ == spec_build_level(old(self).world@, level, time),
            final(self).led_string == old(self).led_string,
            final(self).rand == old(self).rand,
            final(self).state == old(self).state,
    {
        self.world.reset();
        proof {
            assert(self.world@ =~~= spec_w_reset(old(self).world@));
        }

        // only the first level starts the player away from the origin
        if level == 0 {
            self.world.spawn_player(200);
        } else {
            self.world.spawn_player(0);
        }
        proof {
            assert(self.world@ =~~= spec_w_spawn_player(
                spec_w_reset(old(self).world@),
                if level == 0 { 200i32 } else { 0i32 },
            ));
        }

        if level == 0 {
            self.world.spawn_player(200);
        } else {
            self.world.spawn_player(0);
        }
        proof {
            assert(self.world@ =~~= spec_w_spawn_player(
                spec_w_reset(old(self).world@),
                if level == 0 { 200i32 } else { 0i32 },
            ));
        }

        if level == 0 {
            // one enemy, kill it
            self.world.spawn_enemy(500, 0, 0);
        } else if level == 1 {
            // one enemy, and it is coming for you
            self.world.spawn_enemy(999, -1, 0);
        } else if level == 2 {
            // enemies spawning at the exit every few seconds
            self.world.spawn_spawner(time, 999, 3000, -2, 0);
        } else if level == 3 {
            // lava introduction
            self.world.spawn_lava(time, 400, 490, 2000, 2000, 0, false);
            self.world.spawn_enemy(350, -1, 0);
            self.world.spawn_spawner(time, 999, 5500, -3, 0);
        } else if level == 4 {
            // two sine enemies
            self.world.spawn_enemy(700, 3, 275);
            self.world.spawn_enemy(500, 2, 250);
        }
        proof {
            reveal(spec_build_level);
            reveal_with_fuel(crate::spawner::spec_first_dead_from, 12);
            reveal_with_fuel(crate::world::spec_free_spawner_from, 4);
            reveal_with_fuel(crate::world::spec_free_lava_from, 6);
            reveal_with_fuel(crate::world::spec_free_conveyor_from, 4);
            assert(self.world@ =~~= spec_build_level(old(self).world@, level, time));
        }
    }

    /// Levels 5 through 9 of the table.
    #[verifier::rlimit(100)]
    fn build_level_early(&mut self, level: u32, time: u32)
        requires
            old(self).wf(),
            5 <= level <= 9,
        ensures
            final(self).wf(),
            final(self).world@ == spec_build_level(old(self).world@, level, time),
            final(self).led_string == old(self).led_string,
            final(self).rand == old(self).rand,
            final(self).state == old(self).state,
    {
        self.world.reset();
        proof {
            assert(self.world@ =~~= spec_w_reset(old(self).world@));
        }

        // only the first level starts the player away from the origin
        if level == 0 {
            self.world.spawn_player(200);
        } else {
            self.world.spawn_player(0);
        }
        proof {
            assert(self.world@ =~~= spec_w_spawn_player(
                spec_w_reset(old(self).world@),
                if level == 0 { 200i32 } else { 0i32 },
            ));
        }

        if level == 5 {
            // conveyor
            self.world.spawn_conveyor(100, 600, -6);
            self.world.spawn_enemy(800, 0, 0);
        } else if level == 6 {
            // drainage
            self.world.spawn_conveyor(100, 600, 1);
            self.world.spawn_conveyor(600, 999, -1);
            self.world.spawn_enemy(600, 0, 0);
            self.world.spawn_spawner(time, 999, 5500, -3, 0);
        } else if level == 7 {
            // enemy swarm
            self.world.spawn_enemy(700, 3, 275);
            self.world.spawn_enemy(500, 2, 250);
            self.world.spawn_enemy(600, 3, 200);
            self.world.spawn_enemy(800, 2, 350);
            self.world.spawn_enemy(400, 3, 150);
            self.world.spawn_enemy(450, 2, 400);
        } else if level == 8 {
            // sine-enemy practice on a slow conveyor
            self.world.spawn_enemy(700, 7, 275);
            self.world.spawn_enemy(500, 5, 250);
            self.world.spawn_spawner(time, 999, 5500, -4, 3000);
            self.world.spawn_spawner(time, 0, 5500, 5, 10000);
            self.world.spawn_conveyor(100, 900, -4);
        } else if level == 9 {
            // conveyor of enemies
            self.world.spawn_conveyor(50, 998, 6);
            self.world.spawn_enemy(300, 0, 0);
            self.world.spawn_enemy(400, 0, 0);
            self.world.spawn_enemy(500, 0, 0);
            self.world.spawn_enemy(600, 0, 0);
            self.world.spawn_enemy(700, 0, 0);
            self.world.spawn_enemy(800, 0, 0);
            self.world.spawn_enemy(900, 0, 0);
        }
        proof {
            reveal(spec_build_level);
            reveal_with_fuel(crate::spawner::spec_first_dead_from, 12);
            reveal_with_fuel(crate::world::spec_free_spawner_from, 4);
            reveal_with_fuel(crate::world::spec_free_lava_from, 6);
            reveal_with_fuel(crate::world::spec_free_conveyor_from, 4);
            assert(self.world@ =~~= spec_build_level(old(self).world@, level, time));
        }
    }

    /// Levels 10 through 14 of the table.
    #[verifier::rlimit(100)]
    fn build_level_middle(&mut self, level: u32, time: u32)
        requires
            old(self).wf(),
            10 <= level <= 14,
        ensures
            final(self).wf(),
            final(self).world@ == spec_build_level(old(self).world@, level, time),
            final(self).led_string == old(self).led_string,
            final(self).rand == old(self).rand,
            final(self).state == old(self).state,
    {
        self.world.reset();
        proof {
            assert(self.world@ =~~= spec_w_reset(old(self).world@));
        }

        // only the first level starts the player away from the origin
        if level == 0 {
            self.world.spawn_player(200);
        } else {
            self.world.spawn_player(0);
        }
        proof {
            assert(self.world@ =~~= spec_w_spawn_player(
                spec_w_reset(old(self).world@),
                if level == 0 { 200i32 } else { 0i32 },
            ));
        }

        if level == 10 {
            // lava run
            self.world.spawn_lava(time, 195, 300, 2000, 2000, 0, false);
            self.world.spawn_lava(time, 400, 500, 2000, 2000, 0, false);
            self.world.spawn_lava(time, 600, 700, 2000, 2000, 0, false);
            self.world.spawn_spawner(time, 999, 3800, 4, 0);
        } else if level == 11 {
            // sine enemies against a fast conveyor
            self.world.spawn_enemy(800, -7, 275);
            self.world.spawn_enemy(700, -7, 275);
            self.world.spawn_enemy(500, -5, 250);
            self.world.spawn_spawner(time, 999, 3000, -4, 3000);
            self.world.spawn_spawner(time, 0, 5500, 5, 10000);
            self.world.spawn_conveyor(100, 900, 6);
        } else if level == 12 {
            // less lava, more enemies
            self.world.spawn_lava(time, 350, 455, 2000, 2000, 0, false);
            self.world.spawn_lava(time, 660, 760, 2000, 2000, 0, false);
            self.world.spawn_spawner(time, 999, 3800, -4, 270);
            self.world.spawn_enemy(800, 0, 0);
        } else if level == 13 {
            // pushed toward lava
            self.world.spawn_conveyor(100, 800, 1);
            self.world.spawn_lava(time, 800, 850, 1000, 2000, 0, false);
            self.world.spawn_spawner(time, 999, 2000, -4, 0);
        } else if level == 14 {
            // quick lava
            self.world.spawn_spawner(time, 0, 2300, 6, 7000);
            self.world.spawn_lava(time, 200, 400, 1000, 2000, 0, false);
            self.world.spawn_lava(time, 600, 800, 1000, 2000, 0, false);
            self.world.spawn_spawner(time, 999, 2500, -6, 1000);
        }
        proof {
            reveal(spec_build_level);
            reveal_with_fuel(crate::spawner::spec_first_dead_from, 12);
            reveal_with_fuel(crate::world::spec_free_spawner_from, 4);
            reveal_with_fuel(crate::world::spec_free_lava_from, 6);
            reveal_with_fuel(crate::world::spec_free_conveyor_from, 4);
            assert(self.world@ =~~= spec_build_level(old(self).world@, level, time));
        }
    }

    /// Levels 15 through 19 of the table.
    #[verifier::rlimit(100)]
    fn build_level_late(&mut self, level: u32, time: u32)
        requires
            old(self).wf(),
            15 <= level <= 19,
        ensures
            final(self).wf(),
            final(self).world@ == spec_build_level(old(self).world@, level, time),
            final(self).led_string == old(self).led_string,
            final(self).rand == old(self).rand,
            final(self).state == old(self).state,
    {
        self.world.reset();
        proof {
            assert(self.world@ =~~= spec_w_reset(old(self).world@));
        }

        // only the first level starts the player away from the origin
        if level == 0 {
            self.world.spawn_player(200);
        } else {
            self.world.spawn_player(0);
        }
        proof {
            assert(self.world@ =~~= spec_w_spawn_player(
                spec_w_reset(old(self).world@),
                if level == 0 { 200i32 } else { 0i32 },
            ));
        }

        if level == 15 {
            // spawn train
            self.world.spawn_spawner(time, 900, 1300, -2, 0);
        } else if level == 16 {
            // spawn train with a skinny attack
            self.world.player_set_attack_width(32);
            self.world.spawn_spawner(time, 900, 1800, -2, 0);
        } else if level == 17 {
            // evil fast split spawner
            self.world.spawn_spawner(time, 550, 1500, -2, 0);
            self.world.spawn_spawner(time, 550, 1500, 2, 0);
        } else if level == 18 {
            // split spawner with exit-blocking lava
            self.world.spawn_spawner(time, 500, 1200, -2, 0);
            self.world.spawn_spawner(time, 500, 1200, 2, 0);
            self.world.spawn_lava(time, 900, 950, 2200, 800, 2000, false);
        } else if level == 19 {
            // the boss encounter
            self.world.spawn_boss(time, [600, 200, 800], [1000, 1600, 1800]);
        }
        proof {
            reveal(spec_build_level);
            reveal_with_fuel(crate::spawner::spec_first_dead_from, 12);
            reveal_with_fuel(crate::world::spec_free_spawner_from, 4);
            reveal_with_fuel(crate::world::spec_free_lava_from, 6);
            reveal_with_fuel(crate::world::spec_free_conveyor_from, 4);
            assert(self.world@ =~~= spec_build_level(old(self).world@, level, time));
        }
    }

    /// One simulation tick: apply the inputs and the clock to the current
    /// state, advance the world where the state calls for it, and leave the
    /// rendered frame for the host.
    #[verifier::rlimit(100)]
    pub fn cycle(&mut self, lr_input: i32, fire_input: bool, time: u32)
        requires
            old(self).wf(),
        ensures
            final(self).wf(),
            spec_cycle_matches(*old(self), *final(self), lr_input, fire_input, time),
    {
        match self.state {
            State::Screensaver => {
                self.screensaver.tick(&mut self.led_string, &mut self.rand, time);
                if lr_input != 0 || fire_input {
                    self.state = State::Starting { stage: StartStage::Wipeup, start_time: time };
                }
            },
            State::Starting { stage: StartStage::Wipeup, start_time } => {
                self.cycle_wipeup(start_time, lr_input, fire_input, time);
            },
            State::Starting { stage: StartStage::Sparkle, start_time } => {
                self.cycle_sparkle(start_time, lr_input, fire_input, time);
            },
            State::Starting { stage: StartStage::Fade, start_time } => {
                self.cycle_fade(start_time, lr_input, fire_input, time);
            },
            State::Playing { level, timeout } => {
                self.cycle_playing(level, timeout, lr_input, fire_input, time);
            },
            State::Death { level, stage: DeathStage::Explosion, start_time } => {
                self.cycle_explosion(level, start_time, lr_input, fire_input, time);
            },
            State::Death { level, stage: DeathStage::Particles, start_time } => {
                self.cycle_burnout(level, start_time, lr_input, fire_input, time);
            },
            State::Lives { level, start_time } => {
                self.cycle_lives(level, start_time, lr_input, fire_input, time);
            },
            State::GameOver { stage: GameOverStage::Spread, start_time } => {
                self.cycle_spread(start_time, lr_input, fire_input, time);
            },
            State::GameOver { stage: GameOverStage::Fade, start_time } => {
                self.cycle_gameover_fade(start_time, lr_input, fire_input, time);
            },
            State::Win => {
                self.state = State::Starting { stage: StartStage::Wipeup, start_time: time };
            },
        }
    }

    /// The startup wipe: green sweeping up the strip for its duration.
    fn cycle_wipeup(&mut self, start_time: u32, lr_input: i32, fire_input: bool, time: u32)
        requires
            old(self).wf(),
            old(self).state == (State::Starting { stage: StartStage::Wipeup, start_time }),
        ensures
            final(self).wf(),
            spec_cycle_matches(*old(self), *final(self), lr_input, fire_input, time),
    {
        self.led_string.clear();
        let e0 = time.wrapping_sub(start_time);
        let e = if e0 > STARTUP_WIPEUP_DUR {
            STARTUP_WIPEUP_DUR
        } else {
            e0
        };
        let n = range_map_u32(e, 0, STARTUP_WIPEUP_DUR, 0, LED_STRING_LENGTH as u32);
        render_band(&mut self.led_string, 0, n as i32, [0, 255, 0]);
        proof {
            assert(self.led_string@ =~= spec_wipeup_view(time, start_time));
        }
        if !(e0 < STARTUP_WIPEUP_DUR) {
            self.state = State::Starting { stage: StartStage::Sparkle, start_time: time };
        }
    }

    /// The startup sparkle: random green flicker for its duration.
    fn cycle_sparkle(&mut self, start_time: u32, lr_input: i32, fire_input: bool, time: u32)
        requires
            old(self).wf(),
            old(self).state == (State::Starting { stage: StartStage::Sparkle, start_time }),
        ensures
            final(self).wf(),
            spec_cycle_matches(*old(self), *final(self), lr_input, fire_input, time),
    {
        render_sparkle(&mut self.led_string, &mut self.rand);
        let e0 = time.wrapping_sub(start_time);
        if !(e0 < STARTUP_SPARKLE_DUR) {
            self.state = State::Starting { stage: StartStage::Fade, start_time: time };
        }
    }

    /// The particle burn-out: particles tick and glow until none is active,
    /// then the life display follows, with lives refilled on the first
    /// level.
    #[verifier::rlimit(100)]
    fn cycle_burnout(&mut self, level: u32, start_time: u32, lr_input: i32, fire_input: bool, time: u32)
        requires
            old(self).wf(),
            old(self).state == (State::Death { level, stage: DeathStage::Particles, start_time }),
            level <= MAX_LEVEL,
        ensures
            final(self).wf(),
            spec_cycle_matches(*old(self), *final(self), lr_input, fire_input, time),
    {
        self.led_string.clear();
        proof {
            assert(self.led_string@ =~= spec_cleared());
        }
        let ghost w0 = old(self).world@;
        let ghost ticked = Seq::new(
            w0.particles.len(),
            |j: int| crate::particle::spec_particle_after_tick(w0.particles[j], true, 0),
        );
        let any = self.world.cycle_particles(&mut self.led_string, true, 0);
        proof {
            if any {
                let j = choose|j: int| 0 <= j < w0.particles.len()
                    && crate::particle::spec_particle_active(
                    #[trigger] crate::particle::spec_particle_after_tick(w0.particles[j], true, 0));
                assert(crate::particle::spec_particle_active(ticked[j]));
            } else {
                assert forall|j: int| 0 <= j < w0.particles.len()
                    implies !crate::particle::spec_particle_active(#[trigger] ticked[j]) by {
                    assert(ticked[j] == crate::particle::spec_particle_after_tick(
                        w0.particles[j],
                        true,
                        0,
                    ));
                }
            }
        }
        if any {
            self.state = State::Death { level, stage: DeathStage::Particles, start_time };
        } else {
            if level == 0 {
                self.world.player_set_lives(PLAYER_DEFAULT_LIVES);
            }
            self.state = State::Lives { level, start_time: time };
        }
    }

    /// The startup fade: the green sweeping away while dimming; at its end
    /// the first level begins with fresh lives.
    fn cycle_fade(&mut self, start_time: u32, lr_input: i32, fire_input: bool, time: u32)
        requires
            old(self).wf(),
            old(self).state == (State::Starting { stage: StartStage::Fade, start_time }),
        ensures
            final(self).wf(),
            spec_cycle_matches(*old(self), *final(self), lr_input, fire_input, time),
    {
        self.led_string.clear();
        let e0 = time.wrapping_sub(start_time);
        let e = if e0 > STARTUP_FADE_DUR {
            STARTUP_FADE_DUR
        } else {
            e0
        };
        let n = range_map_u32(e, 0, STARTUP_FADE_DUR, 0, LED_STRING_LENGTH as u32);
        let brightness = range_map_u32(e, 0, STARTUP_FADE_DUR, 255, 0) as u8;
        render_band(&mut self.led_string, n as i32, LED_STRING_LENGTH as i32, [0, brightness, 0]);
        proof {
            assert(self.led_string@ =~= spec_fade_view(time, start_time));
        }
        if !(e0 < STARTUP_FADE_DUR) {
            self.world.player_set_lives(PLAYER_DEFAULT_LIVES);
            self.build_level(0, time);
            self.state = State::Playing { level: 0, timeout: time };
        }
    }

    /// One tick of play: inputs, physics, collision, rendering, and the
    /// state decision that follows them in order — idle timeout, death,
    /// level exit, input refresh.
    fn cycle_playing(&mut self, level: u32, timeout: u32, lr_input: i32, fire_input: bool, time: u32)
        requires
            old(self).wf(),
            old(self).state == (State::Playing { level, timeout }),
            level <= MAX_LEVEL,
        ensures
            final(self).wf(),
            spec_cycle_matches(*old(self), *final(self), lr_input, fire_input, time),
    {
        if fire_input {
            self.world.player_attack(time);
        }
        self.world.player_set_speed(lr_input);
        self.world.tick(&self.led_string, time);
        self.world.collide(time);
        self.led_string.clear();
        proof {
            assert(self.led_string@ =~= spec_cleared());
            assert(self.world@ == spec_playing_world(
                old(self).world@,
                lr_input,
                fire_input,
                time,
            ));
        }
        self.world.draw(&mut self.led_string, time);

        let et = time.wrapping_sub(timeout);
        if et > GAME_TIMEOUT {
            self.state = State::Screensaver;
        } else if !self.world.player_alive() {
            let pos = constrain(self.world.player_position(), 0, LED_STRING_VLENGTH - 1);
            self.world.spawn_particles(pos, &mut self.rand);
            self.state = State::Death { level, stage: DeathStage::Explosion, start_time: time };
        } else if self.world.exit_n() {
            if level >= MAX_LEVEL {
                self.state = State::Win;
            } else {
                self.build_level(level + 1, time);
                self.state = State::Playing { level: level + 1, timeout: time };
            }
        } else if lr_input == 0 && !fire_input {
            self.state = State::Playing { level, timeout };
        } else {
            self.state = State::Playing { level, timeout: time };
        }
    }

    /// The death explosion: particles burn over black while a band expands
    /// at the death site for a fixed duration.
    fn cycle_explosion(&mut self, level: u32, start_time: u32, lr_input: i32, fire_input: bool, time: u32)
        requires
            old(self).wf(),
            old(self).state == (State::Death { level, stage: DeathStage::Explosion, start_time }),
            level <= MAX_LEVEL,
        ensures
            final(self).wf(),
            spec_cycle_matches(*old(self), *final(self), lr_input, fire_input, time),
    {
        self.led_string.clear();
        proof {
            assert(self.led_string@ =~= spec_cleared());
        }
        let _still = self.world.cycle_particles(&mut self.led_string, false, 0);
        let e0 = time.wrapping_sub(start_time);
        let e = if e0 > DEATH_EXPLOSION_DUR {
            DEATH_EXPLOSION_DUR
        } else {
            e0
        };
        let brightness = range_map_u32(e, 0, DEATH_EXPLOSION_DUR, 255, 50) as u8;
        let pos = self.led_string.vtor(self.world.player_position());
        proof {
            crate::led_string::lemma_vtor_bounds(self.world.player.position as int);
        }
        let lo = constrain(
            range_map(e as i32, 0, DEATH_EXPLOSION_DUR as i32, pos, pos - DEATH_EXPLOSION_WIDTH),
            0,
            LED_STRING_LENGTH as i32 - 1,
        );
        let hi = constrain(
            range_map(e as i32, 0, DEATH_EXPLOSION_DUR as i32, pos, pos + DEATH_EXPLOSION_WIDTH),
            0,
            LED_STRING_LENGTH as i32 - 1,
        );
        render_band(&mut self.led_string, lo, hi, [255, brightness, brightness]);
        proof {
            assert(self.led_string@ =~= spec_explosion_view(old(self).world@, time, start_time));
        }
        if !(e0 < DEATH_EXPLOSION_DUR) {
            self.state = State::Death { level, stage: DeathStage::Particles, start_time: time };
        }
    }

    /// The life display: grouped green blocks for a fixed duration, game
    /// over when no life is left, and back into the same level after.
    fn cycle_lives(&mut self, level: u32, start_time: u32, lr_input: i32, fire_input: bool, time: u32)
        requires
            old(self).wf(),
            old(self).state == (State::Lives { level, start_time }),
            level <= MAX_LEVEL,
        ensures
            final(self).wf(),
            spec_cycle_matches(*old(self), *final(self), lr_input, fire_input, time),
    {
        if self.world.player_lives() == 0 {
            self.state = State::GameOver { stage: GameOverStage::Spread, start_time: time };
        } else {
            render_lives(&mut self.led_string, self.world.player_lives());
            let e0 = time.wrapping_sub(start_time);
            if !(e0 < LIVES_DISPLAY_DUR) {
                self.build_level(level, time);
                self.state = State::Playing { level, timeout: time };
            }
        }
    }

    /// The game-over spread: a red band growing from the death site toward
    /// both ends of the strip.
    #[verifier::rlimit(100)]
    fn cycle_spread(&mut self, start_time: u32, lr_input: i32, fire_input: bool, time: u32)
        requires
            old(self).wf(),
            old(self).state == (State::GameOver { stage: GameOverStage::Spread, start_time }),
        ensures
            final(self).wf(),
            spec_cycle_matches(*old(self), *final(self), lr_input, fire_input, time),
    {
        self.led_string.clear();
        let e0 = time.wrapping_sub(start_time);
        let e = if e0 > GAMEOVER_SPREAD_DUR {
            GAMEOVER_SPREAD_DUR
        } else {
            e0
        };
        let pos = self.led_string.vtor(self.world.player_position());
        proof {
            crate::led_string::lemma_vtor_bounds(self.world.player.position as int);
        }
        let lo = range_map(e as i32, 0, GAMEOVER_SPREAD_DUR as i32, pos, 0);
        let hi = range_map(e as i32, 0, GAMEOVER_SPREAD_DUR as i32, pos, LED_STRING_LENGTH as i32 - 1);
        render_band(&mut self.led_string, lo, hi, [255, 0, 0]);
        proof {
            assert(self.led_string@ =~= spec_spread_view(old(self).world@, time, start_time));
        }
        if !(e0 < GAMEOVER_SPREAD_DUR) {
            self.state = State::GameOver { stage: GameOverStage::Fade, start_time: time };
        }
    }

    /// The game-over fade: the red shrinking and dimming away, then a new
    /// game on the first level with fresh lives.
    #[verifier::rlimit(100)]
    fn cycle_gameover_fade(&mut self, start_time: u32, lr_input: i32, fire_input: bool, time: u32)
        requires
            old(self).wf(),
            old(self).state == (State::GameOver { stage: GameOverStage::Fade, start_time }),
        ensures
            final(self).wf(),
            spec_cycle_matches(*old(self), *final(self), lr_input, fire_input, time),
    {
        self.led_string.clear();
        let e0 = time.wrapping_sub(start_time);
        let e = if e0 > GAMEOVER_FADE_DUR {
            GAMEOVER_FADE_DUR
        } else {
            e0
        };
        let hi0 = range_map(e as i32, GAMEOVER_FADE_DUR as i32, 0, 0, LED_STRING_LENGTH as i32 - 1);
        let hi = if hi0 < 0 {
            0
        } else {
            hi0
        };
        let brightness = range_map_u32(e, 0, GAMEOVER_FADE_DUR, 255, 0) as u8;
        render_band(&mut self.led_string, 0, hi, [brightness, 0, 0]);
        proof {
            assert(self.led_string@ =~= spec_gameover_fade_view(time, start_time));
        }
        if !(e0 < GAMEOVER_FADE_DUR) {
            self.world.player_set_lives(PLAYER_DEFAULT_LIVES);
            self.build_level(0, time);
            self.state = State::Playing { level: 0, timeout: time };
        }
    }
}

/// Bound on the level indices a state may carry: every level that can come
/// up must be in the table.
pub open spec fn spec_state_wf(s: State) -> bool {
    match s {
        State::Playing { level, .. } => level <= MAX_LEVEL,
        State::Death { level, .. } => level <= MAX_LEVEL,
        State::Lives { level, .. } => level <= MAX_LEVEL,
        _ => true,
    }
}

/// Whether `post` is what one cycle of the game machine makes of `pre`
/// under the given inputs and clock.
pub open spec fn spec_cycle_matches(pre: Twang, post: Twang, lr_input: i32, fire_input: bool, time: u32) -> bool {
    let r = spec_cycle(
        pre.state,
        pre.world@,
        pre.rand.seed,
        pre.led_string@,
        lr_input,
        fire_input,
        time,
    );
    &&& post.state == r.0
    &&& post.world@ == r.1
    &&& post.rand.seed == r.2
    &&& post.led_string@ == r.3
}

/// Paint the physical band `lo..hi` with one color, clamping out-of-range
/// pixels away.
fn render_band(led_string: &mut LEDString, lo: i32, hi: i32, rgb: [u8; 3])
    requires
        old(led_string).wf(),
        -1000 <= lo <= 1000,
        -1000 <= hi <= 1000,
    ensures
        final(led_string).wf(),
        final(led_string)@ == Seq::new(
            old(led_string)@.len(),
            |j: int|
                if lo <= j < hi {
                    spec_led(rgb)
                } else {
                    old(led_string)@[j]
                },
        ),
{
    let mut i = lo;
    while i < hi
        invariant
            led_string.wf(),
            old(led_string).wf(),
            lo <= i,
            i <= hi || i == lo,
            -1000 <= lo <= 1000,
            -1000 <= hi <= 1000,
            forall|j: int| 0 <= j < old(led_string)@.len() ==> led_string@[j] == (if lo <= j < i
                && lo <= j < hi {
                spec_led(rgb)
            } else {
                old(led_string)@[j]
            }),
        decreases hi - i,
    {
        led_string.set_rgb(i, rgb);
        i += 1;
    }
    proof {
        assert(led_string@ =~= Seq::new(
            old(led_string)@.len(),
            |j: int|
                if lo <= j < hi {
                    spec_led(rgb)
                } else {
                    old(led_string)@[j]
                },
        ));
    }
}

/// Paint the startup sparkle: each pixel draws from the stream and stays
/// green most of the time, with occasional pale flickers.
fn render_sparkle(led_string: &mut LEDString, rng: &mut Rand8)
    requires
        old(led_string).wf(),
    ensures
        final(led_string).wf(),
        final(led_string)@ == spec_sparkle_fill(spec_cleared(), old(rng).seed, 0).0,
        final(rng).seed == spec_sparkle_fill(spec_cleared(), old(rng).seed, 0).1,
{
    led_string.clear();
    proof {
        assert(led_string@ =~= spec_cleared());
    }
    let ghost seed0 = rng.seed;
    let ghost v0 = led_string@;
    let len = led_string.len();
    let mut i: usize = 0;
    while i < len
        invariant
            led_string.wf(),
            len == LED_STRING_LENGTH,
            i <= len,
            led_string@.len() == LED_STRING_LENGTH,
            v0.len() == LED_STRING_LENGTH,
            spec_sparkle_fill(v0, seed0, 0) == spec_sparkle_fill(led_string@, rng.seed, i as int),
        decreases len - i,
    {
        let ghost v_before = led_string@;
        let ghost seed_before = rng.seed;
        let r = random8lim(rng, 30);
        if r < 28 {
            led_string.set_rgb(i as i32, [0, 255, 0]);
        } else {
            let flicker = random8lim(rng, 250);
            led_string.set_rgb(i as i32, [flicker, 150, flicker]);
        }
        i += 1;
    }
}

/// Paint the life display: one four-pixel green block per remaining life,
/// separated by single dark pixels, over a cleared strip.
fn render_lives(led_string: &mut LEDString, lives: u8)
    requires
        old(led_string).wf(),
    ensures
        final(led_string).wf(),
        final(led_string)@ == spec_lives_view(lives),
{
    led_string.clear();
    let mut pos: i32 = 0;
    let mut l: u8 = 0;
    while l < lives
        invariant
            led_string.wf(),
            l <= lives,
            pos == 5 * (l as i32),
            led_string@.len() == LED_STRING_LENGTH,
            forall|j: int| 0 <= j < led_string@.len() ==> led_string@[j] == (if j / 5 < l && j % 5
                < 4 {
                spec_led([0u8, 255u8, 0u8])
            } else {
                spec_led_black()
            }),
        decreases lives - l,
    {
        let mut k: u8 = 0;
        while k < 4
            invariant
                led_string.wf(),
                k <= 4,
                l < lives,
                l <= 255,
                pos == 5 * (l as i32) + k as i32,
                led_string@.len() == LED_STRING_LENGTH,
                forall|j: int| 0 <= j < led_string@.len() ==> led_string@[j] == (if (j / 5 < l && j
                    % 5 < 4) || (j / 5 == l && j % 5 < k) {
                    spec_led([0u8, 255u8, 0u8])
                } else {
                    spec_led_black()
                }),
            decreases 4 - k,
        {
            led_string.set_rgb(pos, [0, 255, 0]);
            pos += 1;
            k += 1;
        }
        pos += 1;
        l += 1;
    }
    proof {
        assert(led_string@ =~= spec_lives_view(lives));
    }
}

} // verus!
