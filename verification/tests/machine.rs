use twang::game::{DeathStage, StartStage, State, Twang};
use twang::led_string::LED_STRING_LENGTH;

#[test]
fn fire_starts_a_game_and_the_startup_leads_into_the_first_level() {
    let mut t = Twang::new();
    assert_eq!(t.state(), State::Screensaver);

    // idle input keeps the screensaver
    t.cycle(0, false, 50);
    assert_eq!(t.state(), State::Screensaver);

    // one tick with fire pressed starts the wipe
    t.cycle(0, true, 100);
    assert_eq!(t.state(), State::Starting { stage: StartStage::Wipeup, start_time: 100 });

    // within the wipe duration the stage holds
    t.cycle(0, false, 150);
    assert_eq!(t.state(), State::Starting { stage: StartStage::Wipeup, start_time: 100 });

    // once its duration has passed, sparkle begins
    t.cycle(0, false, 301);
    assert_eq!(t.state(), State::Starting { stage: StartStage::Sparkle, start_time: 301 });

    t.cycle(0, false, 1602);
    assert_eq!(t.state(), State::Starting { stage: StartStage::Fade, start_time: 1602 });

    t.cycle(0, false, 3103);
    assert_eq!(t.state(), State::Playing { level: 0, timeout: 3103 });

    // the first level is built: player at its opening position with fresh
    // lives, one enemy halfway down the strip
    assert!(t.world.player.alive);
    assert_eq!(t.world.player.position, 200);
    assert_eq!(t.world.player.lives, 3);
    assert!(t.world.enemies[0].alive);
    assert_eq!(t.world.enemies[0].position, 500);
    assert!(t.world.enemies[1..].iter().all(|e| !e.alive));
}

fn start_level_zero(t: &mut Twang) -> u32 {
    t.cycle(0, true, 100);
    t.cycle(0, false, 301);
    t.cycle(0, false, 1602);
    t.cycle(0, false, 3103);
    assert_eq!(t.state(), State::Playing { level: 0, timeout: 3103 });
    3103
}

#[test]
fn reaching_the_exit_builds_the_next_level() {
    let mut t = Twang::new();
    let mut time = start_level_zero(&mut t);

    // walk right until close to the enemy
    let mut guard = 0;
    while t.world.player.position < 470 {
        time += 16;
        t.cycle(10, false, time);
        guard += 1;
        assert!(guard < 100);
    }
    assert!(t.world.player.alive);

    // one attack kills the enemy ahead
    time += 16;
    t.cycle(0, true, time);
    assert!(!t.world.enemies[0].alive);
    assert!(t.world.player.alive);

    // walk to the exit; the attack expires on the way
    let mut guard = 0;
    loop {
        time += 16;
        t.cycle(10, false, time);
        if matches!(t.state(), State::Playing { level: 1, .. }) {
            break;
        }
        guard += 1;
        assert!(guard < 300);
        assert!(t.world.player.alive);
    }

    // level 1 per the table: player back at the origin, one enemy rushing
    // in from the exit
    assert_eq!(t.world.player.position, 0);
    assert!(t.world.enemies[0].alive);
    assert_eq!(t.world.enemies[0].position, 999);
    assert_eq!(t.world.enemies[0].speed, -1);
    assert_eq!(t.world.enemies[0].wobble, 0);
    assert!(t.world.enemies[1..].iter().all(|e| !e.alive));
    assert!(t.world.spawners.iter().all(|s| !s.alive));
}

#[test]
fn dying_spawns_particles_and_enters_the_death_state() {
    let mut t = Twang::new();
    let mut time = start_level_zero(&mut t);

    // walk the player into the latched enemy
    let mut guard = 0;
    loop {
        time += 16;
        t.cycle(10, false, time);
        if matches!(t.state(), State::Death { .. }) {
            break;
        }
        guard += 1;
        assert!(guard < 100);
    }
    assert_eq!(
        t.state(),
        State::Death { level: 0, stage: DeathStage::Explosion, start_time: time }
    );
    assert!(t.world.particles.iter().all(|p| p.alive));
    assert_eq!(t.world.player.lives, 2);
}

#[test]
fn idle_play_falls_back_to_the_screensaver() {
    let mut t = Twang::new();
    let _ = start_level_zero(&mut t);
    t.cycle(0, false, 70_000);
    assert_eq!(t.state(), State::Screensaver);
}

#[test]
fn the_host_reads_a_full_frame() {
    let mut t = Twang::new();
    assert_eq!(t.get_led_len(), LED_STRING_LENGTH);
    t.cycle(0, false, 16);
    for i in 0..t.get_led_len() {
        let _ = t.get_led(i);
    }
}

#[test]
fn reseeding_makes_runs_reproducible() {
    let mut a = Twang::new();
    let mut b = Twang::new();
    a.set_seed(42);
    b.set_seed(42);
    for step in 0..40u32 {
        // the sparkle stage consumes the stream, so equal seeds must give
        // equal frames
        a.cycle(0, true, 100 + step * 16);
        b.cycle(0, true, 100 + step * 16);
    }
    for i in 0..a.get_led_len() {
        assert_eq!(a.get_led(i), b.get_led(i));
    }
}
