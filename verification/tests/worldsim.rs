use twang::led_string::{LEDString, LED, LED_STRING_LENGTH};
use twang::world::World;

#[test]
fn tick_then_collide_kills_an_attacked_enemy() {
    let mut w = World::new();
    w.spawn_player(470);
    w.player_set_lives(3);
    w.spawn_enemy(500, 0, 0);
    // latch the enemy's side first
    w.collide(1000);
    assert!(w.enemies[0].alive);
    assert_eq!(w.enemies[0].player_side, 1);
    // attack: 500 falls inside the span around 470
    w.player_attack(1016);
    w.collide(1016);
    assert!(!w.enemies[0].alive);
    assert!(w.player.alive);
}

#[test]
fn walking_into_a_latched_enemy_costs_a_life() {
    let mut w = World::new();
    w.spawn_player(490);
    w.player_set_lives(3);
    w.spawn_enemy(500, 0, 0);
    w.collide(1000);
    assert!(w.player.alive);
    w.player.position = 505;
    w.collide(1016);
    assert!(!w.player.alive);
    assert_eq!(w.player.lives, 2);
}

#[test]
fn exit_marker_is_drawn_unless_the_boss_lives() {
    let mut w = World::new();
    w.spawn_player(100);
    let mut leds = LEDString::new();
    w.draw(&mut leds, 1000);
    assert_eq!(leds.get_raw(LED_STRING_LENGTH - 1), LED { r: 0, g: 0, b: 255 });

    let mut wb = World::new();
    wb.spawn_player(100);
    wb.spawn_boss(1000, [600, 200, 800], [1000, 1600, 1800]);
    let mut leds2 = LEDString::new();
    wb.draw(&mut leds2, 1000);
    assert_ne!(leds2.get_raw(LED_STRING_LENGTH - 1), LED { r: 0, g: 0, b: 255 });
}

#[test]
fn boss_relocates_per_life_and_rearms_its_spawners() {
    let mut w = World::new();
    w.spawn_player(100);
    w.player_set_lives(3);
    w.spawn_boss(1000, [600, 200, 800], [1000, 1600, 1800]);
    assert!(w.boss.alive);
    assert_eq!(w.boss.position, 800);
    assert_eq!(w.boss.start, 780);
    assert_eq!(w.boss.stop, 820);
    assert!(w.spawners[0].alive && w.spawners[1].alive);
    assert_eq!(w.spawners[0].position, 780);
    assert_eq!(w.spawners[1].position, 820);

    // an attack overlapping the band costs the boss a life and moves it
    w.player.position = 770;
    w.player_attack(2000);
    w.collide(2000);
    assert!(w.boss.alive);
    assert_eq!(w.boss.position, 200);
    assert_eq!(w.spawners[0].position, 180);

    w.player.position = 150;
    w.player_attack(3000);
    w.collide(3000);
    assert!(w.boss.alive);
    assert_eq!(w.boss.position, 600);

    w.player.position = 550;
    w.player_attack(4000);
    w.collide(4000);
    assert!(!w.boss.alive);
    assert!(w.boss.defeated);
}

#[test]
fn touching_the_boss_band_is_deadly() {
    let mut w = World::new();
    w.spawn_player(100);
    w.player_set_lives(3);
    w.spawn_boss(1000, [600, 200, 800], [1000, 1600, 1800]);
    w.player.position = 800;
    w.collide(1016);
    assert!(!w.player.alive);
    assert_eq!(w.player.lives, 2);
}

#[test]
fn exit_flag_fires_only_at_the_last_virtual_cell() {
    let mut w = World::new();
    w.spawn_player(998);
    assert!(!w.exit_n());
    w.player.position = 999;
    assert!(w.exit_n());
}

#[test]
fn reset_frees_every_slot() {
    let mut w = World::new();
    w.spawn_player(100);
    w.spawn_enemy(500, 0, 0);
    w.spawn_spawner(1000, 999, 3000, -2, 0);
    w.spawn_lava(1000, 400, 490, 2000, 2000, 0, false);
    w.spawn_conveyor(100, 600, -6);
    w.reset();
    assert!(!w.player.alive);
    assert!(w.enemies.iter().all(|e| !e.alive));
    assert!(w.spawners.iter().all(|s| !s.alive));
    assert!(w.lavas.iter().all(|l| !l.alive));
    assert!(w.conveyors.iter().all(|c| !c.alive));
}
