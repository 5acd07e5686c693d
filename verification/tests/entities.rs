use twang::conveyor::Conveyor;
use twang::enemy::Enemy;
use twang::lava::Lava;
use twang::led_string::LEDString;
use twang::particle::Particle;
use twang::player::Player;
use twang::rand::Rand8;

#[test]
fn enemy_moves_linearly_until_it_leaves_the_field() {
    let leds = LEDString::new();
    let mut e = Enemy::new();
    e.spawn(990, 5, 0);
    for n in 1..=1u32 {
        e.tick(&leds, n);
    }
    assert!(e.alive);
    assert_eq!(e.position, 995);
    e.tick(&leds, 2);
    // 1000 is out of the field: the enemy dies and stays dead
    assert!(!e.alive);
    for n in 3..30u32 {
        e.tick(&leds, n);
        assert!(!e.alive);
    }
}

#[test]
fn enemy_latches_a_side_before_it_can_be_killed() {
    let mut e = Enemy::new();
    e.spawn(500, 0, 0);
    let mut p = Player::new(1);
    p.spawn(200);
    p.attack(0);
    assert!(p.attacking);
    // first contact only latches the side, even under attack
    e.collide_player(&p);
    assert!(e.alive);
    assert_eq!(e.player_side, 1);
    // out of attack range: survives
    e.collide_player(&p);
    assert!(e.alive);
    // in range of an attack: dies
    p.position = 490;
    e.collide_player(&p);
    assert!(!e.alive);
}

#[test]
fn enemy_dies_in_lava_only_while_it_is_on() {
    let mut l = Lava::new();
    l.spawn(1000, 400, 500, 2000, 2000, 0, false);
    let mut e = Enemy::new();
    e.spawn(450, 0, 0);
    e.collide_lava(&l);
    assert!(e.alive);
    l.state = true;
    e.collide_lava(&l);
    assert!(!e.alive);
}

#[test]
fn lava_alternates_on_its_duty_cycle() {
    let mut l = Lava::new();
    l.spawn(1000, 100, 200, 500, 300, 0, false);
    l.tick(1100);
    assert!(!l.state);
    l.tick(1301);
    // the off duration has elapsed
    assert!(l.state);
    l.tick(1500);
    assert!(l.state);
    l.tick(1803);
    // the on duration has elapsed
    assert!(!l.state);
}

#[test]
fn lava_phase_offset_delays_the_first_flip() {
    let mut l = Lava::new();
    l.spawn(1000, 100, 200, 500, 300, 2000, false);
    l.tick(1500);
    assert!(!l.state);
    l.tick(3200);
    assert!(!l.state);
    l.tick(3301);
    assert!(l.state);
}

#[test]
fn conveyor_nudges_the_player_standing_on_it() {
    let mut c = Conveyor::new();
    c.spawn(100, 600, -6);
    let mut p = Player::new(1);
    p.spawn(300);
    p.collide_conveyor(&c);
    assert_eq!(p.position, 294);
    p.position = 700;
    p.collide_conveyor(&c);
    assert_eq!(p.position, 700);
}

#[test]
fn player_dies_to_a_latched_enemy_that_caught_it() {
    let mut p = Player::new(1);
    p.lives = 3;
    p.spawn(500);
    let mut e = Enemy::new();
    e.spawn(400, 0, 0);
    e.player_side = -1;
    // the player stands ahead of the enemy: safe
    p.collide_enemy(&e);
    assert!(p.alive);
    // backing up onto the enemy's latched side is deadly
    p.position = 395;
    p.collide_enemy(&e);
    assert!(!p.alive);
    assert_eq!(p.lives, 2);
}

#[test]
fn player_lives_never_underflow() {
    let mut p = Player::new(1);
    p.lives = 0;
    p.spawn(100);
    p.die();
    assert_eq!(p.lives, 0);
    assert!(!p.alive);
}

#[test]
fn player_tick_clamps_to_the_field() {
    let leds = LEDString::new();
    let mut p = Player::new(1);
    p.spawn(995);
    p.speed = 50;
    p.tick(&leds, 100);
    assert_eq!(p.position, 999);
    p.speed = -2000;
    p.tick(&leds, 200);
    assert_eq!(p.position, 0);
}

#[test]
fn player_attack_expires_after_its_duration() {
    let leds = LEDString::new();
    let mut p = Player::new(1);
    p.spawn(500);
    p.attack(1000);
    p.tick(&leds, 1400);
    assert!(p.attacking);
    p.tick(&leds, 1501);
    assert!(!p.attacking);
}

#[test]
fn particle_decays_and_dies_at_zero_power() {
    let mut rng = Rand8::new(1337);
    let mut p = Particle::new();
    p.spawn(500, &mut rng);
    assert!(p.alive);
    assert_eq!(p.power, 255);
    let mut ticks = 0u32;
    while p.alive && ticks < 400 {
        p.tick(true, 0);
        assert!(p.position >= 0 && p.position <= 999);
        ticks += 1;
    }
    assert!(!p.alive);
    assert_eq!(p.power, 0);
}

#[test]
fn particle_draw_reports_active_above_the_glow_threshold() {
    let mut leds = LEDString::new();
    let mut p = Particle::new();
    let mut rng = Rand8::new(7);
    p.spawn(500, &mut rng);
    assert!(p.draw(&mut leds));
    p.power = 4;
    assert!(!p.draw(&mut leds));
    p.alive = false;
    assert!(!p.draw(&mut leds));
}
