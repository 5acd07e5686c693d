use twang::enemy::Enemy;
use twang::spawner::Spawner;
use twang::world::{World, ENEMY_POOL_COUNT};

fn fresh_pool() -> Vec<Enemy> {
    let mut v = Vec::new();
    for _ in 0..ENEMY_POOL_COUNT {
        v.push(Enemy::new());
    }
    v
}

#[test]
fn spawner_spawns_immediately_at_activation_then_once_per_period() {
    let mut sp = Spawner::new();
    sp.spawn(1000, 500, 300, 2, 0);
    let mut enemies = fresh_pool();

    // first eligible tick spawns immediately
    sp.tick(1001, &mut enemies);
    assert!(enemies[0].alive);
    assert_eq!(enemies[0].position, 500);
    assert_eq!(sp.last_spawned, 1001);

    // within the period nothing spawns
    sp.tick(1200, &mut enemies);
    sp.tick(1301, &mut enemies);
    assert!(!enemies[1].alive);
    assert_eq!(sp.last_spawned, 1001);

    // one full period later it spawns exactly once more
    sp.tick(1302, &mut enemies);
    assert!(enemies[1].alive);
    assert!(!enemies[2].alive);
    assert_eq!(sp.last_spawned, 1302);
}

#[test]
fn spawner_waits_for_its_activation_delay() {
    let mut sp = Spawner::new();
    sp.spawn(1000, 500, 300, 2, 5000);
    let mut enemies = fresh_pool();
    sp.tick(3000, &mut enemies);
    assert!(!enemies[0].alive);
    sp.tick(6001, &mut enemies);
    assert!(enemies[0].alive);
}

#[test]
fn spawner_skips_and_retries_when_the_pool_is_full() {
    let mut sp = Spawner::new();
    sp.spawn(1000, 500, 300, 2, 0);
    let mut enemies = fresh_pool();
    for e in enemies.iter_mut() {
        e.spawn(7, 0, 0);
    }
    sp.tick(1001, &mut enemies);
    // nothing spawned and the attempt was not recorded
    assert_eq!(sp.last_spawned, 0);
    let mut freed = enemies.clone();
    freed[3].reset();
    sp.tick(1002, &mut freed);
    assert!(freed[3].alive);
    assert_eq!(freed[3].position, 500);
    assert_eq!(sp.last_spawned, 1002);
}

#[test]
fn enemy_pool_holds_capacity_and_drops_the_overflow() {
    let mut w = World::new();
    for i in 0..(ENEMY_POOL_COUNT + 1) {
        w.spawn_enemy(10 * i as i32, 0, 0);
    }
    let alive = w.enemies.iter().filter(|e| e.alive).count();
    assert_eq!(alive, ENEMY_POOL_COUNT);
    // the extra request was a no-op: slot contents are the first ten
    for i in 0..ENEMY_POOL_COUNT {
        assert_eq!(w.enemies[i].position, 10 * i as i32);
    }
}

#[test]
fn world_spawns_are_first_fit() {
    let mut w = World::new();
    w.spawn_enemy(100, 0, 0);
    w.spawn_enemy(200, 0, 0);
    let mut e1 = w.enemies[1];
    e1.reset();
    w.enemies[1] = e1;
    w.spawn_enemy(300, 0, 0);
    assert_eq!(w.enemies[1].position, 300);
    assert_eq!(w.enemies[0].position, 100);
}
