use twang::rand::{random8, random8lim, random8minlim, Rand8};
use twang::screensaver::PRand;

#[test]
fn equal_seeds_give_equal_streams() {
    let mut a = Rand8::new(1337);
    let mut b = Rand8::new(1337);
    for _ in 0..100 {
        assert_eq!(random8(&mut a), random8(&mut b));
    }
}

#[test]
fn the_stream_matches_its_linear_congruential_step() {
    let mut r = Rand8::new(1337);
    let first = random8(&mut r);
    let seed = 1337u16.wrapping_mul(2053).wrapping_add(13849);
    assert_eq!(r.seed, seed);
    assert_eq!(first, ((seed % 256) as u8).wrapping_add((seed / 256) as u8));
}

#[test]
fn bounded_draws_stay_below_their_limit() {
    let mut r = Rand8::new(99);
    for _ in 0..200 {
        assert!(random8lim(&mut r, 30) < 30);
    }
    let mut r2 = Rand8::new(7);
    for _ in 0..200 {
        let v = random8minlim(&mut r2, 10, 20);
        assert!((10..20).contains(&v));
    }
}

#[test]
fn the_idle_stream_matches_its_step() {
    let mut p = PRand::new(5);
    let v = p.next_u32();
    assert_eq!(v, 134_775_813u32.wrapping_mul(5).wrapping_add(1));
    assert_eq!(p.seed, v);
}
