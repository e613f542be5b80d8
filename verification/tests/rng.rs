use cairo_fuzzer::cairo_fuzz::rng::Rng as CairoRng;
use cairo_fuzzer::cairo_fuzz::worker::next_input_index;
use cairo_fuzzer::native::rng::Rng as NativeRng;
use cairo_fuzzer::rustic::rng::Rng as RusticRng;
use cairo_fuzzer::xorshift::xorshift64_step;

#[test]
fn xorshift_step_known_values() {
    assert_eq!(xorshift64_step(1), 72066390130958337);
    assert_eq!(xorshift64_step(72066390130958337), 4503599627371009);
    assert_eq!(xorshift64_step(12345), 4078519636080399162);
}

#[test]
fn xorshift_zero_is_a_fixed_point() {
    assert_eq!(xorshift64_step(0), 0);
}

#[test]
fn xorshift_nonzero_stays_nonzero() {
    let mut s: u64 = 0xdead_beef;
    for _ in 0..10_000 {
        s = xorshift64_step(s);
        assert_ne!(s, 0);
    }
}

#[test]
fn cairo_rng_draws_the_xorshift_sequence() {
    let mut rng = CairoRng::seeded(1);
    assert_eq!(rng.rand(), 72066390130958337);
    assert_eq!(rng.rand(), 4503599627371009);
    assert_eq!(rng.rand(), 72347899471602209);
}

#[test]
fn cairo_rng_new_discards_a_thousand_draws() {
    let mut rng = CairoRng::new(1);
    assert_eq!(rng.rand(), 5087616352874868729);
}

#[test]
fn cairo_rng_same_seed_same_sequence() {
    let mut a = CairoRng::seeded(987654321);
    let mut b = CairoRng::seeded(987654321);
    for _ in 0..100 {
        assert_eq!(a.rand(), b.rand());
    }
}

#[test]
fn next_input_index_draws_modulo_the_inputs() {
    let mut rng = CairoRng::seeded(1);
    assert_eq!(next_input_index(&mut rng, 0), 0);
    // no draw was made: the next index uses the first draw
    assert_eq!(next_input_index(&mut rng, 10), (72066390130958337u64 % 10) as usize);
    assert_eq!(next_input_index(&mut rng, 7), (4503599627371009u64 % 7) as usize);
}

#[test]
fn native_rng_rand_and_rand_usize() {
    let mut rng = NativeRng::seeded(1);
    assert_eq!(rng.rand(), 72066390130958337);
    assert_eq!(rng.rand_usize(), 4503599627371009);
}

#[test]
fn native_rng_gen_range() {
    let mut rng = NativeRng::seeded(1);
    assert_eq!(rng.gen_range(0..=9), 7);
    assert_eq!(rng.gen_range(0..=9), 9);
    let mut rng = NativeRng::seeded(12345);
    assert_eq!(rng.gen_range(10..=19), 12);
    let mut rng = NativeRng::seeded(5);
    assert_eq!(rng.gen_range(5..=5), 5);
}

#[test]
fn native_rng_gen_range_stays_in_range() {
    let mut rng = NativeRng::seeded(42);
    for _ in 0..1000 {
        let v = rng.gen_range(3..=17);
        assert!((3..=17).contains(&v));
    }
}

#[test]
fn rustic_rng_next_returns_the_state_then_steps() {
    let mut rng = RusticRng { seed: 1, exp_disabled: false };
    assert_eq!(rng.next(), 1);
    assert_eq!(rng.seed, 72066390130958337);
}

#[test]
fn rustic_rng_rand() {
    let mut rng = RusticRng { seed: 1, exp_disabled: false };
    assert_eq!(rng.rand(3, 7), 4);
    assert_eq!(rng.seed, 72066390130958337);
    // a single-value range draws nothing
    assert_eq!(rng.rand(2, 2), 2);
    assert_eq!(rng.seed, 72066390130958337);
    // the full range returns the state itself
    let mut rng = RusticRng { seed: 1, exp_disabled: false };
    assert_eq!(rng.rand(0, usize::MAX), 1);
}

#[test]
fn rustic_rng_rand_exp() {
    let mut rng = RusticRng { seed: 1, exp_disabled: false };
    assert_eq!(rng.rand_exp(0, 100), 4);
    assert_eq!(rng.seed, 72347899471602209);
    let mut a = RusticRng { seed: 1, exp_disabled: true };
    let mut b = RusticRng { seed: 1, exp_disabled: true };
    assert_eq!(a.rand_exp(10, 20), b.rand(10, 20));
    assert_eq!(a.seed, b.seed);
}

#[test]
fn rustic_rng_rand_in_bounds() {
    let mut rng = RusticRng { seed: 777, exp_disabled: false };
    for i in 0..500usize {
        let lo = i % 13;
        let hi = lo + (i % 29);
        let v = rng.rand(lo, hi);
        assert!(lo <= v && v <= hi);
        let w = rng.rand_exp(lo, hi);
        assert!(lo <= w && w <= hi);
    }
}
