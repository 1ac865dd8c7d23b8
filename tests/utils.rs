use my_engine::audio::AudioSource;
use my_engine::utils::{generate_seed, get_extension, profile, Profiler, Random};

#[test]
fn zero_seed_is_replaced_by_one() {
    let mut zero = Random::new(0);
    let mut one = Random::new(1);
    assert_eq!(zero.next(), one.next());
}

#[test]
fn next_follows_the_lcg_formula() {
    let mut rng = Random::new(12345);
    let expected = 12345u64.wrapping_mul(6364136223846793005).wrapping_add(1);
    assert_eq!(rng.next(), expected);
    assert_eq!(rng.next(), expected.wrapping_mul(6364136223846793005).wrapping_add(1));
}

#[test]
fn range_and_bool_use_the_next_state() {
    let mut rng = Random::new(1);
    let state = 6364136223846793006u64;
    assert_eq!(rng.gen_range_i32(-5, 5), -5 + (state % 10) as i32);
    let mut rng = Random::new(1);
    assert_eq!(rng.gen_bool(), state % 2 == 1);
    let mut rng = Random::new(99);
    for _ in 0..100 {
        let v = rng.gen_range_i32(i32::MIN, i32::MAX);
        assert!(v < i32::MAX);
        let w = rng.gen_range_i32(3, 4);
        assert_eq!(w, 3);
    }
}

#[test]
fn time_seeded_generator_runs() {
    let _ = generate_seed();
    let mut rng = Random::from_time();
    let v = rng.gen_range_i32(0, 6);
    assert!((0..6).contains(&v));
}

#[test]
fn extension_is_lowercased() {
    assert_eq!(get_extension("assets/Sprite.PNG"), Some("png".to_string()));
    assert_eq!(get_extension("music/theme.ogg"), Some("ogg".to_string()));
    assert_eq!(get_extension("README"), None);
    assert_eq!(get_extension(".hidden"), None);
    assert_eq!(get_extension("archive.tar.GZ"), Some("gz".to_string()));
}

#[test]
fn profile_returns_the_result() {
    assert_eq!(profile("sum", || 2 + 3), 5);
    let p = Profiler::start("section".to_string());
    assert_eq!(p.label(), "section");
    let first = p.elapsed();
    assert!(p.stop() >= first);
}

#[test]
fn audio_source_keeps_its_bytes() {
    let source = AudioSource::from_bytes(vec![82, 73, 70, 70]);
    assert_eq!(source.data(), &[82, 73, 70, 70]);
}
