use std::collections::HashMap;

use randpass::stream::random_bytes;
use randpass::pool::POOL_SIZE;
use randpass::rand::{finalize_word, Rand};
use randpass::source::{Counter, Generator};

const PRIMES: [u64; 16] = [
    0x9e3779b97f4a7c55,
    0xbf58476d1ce4e5ff,
    0x94d049bb13311243,
    0xc2b2ae3d27d4eb4f,
    0x165667b19e3779f9,
    0xd6e8feb86659fd99,
    0xff51afd7ed558ccd,
    0xc4ceb9fe1a85eccd,
    0x87c37b911142540d,
    0x4cf5ad43274593b9,
    0xa0761d6478bd642f,
    0xe7037ed1a0b428db,
    0x8ebc6af09c88c6e3,
    0x589965cc75374cc3,
    0x1d8e4e27c47d124f,
    0xd3833e804f4c5791,
];

fn expected_step(s: u64, e: u64) -> u64 {
    let m = s ^ e;
    let idx = ((m ^ (m >> 32)) % 16) as usize;
    s.rotate_left(17).wrapping_mul(PRIMES[idx]) ^ e
}

fn expected_finalize(x: u64) -> u64 {
    let mut z = x;
    z = (z ^ (z >> 30)).wrapping_mul(0xbf58476d1ce4e5b9);
    z = (z ^ (z >> 27)).wrapping_mul(0x94d049bb133111eb);
    z ^ (z >> 31)
}

#[test]
fn mix_matches_formula() {
    let mut r = Rand::new(1);
    let out = r.mix(2);
    let s = 131072u64.wrapping_mul(0xc2b2ae3d27d4eb4f) ^ 2;
    assert_eq!(r.state(), s);
    assert_eq!(out, expected_finalize(s));
}

#[test]
fn finalizer_known_values() {
    assert_eq!(finalize_word(0), 0);
    assert_eq!(finalize_word(1), expected_finalize(1));
    assert_ne!(finalize_word(1), 1);
    assert_eq!(finalize_word(0x0123_4567_89ab_cdef), expected_finalize(0x0123_4567_89ab_cdef));
}

#[test]
fn first_get_seeds_from_counter() {
    let mut g = Generator::new(Counter::Timestamp, 1024);
    let seed = 0x1234_5678_u64;
    let r = 0xdead_beef_u64;
    let out = g.get(seed, r);
    let s = expected_step(seed, r);
    assert_eq!(out, expected_finalize(s));
    let out2 = g.get(0, r + 100);
    assert_eq!(out2, expected_finalize(expected_step(s, r + 100)));
}

#[test]
fn zeroize_state_clears_word() {
    let mut r = Rand::new(0x1234_5678);
    r.mix(99);
    assert_ne!(r.state(), 0);
    r.zeroize_state();
    assert_eq!(r.state(), 0);
}

#[test]
fn million_gets_no_repeat_or_short_cycle() {
    let mut g = Generator::new(Counter::Timestamp, POOL_SIZE);
    let mut last_seen: HashMap<u64, usize> = HashMap::with_capacity(1_000_000);
    let mut prev: Option<u64> = None;
    for i in 0..1_000_000usize {
        let reading = 1_000_000u64 + (i as u64) * 37;
        let w = g.get(reading - 11, reading);
        if let Some(p) = prev {
            assert_ne!(p, w, "consecutive outputs equal at call {}", i);
        }
        if let Some(j) = last_seen.insert(w, i) {
            assert!(i - j >= 1000, "cycle of length {} at call {}", i - j, i);
        }
        prev = Some(w);
    }
}

#[test]
fn sixteen_mib_byte_frequencies_near_uniform() {
    let mut g = Generator::new(Counter::Timestamp, POOL_SIZE);
    let n = 16 * 1024 * 1024;
    let mut counts = [0u64; 256];
    let mut done = 0usize;
    let mut reading = 5_000u64;
    while done < n {
        let readings: Vec<u64> = (0..8192u64).map(|k| reading + 13 * k).collect();
        let bytes = random_bytes(&mut g, 65536, reading + 1, &readings);
        for b in &bytes {
            counts[*b as usize] += 1;
        }
        done += bytes.len();
        reading += 7919;
    }
    let expected = (n / 256) as f64;
    for (v, c) in counts.iter().enumerate() {
        let dev = (*c as f64 - expected).abs() / expected;
        assert!(dev < 0.05, "byte {} seen {} times", v, c);
    }
}

#[test]
fn random_bytes_are_little_endian_words() {
    let mut a = Generator::new(Counter::Timestamp, 1024);
    let mut b = Generator::new(Counter::Timestamp, 1024);
    let bytes = random_bytes(&mut a, 13, 41, &[42, 43]);
    assert_eq!(bytes.len(), 13);
    let w1 = b.get(41, 42);
    let w2 = b.get(41, 43);
    let mut expected = w1.to_le_bytes().to_vec();
    expected.extend_from_slice(&w2.to_le_bytes()[..5]);
    assert_eq!(bytes, expected);
    assert!(random_bytes(&mut a, 0, 41, &[]).is_empty());
}

#[test]
fn source_names_follow_mode() {
    let mut g = Generator::new(Counter::Timestamp, 1024);
    assert_eq!(g.source_name(), "hardware-counter");
    assert_eq!(g.entropy_source(), "rdtsc");
    assert_eq!(
        g.entropy_source_info(),
        "rdtsc (CPU timestamp counter) - High quality"
    );
    assert!(g.enable_urandom(true));
    assert!(g.is_urandom_enabled());
    assert_eq!(g.source_name(), "pool");
    assert_eq!(g.entropy_source(), "/dev/urandom");
    let released = g.disable_urandom();
    assert!(released.is_empty());
    assert_eq!(g.source_name(), "hardware-counter");

    let arm = Generator::new(Counter::CycleCounter, 1024);
    assert_eq!(arm.entropy_source(), "cycle counter");
    let bare = Generator::new(Counter::Absent, 1024);
    assert!(bare.uses_pool());
    assert_eq!(bare.source_name(), "pool");
    assert_eq!(Counter::Absent.source_name(), "/dev/urandom");
}

#[test]
fn platform_without_counter_asks_for_pool() {
    let mut g = Generator::new(Counter::Absent, 1024);
    assert!(!g.is_urandom_enabled());
    assert!(g.uses_pool());
    assert!(g.needs_pool_init());
    assert_eq!(g.entropy(0, 5), 0);

    let hw = Generator::new(Counter::Timestamp, 1024);
    assert!(!hw.needs_pool_init());
}

#[test]
fn seed_uses_its_own_reading() {
    let mut g = Generator::new(Counter::Timestamp, 1024);
    g.seed(7);
    g.seed(8);
    let out = g.get(9, 10);
    assert_eq!(out, expected_finalize(expected_step(7, 10)));
}

#[test]
fn pool_mode_without_active_pool_gives_sentinel() {
    let mut g = Generator::new(Counter::Timestamp, 1024);
    assert!(g.enable_urandom(true));
    assert!(g.needs_pool_init());
    assert_eq!(g.entropy(5, 777), 0);
    assert_eq!(g.entropy(5, 777), 0);
}

#[test]
fn set_urandom_mode_switches() {
    let mut g = Generator::new(Counter::Timestamp, 1024);
    let (on, released) = g.set_urandom_mode(true, false);
    assert!(!on);
    assert!(released.is_empty());
    assert!(!g.is_urandom_enabled());
    let (on, _) = g.set_urandom_mode(true, true);
    assert!(on);
    assert!(g.is_urandom_enabled());
    let (on, _) = g.set_urandom_mode(false, true);
    assert!(!on);
    assert!(!g.is_urandom_enabled());
}
