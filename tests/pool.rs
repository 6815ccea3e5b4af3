use randpass::pool::{Phase, Pool, CHUNK_SIZE};
use randpass::source::{Counter, Generator};

/// A buffer whose word at each aligned offset holds that offset.
fn offset_pattern(size: usize) -> Vec<u8> {
    let mut v = Vec::with_capacity(size);
    for off in (0..size).step_by(8) {
        v.extend_from_slice(&(off as u64).to_le_bytes());
    }
    v
}

fn active_pool(size: usize) -> Pool {
    let mut p = Pool::new(size);
    assert!(p.enable(true));
    assert!(p.needs_init());
    assert!(p.activate(offset_pattern(size)).is_none());
    assert!(p.is_active());
    p
}

#[test]
fn small_pool_two_hundred_reads_in_bounds() {
    let mut p = active_pool(1024);
    for k in 0..200u64 {
        let w = p.read(k.wrapping_mul(0x9e37_79b9_7f4a_7c15));
        assert!(w < 1024, "read {} out of bounds: {}", k, w);
        assert_eq!(w % 8, 0);
    }
}

#[test]
fn offsets_in_bounds_for_several_sizes() {
    for size in [8usize, 16, 64, 4096] {
        let mut p = active_pool(size);
        let mut hint = 12345u64;
        for _ in 0..(3 * size / 8 + 5) {
            let w = p.read(hint);
            assert!((w as usize) + 8 <= size);
            assert_eq!(w % 8, 0);
            hint = hint.wrapping_mul(6364136223846793005).wrapping_add(1442695040888963407);
        }
    }
}

#[test]
fn reads_are_sequential_within_a_lap() {
    let mut p = active_pool(1024);
    let first = p.read(8 * 17);
    assert_eq!(first, 8 * 17);
    for k in 1..128u64 {
        assert_eq!(p.read(0), (8 * 17 + 8 * k) % 1024);
    }
}

#[test]
fn lap_crossings_with_different_hints_start_differently() {
    let mut p = active_pool(1024);
    let lap1 = p.read(8);
    for _ in 1..128 {
        p.read(0);
    }
    let lap2 = p.read(16);
    assert_eq!(lap1, 8);
    assert_eq!(lap2, 16);
    assert_ne!(lap1, lap2);
}

#[test]
fn inactive_and_declined_pools_return_sentinel() {
    let mut p = Pool::new(1024);
    assert_eq!(p.read(3), 0);
    assert!(p.enable(true));
    p.decline();
    assert_eq!(p.phase(), Phase::Declined);
    assert!(!p.needs_init());
    assert_eq!(p.read(3), 0);
    let back = p.activate(offset_pattern(1024));
    assert_eq!(back.map(|b| b.len()), Some(1024));
    assert!(p.enable(true));
    assert_eq!(p.phase(), Phase::Inactive);
    assert!(p.needs_init());
}

#[test]
fn enable_without_device_changes_nothing() {
    let mut p = Pool::new(1024);
    assert!(!p.enable(false));
    assert_eq!(p.phase(), Phase::Inactive);
    assert!(!p.is_requested());

    let mut g = Generator::new(Counter::Timestamp, 1024);
    assert!(!g.enable_urandom(false));
    assert!(!g.is_urandom_enabled());
    assert_eq!(g.pool().phase(), Phase::Inactive);
    assert_eq!(g.source_name(), "hardware-counter");
}

#[test]
fn activate_rejects_wrong_length_and_second_fill() {
    let mut p = Pool::new(1024);
    let back = p.activate(vec![1u8; 512]);
    assert_eq!(back.map(|b| b.len()), Some(512));
    assert!(!p.is_active());
    assert!(p.activate(offset_pattern(1024)).is_none());
    let again = p.activate(vec![7u8; 1024]);
    assert_eq!(again, Some(vec![7u8; 1024]));
    assert_eq!(p.read(0), 0);
}

#[test]
fn emergency_zero_leaves_only_zero_bytes() {
    let mut p = active_pool(1024);
    assert_eq!(p.read(8), 8);
    p.emergency_zero();
    assert!(p.is_active());
    for _ in 0..256 {
        assert_eq!(p.read(99), 0);
    }
    let released = p.shutdown();
    assert_eq!(released.len(), 1024);
    assert!(released.iter().all(|b| *b == 0));
}

#[test]
fn shutdown_zeroes_and_releases_but_keeps_request() {
    let mut p = active_pool(64);
    let released = p.shutdown();
    assert_eq!(released.len(), 64);
    assert!(released.iter().all(|b| *b == 0));
    assert!(!p.is_active());
    assert!(p.is_requested());
    assert!(p.needs_init());
    assert!(p.shutdown().is_empty());
}

#[test]
fn enable_disable_cycles_release_every_buffer() {
    let mut g = Generator::new(Counter::Timestamp, 1024);
    for round in 0..100u64 {
        assert!(g.enable_urandom(true));
        assert!(g.needs_pool_init());
        assert!(g.activate_pool(offset_pattern(1024)).is_none());
        let w = g.entropy(round * 8, 0);
        assert!(w < 1024);
        let released = g.disable_urandom();
        assert_eq!(released.len(), 1024);
        assert!(released.iter().all(|b| *b == 0));
        assert!(!g.pool().is_active());
        assert!(!g.is_urandom_enabled());
    }
}

#[test]
fn refill_overwrites_from_refresh_position() {
    let mut p = active_pool(16);
    let taken = p.refill(&vec![0xaa; 8]);
    assert_eq!(taken, 8);
    assert_eq!(p.read(0), u64::from_le_bytes([0xaa; 8]));
    let taken = p.refill(&vec![0xbb; 32]);
    assert_eq!(taken, 8);
    assert_eq!(p.read(0), u64::from_le_bytes([0xbb; 8]));
    let taken = p.refill(&vec![0xcc; 8]);
    assert_eq!(taken, 8);
    assert_eq!(p.read(0), u64::from_le_bytes([0xcc; 8]));
    assert_eq!(CHUNK_SIZE, 512 * 1024);
    let mut idle = Pool::new(16);
    assert_eq!(idle.refill(&vec![1; 8]), 0);
}

#[test]
fn pool_mode_generator_reads_pool_words() {
    let mut g = Generator::new(Counter::Timestamp, 1024);
    assert!(g.enable_urandom(true));
    assert!(g.activate_pool(offset_pattern(1024)).is_none());
    let e = g.entropy(40, 999);
    assert_eq!(e, 40);
    assert_eq!(g.entropy(0, 999), 48);
    g.emergency_zero();
    assert_eq!(g.entropy(0, 999), 0);
    let released = g.shutdown_pool();
    assert_eq!(released.len(), 1024);
    assert!(g.is_urandom_enabled());
    assert!(g.needs_pool_init());
}
