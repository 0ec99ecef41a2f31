//! Tests of the math, randomness, buffer, timing and string utilities.
use std::collections::HashSet;
use rust_engine::collections::CircularBuffer;
use rust_engine::mathutil::{clamp, distance, isqrt, lerp, smoothstep};
use rust_engine::randutil::{
    random_bool, random_choice, random_float, random_int, random_range, random_vector_in_circle,
    random_vector_in_rect, rng_from_seed, shuffle,
};
use rust_engine::strutil::{format_duration, to_decimal, truncate};
use rust_engine::timing::{PerformanceCounter, Timer};

const SCALE: i64 = 1_000_000;

#[test]
fn clamp_selects_the_nearest_bound() {
    assert_eq!(clamp(5, 0, 10), 5);
    assert_eq!(clamp(-5, 0, 10), 0);
    assert_eq!(clamp(15, 0, 10), 10);
}

#[test]
fn lerp_interpolates_and_clamps_the_fraction() {
    // Halfway from 0 to 10 is 5.
    assert_eq!(lerp(0, 10 * SCALE, SCALE / 2), 5 * SCALE);
    assert_eq!(lerp(0, 10 * SCALE, 0), 0);
    assert_eq!(lerp(0, 10 * SCALE, SCALE), 10 * SCALE);
    // Fractions outside [0, 1] are clamped.
    assert_eq!(lerp(0, 10 * SCALE, 2 * SCALE), 10 * SCALE);
    assert_eq!(lerp(0, 10 * SCALE, -SCALE), 0);
}

#[test]
fn smoothstep_matches_the_cubic() {
    // At the midpoint the cubic evaluates to exactly one half.
    assert_eq!(smoothstep(0, SCALE, SCALE / 2), SCALE / 2);
    assert_eq!(smoothstep(0, SCALE, 0), 0);
    assert_eq!(smoothstep(0, SCALE, SCALE), SCALE);
    assert_eq!(smoothstep(0, SCALE, 2 * SCALE), SCALE);
    // t = 0.25: 0.0625 * (3 - 0.5) = 0.15625.
    assert_eq!(smoothstep(0, SCALE, SCALE / 4), 156_250);
}

#[test]
fn isqrt_rounds_down() {
    assert_eq!(isqrt(0), 0);
    assert_eq!(isqrt(1), 1);
    assert_eq!(isqrt(2), 1);
    assert_eq!(isqrt(144), 12);
    assert_eq!(isqrt(145), 12);
    assert_eq!(isqrt(u64::MAX as u128 * u64::MAX as u128), u64::MAX as u128);
}

#[test]
fn distance_handles_negative_coordinates() {
    assert_eq!(distance(-3 * SCALE, 0, 0, 4 * SCALE), 5 * SCALE);
}

#[test]
fn random_draws_respect_their_ranges() {
    let mut rng = rng_from_seed(123);
    for _ in 0..200 {
        let f = random_float(&mut rng);
        assert!(0 <= f && f < SCALE);
        let r = random_range(-5 * SCALE, 5 * SCALE, &mut rng);
        assert!(-5 * SCALE <= r && r < 5 * SCALE);
        let i = random_int(-3, 7, &mut rng);
        assert!(-3 <= i && i <= 7);
        let _ = random_bool(&mut rng);
    }
}

#[test]
fn random_int_reaches_both_bounds() {
    let mut rng = rng_from_seed(5);
    let mut seen = HashSet::new();
    for _ in 0..500 {
        seen.insert(random_int(0, 3, &mut rng));
    }
    assert_eq!(seen, HashSet::from([0, 1, 2, 3]));
}

#[test]
fn random_points_land_in_their_regions() {
    let mut rng = rng_from_seed(31);
    for _ in 0..100 {
        let (x, y) = random_vector_in_rect(10 * SCALE, 20 * SCALE, &mut rng);
        assert!(0 <= x && x < 10 * SCALE);
        assert!(0 <= y && y < 20 * SCALE);
        let (cx, cy) = random_vector_in_circle(3 * SCALE, &mut rng);
        assert!((cx as i128) * (cx as i128) + (cy as i128) * (cy as i128)
            <= (3 * SCALE as i128) * (3 * SCALE as i128));
    }
}

#[test]
fn random_choice_picks_a_member() {
    let mut rng = rng_from_seed(8);
    let items = [10, 20, 30];
    for _ in 0..50 {
        let pick = random_choice(&items, &mut rng).unwrap();
        assert!(items.contains(pick));
    }
    let empty: [i32; 0] = [];
    assert!(random_choice(&empty, &mut rng).is_none());
}

#[test]
fn shuffle_permutes_without_losing_elements() {
    let mut rng = rng_from_seed(99);
    let mut values: Vec<u32> = (0..64).collect();
    shuffle(&mut values, &mut rng);
    assert_eq!(values.len(), 64);
    let mut sorted = values.clone();
    sorted.sort();
    assert_eq!(sorted, (0..64).collect::<Vec<u32>>());
    // With 64 elements a seeded shuffle virtually never returns identity.
    assert_ne!(values, (0..64).collect::<Vec<u32>>());
}

#[test]
fn circular_buffer_keeps_the_most_recent_values() {
    let mut buffer: CircularBuffer<i32> = CircularBuffer::new(3);
    assert!(buffer.is_empty());
    buffer.push(1);
    buffer.push(2);
    assert_eq!(buffer.len(), 2);
    assert_eq!(buffer.get(0), Some(&1));
    assert_eq!(buffer.get(1), Some(&2));
    assert_eq!(buffer.get(2), None);
    buffer.push(3);
    buffer.push(4);
    // The oldest value (1) was overwritten.
    assert_eq!(buffer.len(), 3);
    assert_eq!(buffer.get(0), Some(&2));
    assert_eq!(buffer.get(1), Some(&3));
    assert_eq!(buffer.get(2), Some(&4));
    assert_eq!(buffer.iter(), vec![2, 3, 4]);
}

#[test]
fn timer_reports_running_state() {
    let mut timer = Timer::new();
    assert!(timer.elapsed().is_none());
    assert!(timer.stop().is_none());
    timer.start();
    assert!(timer.elapsed().is_some());
    assert!(timer.stop().is_some());
    assert!(timer.elapsed().is_none());
}

#[test]
fn performance_counter_aggregates_exactly() {
    let mut counter = PerformanceCounter::new();
    assert_eq!(counter.average_time(), 0);
    counter.record(10);
    counter.record(30);
    counter.record(20);
    assert_eq!(counter.count(), 3);
    assert_eq!(counter.average_time(), 20);
    assert_eq!(counter.min_time(), Some(10));
    assert_eq!(counter.max_time(), Some(30));
}

#[test]
fn decimal_rendering_is_exact() {
    assert_eq!(to_decimal(0), "0");
    assert_eq!(to_decimal(7), "7");
    assert_eq!(to_decimal(1234567890), "1234567890");
}

#[test]
fn duration_formatting_switches_units_at_one_second() {
    assert_eq!(format_duration(0), "0ms");
    assert_eq!(format_duration(999), "999ms");
    assert_eq!(format_duration(1000), "1.00s");
    assert_eq!(format_duration(1234), "1.23s");
    assert_eq!(format_duration(1239), "1.24s");
    assert_eq!(format_duration(61500), "61.50s");
}

#[test]
fn truncate_shortens_with_ellipsis() {
    assert_eq!(truncate("short", 10), "short");
    assert_eq!(truncate("hello world", 8), "hello...");
    assert_eq!(truncate("abcdef", 2), "...");
}
