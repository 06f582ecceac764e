use quad_rand::ChooseRandom;
use quad_rand::RandGenerator;

#[test]
fn unseeded_generator_starts_at_zero_state() {
    // State zero xorshifts and rotates to zero, so the very first
    // draw of an unseeded generator is zero.
    let mut g = RandGenerator::new();
    assert_eq!(g.rand(), 0);
}

#[test]
fn determinism_same_seed_same_sequence() {
    let mut a = RandGenerator::new();
    let mut b = RandGenerator::new();
    a.srand(42);
    b.srand(42);
    for _ in 0..100 {
        assert_eq!(a.rand(), b.rand());
    }
}

#[test]
fn seed_sensitivity_sequences_diverge() {
    let mut a = RandGenerator::new();
    let mut b = RandGenerator::new();
    a.srand(1);
    b.srand(2);
    let mut diverged = false;
    for _ in 0..5 {
        if a.rand() != b.rand() {
            diverged = true;
        }
    }
    assert!(diverged);
}

#[test]
fn golden_first_draws_after_seed_12345() {
    let mut g = RandGenerator::new();
    g.srand(12345);
    assert_eq!(g.rand(), 1411482639);
    assert_eq!(g.rand(), 3165192603);
}

#[test]
fn reseeding_restarts_the_sequence() {
    let mut g = RandGenerator::new();
    g.srand(12345);
    let first: Vec<u32> = (0..10).map(|_| g.rand()).collect();
    g.srand(12345);
    let second: Vec<u32> = (0..10).map(|_| g.rand()).collect();
    assert_eq!(first, second);
}

#[test]
fn range_containment_u32() {
    let mut g = RandGenerator::new();
    g.srand(7);
    for _ in 0..100_000 {
        let v: u32 = g.gen_range(10u32, 20u32);
        assert!((10..20).contains(&v));
    }
}

#[test]
fn gen_range_u32_golden_value() {
    let mut g = RandGenerator::new();
    g.srand(12345);
    let v: u32 = g.gen_range(10u32, 20u32);
    // 10 + (10 * 1411482639) / 2^32 == 13
    assert_eq!(v, 13);
}

#[test]
fn gen_range_u8_after_seed_12345_in_range_and_reproducible() {
    let mut a = RandGenerator::new();
    a.srand(12345);
    let first: u8 = a.gen_range(64u8, 128u8);
    assert_eq!(first, 85);
    for _ in 0..1000 {
        let v: u8 = a.gen_range(64u8, 128u8);
        assert!((64..128).contains(&v));
    }
    let mut b = RandGenerator::new();
    b.srand(12345);
    let again: u8 = b.gen_range(64u8, 128u8);
    assert_eq!(first, again);
}

#[test]
fn gen_range_empty_span_returns_low() {
    let mut g = RandGenerator::new();
    g.srand(3);
    let v: u32 = g.gen_range(5u32, 5u32);
    assert_eq!(v, 5);
}

#[test]
fn gen_range_signed_containment() {
    let mut g = RandGenerator::new();
    g.srand(99);
    for _ in 0..10_000 {
        let v: i32 = g.gen_range(-50i32, 50i32);
        assert!((-50..50).contains(&v));
        let w: i64 = g.gen_range(-1_000_000_000_000i64, 1_000_000_000_000i64);
        assert!((-1_000_000_000_000..1_000_000_000_000).contains(&w));
    }
}

#[test]
fn gen_range_unsigned_wide_containment() {
    let mut g = RandGenerator::new();
    g.srand(5);
    for _ in 0..10_000 {
        let v: u64 = g.gen_range(0u64, u64::MAX);
        assert!(v < u64::MAX);
        let w: usize = g.gen_range(100usize, 200usize);
        assert!((100..200).contains(&w));
    }
}

#[test]
fn unbounded_i16_reaches_both_ends() {
    let mut g = RandGenerator::new();
    g.srand(2024);
    let mut least: i16 = 0;
    let mut greatest: i16 = 0;
    for _ in 0..10_000 {
        let v: i16 = g.gen_range(i16::MIN, i16::MAX);
        least = least.min(v);
        greatest = greatest.max(v);
    }
    assert!(least < -16_000);
    assert!(greatest > 16_000);
}

#[test]
fn shuffle_is_a_permutation() {
    let mut g = RandGenerator::new();
    g.srand(11);
    let original: Vec<u32> = vec![5, 1, 4, 4, 9, 2, 7, 7, 7, 0, 3, 8];
    let mut data = original.clone();
    data.shuffle_with_state(&mut g);
    assert_eq!(data.len(), original.len());
    let mut sorted_before = original.clone();
    let mut sorted_after = data.clone();
    sorted_before.sort();
    sorted_after.sort();
    assert_eq!(sorted_before, sorted_after);
}

#[test]
fn shuffle_actually_moves_elements() {
    let mut g = RandGenerator::new();
    g.srand(12345);
    let original: Vec<u32> = (0..32).collect();
    let mut data = original.clone();
    data.shuffle_with_state(&mut g);
    assert_ne!(data, original);
}

#[test]
fn shuffle_golden_order() {
    // The shuffle is deterministic in the seed: this order is a fixed
    // function of seeding with 12345.
    let mut g = RandGenerator::new();
    g.srand(12345);
    let mut data: Vec<u32> = (0..8).collect();
    data.shuffle_with_state(&mut g);
    assert_eq!(data, vec![7, 6, 1, 2, 0, 5, 4, 3]);
}

#[test]
fn choose_golden_pick() {
    // The pick is deterministic in the seed: element 2 is a fixed
    // function of seeding with 777 over seven elements.
    let mut g = RandGenerator::new();
    g.srand(777);
    let data: Vec<u32> = vec![10, 11, 12, 13, 14, 15, 16];
    assert_eq!(data.choose_with_state(&mut g), Some(&12));
}

#[test]
fn shuffle_short_inputs_are_untouched() {
    let mut g = RandGenerator::new();
    g.srand(1);
    let mut empty: Vec<u8> = Vec::new();
    empty.shuffle_with_state(&mut g);
    assert!(empty.is_empty());
    let mut single = vec![42u8];
    single.shuffle_with_state(&mut g);
    assert_eq!(single, vec![42u8]);
}

#[test]
fn choose_on_empty_is_none() {
    let mut g = RandGenerator::new();
    g.srand(1);
    let data: Vec<u8> = Vec::new();
    assert!(data.choose_with_state(&mut g).is_none());
}

#[test]
fn choose_mut_on_empty_is_none() {
    let mut g = RandGenerator::new();
    g.srand(1);
    let mut data: Vec<u8> = Vec::new();
    assert!(data.choose_mut_with_state(&mut g).is_none());
}

#[test]
fn choose_single_element() {
    let mut g = RandGenerator::new();
    g.srand(1);
    let data = vec![7u32];
    assert_eq!(data.choose_with_state(&mut g), Some(&7));
}

#[test]
fn choose_returns_an_element_of_the_input() {
    let mut g = RandGenerator::new();
    g.srand(8);
    let data = vec![10u32, 20, 30, 40, 50];
    for _ in 0..100 {
        let picked = *data.choose_with_state(&mut g).unwrap();
        assert!(data.contains(&picked));
    }
}

#[test]
fn choose_mut_allows_mutation() {
    let mut g = RandGenerator::new();
    g.srand(21);
    let mut data = vec![1u32, 1, 1];
    if let Some(x) = data.choose_mut_with_state(&mut g) {
        *x = 9;
    }
    assert_eq!(data.iter().filter(|&&v| v == 9).count(), 1);
    assert_eq!(data.iter().sum::<u32>(), 11);
}

#[test]
fn index_sampling_is_roughly_uniform() {
    // Seven elements: each choose draws an unbiased index in [0, 6].
    let mut g = RandGenerator::new();
    g.srand(31337);
    let data: Vec<usize> = (0..7).collect();
    let mut counts = [0usize; 7];
    for _ in 0..10_000 {
        let v = *data.choose_with_state(&mut g).unwrap();
        assert!(v < 7);
        counts[v] += 1;
    }
    // Expected count 10_000 / 7, about 1429; allow a generous band.
    for &c in counts.iter() {
        assert!(c > 1150, "count {} too small", c);
        assert!(c < 1720, "count {} too large", c);
    }
}

#[test]
fn choose_multiple_yields_distinct_elements() {
    let mut g = RandGenerator::new();
    g.srand(17);
    let data: Vec<u32> = (0..10).collect();
    let mut iter = data.choose_multiple_with_state(&mut g, 5);
    let mut seen: Vec<u32> = Vec::new();
    for _ in 0..5 {
        let v = *iter.next().unwrap();
        assert!(data.contains(&v));
        assert!(!seen.contains(&v));
        seen.push(v);
    }
    assert!(iter.next().is_none());
}

#[test]
fn choose_multiple_zero_yields_nothing() {
    let mut g = RandGenerator::new();
    g.srand(4);
    let data = vec![1u8, 2, 3];
    let mut iter = data.choose_multiple_with_state(&mut g, 0);
    assert!(iter.next().is_none());
    assert!(iter.next().is_none());
}

#[test]
fn gen_range_u16_and_i8_containment() {
    let mut g = RandGenerator::new();
    g.srand(6);
    for _ in 0..10_000 {
        let v: u16 = g.gen_range(1000u16, 2000u16);
        assert!((1000..2000).contains(&v));
        let w: i8 = g.gen_range(-100i8, 100i8);
        assert!((-100..100).contains(&w));
        let x: isize = g.gen_range(-5isize, 5isize);
        assert!((-5..5).contains(&x));
    }
}

#[test]
fn choose_multiple_whole_input_is_a_permutation() {
    let mut g = RandGenerator::new();
    g.srand(23);
    let data: Vec<u32> = (0..8).collect();
    let mut iter = data.choose_multiple_with_state(&mut g, 8);
    let mut out: Vec<u32> = Vec::new();
    while let Some(v) = iter.next() {
        out.push(*v);
    }
    out.sort();
    assert_eq!(out, data);
}
