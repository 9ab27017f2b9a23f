use gbfr_logs::synthesis::{predict, xorshift32, SynthesisSigil, SynthesisSnapshot, EMPTY_TRAIT};

fn sigil(uid: u32, t1: u32, l1: u32, t2: u32, l2: u32, rec: i32) -> SynthesisSigil {
    SynthesisSigil {
        uid,
        sigil_id: 0,
        trait1: t1,
        trait1_level: l1,
        trait2: t2,
        trait2_level: l2,
        record_level: rec,
    }
}

/// Reference sequence computed independently from the decompiled
/// algorithm: s=1 -> 0x1000a001, 0x45000201, 0x451080a1, 0x10150a23, ...
#[test]
fn xorshift32_reference_sequence() {
    let mut s = 1u32;
    let expect = [0x1000a001u32, 0x45000201, 0x451080a1, 0x10150a23, 0x2814b28b];
    for e in expect {
        s = xorshift32(s);
        assert_eq!(s, e);
    }
}

/// A = {t 0x100 l11, t 0x200 l15, rec 5}, B = {t 0x300 l12, empty, rec 7}
/// pair_key = 0x100+0x200+0x300+(5+7) = 1548; counters empty -> n=1;
/// seed_counter = 42 -> warm = (9+1548+42) % 1000 = 599.
/// rng_state = 123456789; weights {38: (3,7)}.
#[test]
fn predict_reference_fixture() {
    let a = sigil(0xA, 0x100, 11, 0x200, 15, 5);
    let b = sigil(0xB, 0x300, 12, EMPTY_TRAIT, 0, 7);
    let mut snap = SynthesisSnapshot {
        rng_state: 123_456_789,
        seed_counter: 42,
        ..Default::default()
    };
    snap.level_weights.insert(38, (3, 7));
    let p = predict(&snap, &a, &b);
    assert_eq!(p.trait1, 0x300);
    assert_eq!(p.trait2, Some(0x200));
    assert!(p.lucky);
}

#[test]
fn predict_is_symmetric() {
    let a = sigil(0xA, 0x100, 11, 0x200, 15, 5);
    let b = sigil(0xB, 0x300, 12, 0x400, 3, 7);
    let mut snap = SynthesisSnapshot {
        rng_state: 0xdead_beef,
        seed_counter: 7,
        ..Default::default()
    };
    snap.level_weights.insert(41, (10, 1));
    assert_eq!(predict(&snap, &a, &b), predict(&snap, &b, &a));
}

#[test]
fn predict_no_weights_is_never_lucky() {
    let a = sigil(0xA, 0x100, 11, 0x200, 15, 5);
    let b = sigil(0xB, 0x300, 12, EMPTY_TRAIT, 0, 7);
    let snap = SynthesisSnapshot {
        rng_state: 123_456_789,
        seed_counter: 42,
        ..Default::default()
    };
    let p = predict(&snap, &a, &b);
    assert!(!p.lucky);
    // Same draws as the reference fixture -> same shuffle outcome.
    assert_eq!(p.trait1, 0x300);
    assert_eq!(p.trait2, Some(0x200));
}

#[test]
fn predict_pair_counter_changes_warmup() {
    let a = sigil(0xA, 0x100, 11, 0x200, 15, 5);
    let b = sigil(0xB, 0x300, 12, EMPTY_TRAIT, 0, 7);
    let mut snap = SynthesisSnapshot {
        rng_state: 123_456_789,
        seed_counter: 42,
        ..Default::default()
    };
    let base = predict(&snap, &a, &b);
    snap.pair_counters.insert(1548, 3); // n becomes 4 -> warm = 626 instead of 599
    let shifted = predict(&snap, &a, &b);
    assert_ne!(base, shifted);
    assert_eq!(shifted.trait1, 0x200);
    assert_eq!(shifted.trait2, Some(0x300));
}

#[test]
fn xorshift32_keeps_zero_and_leaves_nonzero_nonzero() {
    assert_eq!(xorshift32(0), 0);
    let mut s = 0x8000_0000u32;
    for _ in 0..1000 {
        s = xorshift32(s);
        assert_ne!(s, 0);
    }
}

#[test]
fn predict_single_trait_has_no_second() {
    let a = sigil(1, 0x500, 1, EMPTY_TRAIT, 0, 0);
    let b = sigil(2, EMPTY_TRAIT, 0, EMPTY_TRAIT, 0, 0);
    let snap = SynthesisSnapshot { rng_state: 99, seed_counter: 1, ..Default::default() };
    let p = predict(&snap, &a, &b);
    assert_eq!(p.trait1, 0x500);
    assert_eq!(p.trait2, None);
}

#[test]
fn predict_outcome_is_rearrangement_of_traits() {
    let a = sigil(1, 0x10, 1, 0x20, 2, -3);
    let b = sigil(2, 0x30, 3, 0x40, 4, 1);
    for seed in 0..50u32 {
        let snap = SynthesisSnapshot { rng_state: 0x1234_5678 ^ seed, seed_counter: seed, ..Default::default() };
        let p = predict(&snap, &a, &b);
        let t2 = p.trait2.unwrap();
        assert!([0x10, 0x20, 0x30, 0x40].contains(&p.trait1));
        assert!([0x10, 0x20, 0x30, 0x40].contains(&t2));
        assert_ne!(p.trait1, t2);
    }
}

#[test]
fn predict_negative_record_levels_wrap() {
    // Record levels -5 and 2 sum to -3, which the pair key reads as 2^32 - 3.
    let a = sigil(1, 0x10, 1, EMPTY_TRAIT, 0, -5);
    let b = sigil(2, 0x20, 1, EMPTY_TRAIT, 0, 2);
    let mut snap = SynthesisSnapshot { rng_state: 7, seed_counter: 0, ..Default::default() };
    let before = predict(&snap, &a, &b);
    assert_eq!(before.trait1, 0x20);
    assert_eq!(before.trait2, Some(0x10));
    assert!(!before.lucky);
    let key = 0x10u64 + 0x20 + (u32::MAX as u64 - 2);
    snap.pair_counters.insert(key, 110);
    snap.level_weights.insert(2, (1, 1));
    let after = predict(&snap, &a, &b);
    assert_eq!(after.trait1, 0x10);
    assert_eq!(after.trait2, Some(0x20));
    assert!(after.lucky);
}
