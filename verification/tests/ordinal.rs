use bevy_physics_take2::ordinal::{FRACTIONS, INFINITE, MAX_FINITE, SIGN_BIT};
use bevy_physics_take2::phases::axis::{precedes, sweep_order};
use bevy_physics_take2::{negate, ordinal_from_bits, ordinal_to_bits, GlobalAabb, Point3};

use bevy::ecs::entity::Entity;

fn ordinal(v: f32) -> i32 {
    ordinal_from_bits(v.to_bits())
}

fn value(ordinal: i32) -> f32 {
    f32::from_bits(ordinal_to_bits(ordinal))
}

/// A small deterministic generator of bit patterns.
fn pattern(state: &mut u64) -> u32 {
    *state = state.wrapping_mul(6364136223846793005).wrapping_add(1442695040888963407);
    (*state >> 32) as u32
}

fn boxed(min_x: f32) -> (Entity, GlobalAabb) {
    let lo = ordinal(min_x);
    (
        Entity::from_raw(0),
        GlobalAabb {
            minimums: Point3 { x: lo, y: 0, z: 0 },
            maximums: Point3 { x: ordinal(min_x + 1.0), y: 1, z: 1 },
        },
    )
}

#[test]
fn ordinals_of_known_values() {
    assert_eq!(ordinal(0.0), 0);
    assert_eq!(ordinal(-0.0), 0);
    assert_eq!(ordinal(1.0), 0x3f80_0000);
    assert_eq!(ordinal(-1.0), -0x3f80_0000);
    assert_eq!(ordinal(f32::MAX), MAX_FINITE);
    assert_eq!(ordinal(f32::MIN), -MAX_FINITE);
    assert_eq!(ordinal(f32::INFINITY), INFINITE);
    assert_eq!(ordinal(f32::NEG_INFINITY), -INFINITE);
    assert_eq!(INFINITE, MAX_FINITE + 1);
    assert_eq!(ordinal(f32::MIN_POSITIVE), FRACTIONS as i32);
    assert_eq!(ordinal_from_bits(SIGN_BIT), 0);
    assert!(ordinal(f32::NAN).abs() > INFINITE);
    assert_eq!(ordinal_from_bits(0xffff_ffff), -0x7fff_ffff);
}

#[test]
fn bit_patterns_of_known_ordinals() {
    assert_eq!(ordinal_to_bits(0), 0);
    assert_eq!(ordinal_to_bits(0x3f80_0000), 1.0f32.to_bits());
    assert_eq!(ordinal_to_bits(-0x3f80_0000), (-1.0f32).to_bits());
    assert_eq!(ordinal_to_bits(i32::MAX), 0x7fff_ffff);
    assert_eq!(ordinal_to_bits(i32::MIN + 1), 0xffff_ffff);
    assert_eq!(ordinal_to_bits(i32::MIN), 0xffff_ffff);
}

#[test]
fn ordinals_compare_as_the_values_do() {
    let values = [
        f32::NEG_INFINITY,
        f32::MIN,
        -1000.5,
        -1.0,
        -0.25,
        -1.0e-40,
        -0.0,
        0.0,
        1.0e-40,
        1.0e-20,
        0.5,
        1.0,
        3.5,
        1000.0,
        f32::MAX,
        f32::INFINITY,
    ];
    for a in values {
        for b in values {
            assert_eq!(a < b, ordinal(a) < ordinal(b));
            assert_eq!(a == b, ordinal(a) == ordinal(b));
        }
    }
    let mut state = 77u64;
    for _ in 0..20000 {
        let a = f32::from_bits(pattern(&mut state));
        let b = f32::from_bits(pattern(&mut state));
        if a.is_nan() || b.is_nan() {
            continue;
        }
        assert_eq!(a < b, ordinal(a) < ordinal(b));
        assert_eq!(a == b, ordinal(a) == ordinal(b));
    }
}

#[test]
fn negating_a_value_negates_its_ordinal() {
    let mut state = 3u64;
    for _ in 0..20000 {
        let v = f32::from_bits(pattern(&mut state));
        assert_eq!(ordinal(-v), -ordinal(v));
        assert_eq!(negate(ordinal(v)), ordinal(-v));
    }
    assert_eq!(negate(0), 0);
    assert_eq!(negate(i32::MAX), i32::MIN + 1);
    assert_eq!(negate(i32::MIN), i32::MAX);
}

#[test]
fn values_come_back_from_their_ordinals() {
    let mut state = 19u64;
    for _ in 0..20000 {
        let bits = pattern(&mut state);
        let back = ordinal_to_bits(ordinal_from_bits(bits));
        if bits == 0x8000_0000 {
            assert_eq!(back, 0);
        } else {
            assert_eq!(back, bits);
        }
    }
    assert_eq!(ordinal_to_bits(ordinal_from_bits(0x8000_0000)), 0);
    assert_eq!(value(ordinal(-2.5)), -2.5);
    assert_eq!(value(ordinal(1.0e-3)), 1.0e-3);
    assert_eq!(value(ordinal(f32::INFINITY)), f32::INFINITY);
    assert!(value(ordinal(f32::NAN)).is_nan());
}

#[test]
fn ordinals_come_back_from_their_bit_patterns() {
    for o in [i32::MIN + 1, -MAX_FINITE, -5, -1, 0, 1, 7, MAX_FINITE, i32::MAX] {
        assert_eq!(ordinal_from_bits(ordinal_to_bits(o)), o);
    }
}

#[test]
fn precedes_means_not_after_along_x() {
    assert!(precedes(&boxed(-3.0), &boxed(2.0)));
    assert!(precedes(&boxed(2.0), &boxed(2.0)));
    assert!(!precedes(&boxed(2.5), &boxed(2.0)));
    assert!(precedes(&boxed(-0.0), &boxed(0.0)));
    assert!(precedes(&boxed(0.0), &boxed(-0.0)));
}

#[test]
fn sweep_order_visits_every_box_once_by_ascending_minimum() {
    let xs = [4.0f32, -1.0, 2.5, 2.5, -7.0, 0.0, 9.0, -1.0, 3.0];
    let entries: Vec<(Entity, GlobalAabb)> = xs.iter().map(|x| boxed(*x)).collect();
    let order = sweep_order(&entries);
    assert_eq!(order.len(), xs.len());
    let mut seen = order.clone();
    seen.sort();
    assert_eq!(seen, (0..xs.len()).collect::<Vec<usize>>());
    for k in 1..order.len() {
        assert!(xs[order[k - 1]] <= xs[order[k]]);
    }
    assert!(sweep_order(&Vec::new()).is_empty());
    assert_eq!(sweep_order(&vec![boxed(1.0)]), vec![0]);
}
