use bevy_physics_take2::{
    cmp_x_axis, cmp_y_axis, cmp_z_axis, earliest_impact, frame_phases, narrow_test,
    ordinal_from_bits, ordinal_to_bits, run_debug, run_physics, ColliderType, CollisionDetection,
    GlobalAabb, NarrowTest, Phases, PhysicsConfig, Point3,
};
use bevy::ecs::entity::Entity;
use std::cmp::Ordering;

fn ordinal_of(v: f32) -> i32 {
    ordinal_from_bits(v.to_bits())
}

fn value_of(ordinal: i32) -> f32 {
    f32::from_bits(ordinal_to_bits(ordinal))
}

/// The two times, in units of the frame, at which a ray enters and leaves a sphere.
fn ray_sphere(start: [f32; 3], dir: [f32; 3], centre: [f32; 3], radius: f32) -> Option<(f32, f32)> {
    let m = [centre[0] - start[0], centre[1] - start[1], centre[2] - start[2]];
    let a = dir[0] * dir[0] + dir[1] * dir[1] + dir[2] * dir[2];
    let b = m[0] * dir[0] + m[1] * dir[1] + m[2] * dir[2];
    let c = m[0] * m[0] + m[1] * m[1] + m[2] * m[2] - radius * radius;
    let delta = b * b - a * c;
    if delta < 0.0 {
        None
    } else {
        let root = delta.sqrt();
        Some(((b - root) / a, (b + root) / a))
    }
}

/// Two unit spheres on the x axis, `gap` apart, closing at `speed`.
fn head_on(gap: f32, speed: f32, dt: f32) -> Option<f32> {
    let start = [0.0, 0.0, 0.0];
    let centre = [2.0 + gap, 0.0, 0.0];
    let dir = [speed * dt, 0.0, 0.0];
    let (t0, t1) = ray_sphere(start, dir, centre, 2.0)?;
    earliest_impact(ordinal_of(t0 * dt), ordinal_of(t1 * dt), ordinal_of(dt)).map(value_of)
}

fn entry(x: i32, y: i32, z: i32) -> (Entity, GlobalAabb) {
    (Entity::from_raw(0), GlobalAabb { minimums: Point3 { x, y, z }, maximums: Point3 { x: 100, y: 100, z: 100 } })
}

#[test]
fn default_config_runs_everything_with_continuous_detection() {
    let config = PhysicsConfig::default();
    assert!(config.enabled);
    assert!(config.debug);
    assert_eq!(config.detection, CollisionDetection::Dynamic);
}

#[test]
fn enabled_frame_runs_all_stages_in_order() {
    let config = PhysicsConfig { enabled: true, debug: false, detection: CollisionDetection::Static };
    assert!(run_physics(&config));
    assert!(!run_debug(&config));
    assert_eq!(
        frame_phases(&config),
        vec![
            Phases::Setup,
            Phases::Dynamics,
            Phases::Broad,
            Phases::Narrow,
            Phases::Resolve,
            Phases::UpdatePosition,
        ]
    );
}

#[test]
fn default_frame_ends_with_diagnostics() {
    assert_eq!(
        frame_phases(&PhysicsConfig::default()),
        vec![
            Phases::Setup,
            Phases::Dynamics,
            Phases::Broad,
            Phases::Narrow,
            Phases::Resolve,
            Phases::UpdatePosition,
            Phases::Debug,
        ]
    );
}

#[test]
fn disabled_frame_runs_no_physics() {
    let quiet = PhysicsConfig { enabled: false, debug: false, detection: CollisionDetection::Dynamic };
    assert!(!run_physics(&quiet));
    assert_eq!(frame_phases(&quiet), vec![Phases::Setup]);
    let watched = PhysicsConfig { enabled: false, debug: true, detection: CollisionDetection::Dynamic };
    assert!(run_debug(&watched));
    assert_eq!(frame_phases(&watched), vec![Phases::Setup, Phases::Debug]);
}

#[test]
fn spheres_are_tested_by_the_configured_mode() {
    assert_eq!(
        narrow_test(ColliderType::Sphere, ColliderType::Sphere, CollisionDetection::Static),
        Some(NarrowTest::SphereSphereStatic)
    );
    assert_eq!(
        narrow_test(ColliderType::Sphere, ColliderType::Sphere, CollisionDetection::Dynamic),
        Some(NarrowTest::SphereSphereDynamic)
    );
}

#[test]
fn comparators_order_by_their_own_axis() {
    let low = entry(1, 9, 5);
    let high = entry(2, 3, 5);
    assert_eq!(cmp_x_axis(&low, &high), Ordering::Less);
    assert_eq!(cmp_x_axis(&high, &low), Ordering::Greater);
    assert_eq!(cmp_x_axis(&low, &low), Ordering::Equal);
    assert_eq!(cmp_y_axis(&low, &high), Ordering::Greater);
    assert_eq!(cmp_y_axis(&high, &low), Ordering::Less);
    assert_eq!(cmp_y_axis(&high, &high), Ordering::Equal);
    assert_eq!(cmp_z_axis(&low, &high), Ordering::Equal);
    assert_eq!(cmp_z_axis(&entry(0, 0, -1), &low), Ordering::Less);
    assert_eq!(cmp_z_axis(&low, &entry(0, 0, -1)), Ordering::Greater);
}

#[test]
fn impact_is_the_entry_time_within_the_frame() {
    assert_eq!(earliest_impact(3, 8, 10), Some(3));
    assert_eq!(earliest_impact(10, 12, 10), Some(10));
    assert_eq!(earliest_impact(0, 0, 0), Some(0));
}

#[test]
fn overlap_at_frame_start_is_an_impact_at_zero() {
    assert_eq!(earliest_impact(-5, 8, 10), Some(0));
    assert_eq!(earliest_impact(-5, 0, 10), Some(0));
}

#[test]
fn no_impact_when_the_meeting_is_past_or_too_late() {
    assert_eq!(earliest_impact(-5, -1, 10), None);
    assert_eq!(earliest_impact(11, 12, 10), None);
    assert_eq!(earliest_impact(-5, 8, -1), None);
}

#[test]
fn head_on_spheres_meet_after_gap_over_speed() {
    let dt = 1.0 / 60.0;
    for (gap, speed) in [(0.1f32, 10.0f32), (0.05, 4.0), (0.01, 1.0), (0.3, 30.0)] {
        assert!(gap / speed <= dt);
        let toi = head_on(gap, speed, dt).unwrap();
        assert!((toi - gap / speed).abs() < 1.0e-4, "gap {gap} speed {speed}: {toi}");
    }
}

#[test]
fn head_on_spheres_too_far_apart_do_not_meet_this_frame() {
    let dt = 1.0 / 60.0;
    for (gap, speed) in [(1.0f32, 10.0f32), (0.05, 2.0), (5.0, 100.0)] {
        assert!(gap / speed > dt);
        assert_eq!(head_on(gap, speed, dt), None);
    }
}

#[test]
fn parting_spheres_do_not_meet() {
    let dt = 1.0 / 60.0;
    assert_eq!(head_on(0.1, -10.0, dt), None);
}
