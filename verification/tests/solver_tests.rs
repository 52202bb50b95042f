use physics_core::components::{BodyFlags, BodyType, CollisionLayers, ContactId, EntityId};
use physics_core::fps_overlay::push_graph_sample;
use physics_core::joints::joint_pair_active;
use physics_core::narrowphase::{narrowphase_record_pairs, CollisionCache};
use physics_core::player_controller::{
    free_camera_axis, move_axis_from_keys, toggle_camera_mode, CameraMode, CameraSwitch,
};
use physics_core::query::spherecast_candidate;
use physics_core::sleep::{advance_sleep, integration_steps, wake, IntegrationSteps, SleepState};
use physics_core::solver::{
    contact_pair_active, impulse_key_eq, impulse_moves, iteration_count, kinematic_velocity_tracked,
    pair_key, prune_impulse_cache,
    BodyStatus, ContactImpulseCache,
};
use std::collections::VecDeque;

fn e(index: u32) -> EntityId {
    EntityId { index, generation: 0 }
}

fn body(body_type: BodyType, flags: u32, is_sleeping: bool) -> BodyStatus {
    BodyStatus { body_type, flags: BodyFlags::from_bits_truncate(flags), is_sleeping }
}

#[test]
fn impulse_cache_read_after_write() {
    let mut c: ContactImpulseCache<i32> = ContactImpulseCache::new();
    let k1 = (e(0), e(1), ContactId(10));
    let k2 = (e(0), e(1), ContactId(11));
    assert_eq!(c.get(&k1), None);
    assert_eq!(c.insert(k1, 5), None);
    assert_eq!(c.get(&k1), Some(5));
    assert_eq!(c.get(&k2), None);
    assert_eq!(c.insert(k2, 6), None);
    assert_eq!(c.insert(k1, 7), Some(5));
    assert_eq!(c.get(&k1), Some(7));
    assert_eq!(c.get(&k2), Some(6));
}

#[test]
fn prune_keeps_only_pairs_in_contact() {
    let mut c: ContactImpulseCache<u8> = ContactImpulseCache::new();
    c.insert((e(0), e(1), ContactId(1)), 1);
    c.insert((e(0), e(1), ContactId(2)), 2);
    c.insert((e(1), e(2), ContactId(1)), 3);
    c.insert((e(2), e(3), ContactId(1)), 4);
    let mut cache = CollisionCache::new();
    narrowphase_record_pairs(&mut cache, &vec![(e(1), e(0)), (e(3), e(2))]);
    prune_impulse_cache(&mut c, &cache);
    assert_eq!(c.get(&(e(0), e(1), ContactId(1))), Some(1));
    assert_eq!(c.get(&(e(0), e(1), ContactId(2))), Some(2));
    assert_eq!(c.get(&(e(1), e(2), ContactId(1))), None);
    assert_eq!(c.get(&(e(2), e(3), ContactId(1))), Some(4));
    narrowphase_record_pairs(&mut cache, &Vec::new());
    prune_impulse_cache(&mut c, &cache);
    assert_eq!(c.get(&(e(0), e(1), ContactId(1))), None);
    assert_eq!(c.get(&(e(2), e(3), ContactId(1))), None);
}

#[test]
fn pair_key_orders_by_index() {
    assert_eq!(pair_key(e(4), e(1)), (e(1), e(4)));
    assert_eq!(pair_key(e(1), e(4)), (e(1), e(4)));
}

#[test]
fn contact_participation() {
    let all = BodyFlags::ALL;
    let dynamic = body(BodyType::Dynamic, all, false);
    let sleeping = body(BodyType::Dynamic, all, true);
    let fixed = body(BodyType::Static, BodyFlags::ENABLE_COLLISIONS, false);
    let kinematic = body(BodyType::Kinematic, all, false);
    let no_solver = body(BodyType::Dynamic, all & !BodyFlags::ENABLE_SOLVER, false);
    assert!(contact_pair_active(dynamic, fixed, true));
    assert!(contact_pair_active(fixed, dynamic, true));
    assert!(!contact_pair_active(fixed, fixed, true));
    assert!(contact_pair_active(kinematic, fixed, true));
    assert!(!contact_pair_active(no_solver, fixed, true));
    // both asleep: skipped while sleeping is enabled
    assert!(!contact_pair_active(sleeping, sleeping, true));
    assert!(contact_pair_active(sleeping, sleeping, false));
    assert!(contact_pair_active(sleeping, dynamic, true));
}

#[test]
fn impulses_move_only_dynamic_bodies() {
    let d = body(BodyType::Dynamic, BodyFlags::ENABLE_TRANSLATION, false);
    let k = body(BodyType::Kinematic, BodyFlags::ALL, false);
    assert!(impulse_moves(d, BodyFlags::ENABLE_TRANSLATION));
    assert!(!impulse_moves(d, BodyFlags::ENABLE_ROTATION));
    assert!(!impulse_moves(k, BodyFlags::ENABLE_TRANSLATION));
}

#[test]
fn iteration_count_is_at_least_one() {
    assert_eq!(iteration_count(0), 1);
    assert_eq!(iteration_count(1), 1);
    assert_eq!(iteration_count(12), 12);
}

#[test]
fn joint_participation() {
    let solver = BodyFlags::ENABLE_SOLVER;
    let d = body(BodyType::Dynamic, solver, false);
    let s = body(BodyType::Static, solver, false);
    let off = body(BodyType::Dynamic, 0, false);
    assert!(joint_pair_active(d, s));
    assert!(joint_pair_active(s, d));
    assert!(!joint_pair_active(s, s));
    assert!(!joint_pair_active(d, off));
}

#[test]
fn sleep_counter_and_wake() {
    let mut st = SleepState { is_sleeping: false, sleep_frames: 0 };
    let mut stopped = false;
    let mut steps = 0;
    while !stopped {
        stopped = advance_sleep(&mut st, true, 30);
        steps += 1;
    }
    assert_eq!(steps, 30);
    assert!(st.is_sleeping);
    assert_eq!(st.sleep_frames, 30);
    // still at rest: stays asleep, counter goes on
    assert!(advance_sleep(&mut st, true, 30));
    assert_eq!(st.sleep_frames, 31);
    // motion wakes
    assert!(!advance_sleep(&mut st, false, 30));
    assert_eq!(st, SleepState { is_sleeping: false, sleep_frames: 0 });
    // the counter saturates
    let mut full = SleepState { is_sleeping: false, sleep_frames: u16::MAX };
    assert!(advance_sleep(&mut full, true, 30));
    assert_eq!(full.sleep_frames, u16::MAX);
    // a body that already sleeps keeps sleeping below the threshold
    let mut asleep = SleepState { is_sleeping: true, sleep_frames: 3 };
    assert!(!advance_sleep(&mut asleep, true, 30));
    assert_eq!(asleep, SleepState { is_sleeping: true, sleep_frames: 4 });
    wake(&mut asleep, false);
    assert!(asleep.is_sleeping);
    wake(&mut asleep, true);
    assert_eq!(asleep, SleepState { is_sleeping: false, sleep_frames: 0 });
    let mut awake = SleepState { is_sleeping: false, sleep_frames: 9 };
    wake(&mut awake, true);
    assert_eq!(awake.sleep_frames, 9);
}

#[test]
fn integration_steps_follow_flags() {
    let flags = BodyFlags::ENABLE_GRAVITY | BodyFlags::ENABLE_TRANSLATION | BodyFlags::SLEEPING_ALLOWED;
    let d = body(BodyType::Dynamic, flags, false);
    assert_eq!(
        integration_steps(d, true),
        Some(IntegrationSteps { apply_gravity: true, translate: true, rotate: false, track_sleep: true })
    );
    assert_eq!(
        integration_steps(d, false),
        Some(IntegrationSteps { apply_gravity: true, translate: true, rotate: false, track_sleep: false })
    );
    let asleep = body(BodyType::Dynamic, flags, true);
    assert_eq!(integration_steps(asleep, true), None);
    assert!(integration_steps(asleep, false).is_some());
    let no_sleep_allowed = body(BodyType::Dynamic, BodyFlags::ENABLE_ROTATION, true);
    assert_eq!(
        integration_steps(no_sleep_allowed, true),
        Some(IntegrationSteps { apply_gravity: false, translate: false, rotate: true, track_sleep: false })
    );
    assert_eq!(integration_steps(body(BodyType::Kinematic, BodyFlags::ALL, false), true), None);
    assert_eq!(integration_steps(body(BodyType::Static, BodyFlags::ALL, false), true), None);
}

#[test]
fn spherecast_candidates() {
    let ignore = [e(1), e(2)];
    let any = CollisionLayers::default();
    let other = CollisionLayers { belongs_to: 4, collides_with: 4 };
    assert!(!spherecast_candidate(e(1), &ignore, None, any));
    assert!(spherecast_candidate(e(3), &ignore, None, other));
    assert!(spherecast_candidate(e(3), &ignore, Some(any), any));
    assert!(!spherecast_candidate(e(3), &ignore, Some(any), other));
    assert!(spherecast_candidate(e(3), &[], None, any));
}

#[test]
fn camera_mode_toggle() {
    let player = e(0);
    let cam = e(1);
    let mut mode = CameraMode::default();
    assert_eq!(mode, CameraMode::Follow);
    assert_eq!(toggle_camera_mode(&mut mode, false, Some(player), Some(cam), None), None);
    assert_eq!(mode, CameraMode::Follow);
    assert_eq!(toggle_camera_mode(&mut mode, true, None, Some(cam), None), None);
    assert_eq!(mode, CameraMode::Follow);
    assert_eq!(
        toggle_camera_mode(&mut mode, true, Some(player), Some(cam), None),
        Some(CameraSwitch::ToFree { camera: cam })
    );
    assert_eq!(mode, CameraMode::Free);
    // no free camera found: nothing happens
    assert_eq!(toggle_camera_mode(&mut mode, true, Some(player), Some(cam), None), None);
    assert_eq!(mode, CameraMode::Free);
    assert_eq!(
        toggle_camera_mode(&mut mode, true, Some(player), None, Some(cam)),
        Some(CameraSwitch::ToFollow { camera: cam, player })
    );
    assert_eq!(mode, CameraMode::Follow);
}

#[test]
fn key_axes() {
    assert_eq!(move_axis_from_keys(false, false, false, false), (0, 0));
    assert_eq!(move_axis_from_keys(true, false, true, false), (-1, 1));
    assert_eq!(move_axis_from_keys(true, true, false, true), (0, -1));
    assert_eq!(free_camera_axis(true, false, false, true, true, false), (1, 1, -1));
    assert_eq!(free_camera_axis(false, true, true, false, false, true), (-1, -1, 1));
    assert_eq!(free_camera_axis(true, true, true, true, true, true), (0, 0, 0));
}

#[test]
fn graph_keeps_latest_samples() {
    let mut g: VecDeque<u32> = VecDeque::new();
    for s in 0..5u32 {
        push_graph_sample(&mut g, s, 3);
    }
    assert_eq!(g, VecDeque::from(vec![2, 3, 4]));
    push_graph_sample(&mut g, 9, 1);
    assert_eq!(g, VecDeque::from(vec![9]));
    push_graph_sample(&mut g, 10, 0);
    assert!(g.is_empty());
    let mut h: VecDeque<u32> = VecDeque::new();
    push_graph_sample(&mut h, 1, 180);
    push_graph_sample(&mut h, 2, 180);
    assert_eq!(h, VecDeque::from(vec![1, 2]));
}

#[test]
fn kinematic_bodies_with_collisions_track_velocity() {
    assert!(kinematic_velocity_tracked(body(BodyType::Kinematic, BodyFlags::ENABLE_COLLISIONS, false)));
    assert!(!kinematic_velocity_tracked(body(BodyType::Kinematic, BodyFlags::ENABLE_SOLVER, false)));
    assert!(!kinematic_velocity_tracked(body(BodyType::Dynamic, BodyFlags::ALL, false)));
}

#[test]
fn impulse_keys_compare_every_field() {
    let k = (e(1), e(2), ContactId(3));
    assert!(impulse_key_eq(&k, &(e(1), e(2), ContactId(3))));
    assert!(!impulse_key_eq(&k, &(e(1), e(2), ContactId(4))));
    assert!(!impulse_key_eq(&k, &(e(2), e(1), ContactId(3))));
    assert!(!impulse_key_eq(&k, &(EntityId { index: 1, generation: 1 }, e(2), ContactId(3))));
}
