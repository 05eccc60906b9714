use robot_motion::robot::JOINTS_POS;
use robot_motion::tracking::{
    compute_track, ct_gripper_finger, ct_robot_joints, FINGER_GAIN, FINGER_MAX_STEP, JOINT_GAIN,
    JOINT_MAX_STEP,
};

#[test]
fn track_step_follows_square_root() {
    // sqrt(2 * 500 * 100_000) = 10_000
    assert_eq!(compute_track(0, 100_000, 500, 16_000), 10_000);
    // sqrt(2 * 500 * 50_000) = 7071.07..., rounded down
    assert_eq!(compute_track(0, 50_000, 500, 16_000), 7_071);
}

#[test]
fn track_step_is_capped() {
    // sqrt(2 * 500 * 1_000_000) = 31622.77... > 16_000
    assert_eq!(compute_track(0, 1_000_000, 500, 16_000), 16_000);
    assert_eq!(compute_track(0, -1_000_000, 500, 16_000), -16_000);
}

#[test]
fn track_moves_down_toward_lower_target() {
    assert_eq!(compute_track(100_000, 0, 500, 16_000), 90_000);
}

#[test]
fn track_never_overshoots() {
    // the step would be sqrt(2 * 500 * 10) = 100, the target is 10 away
    assert_eq!(compute_track(0, 10, 500, 16_000), 10);
    assert_eq!(compute_track(0, -10, 500, 16_000), -10);
    for now in [-5_000i64, -1, 0, 3, 999, 123_456] {
        for target in [-7_000i64, -2, 0, 4, 1_000, 200_000] {
            let r = compute_track(now, target, 500, 16_000);
            if target >= now {
                assert!(now <= r && r <= target);
            } else {
                assert!(target <= r && r <= now);
            }
        }
    }
}

#[test]
fn track_at_target_is_unchanged() {
    assert_eq!(compute_track(42, 42, 500, 16_000), 42);
    assert_eq!(compute_track(-7, -7, 2_000, 5_000), -7);
}

#[test]
fn track_converges_and_stays() {
    let target = 123_456i64;
    let mut now = -654_321i64;
    let mut ticks = 0u32;
    while now != target {
        now = compute_track(now, target, 500, 16_000);
        ticks += 1;
        assert!(ticks < 1_000);
    }
    for _ in 0..5 {
        now = compute_track(now, target, 500, 16_000);
        assert_eq!(now, target);
    }
}

#[test]
fn track_extreme_values_use_the_cap() {
    assert_eq!(compute_track(i64::MIN, i64::MAX, u64::MAX, 16_000), i64::MIN + 16_000);
    assert_eq!(compute_track(i64::MAX, i64::MIN, u64::MAX, u64::MAX), i64::MIN);
    assert_eq!(compute_track(0, 5, 0, 16_000), 0);
}

#[test]
fn channel_constants() {
    assert_eq!(JOINT_GAIN, 500);
    assert_eq!(JOINT_MAX_STEP, 16_000);
    assert_eq!(FINGER_GAIN, 2_000);
    assert_eq!(FINGER_MAX_STEP, 5_000);
}

#[test]
fn joint_channels_are_tracked_each_on_its_own() {
    let now = [0i64, 0, 100_000, 5, 0, -3];
    let target = [100_000i64, -1_000_000, 0, 5, 10, 0];
    let out = ct_robot_joints(&now, &target);
    assert_eq!(out, [10_000, -16_000, 90_000, 5, 10, 0]);
}

#[test]
fn finger_channels_are_tracked_each_on_its_own() {
    // sqrt(2 * 2_000 * 100_000) = 20_000, capped at 5_000
    // sqrt(2 * 2_000 * 1_000) = 2_000, more than the 1_000 left: stops at the target
    // sqrt(2 * 2_000 * 10_000) = 6324.5..., capped at 5_000
    let out = ct_gripper_finger(&[0, 100_000], &[100_000, 99_000]);
    assert_eq!(out, [5_000, 99_000]);
    let out = ct_gripper_finger(&[50_000, 50_000], &[60_000, 50_900]);
    // sqrt(2 * 2_000 * 900) = 1897.3...
    assert_eq!(out, [55_000, 50_900]);
    let out = ct_gripper_finger(&[50_000, 0], &[40_000, 3_000]);
    // sqrt(2 * 2_000 * 3_000) = 3464.1..., more than the 3_000 left
    assert_eq!(out, [45_000, 3_000]);
}

#[test]
fn track_slows_down_near_the_target() {
    // the square-root profile takes 18 ticks for 100 degrees, not
    // ceil(100 / 16) + 1 = 8
    let mut now = 100_000i64;
    let mut ticks = 0u32;
    while now != 0 {
        now = compute_track(now, 0, JOINT_GAIN, JOINT_MAX_STEP);
        ticks += 1;
    }
    assert_eq!(ticks, 18);
}

#[test]
fn track_at_full_step_takes_distance_over_step_ticks() {
    // 20 * 20 <= 2 * 200: every tick short of the target moves by 20
    let mut now = 0i64;
    let mut seen = vec![];
    while now != 95 {
        now = compute_track(now, 95, 200, 20);
        seen.push(now);
    }
    assert_eq!(seen, vec![20, 40, 60, 80, 95]);
}

#[test]
fn default_pose_reaches_zero_pose() {
    let target = [0i64; 6];
    let mut now = JOINTS_POS;
    let mut ticks = 0u32;
    while now != target {
        now = ct_robot_joints(&now, &target);
        ticks += 1;
        assert!(ticks < 200);
    }
    assert_eq!(ticks, 20);
    assert_eq!(now, [0, 0, 0, 0, 0, 0]);
    assert_eq!(ct_robot_joints(&now, &target), target);
}
