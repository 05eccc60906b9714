use robot_motion::gripper::{
    swing_angle, swing_fraction, Finger, GripperCtm2f110, DRIVING_ANGLE, OPENING_FULL,
};

#[test]
fn linkage_boundary() {
    assert_eq!(swing_angle(OPENING_FULL), DRIVING_ANGLE[0]);
    assert_eq!(swing_angle(OPENING_FULL), 30_000_000);
    assert_eq!(swing_angle(0), DRIVING_ANGLE[1]);
    assert_eq!(swing_angle(0), 103_500_000);
}

#[test]
fn linkage_interpolates_linearly() {
    assert_eq!(swing_angle(50_000), 66_750_000);
    assert_eq!(swing_angle(75_000), 48_375_000);
    assert_eq!(swing_fraction(25_000), 75_000);
}

#[test]
fn linkage_fraction_is_capped_above_only() {
    // |1 - (-0.5)| = 1.5, capped at 1
    assert_eq!(swing_fraction(-50_000), OPENING_FULL);
    assert_eq!(swing_angle(-50_000), 103_500_000);
    // |1 - 1.5| = 0.5
    assert_eq!(swing_fraction(150_000), 50_000);
    assert_eq!(swing_angle(150_000), 66_750_000);
    // |1 - 2.5| = 1.5, capped at 1
    assert_eq!(swing_fraction(250_000), OPENING_FULL);
    assert_eq!(swing_fraction(i64::MIN), OPENING_FULL);
    assert_eq!(swing_fraction(i64::MAX), OPENING_FULL);
}

#[test]
fn gripper_defaults_to_closed() {
    let g = GripperCtm2f110::new(3, None);
    assert_eq!((g.id, g.pos1, g.pos2), (3, OPENING_FULL, OPENING_FULL));
    let g = GripperCtm2f110::new(1, Some([0, 40_000]));
    assert_eq!((g.pos1, g.pos2), (0, 40_000));
    assert_eq!(g.opening(Finger::One), 0);
    assert_eq!(g.opening(Finger::Two), 40_000);
}

#[test]
fn gripper_takes_tracked_fingers() {
    let mut g = GripperCtm2f110::new(0, None);
    g.set_fingers([12_000, 34_000]);
    assert_eq!((g.id, g.pos1, g.pos2), (0, 12_000, 34_000));
}
