use robot_motion::robot::{dh_param, revised_joints, DhParam, RobotUr5, JOINTS_POS};

#[test]
fn default_pose_values() {
    assert_eq!(JOINTS_POS, [90_000, -120_000, 90_000, -60_000, -90_000, 0]);
    assert_eq!(RobotUr5::default_joints(), JOINTS_POS);
}

#[test]
fn robot_starts_in_default_pose() {
    let r = RobotUr5::new(1, None);
    assert_eq!((r.id, r.joints), (1, JOINTS_POS));
    let r = RobotUr5::new(0, Some([1, 2, 3, 4, 5, 6]));
    assert_eq!(r.joints, [1, 2, 3, 4, 5, 6]);
}

#[test]
fn robot_set_deg_replaces_joints() {
    let mut r = RobotUr5::new(0, None);
    r.set_deg([0, 0, 0, 0, 0, 45_000]);
    assert_eq!(r.joints, [0, 0, 0, 0, 0, 45_000]);
    assert_eq!(r.id, 0);
}

#[test]
fn joint_convention_offsets() {
    assert_eq!(revised_joints(&JOINTS_POS), [270_000, -120_000, -90_000, -60_000, 90_000, 0]);
    assert_eq!(revised_joints(&[0; 6]), [180_000, 0, 0, 0, 180_000, 0]);
    assert_eq!(revised_joints(&[-720_000, 1, 720_000, 2, 720_000, 3]), [-540_000, 1, -720_000, 2, 900_000, 3]);
}

#[test]
fn dh_table() {
    assert_eq!(dh_param(0), DhParam { a: 0, alpha: 0, d: 89_200 });
    assert_eq!(dh_param(1), DhParam { a: 0, alpha: -90_000, d: 134_200 });
    assert_eq!(dh_param(2), DhParam { a: 425_000, alpha: 180_000, d: 118_950 });
    assert_eq!(dh_param(3), DhParam { a: 392_250, alpha: 180_000, d: 94_750 });
    assert_eq!(dh_param(4), DhParam { a: 0, alpha: -90_000, d: 94_750 });
    assert_eq!(dh_param(5), DhParam { a: 0, alpha: -90_000, d: 81_500 });
}
