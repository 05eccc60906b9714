use crate::gripper::OPENING_FULL;
use crate::robot::JOINTS_POS;
use crate::tracking::{
    ct_gripper_finger, ct_robot_joints, track, FINGER_GAIN, FINGER_MAX_STEP, JOINT_GAIN,
    JOINT_MAX_STEP,
};
use vstd::prelude::*;

verus! {

/// Largest joint target a command may set: 720 degrees, in millidegrees.
pub const JOINT_LIMIT: i64 = 720_000;

/// An external command: a joint target (millidegrees) or a finger target
/// (milli-percent). Robots, joints and fingers are numbered as on the
/// host page: joints and fingers from one.
#[derive(Clone, Copy, Debug, PartialEq, Eq, Structural)]
pub enum Cmd {
    RobotJointPos { robot: u16, joint: u16, angle: i64 },
    RobotFingerPos { robot: u16, finger: u16, pos: i64 },
}

/// The joint angles of both arms, in millidegrees.
#[derive(Clone, Copy, Debug)]
pub struct JointsPos(pub [[i64; 6]; 2]);

/// The finger positions of both grippers, in milli-percent.
#[derive(Clone, Copy, Debug)]
pub struct FingerPos(pub [[i64; 2]; 2]);

impl Default for JointsPos {
    /// Both arms in the default pose.
    fn default() -> (r: Self)
        ensures
            r.0[0] == JOINTS_POS,
            r.0[1] == JOINTS_POS,
    {
        JointsPos([JOINTS_POS, JOINTS_POS])
    }
}

impl Default for FingerPos {
    /// All fingers at zero.
    fn default() -> (r: Self)
        ensures
            r.0[0] == [0i64, 0],
            r.0[1] == [0i64, 0],
    {
        FingerPos([[0, 0], [0, 0]])
    }
}

/// The arm a command addresses: robot 0 is the first, any other the second.
pub open spec fn spec_robot_index(robot: u16) -> int {
    if robot == 0 {
        0
    } else {
        1
    }
}

/// The joint a command addresses: joints 1 to 5 are themselves, any other
/// number is the sixth.
pub open spec fn spec_joint_index(joint: u16) -> int {
    if 1 <= joint <= 5 {
        joint - 1
    } else {
        5
    }
}

/// The finger a command addresses: finger 1 is the first, any other the
/// second.
pub open spec fn spec_finger_index(finger: u16) -> int {
    if finger == 1 {
        0
    } else {
        1
    }
}

/// `x` held within `[lo, hi]`.
pub open spec fn clamp(x: int, lo: int, hi: int) -> int {
    if x > hi {
        hi
    } else if x < lo {
        lo
    } else {
        x
    }
}

/// The arm a command addresses (see `spec_robot_index`).
pub fn robot_index(robot: u16) -> (r: usize)
    ensures
        r == spec_robot_index(robot),
{
    if robot == 0 {
        0
    } else {
        1
    }
}

/// The joint a command addresses (see `spec_joint_index`).
pub fn joint_index(joint: u16) -> (r: usize)
    ensures
        r == spec_joint_index(joint),
{
    if 1 <= joint && joint <= 5 {
        (joint - 1) as usize
    } else {
        5
    }
}

/// The finger a command addresses (see `spec_finger_index`).
pub fn finger_index(finger: u16) -> (r: usize)
    ensures
        r == spec_finger_index(finger),
{
    if finger == 1 {
        0
    } else {
        1
    }
}

/// Applies one command to the targets: the addressed joint target is set to
/// the angle held within `[-JOINT_LIMIT, JOINT_LIMIT]`, or the addressed
/// finger target to the position held within `[0, OPENING_FULL]`. Nothing
/// else changes.
pub fn apply_cmd(joints: &mut JointsPos, fingers: &mut FingerPos, cmd: Cmd)
    ensures
        match cmd {
            Cmd::RobotJointPos { robot, joint, angle } => {
                &&& *final(fingers) == *old(fingers)
                &&& final(joints).0[spec_robot_index(robot)][spec_joint_index(joint)] == clamp(
                    angle as int,
                    -JOINT_LIMIT,
                    JOINT_LIMIT as int,
                )
                &&& forall|r: int, j: int|
                    0 <= r < 2 && 0 <= j < 6 && (r != spec_robot_index(robot) || j
                        != spec_joint_index(joint)) ==> #[trigger] final(joints).0[r][j] == old(
                        joints,
                    ).0[r][j]
            },
            Cmd::RobotFingerPos { robot, finger, pos } => {
                &&& *final(joints) == *old(joints)
                &&& final(fingers).0[spec_robot_index(robot)][spec_finger_index(finger)] == clamp(
                    pos as int,
                    0,
                    OPENING_FULL as int,
                )
                &&& forall|r: int, f: int|
                    0 <= r < 2 && 0 <= f < 2 && (r != spec_robot_index(robot) || f
                        != spec_finger_index(finger)) ==> #[trigger] final(fingers).0[r][f] == old(
                        fingers,
                    ).0[r][f]
            },
        },
{
    match cmd {
        Cmd::RobotJointPos { robot, joint, angle } => {
            let r = robot_index(robot);
            let j = joint_index(joint);
            let angle = if angle > JOINT_LIMIT {
                JOINT_LIMIT
            } else if angle < -JOINT_LIMIT {
                -JOINT_LIMIT
            } else {
                angle
            };
            let mut row = joints.0[r];
            row[j] = angle;
            joints.0[r] = row;
        },
        Cmd::RobotFingerPos { robot, finger, pos } => {
            let r = robot_index(robot);
            let f = finger_index(finger);
            let pos = if pos > OPENING_FULL {
                OPENING_FULL
            } else if pos < 0 {
                0
            } else {
                pos
            };
            let mut row = fingers.0[r];
            row[f] = pos;
            fingers.0[r] = row;
        },
    }
}

/// One tick of the joints of arm `id`: every joint of `now` moves toward
/// its target on its own. Returns the new angles, which `now` keeps.
pub fn tick_robot_joints(now: &mut JointsPos, target: &JointsPos, id: usize) -> (pos: [i64; 6])
    requires
        id < 2,
    ensures
        forall|j: int|
            0 <= j < 6 ==> #[trigger] pos[j] == track(
                old(now).0[id as int][j] as int,
                target.0[id as int][j] as int,
                JOINT_GAIN as nat,
                JOINT_MAX_STEP as nat,
            ),
        final(now).0[id as int] == pos,
        final(now).0[1 - id] == old(now).0[1 - id],
{
    let pos = ct_robot_joints(&now.0[id], &target.0[id]);
    now.0[id] = pos;
    pos
}

/// One tick of the fingers of gripper `id`: every finger of `now` moves
/// toward its target on its own. Returns the new positions, which `now`
/// keeps.
pub fn tick_gripper_fingers(now: &mut FingerPos, target: &FingerPos, id: usize) -> (pos: [i64; 2])
    requires
        id < 2,
    ensures
        forall|f: int|
            0 <= f < 2 ==> #[trigger] pos[f] == track(
                old(now).0[id as int][f] as int,
                target.0[id as int][f] as int,
                FINGER_GAIN as nat,
                FINGER_MAX_STEP as nat,
            ),
        final(now).0[id as int] == pos,
        final(now).0[1 - id] == old(now).0[1 - id],
{
    let pos = ct_gripper_finger(&now.0[id], &target.0[id]);
    now.0[id] = pos;
    pos
}

/// A joint target changed: robot from zero, joint from one, angle in
/// millidegrees.
#[derive(Clone, Copy, Debug, PartialEq, Eq, Structural)]
pub struct EventJointChanged {
    pub robot: u16,
    pub joint: u16,
    pub angle: i64,
}

/// A finger target changed: robot from zero, finger from one, position in
/// milli-percent.
#[derive(Clone, Copy, Debug, PartialEq, Eq, Structural)]
pub struct EventFingerChanged {
    pub robot: u16,
    pub finger: u16,
    pub pos: i64,
}

/// The events for the first `k` joint channels (robot by robot, joint by
/// joint) whose target differs between `last` and `now`.
pub open spec fn joint_events_upto(last: JointsPos, now: JointsPos, k: int) -> Seq<EventJointChanged>
    decreases k,
{
    if k <= 0 {
        Seq::empty()
    } else {
        let earlier = joint_events_upto(last, now, k - 1);
        let r = (k - 1) / 6;
        let j = (k - 1) % 6;
        if last.0[r][j] != now.0[r][j] {
            earlier.push(EventJointChanged { robot: r as u16, joint: (j + 1) as u16, angle: now.0[r][j] })
        } else {
            earlier
        }
    }
}

/// The events for the first `k` finger channels (robot by robot, finger by
/// finger) whose target differs between `last` and `now`.
pub open spec fn finger_events_upto(last: FingerPos, now: FingerPos, k: int) -> Seq<EventFingerChanged>
    decreases k,
{
    if k <= 0 {
        Seq::empty()
    } else {
        let earlier = finger_events_upto(last, now, k - 1);
        let r = (k - 1) / 2;
        let f = (k - 1) % 2;
        if last.0[r][f] != now.0[r][f] {
            earlier.push(EventFingerChanged { robot: r as u16, finger: (f + 1) as u16, pos: now.0[r][f] })
        } else {
            earlier
        }
    }
}

/// One event for each joint target that differs between `last` and `now`.
pub fn joint_events(last: &JointsPos, now: &JointsPos) -> (r: Vec<EventJointChanged>)
    ensures
        r@ == joint_events_upto(*last, *now, 12),
{
    let mut r: Vec<EventJointChanged> = Vec::new();
    for k in 0..12usize
        invariant
            r@ == joint_events_upto(*last, *now, k as int),
    {
        let robot = k / 6;
        let joint = k % 6;
        if last.0[robot][joint] != now.0[robot][joint] {
            r.push(EventJointChanged { robot: robot as u16, joint: (joint + 1) as u16, angle: now.0[robot][joint] });
        }
    }
    r
}

/// One event for each finger target that differs between `last` and `now`.
pub fn finger_events(last: &FingerPos, now: &FingerPos) -> (r: Vec<EventFingerChanged>)
    ensures
        r@ == finger_events_upto(*last, *now, 4),
{
    let mut r: Vec<EventFingerChanged> = Vec::new();
    for k in 0..4usize
        invariant
            r@ == finger_events_upto(*last, *now, k as int),
    {
        let robot = k / 2;
        let finger = k % 2;
        if last.0[robot][finger] != now.0[robot][finger] {
            r.push(EventFingerChanged { robot: robot as u16, finger: (finger + 1) as u16, pos: now.0[robot][finger] });
        }
    }
    r
}

} // verus!
