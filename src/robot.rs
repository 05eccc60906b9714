use vstd::prelude::*;

verus! {

/// The arm's default pose, in millidegrees per joint, base joint first.
pub const JOINTS_POS: [i64; 6] = [90_000, -120_000, 90_000, -60_000, -90_000, 0];

/// Half a turn, in millidegrees.
pub const HALF_TURN: i64 = 180_000;

/// The Denavit-Hartenberg constants of one joint: link length `a` and link
/// offset `d` in micrometres, link twist `alpha` in millidegrees.
#[derive(Clone, Copy, Debug, PartialEq, Eq, Structural)]
pub struct DhParam {
    pub a: i64,
    pub alpha: i64,
    pub d: i64,
}

/// The arm's geometry, joint `i` from the base outward.
pub open spec fn spec_dh_param(i: int) -> DhParam {
    if i == 0 {
        DhParam { a: 0, alpha: 0, d: 89_200 }
    } else if i == 1 {
        DhParam { a: 0, alpha: -90_000i64, d: 134_200 }
    } else if i == 2 {
        DhParam { a: 425_000, alpha: 180_000, d: 118_950 }
    } else if i == 3 {
        DhParam { a: 392_250, alpha: 180_000, d: 94_750 }
    } else if i == 4 {
        DhParam { a: 0, alpha: -90_000i64, d: 94_750 }
    } else {
        DhParam { a: 0, alpha: -90_000i64, d: 81_500 }
    }
}

/// The constants of joint `i`, from the base outward.
pub fn dh_param(i: usize) -> (r: DhParam)
    requires
        i < 6,
    ensures
        r == spec_dh_param(i as int),
{
    if i == 0 {
        DhParam { a: 0, alpha: 0, d: 89_200 }
    } else if i == 1 {
        DhParam { a: 0, alpha: -90_000, d: 134_200 }
    } else if i == 2 {
        DhParam { a: 425_000, alpha: 180_000, d: 118_950 }
    } else if i == 3 {
        DhParam { a: 392_250, alpha: 180_000, d: 94_750 }
    } else if i == 4 {
        DhParam { a: 0, alpha: -90_000, d: 94_750 }
    } else {
        DhParam { a: 0, alpha: -90_000, d: 81_500 }
    }
}

/// The joint angles that enter the kinematic chain: the first and fifth
/// joint turned by half a turn and the third one negated, which aligns the
/// chain's convention with the arm's physical zero pose.
pub open spec fn spec_revised_joints(joints: [i64; 6]) -> Seq<int> {
    seq![
        joints[0] + HALF_TURN,
        joints[1] as int,
        -joints[2],
        joints[3] as int,
        joints[4] + HALF_TURN,
        joints[5] as int,
    ]
}

/// The joint angles in the chain's convention (see `spec_revised_joints`).
pub fn revised_joints(joints: &[i64; 6]) -> (r: [i64; 6])
    requires
        joints[0] <= i64::MAX - HALF_TURN,
        joints[2] > i64::MIN,
        joints[4] <= i64::MAX - HALF_TURN,
    ensures
        r@.map_values(|x: i64| x as int) == spec_revised_joints(*joints),
{
    let r = [joints[0] + HALF_TURN, joints[1], -joints[2], joints[3], joints[4] + HALF_TURN, joints[5]];
    assert(r@.map_values(|x: i64| x as int) =~= spec_revised_joints(*joints));
    r
}

/// One arm: its identifier and its joint angles in millidegrees.
pub struct RobotUr5 {
    pub id: u64,
    pub joints: [i64; 6],
}

impl RobotUr5 {
    /// An arm in pose `joints`, or in the default pose.
    pub fn new(id: u64, joints: Option<[i64; 6]>) -> (r: Self)
        ensures
            r.id == id,
            r.joints == match joints {
                Some(j) => j,
                None => JOINTS_POS,
            },
    {
        let joints = match joints {
            Some(j) => j,
            None => RobotUr5::default_joints(),
        };
        RobotUr5 { id, joints }
    }

    /// The default pose.
    pub fn default_joints() -> (r: [i64; 6])
        ensures
            r == JOINTS_POS,
    {
        JOINTS_POS
    }

    /// Sets the six joint angles, in millidegrees.
    pub fn set_deg(&mut self, j: [i64; 6])
        ensures
            final(self).id == old(self).id,
            final(self).joints == j,
    {
        self.joints = j;
    }
}

} // verus!
