use vstd::prelude::*;

verus! {

/// A fully closed finger: opening 1.0, as 100 percent in milli-percent.
pub const OPENING_FULL: i64 = 100_000;

/// Pivot of the driving link, `[x, z]` in micrometres.
pub const DRIVING_POS: [i64; 2] = [24_000, 80_750];

/// Length of the driving link, in micrometres.
pub const DRIVING_LENGTH: i64 = 55_000;

/// Swing of the driving link at opening 1.0 and at opening 0.0, in
/// microdegrees.
pub const DRIVING_ANGLE: [i64; 2] = [30_000_000, 103_500_000];

/// Pivot of the follower link, `[x, z]` in micrometres.
pub const FOLLOWER_POS: [i64; 2] = [57_000, 68_750];

/// Offset of the fingertip from the finger plate, `[x, z]` in micrometres.
pub const FINGERTIP_POS: [i64; 2] = [-11_000, 50_500];

/// The two fingers of a gripper; finger one is the mirror image of finger
/// two.
#[derive(Clone, Copy, Debug, PartialEq, Eq, Structural)]
pub enum Finger {
    One,
    Two,
}

/// How far the driving link has swung from its closed angle, in units of
/// `1 / OPENING_FULL`: `|1 - opening|`, capped at 1 (and not floored).
pub open spec fn spec_swing_fraction(opening: int) -> int {
    let d = if opening <= OPENING_FULL {
        OPENING_FULL - opening
    } else {
        opening - OPENING_FULL
    };
    if d > OPENING_FULL {
        OPENING_FULL as int
    } else {
        d
    }
}

/// The swing of the driving link at `opening`, in microdegrees: linear
/// between the closed and the open angle in the swing fraction.
pub open spec fn spec_swing_angle(opening: int) -> int {
    DRIVING_ANGLE[0] + (DRIVING_ANGLE[1] - DRIVING_ANGLE[0]) * spec_swing_fraction(opening)
        / OPENING_FULL as int
}

/// The swing fraction of `opening` (milli-percent).
pub fn swing_fraction(opening: i64) -> (r: i64)
    ensures
        r == spec_swing_fraction(opening as int),
        0 <= r <= OPENING_FULL,
{
    let d: i128 = OPENING_FULL as i128 - opening as i128;
    let d: i128 = if d < 0 {
        -d
    } else {
        d
    };
    if d > OPENING_FULL as i128 {
        OPENING_FULL
    } else {
        d as i64
    }
}

/// The swing of the driving link at `opening` (milli-percent), in
/// microdegrees. Both the linkage and the follower link turn by it.
pub fn swing_angle(opening: i64) -> (r: i64)
    ensures
        r == spec_swing_angle(opening as int),
        DRIVING_ANGLE[0] <= r <= DRIVING_ANGLE[1],
{
    let f = swing_fraction(opening);
    let span: i64 = DRIVING_ANGLE[1] - DRIVING_ANGLE[0];
    assert(span * f <= span * OPENING_FULL) by (nonlinear_arith)
        requires
            0 <= f <= OPENING_FULL,
            span >= 0,
    ;
    assert(0 <= span * f) by (nonlinear_arith)
        requires
            0 <= f,
            span >= 0,
    ;
    DRIVING_ANGLE[0] + span * f / OPENING_FULL
}

/// A gripper: its identifier and the openings of its two fingers, in
/// milli-percent (`OPENING_FULL` is closed, 0 is open).
pub struct GripperCtm2f110 {
    pub id: u64,
    pub pos1: i64,
    pub pos2: i64,
}

impl GripperCtm2f110 {
    /// A gripper with finger openings `finger_pos`, or closed.
    pub fn new(id: u64, finger_pos: Option<[i64; 2]>) -> (r: Self)
        ensures
            r.id == id,
            [r.pos1, r.pos2] == match finger_pos {
                Some(p) => p,
                None => [OPENING_FULL, OPENING_FULL],
            },
    {
        let p = match finger_pos {
            Some(p) => p,
            None => [OPENING_FULL, OPENING_FULL],
        };
        GripperCtm2f110 { id, pos1: p[0], pos2: p[1] }
    }

    /// Sets both finger openings from tracked finger positions.
    pub fn set_fingers(&mut self, pos: [i64; 2])
        ensures
            final(self).id == old(self).id,
            final(self).pos1 == pos[0],
            final(self).pos2 == pos[1],
    {
        self.pos1 = pos[0];
        self.pos2 = pos[1];
    }

    /// The opening of `finger`.
    pub fn opening(&self, finger: Finger) -> (r: i64)
        ensures
            r == match finger {
                Finger::One => self.pos1,
                Finger::Two => self.pos2,
            },
    {
        match finger {
            Finger::One => self.pos1,
            Finger::Two => self.pos2,
        }
    }
}

} // verus!
