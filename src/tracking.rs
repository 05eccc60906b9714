use vstd::prelude::*;

verus! {

/// Whether `r` is the square root of `n`, rounded down.
pub open spec fn is_floor_sqrt(n: nat, r: nat) -> bool {
    r * r <= n < (r + 1) * (r + 1)
}

/// The square root of `n`, rounded down.
pub open spec fn floor_sqrt(n: nat) -> nat {
    choose|r: nat| is_floor_sqrt(n, r)
}

proof fn lemma_floor_sqrt_exists(n: nat)
    ensures
        exists|r: nat| is_floor_sqrt(n, r),
    decreases n,
{
    if n == 0 {
        assert(0nat * 0nat == 0 && 1nat * 1nat == 1) by (nonlinear_arith);
        assert(is_floor_sqrt(0, 0));
    } else {
        let m = (n - 1) as nat;
        lemma_floor_sqrt_exists(m);
        let r = choose|r: nat| is_floor_sqrt(m, r);
        if (r + 1) * (r + 1) <= n {
            assert(n < (r + 2) * (r + 2)) by (nonlinear_arith)
                requires
                    m < (r + 1) * (r + 1),
                    n == m + 1,
            ;
            assert(is_floor_sqrt(n, r + 1));
        } else {
            assert(is_floor_sqrt(n, r));
        }
    }
}

/// `floor_sqrt(n)` is the one number whose square is at most `n` while the
/// square of its successor exceeds `n`.
pub proof fn lemma_floor_sqrt(n: nat)
    ensures
        is_floor_sqrt(n, floor_sqrt(n)),
        forall|r: nat| is_floor_sqrt(n, r) ==> r == floor_sqrt(n),
{
    lemma_floor_sqrt_exists(n);
    let s = floor_sqrt(n);
    assert forall|r: nat| is_floor_sqrt(n, r) implies r == s by {
        if r < s {
            assert((r + 1) * (r + 1) <= s * s) by (nonlinear_arith)
                requires
                    r + 1 <= s,
            ;
        } else if s < r {
            assert((s + 1) * (s + 1) <= r * r) by (nonlinear_arith)
                requires
                    s + 1 <= r,
            ;
        }
    }
}

/// Square root of `n`, rounded down, by bisection.
fn sqrt_floor(n: u128) -> (r: u64)
    ensures
        r == floor_sqrt(n as nat),
{
    let mut lo: u128 = 0;
    let mut hi: u128 = 0x1_0000_0000_0000_0000;
    assert(n < hi * hi);
    while hi - lo > 1
        invariant
            lo < hi <= 0x1_0000_0000_0000_0000,
            lo * lo <= n,
            n < hi * hi,
        decreases hi - lo,
    {
        let mid: u128 = lo + (hi - lo) / 2;
        assert(mid * mid < 0x1_0000_0000_0000_0000_0000_0000_0000_0000) by (nonlinear_arith)
            requires
                mid < 0x1_0000_0000_0000_0000,
        ;
        if mid * mid <= n {
            lo = mid;
        } else {
            hi = mid;
        }
    }
    proof {
        lemma_floor_sqrt(n as nat);
        assert(is_floor_sqrt(n as nat, lo as nat));
    }
    lo as u64
}

/// Distance between two values on the line.
pub open spec fn distance(a: int, b: int) -> nat {
    if a >= b {
        (a - b) as nat
    } else {
        (b - a) as nat
    }
}

/// The step taken in one tick: `sqrt(2 * gain * |target - now|)`, rounded
/// down and capped at `max_step`.
pub open spec fn track_step(now: int, target: int, gain: nat, max_step: nat) -> nat {
    let s = floor_sqrt(2 * gain * distance(now, target));
    if s > max_step {
        max_step
    } else {
        s
    }
}

/// The value after one tick: `now` moved toward `target` by the step, and
/// never past `target`.
pub open spec fn track(now: int, target: int, gain: nat, max_step: nat) -> int {
    let step = track_step(now, target, gain, max_step);
    if target >= now {
        if now + step > target {
            target
        } else {
            now + step
        }
    } else {
        if now - step < target {
            target
        } else {
            now - step
        }
    }
}

proof fn lemma_floor_sqrt_of_large(n: nat)
    requires
        n >= 0x1_0000_0000_0000_0000_0000_0000_0000_0000,
    ensures
        floor_sqrt(n) >= 0x1_0000_0000_0000_0000,
{
    lemma_floor_sqrt(n);
    let r = floor_sqrt(n);
    if r < 0x1_0000_0000_0000_0000 {
        assert((r + 1) * (r + 1) <= 0x1_0000_0000_0000_0000_0000_0000_0000_0000) by (nonlinear_arith)
            requires
                r + 1 <= 0x1_0000_0000_0000_0000,
        ;
    }
}

/// Advances `now` one tick toward `target`, critically damped and rate
/// limited: the step is `sqrt(2 * gain * |target - now|)`, rounded down,
/// at most `max_step`, and the value never passes `target`.
///
/// `now`, `target`, `gain` and `max_step` share one fixed-point unit; the
/// square root keeps that unit, since `sqrt(2 * (g / u) * (d / u)) * u` is
/// `sqrt(2 * g * d)`.
pub fn compute_track(now: i64, target: i64, gain: u64, max_step: u64) -> (r: i64)
    ensures
        r == track(now as int, target as int, gain as nat, max_step as nat),
        target >= now ==> now <= r <= target,
        target < now ==> target <= r <= now,
{
    let diff: i128 = target as i128 - now as i128;
    let dist: u128 = if diff >= 0 {
        diff as u128
    } else {
        (-diff) as u128
    };
    assert(dist == distance(now as int, target as int));
    assert(gain * dist < 0x1_0000_0000_0000_0000_0000_0000_0000_0000) by (nonlinear_arith)
        requires
            gain < 0x1_0000_0000_0000_0000,
            dist < 0x1_0000_0000_0000_0000,
    ;
    let prod: u128 = gain as u128 * dist;
    assert(2 * gain * dist == 2 * prod) by (nonlinear_arith)
        requires
            prod == gain * dist,
    ;
    let step: u64 = match prod.checked_mul(2) {
        Some(twice) => {
            let root = sqrt_floor(twice);
            if root > max_step {
                max_step
            } else {
                root
            }
        },
        None => {
            proof {
                lemma_floor_sqrt_of_large(2 * prod as nat);
            }
            max_step
        },
    };
    assert(step == track_step(now as int, target as int, gain as nat, max_step as nat));
    if diff >= 0 {
        let moved: i128 = now as i128 + step as i128;
        if moved > target as i128 {
            target
        } else {
            moved as i64
        }
    } else {
        let moved: i128 = now as i128 - step as i128;
        if moved < target as i128 {
            target
        } else {
            moved as i64
        }
    }
}

/// The value after `n` ticks of `track` toward a fixed `target`.
pub open spec fn track_ticks(now: int, target: int, gain: nat, max_step: nat, n: nat) -> int
    decreases n,
{
    if n == 0 {
        now
    } else {
        track_ticks(track(now, target, gain, max_step), target, gain, max_step, (n - 1) as nat)
    }
}

/// A value already at its target stays there: every further tick returns
/// the target unchanged.
pub proof fn lemma_track_idempotent(target: int, gain: nat, max_step: nat, n: nat)
    ensures
        track(target, target, gain, max_step) == target,
        track_ticks(target, target, gain, max_step, n) == target,
    decreases n,
{
    if n > 0 {
        lemma_track_idempotent(target, gain, max_step, (n - 1) as nat);
    }
}

/// With a positive gain and step limit, a tick away from the target moves
/// at least one unit closer to it.
proof fn lemma_track_progress(now: int, target: int, gain: nat, max_step: nat)
    requires
        gain >= 1,
        max_step >= 1,
        now != target,
    ensures
        distance(track(now, target, gain, max_step), target) < distance(now, target),
{
    let n = 2 * gain * distance(now, target);
    assert(n >= 2) by (nonlinear_arith)
        requires
            gain >= 1,
            distance(now, target) >= 1,
            n == 2 * gain * distance(now, target),
    ;
    lemma_floor_sqrt(n);
    if floor_sqrt(n) == 0 {
        assert(1nat * 1nat == 1) by (nonlinear_arith);
    }
}

/// With a positive gain and step limit, the value reaches `target` after at
/// most `|target - now|` ticks (each tick moves at least one unit) and
/// stays there after any number of further ticks.
pub proof fn lemma_track_converges(now: int, target: int, gain: nat, max_step: nat, n: nat)
    requires
        gain >= 1,
        max_step >= 1,
        n >= distance(now, target),
    ensures
        track_ticks(now, target, gain, max_step, n) == target,
    decreases n,
{
    if now == target {
        lemma_track_idempotent(target, gain, max_step, n);
    } else {
        lemma_track_progress(now, target, gain, max_step);
        lemma_track_converges(track(now, target, gain, max_step), target, gain, max_step, (n - 1) as nat);
    }
}

/// Where the step limit is small against the gain (`max_step^2 <= 2 *
/// gain`), every tick short of the target moves by the full `max_step`, so
/// the value reaches `target` within `ceil(|target - now| / max_step)` ticks.
pub proof fn lemma_track_converges_at_full_step(
    now: int,
    target: int,
    gain: nat,
    max_step: nat,
    n: nat,
)
    requires
        max_step >= 1,
        max_step * max_step <= 2 * gain,
        n * max_step >= distance(now, target),
    ensures
        track_ticks(now, target, gain, max_step, n) == target,
    decreases n,
{
    if now == target {
        lemma_track_idempotent(target, gain, max_step, n);
    } else {
        let d = distance(now, target);
        let x = 2 * gain * d;
        assert(max_step * max_step <= x) by (nonlinear_arith)
            requires
                max_step * max_step <= 2 * gain,
                d >= 1,
                x == 2 * gain * d,
        ;
        lemma_floor_sqrt(x);
        if floor_sqrt(x) < max_step {
            assert((floor_sqrt(x) + 1) * (floor_sqrt(x) + 1) <= max_step * max_step) by (nonlinear_arith)
                requires
                    floor_sqrt(x) + 1 <= max_step,
            ;
        }
        let next = track(now, target, gain, max_step);
        assert(n >= 1) by (nonlinear_arith)
            requires
                n * max_step >= d,
                d >= 1,
        ;
        assert((n - 1) * max_step == n * max_step - max_step) by (nonlinear_arith);
        lemma_track_converges_at_full_step(next, target, gain, max_step, (n - 1) as nat);
    }
}

/// Gain of joint tracking: 0.5 degree, in millidegrees.
pub const JOINT_GAIN: u64 = 500;

/// Largest joint move in one tick: 16 degrees, in millidegrees.
pub const JOINT_MAX_STEP: u64 = 16_000;

/// Gain of finger tracking: 2 percent, in milli-percent.
pub const FINGER_GAIN: u64 = 2_000;

/// Largest finger move in one tick: 5 percent, in milli-percent.
pub const FINGER_MAX_STEP: u64 = 5_000;

/// One tick of the six joint channels of an arm (millidegrees), each
/// tracked on its own.
pub fn ct_robot_joints(now: &[i64; 6], target: &[i64; 6]) -> (out: [i64; 6])
    ensures
        forall|i: int|
            0 <= i < 6 ==> #[trigger] out[i] == track(
                now[i] as int,
                target[i] as int,
                JOINT_GAIN as nat,
                JOINT_MAX_STEP as nat,
            ),
{
    let mut out: [i64; 6] = [0; 6];
    for i in 0..6
        invariant
            forall|j: int|
                0 <= j < i ==> #[trigger] out[j] == track(
                    now[j] as int,
                    target[j] as int,
                    JOINT_GAIN as nat,
                    JOINT_MAX_STEP as nat,
                ),
    {
        out[i] = compute_track(now[i], target[i], JOINT_GAIN, JOINT_MAX_STEP);
    }
    out
}

/// One tick of the two finger channels of a gripper (milli-percent), each
/// tracked on its own.
pub fn ct_gripper_finger(now: &[i64; 2], target: &[i64; 2]) -> (out: [i64; 2])
    ensures
        forall|i: int|
            0 <= i < 2 ==> #[trigger] out[i] == track(
                now[i] as int,
                target[i] as int,
                FINGER_GAIN as nat,
                FINGER_MAX_STEP as nat,
            ),
{
    let mut out: [i64; 2] = [0; 2];
    for i in 0..2
        invariant
            forall|j: int|
                0 <= j < i ==> #[trigger] out[j] == track(
                    now[j] as int,
                    target[j] as int,
                    FINGER_GAIN as nat,
                    FINGER_MAX_STEP as nat,
                ),
    {
        out[i] = compute_track(now[i], target[i], FINGER_GAIN, FINGER_MAX_STEP);
    }
    out
}

} // verus!
