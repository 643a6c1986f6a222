//! The axis motion limiter: estimates where the axis currently is by
//! extrapolating the last commanded motion, and turns a desired
//! (target, duration) pair into one whose implied speed stays inside the
//! configured ceiling and whose target stays inside the configured window.
//!
//! Positions are millionths of full scale; times are milliseconds; speeds
//! are millionths of full scale per second.

use vstd::arithmetic::div_mod::{
    lemma_div_is_ordered, lemma_div_multiples_vanish, lemma_div_pos_is_pos,
};
use vstd::arithmetic::mul::lemma_mul_inequality;
use vstd::prelude::*;

use crate::movement::POSITION_SCALE;

verus! {

/// `0 <= d*e/t <= d` whenever `0 <= e <= t`: taking an `e/t` fraction of a
/// non-negative quantity never leaves `[0, d]`.
proof fn lemma_scaled_frac_bounds(d: int, e: int, t: int)
    requires
        0 <= d,
        0 <= e <= t,
        0 < t,
    ensures
        0 <= d * e / t <= d,
{
    lemma_mul_inequality(e, t, d);
    assert(e * d <= t * d);
    assert(d * e == e * d) by (nonlinear_arith);
    assert(d * t == t * d) by (nonlinear_arith);
    lemma_div_is_ordered(d * e, d * t, t);
    lemma_div_multiples_vanish(d, t);
    lemma_div_pos_is_pos(d * e, t);
    assert(d * e >= 0) by (nonlinear_arith)
        requires
            0 <= d,
            0 <= e,
    ;
}

/// Tracks the last commanded motion of one axis and limits speed.
pub struct AxisLimiter {
    /// Speed ceiling, in millionths of full scale per second.
    pub speed_limit: u32,
    /// Time the last-issued command started, in milliseconds.
    pub last_command_start_time: u64,
    /// Estimated position when the last-issued command started.
    pub last_command_start: u32,
    /// Time the last-issued command is due to finish.
    pub last_command_target_time: u64,
    /// Position the last-issued command aims at.
    pub last_command_target: u32,
    /// Bottom of the configured window. May exceed `max`: that inverts the
    /// motion range and is allowed.
    pub min: u32,
    /// Top of the configured window.
    pub max: u32,
}

impl AxisLimiter {
    /// The limiter's invariant: positions inside the full scale, the last
    /// command's interval well-ordered and of bounded length.
    pub open spec fn wf(self) -> bool {
        &&& self.last_command_start <= POSITION_SCALE
        &&& self.last_command_target <= POSITION_SCALE
        &&& self.min <= POSITION_SCALE
        &&& self.max <= POSITION_SCALE
        &&& self.last_command_start_time <= self.last_command_target_time
        &&& self.last_command_target_time - self.last_command_start_time <= u32::MAX
    }

    /// Where the axis is presumed to be at `now`: at the last target once
    /// `now` is at or past the last command's target time, linearly
    /// interpolated while it is in flight, and at its start position
    /// before it begins.
    pub open spec fn spec_estimate(self, now: u64) -> int {
        let start = self.last_command_start as int;
        let target = self.last_command_target as int;
        if self.last_command_target_time <= now {
            target
        } else if self.last_command_start_time < now {
            let elapsed = now - self.last_command_start_time;
            let total = self.last_command_target_time - self.last_command_start_time;
            if target >= start {
                start + (target - start) * elapsed / total
            } else {
                start - (start - target) * elapsed / total
            }
        } else {
            start
        }
    }

    /// The estimate never leaves the segment between the last command's
    /// start and target positions, so it stays inside the full scale.
    pub proof fn lemma_estimate_in_scale(self, now: u64)
        requires
            self.wf(),
        ensures
            0 <= self.spec_estimate(now) <= POSITION_SCALE,
    {
        let start = self.last_command_start as int;
        let target = self.last_command_target as int;
        if self.last_command_target_time <= now {
        } else if self.last_command_start_time < now {
            let elapsed = now - self.last_command_start_time;
            let total = self.last_command_target_time - self.last_command_start_time;
            if target >= start {
                lemma_scaled_frac_bounds(target - start, elapsed, total);
            } else {
                lemma_scaled_frac_bounds(start - target, elapsed, total);
            }
        } else {
        }
    }

    /// Estimates the position of the axis at `now`, extrapolating the last
    /// commanded motion. Pure in the stored state and `now`.
    pub fn estimate_current_position(&self, now: u64) -> (r: u32)
        requires
            self.wf(),
        ensures
            r == self.spec_estimate(now),
            r <= POSITION_SCALE,
    {
        proof {
            self.lemma_estimate_in_scale(now);
        }
        let start = self.last_command_start;
        let target = self.last_command_target;
        if self.last_command_target_time <= now {
            target
        } else if self.last_command_start_time < now {
            let elapsed = now - self.last_command_start_time;
            let total = self.last_command_target_time - self.last_command_start_time;
            if target >= start {
                let gap = (target - start) as u64;
                proof {
                    assert(gap * elapsed <= gap * total) by (nonlinear_arith)
                        requires
                            0 <= elapsed <= total,
                            0 <= gap,
                    ;
                    assert(gap * total <= 1_000_000 * (u32::MAX as int)) by (nonlinear_arith)
                        requires
                            0 <= gap <= 1_000_000,
                            0 <= total <= u32::MAX,
                    ;
                }
                start + (gap * elapsed / total) as u32
            } else {
                let gap = (start - target) as u64;
                proof {
                    assert(gap * elapsed <= gap * total) by (nonlinear_arith)
                        requires
                            0 <= elapsed <= total,
                            0 <= gap,
                    ;
                    assert(gap * total <= 1_000_000 * (u32::MAX as int)) by (nonlinear_arith)
                        requires
                            0 <= gap <= 1_000_000,
                            0 <= total <= u32::MAX,
                    ;
                }
                start - (gap * elapsed / total) as u32
            }
        } else {
            start
        }
    }

    /// The desired target remapped into the configured `[min, max]` window.
    /// `min > max` simply inverts the direction of the window.
    pub open spec fn spec_remap(self, raw_target: u32) -> int {
        let mn = self.min as int;
        let mx = self.max as int;
        if mx >= mn {
            mn + (mx - mn) * raw_target / (POSITION_SCALE as int)
        } else {
            mn - (mn - mx) * raw_target / (POSITION_SCALE as int)
        }
    }

    /// The remapped target always lies between `min` and `max` inclusive,
    /// whichever way round they are.
    pub proof fn lemma_remap_between_limits(self, raw_target: u32)
        requires
            raw_target <= POSITION_SCALE,
        ensures
            self.min <= self.max ==> self.min <= self.spec_remap(raw_target) <= self.max,
            self.min > self.max ==> self.max <= self.spec_remap(raw_target) <= self.min,
    {
        let mn = self.min as int;
        let mx = self.max as int;
        if mx >= mn {
            lemma_scaled_frac_bounds(mx - mn, raw_target as int, POSITION_SCALE as int);
        } else {
            lemma_scaled_frac_bounds(mn - mx, raw_target as int, POSITION_SCALE as int);
        }
    }

    /// The duration used for speed computation: at least one millisecond.
    pub open spec fn spec_effective_duration(duration_millis: u32) -> int {
        if duration_millis == 0 {
            1
        } else {
            duration_millis as int
        }
    }

    /// What limiting decides, as a pure function of the stored state and the
    /// inputs: the remapped target if its implied speed is under the
    /// ceiling, else the point reachable at exactly the ceiling, in the
    /// direction of the remapped target; the duration passes through
    /// unchanged either way.
    pub open spec fn spec_limit_target(self, now: u64, raw_target: u32, duration_millis: u32) -> int {
        let cur = self.spec_estimate(now);
        let target = self.spec_remap(raw_target);
        let dur = Self::spec_effective_duration(duration_millis);
        let delta = target - cur;
        let dist = if delta >= 0 {
            delta
        } else {
            -delta
        };
        if dist * 1000 < self.speed_limit * dur {
            target
        } else {
            let max_dist = self.speed_limit * dur / 1000;
            if delta >= 0 {
                cur + max_dist
            } else {
                cur - max_dist
            }
        }
    }

    /// Limits a proposed order to move to `raw_target` (millionths of full
    /// scale, before remapping) over `duration_millis`. The returned target
    /// keeps the duration and never implies a speed above the ceiling:
    /// its distance from the current estimate, in millionths per second,
    /// stays within `speed_limit`.
    pub fn limit_command(&self, now: u64, raw_target: u32, duration_millis: u32) -> (r: (u32, u32))
        requires
            self.wf(),
            raw_target <= POSITION_SCALE,
        ensures
            r.0 == self.spec_limit_target(now, raw_target, duration_millis),
            r.1 == duration_millis,
            r.0 <= POSITION_SCALE,
            ({
                let moved = if r.0 >= self.spec_estimate(now) {
                    r.0 - self.spec_estimate(now)
                } else {
                    self.spec_estimate(now) - r.0
                };
                moved * 1000 <= self.speed_limit * Self::spec_effective_duration(duration_millis)
            }),
    {
        proof {
            self.lemma_estimate_in_scale(now);
            self.lemma_remap_between_limits(raw_target);
        }
        let cur = self.estimate_current_position(now);
        let mn = self.min;
        let mx = self.max;
        let target: u32 = if mx >= mn {
            mn + ((mx - mn) as u64 * raw_target as u64 / 1_000_000) as u32
        } else {
            mn - ((mn - mx) as u64 * raw_target as u64 / 1_000_000) as u32
        };
        let dur_eff: u64 = if duration_millis == 0 {
            1
        } else {
            duration_millis as u64
        };
        let dist: u64 = if target >= cur {
            (target - cur) as u64
        } else {
            (cur - target) as u64
        };
        proof {
            assert(self.speed_limit as int * dur_eff as int <= (u32::MAX as int) * (
            u32::MAX as int)) by (nonlinear_arith)
                requires
                    0 <= self.speed_limit <= u32::MAX,
                    0 <= dur_eff <= u32::MAX,
            ;
        }
        let allowance: u64 = self.speed_limit as u64 * dur_eff;
        if dist * 1000 < allowance {
            (target, duration_millis)
        } else {
            let max_dist = allowance / 1000;
            proof {
                lemma_div_is_ordered(allowance as int, dist as int * 1000, 1000);
                lemma_div_multiples_vanish(dist as int, 1000);
                assert(dist * 1000 == 1000 * dist) by (nonlinear_arith);
                assert(max_dist <= dist);
            }
            if target >= cur {
                ((cur + max_dist as u32), duration_millis)
            } else {
                ((cur - max_dist as u32), duration_millis)
            }
        }
    }

    /// The limiter state after a dispatch at `now` towards `target` over
    /// `duration_millis` has been recorded.
    pub open spec fn spec_after_commanded(self, now: u64, target: u32, duration_millis: u32) -> AxisLimiter {
        AxisLimiter {
            last_command_start: self.spec_estimate(now) as u32,
            last_command_start_time: now,
            last_command_target: target,
            last_command_target_time: (now + duration_millis) as u64,
            ..self
        }
    }

    /// Records that a movement was just dispatched: future estimates start
    /// from the estimate at `now` and ramp to `target` over
    /// `duration_millis`. Must be called right after each dispatch, or
    /// later estimates silently drift from reality.
    pub fn notify_commanded(&mut self, now: u64, target: u32, duration_millis: u32)
        requires
            old(self).wf(),
            target <= POSITION_SCALE,
            now + duration_millis <= u64::MAX,
        ensures
            final(self).wf(),
            *final(self) == old(self).spec_after_commanded(now, target, duration_millis),
            final(self).last_command_start == old(self).spec_estimate(now),
            final(self).last_command_start_time == now,
            final(self).last_command_target == target,
            final(self).last_command_target_time == now + duration_millis,
            final(self).speed_limit == old(self).speed_limit,
            final(self).min == old(self).min,
            final(self).max == old(self).max,
    {
        let start = self.estimate_current_position(now);
        self.last_command_start = start;
        self.last_command_start_time = now;
        self.last_command_target = target;
        self.last_command_target_time = now + duration_millis as u64;
    }

    /// A fresh limiter: mid-scale position, an already-finished command at
    /// `now`, and the given speed ceiling and window.
    pub fn new(speed_limit: u32, min: u32, max: u32, now: u64) -> (r: AxisLimiter)
        requires
            min <= POSITION_SCALE,
            max <= POSITION_SCALE,
        ensures
            r.wf(),
            r.speed_limit == speed_limit,
            r.min == min,
            r.max == max,
            r.last_command_start == POSITION_SCALE / 2,
            r.last_command_target == POSITION_SCALE / 2,
            r.last_command_start_time == now,
            r.last_command_target_time == now,
    {
        AxisLimiter {
            speed_limit,
            last_command_start_time: now,
            last_command_start: 500_000,
            last_command_target_time: now,
            last_command_target: 500_000,
            min,
            max,
        }
    }
}

/// Why a limit-change command was rejected.
#[derive(Copy, Clone, Debug, PartialEq, Eq, Structural)]
pub enum LimitChangeError {
    /// Both a relative and an absolute change were given for one bound.
    ConflictingParameters,
    /// An absolute replacement lies outside the full scale.
    OutOfRange,
}

/// What changing one bound yields: a relative move clamps into the scale,
/// an absolute replacement must already be inside it, both at once is an
/// error, neither leaves the bound alone.
pub open spec fn spec_update_limit(by: Option<i32>, new: Option<u32>, cur: u32) -> Result<
    u32,
    LimitChangeError,
> {
    match (by, new) {
        (Some(_), Some(_)) => Err(LimitChangeError::ConflictingParameters),
        (Some(b), None) => {
            let v = cur as int + b as int;
            Ok(
                if v < 0 {
                    0 as u32
                } else if v > POSITION_SCALE as int {
                    POSITION_SCALE
                } else {
                    v as u32
                },
            )
        },
        (None, Some(n)) => if n > POSITION_SCALE {
            Err(LimitChangeError::OutOfRange)
        } else {
            Ok(n)
        },
        (None, None) => Ok(cur),
    }
}

/// Changes one bound as [`spec_update_limit`] describes.
fn update_one_limit(by: Option<i32>, new: Option<u32>, cur: u32) -> (r: Result<
    u32,
    LimitChangeError,
>)
    requires
        cur <= POSITION_SCALE,
    ensures
        r == spec_update_limit(by, new, cur),
        r matches Ok(v) ==> v <= POSITION_SCALE,
{
    match (by, new) {
        (Some(_), Some(_)) => Err(LimitChangeError::ConflictingParameters),
        (Some(b), None) => {
            let v: i64 = cur as i64 + b as i64;
            Ok(
                if v < 0 {
                    0
                } else if v > POSITION_SCALE as i64 {
                    POSITION_SCALE
                } else {
                    v as u32
                },
            )
        },
        (None, Some(n)) => if n > POSITION_SCALE {
            Err(LimitChangeError::OutOfRange)
        } else {
            Ok(n)
        },
        (None, None) => Ok(cur),
    }
}

/// Applies a limit-change command to a limiter's window. Both bounds are
/// validated before either is touched: on any error the window is left
/// exactly as it was. Nothing stops the new minimum from exceeding the new
/// maximum; that inverts the motion range on purpose.
pub fn update_limits(cmd: &crate::keybindings::AxisLimitChangeCommand, limits: &mut AxisLimiter) -> (r:
    Result<(), LimitChangeError>)
    requires
        old(limits).wf(),
    ensures
        final(limits).wf(),
        final(limits).speed_limit == old(limits).speed_limit,
        final(limits).last_command_start == old(limits).last_command_start,
        final(limits).last_command_start_time == old(limits).last_command_start_time,
        final(limits).last_command_target == old(limits).last_command_target,
        final(limits).last_command_target_time == old(limits).last_command_target_time,
        match r {
            Ok(_) => spec_update_limit(cmd.min_by, cmd.min_new, old(limits).min) == Ok::<
                _,
                LimitChangeError,
            >(final(limits).min) && spec_update_limit(cmd.max_by, cmd.max_new, old(limits).max)
                == Ok::<_, LimitChangeError>(final(limits).max),
            Err(e) => final(limits).min == old(limits).min && final(limits).max == old(limits).max
                && match spec_update_limit(cmd.min_by, cmd.min_new, old(limits).min) {
                Err(e1) => e == e1,
                Ok(_) => spec_update_limit(cmd.max_by, cmd.max_new, old(limits).max) == Err::<
                    u32,
                    _,
                >(e),
            },
        },
{
    let new_min = match update_one_limit(cmd.min_by, cmd.min_new, limits.min) {
        Ok(v) => v,
        Err(e) => {
            return Err(e);
        },
    };
    let new_max = match update_one_limit(cmd.max_by, cmd.max_new, limits.max) {
        Ok(v) => v,
        Err(e) => {
            return Err(e);
        },
    };
    limits.min = new_min;
    limits.max = new_max;
    Ok(())
}

/// Two limit decisions from the same state and the same inputs are the same
/// decision: `limit_command` commits nothing, so calling it again without an
/// intervening `notify_commanded` repeats its output exactly.
pub proof fn lemma_limit_command_idempotent(
    s: AxisLimiter,
    now: u64,
    raw_target: u32,
    duration_millis: u32,
    r1: (u32, u32),
    r2: (u32, u32),
)
    requires
        r1.0 == s.spec_limit_target(now, raw_target, duration_millis),
        r1.1 == duration_millis,
        r2.0 == s.spec_limit_target(now, raw_target, duration_millis),
        r2.1 == duration_millis,
    ensures
        r1 == r2,
{
}

} // verus!
