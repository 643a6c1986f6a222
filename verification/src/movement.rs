//! The validated movement command: the single choke point that keeps
//! malformed physical commands away from the hardware.

use vstd::prelude::*;

use crate::axis::AxisId;

verus! {

/// Full scale of an axis as a fixed-point position: this value stands for
/// 1.0, so positions are millionths of the travel range.
pub const POSITION_SCALE: u32 = 1_000_000;

/// Longest ramp duration, in milliseconds, that the wire protocol accepts.
pub const MAX_RAMP_TIME_MS: u32 = 9_999_999;

/// A validated command: move `axis` to `target` over `ramp_time_milliseconds`.
/// The fields are private, so every `Movement` in existence went through
/// [`Movement::new`] and satisfies [`Movement::wf`].
#[derive(Copy, Clone, Debug, PartialEq, Eq, Structural)]
pub struct Movement {
    axis: AxisId,
    target: u32,
    ramp_time_milliseconds: u32,
}

impl Movement {
    /// The axis as seen by specifications.
    pub closed spec fn spec_axis(self) -> AxisId {
        self.axis
    }

    /// The target position as seen by specifications.
    pub closed spec fn spec_target(self) -> u32 {
        self.target
    }

    /// The ramp duration as seen by specifications.
    pub closed spec fn spec_ramp_time(self) -> u32 {
        self.ramp_time_milliseconds
    }

    /// The invariant construction establishes: the target is a position
    /// inside the full scale and the ramp duration fits the protocol.
    pub open spec fn wf(self) -> bool {
        self.spec_target() <= POSITION_SCALE && self.spec_ramp_time() <= MAX_RAMP_TIME_MS
    }

    /// The movement value with the given fields, for specifications that
    /// need to say which movement a computation produces.
    pub closed spec fn spec_movement(axis: AxisId, target: u32, ramp_time_milliseconds: u32) -> Movement {
        Movement { axis, target, ramp_time_milliseconds }
    }

    /// Creates a movement of `axis` to position `target` (millionths of full
    /// scale) over `ramp_time_milliseconds`. Construction fails exactly when
    /// the target lies outside the full scale or the duration exceeds the
    /// protocol maximum; on success the stored fields equal the inputs.
    pub fn new(axis: AxisId, target: u32, ramp_time_milliseconds: u32) -> (r: Option<Movement>)
        ensures
            r is Some <==> (target <= POSITION_SCALE && ramp_time_milliseconds <= MAX_RAMP_TIME_MS),
            r matches Some(m) ==> m == Self::spec_movement(axis, target, ramp_time_milliseconds)
                && m.spec_axis() == axis && m.spec_target() == target && m.spec_ramp_time()
                == ramp_time_milliseconds && m.wf(),
    {
        if target > POSITION_SCALE {
            return None;
        }
        if ramp_time_milliseconds > MAX_RAMP_TIME_MS {
            return None;
        }
        Some(Movement { axis, target, ramp_time_milliseconds })
    }

    /// The axis this movement addresses.
    pub fn axis(&self) -> (r: AxisId)
        ensures
            r == self.spec_axis(),
    {
        self.axis
    }

    /// The target position, in millionths of full scale.
    pub fn target(&self) -> (r: u32)
        ensures
            r == self.spec_target(),
    {
        self.target
    }

    /// The ramp duration in milliseconds.
    pub fn ramp_time_milliseconds(&self) -> (r: u32)
        ensures
            r == self.spec_ramp_time(),
    {
        self.ramp_time_milliseconds
    }
}

} // verus!
