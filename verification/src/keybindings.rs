//! Commands a user can trigger while content plays.

use vstd::prelude::*;

use crate::axis::AxisKind;

verus! {

/// A user-triggered command.
#[derive(Copy, Clone, Debug, PartialEq, Eq, Structural)]
pub enum KeyCommand {
    AxisLimitChange(AxisLimitChangeCommand),
}

/// Changes the motion window of an axis. Each bound can be moved by a
/// relative amount or replaced outright; asking for both at once on the
/// same bound is an input error. Amounts are millionths of full scale.
#[derive(Copy, Clone, Debug, PartialEq, Eq, Structural)]
pub struct AxisLimitChangeCommand {
    /// The axis whose window changes.
    pub axis: AxisKind,
    /// Move the minimum by this signed amount, clamping into the scale.
    pub min_by: Option<i32>,
    /// Replace the minimum with this position.
    pub min_new: Option<u32>,
    /// Move the maximum by this signed amount, clamping into the scale.
    pub max_by: Option<i32>,
    /// Replace the maximum with this position.
    pub max_new: Option<u32>,
}

} // verus!
