//! A device backend that drives no hardware: it accepts the same calls a
//! real session does, over a fixed set of axes, so the rest of the system
//! can run without a device (the caller logs what would have been sent).

use vstd::prelude::*;

use crate::axis::{AxisDescriptor, AxisId, AxisKind};
use crate::movement::Movement;

verus! {

/// The fixed axes the debug backend pretends to have.
pub open spec fn spec_debug_axes() -> Seq<AxisDescriptor> {
    seq![
        AxisDescriptor { axis_id: AxisId(1), axis_kind: AxisKind::Stroke },
        AxisDescriptor { axis_id: AxisId(2), axis_kind: AxisKind::Surge },
        AxisDescriptor { axis_id: AxisId(3), axis_kind: AxisKind::Sway },
        AxisDescriptor { axis_id: AxisId(4), axis_kind: AxisKind::Twist },
        AxisDescriptor { axis_id: AxisId(5), axis_kind: AxisKind::Roll },
        AxisDescriptor { axis_id: AxisId(6), axis_kind: AxisKind::Pitch },
    ]
}

/// Error of [`DebugStroker::movement`]: the movement names an axis the
/// backend does not have.
#[derive(Copy, Clone, Debug, PartialEq, Eq, Structural)]
pub struct InvalidAxis {}

/// Does not connect to a real device; accepts commands for a fixed axis
/// set and does nothing with them.
#[non_exhaustive]
pub struct DebugStroker {}

impl DebugStroker {
    /// A fresh debug backend.
    pub fn new() -> DebugStroker {
        DebugStroker {}
    }

    /// The fixed axis set.
    pub fn axes(&mut self) -> (r: Vec<AxisDescriptor>)
        ensures
            r@ == spec_debug_axes(),
    {
        let mut r: Vec<AxisDescriptor> = Vec::new();
        r.push(AxisDescriptor { axis_id: AxisId(1), axis_kind: AxisKind::Stroke });
        r.push(AxisDescriptor { axis_id: AxisId(2), axis_kind: AxisKind::Surge });
        r.push(AxisDescriptor { axis_id: AxisId(3), axis_kind: AxisKind::Sway });
        r.push(AxisDescriptor { axis_id: AxisId(4), axis_kind: AxisKind::Twist });
        r.push(AxisDescriptor { axis_id: AxisId(5), axis_kind: AxisKind::Roll });
        r.push(AxisDescriptor { axis_id: AxisId(6), axis_kind: AxisKind::Pitch });
        proof {
            assert(r@ =~= spec_debug_axes());
        }
        r
    }

    /// Stopping needs no axis state and always succeeds.
    pub fn stop(&mut self) -> (r: Result<(), InvalidAxis>)
        ensures
            r is Ok,
    {
        Ok(())
    }

    /// Accepts a movement exactly when its axis is one of the fixed set.
    pub fn movement(&mut self, movement: &Movement) -> (r: Result<(), InvalidAxis>)
        ensures
            r is Ok <==> 1 <= movement.spec_axis().0 <= 6,
    {
        let id = movement.axis().0;
        if 1 <= id && id <= 6 {
            Ok(())
        } else {
            Err(InvalidAxis {})
        }
    }

    /// The backend's human-readable description.
    pub fn description(&mut self) -> (r: Option<String>)
        ensures
            r matches Some(d) ==> d@ == "DebugStroker"@,
            r is Some,
    {
        Some(String::from_str("DebugStroker"))
    }
}

} // verus!
