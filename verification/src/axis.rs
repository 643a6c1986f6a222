//! Axis identities: the device-assigned axis id, the semantic axis kind, and
//! the descriptor a device session hands out after discovery.

use vstd::prelude::*;

verus! {

/// Opaque identifier of one mechanical axis on the connected device.
/// Assigned sequentially during discovery; unique per device session.
#[derive(Copy, Clone, Debug, PartialEq, Eq, Structural, Hash)]
pub struct AxisId(pub u32);

/// Semantic role of an axis, independent of the device-assigned [`AxisId`].
/// Used to match timeline files and configuration to physical axes.
#[derive(Copy, Clone, Debug, PartialEq, Eq, Structural, Hash)]
pub enum AxisKind {
    /// Up/down stroke (T-Code `L0`)
    Stroke,
    /// Forward/backward surge (T-Code `L1`)
    Surge,
    /// Left/right sway (T-Code `L2`)
    Sway,
    /// T-Code `R0`
    Twist,
    /// T-Code `R1`
    Roll,
    /// T-Code `R2`
    Pitch,
    /// T-Code `V0`
    Vibration,
    /// T-Code `A0`
    Valve,
    /// T-Code `A1`
    Suction,
    /// T-Code `A2`
    Lubricant,
}

/// Per-axis metadata produced by a device session at connect time.
#[derive(Copy, Clone, Debug, PartialEq, Eq, Structural)]
pub struct AxisDescriptor {
    pub axis_id: AxisId,
    pub axis_kind: AxisKind,
}

/// The axis kind a two-character T-Code axis name stands for, or `None`
/// for an unrecognised name.
pub open spec fn spec_kind_of_tcode_name(name: Seq<char>) -> Option<AxisKind> {
    if name.len() != 2 {
        None
    } else if name[0] == 'L' && name[1] == '0' {
        Some(AxisKind::Stroke)
    } else if name[0] == 'L' && name[1] == '1' {
        Some(AxisKind::Surge)
    } else if name[0] == 'L' && name[1] == '2' {
        Some(AxisKind::Sway)
    } else if name[0] == 'R' && name[1] == '0' {
        Some(AxisKind::Twist)
    } else if name[0] == 'R' && name[1] == '1' {
        Some(AxisKind::Roll)
    } else if name[0] == 'R' && name[1] == '2' {
        Some(AxisKind::Pitch)
    } else if name[0] == 'V' && name[1] == '0' {
        Some(AxisKind::Vibration)
    } else if name[0] == 'A' && name[1] == '0' {
        Some(AxisKind::Valve)
    } else if name[0] == 'A' && name[1] == '1' {
        Some(AxisKind::Suction)
    } else if name[0] == 'A' && name[1] == '2' {
        Some(AxisKind::Lubricant)
    } else {
        None
    }
}

impl AxisKind {
    /// Looks an axis kind up from its two-character T-Code axis name.
    /// Unrecognised names are rejected.
    pub fn try_from_tcode_axis_name(name: &str) -> (r: Result<Self, UnrecognisedTCodeAxis>)
        ensures
            match r {
                Ok(kind) => spec_kind_of_tcode_name(name@) == Some(kind),
                Err(_) => spec_kind_of_tcode_name(name@) is None,
            },
    {
        if name.unicode_len() != 2 {
            return Err(UnrecognisedTCodeAxis {});
        }
        let c0 = name.get_char(0);
        let c1 = name.get_char(1);
        if c0 == 'L' && c1 == '0' {
            Ok(AxisKind::Stroke)
        } else if c0 == 'L' && c1 == '1' {
            Ok(AxisKind::Surge)
        } else if c0 == 'L' && c1 == '2' {
            Ok(AxisKind::Sway)
        } else if c0 == 'R' && c1 == '0' {
            Ok(AxisKind::Twist)
        } else if c0 == 'R' && c1 == '1' {
            Ok(AxisKind::Roll)
        } else if c0 == 'R' && c1 == '2' {
            Ok(AxisKind::Pitch)
        } else if c0 == 'V' && c1 == '0' {
            Ok(AxisKind::Vibration)
        } else if c0 == 'A' && c1 == '0' {
            Ok(AxisKind::Valve)
        } else if c0 == 'A' && c1 == '1' {
            Ok(AxisKind::Suction)
        } else if c0 == 'A' && c1 == '2' {
            Ok(AxisKind::Lubricant)
        } else {
            Err(UnrecognisedTCodeAxis {})
        }
    }
}

/// Error of [`AxisKind::try_from_tcode_axis_name`]: the name is not a known
/// T-Code axis name.
#[derive(Copy, Clone, Debug, PartialEq, Eq, Structural)]
pub struct UnrecognisedTCodeAxis {}

/// A fixed total order on axis kinds (their declaration order), used to key
/// maps by kind.
pub open spec fn spec_kind_rank(k: AxisKind) -> u32 {
    match k {
        AxisKind::Stroke => 0,
        AxisKind::Surge => 1,
        AxisKind::Sway => 2,
        AxisKind::Twist => 3,
        AxisKind::Roll => 4,
        AxisKind::Pitch => 5,
        AxisKind::Vibration => 6,
        AxisKind::Valve => 7,
        AxisKind::Suction => 8,
        AxisKind::Lubricant => 9,
    }
}

/// Two distinct kinds never share a rank.
pub proof fn lemma_kind_rank_injective(k1: AxisKind, k2: AxisKind)
    ensures
        spec_kind_rank(k1) == spec_kind_rank(k2) ==> k1 == k2,
{
}

/// The rank of an axis kind in the fixed order.
pub fn kind_rank(k: AxisKind) -> (r: u32)
    ensures
        r == spec_kind_rank(k),
{
    match k {
        AxisKind::Stroke => 0,
        AxisKind::Surge => 1,
        AxisKind::Sway => 2,
        AxisKind::Twist => 3,
        AxisKind::Roll => 4,
        AxisKind::Pitch => 5,
        AxisKind::Vibration => 6,
        AxisKind::Valve => 7,
        AxisKind::Suction => 8,
        AxisKind::Lubricant => 9,
    }
}

} // verus!
