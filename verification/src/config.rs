//! The configuration surface the library consumes: how to reach the device,
//! and the per-axis-kind safety limits.

use vstd::prelude::*;

use crate::axis::AxisKind;
use crate::movement::POSITION_SCALE;
use crate::vecmap::VecMap;

verus! {

/// How to connect to the stroker device.
#[derive(Clone, Debug)]
pub enum StrokerConfig {
    /// Connect over a serial port and control with T-Code commands.
    TCodeSerial {
        /// The serial port of the T-Code device, e.g. `/dev/ttyUSB0`.
        serial_port: String,
        /// The baud rate used for the serial port.
        baud: u32,
    },
    /// Do not connect to a device; log what would have been sent.
    Debug,
}

/// The baud rate used when the configuration names none.
pub fn default_tcode_baud_rate() -> (r: u32)
    ensures
        r == 115200,
{
    115200
}

/// Safety limits of one axis kind. Positions and speeds are millionths of
/// full scale (per second, for the speed).
#[derive(Copy, Clone, Debug, PartialEq, Eq, Structural)]
pub struct LimitsConfig {
    /// Speed limit, in millionths of full scale per second.
    pub speed: u32,
    /// Default minimum limit of the axis.
    pub default_min: u32,
    /// Default maximum limit of the axis.
    pub default_max: u32,
}

impl LimitsConfig {
    /// Whether the window bounds lie inside the full scale.
    pub open spec fn wf(self) -> bool {
        self.default_min <= POSITION_SCALE && self.default_max <= POSITION_SCALE
    }
}

/// The conservative built-in fallback for an axis kind with no configured
/// limits: a quarter of full scale per second, inside a narrow mid window.
pub fn conservative_limits() -> (r: LimitsConfig)
    ensures
        r == (LimitsConfig { speed: 250_000u32, default_min: 400_000u32, default_max: 600_000u32 }),
        r.wf(),
{
    LimitsConfig { speed: 250_000, default_min: 400_000, default_max: 600_000 }
}

/// The whole configuration: the connection, and limits per axis kind
/// (keyed by [`crate::axis::spec_kind_rank`]).
#[derive(Clone, Debug)]
pub struct RootConfig {
    pub stroker: StrokerConfig,
    pub limits: VecMap<(AxisKind, LimitsConfig)>,
}

/// Whether every configured limit entry is keyed by its kind's rank and
/// has in-scale window bounds.
pub open spec fn limits_wf(limits: VecMap<(AxisKind, LimitsConfig)>) -> bool {
    &&& limits.wf()
    &&& forall|i: int|
        0 <= i < limits.view().len() ==> (#[trigger] limits.view()[i]).0
            == crate::axis::spec_kind_rank(limits.view()[i].1.0) && limits.view()[i].1.1.wf()
}

} // verus!
