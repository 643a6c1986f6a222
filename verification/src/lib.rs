//! Drives a multi-axis motorised mechanism from pre-authored timelines of
//! positional targets, keeping motion inside per-axis safety limits while an
//! external player reports playback time, seeks and pause changes.
//!
//! Positions are fixed-point fractions of the full travel range: the value
//! [`movement::POSITION_SCALE`] stands for the full scale (1.0), so one unit
//! is one millionth of the range.

pub mod axis;
pub mod config;
pub mod coordinator;
pub mod device_debug;
pub mod funscript;
pub mod keybindings;
pub mod limiter;
pub mod movement;
pub mod scan;
pub mod tcode;
pub mod tracker;
pub mod vecmap;
