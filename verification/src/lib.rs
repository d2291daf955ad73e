//! Route visualisation core: activity processing, telemetry preparation,
//! scene geometry and the protection layer of the video export path.
//!
//! Every quantity is a fixed-point integer. Angles are degrees times 10^7,
//! lengths are millimetres, times are whole seconds, and ratios are
//! millionths of one ([`fixed::UNIT`]).

pub mod config;
pub mod error;
pub mod fixed;
pub mod license;
pub mod pipeline;
pub mod routes;
pub mod state;
pub mod text;
pub mod types;
