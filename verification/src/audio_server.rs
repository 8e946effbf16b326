//! Channel bookkeeping and the reconfiguration controller.

pub mod audio_sink;
pub mod controller;
pub mod invariants;
pub mod registry;
