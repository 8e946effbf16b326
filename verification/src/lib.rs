//! A real-time audio channel engine: channel bookkeeping, the control-plane
//! state machine that installs and swaps the processing stage, and the
//! sample-precision stage applied to each block.
//!
//! Samples and effect parameters are carried as IEEE-754 single-precision
//! bit patterns (`u32`), so that every operation of the library is exact
//! integer arithmetic.

pub mod audio_server;
pub mod fuzz;
pub mod sample;
pub mod stage;
pub mod utils;
