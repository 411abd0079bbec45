//! Kernel text output for a freestanding runtime: template rendering, the
//! writer that hands rendered bytes to the native log sink, and the fault
//! bridge that reports a fault and hands control to the native panic routine.

pub mod log;
pub mod panic_bridge;
pub mod render;
