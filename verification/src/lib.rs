//! Verified core of the LX Codex Meter desktop usage meter.
use vstd::prelude::*;

pub mod desktop;
pub mod clock;
pub mod text;
pub mod fixed;
pub mod task_log;
pub mod task_log_laws;
pub mod meter;
pub mod runtime;
pub mod csv;
pub mod json;
pub mod quota;
pub mod usage_text;
pub mod source;

verus! {

} // verus!
