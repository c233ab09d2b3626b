//! The plain data exchanged with niri over its IPC socket.

use vstd::prelude::*;

verus! {

/// One display mode an output offers; `refresh_rate` is in millihertz.
#[derive(Clone, Copy, Debug, PartialEq, Eq, Structural)]
pub struct OutputMode {
    pub width: u32,
    pub height: u32,
    pub refresh_rate: u32,
    pub is_preferred: bool,
}

/// A request to niri; only the output list is asked for.
#[derive(Clone, Copy, Debug, PartialEq, Eq, Structural)]
pub enum NiriRequest {
    Outputs,
}

} // verus!
