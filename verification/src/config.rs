//! What the server is started with.

use vstd::prelude::*;

verus! {

/// Serial speed of the display link.
pub const BAUDRATE: u32 = 1000000;

/// Timeout of the display link in milliseconds.
pub const TIMEOUT: u64 = 10000;

/// Number of bytes asked for in one read from a client.
pub const BUFFER_SIZE: usize = 8192;

/// The port clients connect to unless another is given.
pub const DEFAULT_PORT: u16 = 27072;

/// Milliseconds between two refreshes unless a frame rate is given.
pub const DEFAULT_REFRESH_MILLIS: u64 = 17;

/// Switches set on the command line.
pub struct Options {
    /// Run the display test and exit.
    pub test: bool,
}

/// Milliseconds between two refreshes at `frame_rate` frames per second,
/// rounded down. Zero means the display is refreshed without pause.
pub fn refresh_period_millis(frame_rate: u64) -> (millis: u64)
    requires
        frame_rate > 0,
    ensures
        millis == 1000int / (frame_rate as int),
        millis == 0 <==> frame_rate > 1000,
{
    assert((1000int / (frame_rate as int) == 0) <==> frame_rate > 1000) by (nonlinear_arith)
        requires
            frame_rate > 0,
    ;
    1000 / frame_rate
}

} // verus!
