//! The limits that the window loop keeps to.

use vstd::prelude::*;

verus! {

/// The longest time that one frame may stand for, in nanoseconds: a tenth
/// of a second.
pub const MAX_FRAME_NANOS: u64 = 100_000_000;

/// The limits that the driver keeps to: the size of the drawing surface and
/// the time that a frame stands for.
#[derive(Copy, Clone, Debug)]
pub struct AppHandler {}

/// A surface is at least one pixel wide and high.
pub open spec fn at_least_one(n: u32) -> u32 {
    if n < 1 {
        1
    } else {
        n
    }
}

impl AppHandler {
    /// The time that a frame stands for when `elapsed_nanos` have passed
    /// since the frame before: the time that has passed, but never more
    /// than [`MAX_FRAME_NANOS`], however long the program stalled.
    pub fn frame_time(elapsed_nanos: u64) -> (nanos: u64)
        ensures
            nanos == (if elapsed_nanos > MAX_FRAME_NANOS {
                MAX_FRAME_NANOS
            } else {
                elapsed_nanos
            }),
    {
        if elapsed_nanos > MAX_FRAME_NANOS {
            MAX_FRAME_NANOS
        } else {
            elapsed_nanos
        }
    }

    /// The size of the surface for a window of the given size: no side is
    /// ever zero.
    pub fn surface_size(width: u32, height: u32) -> (size: (u32, u32))
        ensures
            size == (at_least_one(width), at_least_one(height)),
    {
        (
            if width < 1 {
                1
            } else {
                width
            },
            if height < 1 {
                1
            } else {
                height
            },
        )
    }
}

impl Default for AppHandler {
    fn default() -> AppHandler {
        AppHandler {  }
    }
}

} // verus!
