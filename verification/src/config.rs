//! The size of the window and of the play-field.

use vstd::prelude::*;

verus! {

/// The configured window size and the size the window really got.
#[derive(Copy, Clone, Debug)]
pub struct Config {
    window_size: (usize, usize),
    read_only_actual_size: (usize, usize),
}

impl Config {
    /// The size that was asked for, as width and height.
    pub closed spec fn window_size(&self) -> (usize, usize) {
        self.window_size
    }

    /// The size in use, as width and height.
    pub closed spec fn actual_size(&self) -> (usize, usize) {
        self.read_only_actual_size
    }

    /// A configuration that asks for `window_size` and takes it as the size
    /// in use until told otherwise.
    pub fn new(window_size: (usize, usize)) -> (config: Config)
        ensures
            config.window_size() == window_size,
            config.actual_size() == window_size,
    {
        Config { window_size, read_only_actual_size: window_size }
    }

    /// The size in use, as width and height.
    pub fn size(&self) -> (size: (usize, usize))
        ensures
            size == self.actual_size(),
    {
        self.read_only_actual_size
    }

    /// The width in use.
    pub fn x(&self) -> (width: usize)
        ensures
            width == self.actual_size().0,
    {
        self.read_only_actual_size.0
    }

    /// The height in use.
    pub fn y(&self) -> (height: usize)
        ensures
            height == self.actual_size().1,
    {
        self.read_only_actual_size.1
    }

    /// The middle of the field, each side halved and rounded down.
    pub fn center(&self) -> (middle: (usize, usize))
        ensures
            middle == (self.actual_size().0 / 2, self.actual_size().1 / 2),
    {
        (self.read_only_actual_size.0 / 2, self.read_only_actual_size.1 / 2)
    }

    /// Records the size that the window really got.
    pub fn set_actual_size(&mut self, size: (usize, usize))
        ensures
            final(self).actual_size() == size,
            final(self).window_size() == old(self).window_size(),
    {
        self.read_only_actual_size = size;
    }
}

impl Default for Config {
    /// 800 by 600.
    fn default() -> (config: Config)
        ensures
            config.window_size() == (800usize, 600usize),
            config.actual_size() == (800usize, 600usize),
    {
        Config { window_size: (800, 600), read_only_actual_size: (800, 600) }
    }
}

} // verus!
