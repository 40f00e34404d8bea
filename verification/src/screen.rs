//! The framebuffer: one `u32` per pixel, row by row.

use vstd::prelude::*;

verus! {

/// The colour that [`Screen::flush`] fills the buffer with.
pub const CLEAR_COLOR: u32 = 15;

/// A framebuffer of `width` by `height` pixels.
pub struct Screen {
    width: usize,
    height: usize,
    buffer: Vec<u32>,
}

impl Screen {
    /// Number of pixels in a row.
    pub closed spec fn spec_width(&self) -> usize {
        self.width
    }

    /// Number of rows.
    pub closed spec fn spec_height(&self) -> usize {
        self.height
    }

    /// The pixels, row by row.
    pub closed spec fn pixels(&self) -> Seq<u32> {
        self.buffer@
    }

    /// The buffer holds exactly one value per pixel.
    pub open spec fn wf(&self) -> bool {
        &&& self.pixels().len() == self.spec_width() * self.spec_height()
        &&& self.pixels().len() <= usize::MAX
    }

    /// A black screen of the given size.
    pub fn new(width: usize, height: usize) -> (screen: Screen)
        requires
            width * height <= usize::MAX,
        ensures
            screen.wf(),
            screen.spec_width() == width,
            screen.spec_height() == height,
            screen.pixels() == Seq::new((width * height) as nat, |i: int| 0u32),
    {
        let len = width * height;
        let buffer: Vec<u32> = vec![0; len];
        assert(buffer@ =~= Seq::new(len as nat, |i: int| 0u32));
        Screen { width, height, buffer }
    }

    /// Gives the screen a new size. The buffer is cut or grown at its end
    /// to the new number of pixels: the values that stay keep their
    /// position in the buffer, and values that are added are 0.
    pub fn resize(&mut self, w: u32, h: u32)
        requires
            w * h <= usize::MAX,
        ensures
            final(self).wf(),
            final(self).spec_width() == w,
            final(self).spec_height() == h,
            forall|i: int|
                0 <= i < w * h ==> #[trigger] final(self).pixels()[i] == (if i < old(
                    self,
                ).pixels().len() {
                    old(self).pixels()[i]
                } else {
                    0u32
                }),
    {
        self.width = w as usize;
        self.height = h as usize;
        let len = self.width * self.height;
        self.buffer.resize(len, 0);
    }

    /// Fills the whole buffer with [`CLEAR_COLOR`].
    pub fn flush(&mut self)
        ensures
            final(self).spec_width() == old(self).spec_width(),
            final(self).spec_height() == old(self).spec_height(),
            final(self).pixels() == Seq::new(old(self).pixels().len(), |i: int| CLEAR_COLOR),
    {
        let len = self.buffer.len();
        let mut i: usize = 0;
        while i < len
            invariant
                i <= len,
                len == self.buffer@.len(),
                len == old(self).pixels().len(),
                self.width == old(self).width,
                self.height == old(self).height,
                forall|k: int| 0 <= k < i ==> self.buffer@[k] == CLEAR_COLOR,
            decreases len - i,
        {
            self.buffer[i] = CLEAR_COLOR;
            i += 1;
        }
        assert(self.buffer@ =~= Seq::new(old(self).pixels().len(), |i: int| CLEAR_COLOR));
    }

    /// Number of pixels in a row.
    pub fn width(&self) -> (w: usize)
        ensures
            w == self.spec_width(),
    {
        self.width
    }

    /// Number of rows.
    pub fn height(&self) -> (h: usize)
        ensures
            h == self.spec_height(),
    {
        self.height
    }

    /// The pixels, for the caller to write.
    pub fn get_buffer_mut(&mut self) -> (buffer: &mut [u32])
        ensures
            buffer@ == old(self).pixels(),
            final(self).pixels() == final(buffer)@,
            final(self).spec_width() == old(self).spec_width(),
            final(self).spec_height() == old(self).spec_height(),
    {
        self.buffer.as_mut_slice()
    }

    /// The pixels, row by row.
    pub fn get_buffer(&self) -> (buffer: &[u32])
        ensures
            buffer@ == self.pixels(),
    {
        self.buffer.as_slice()
    }

    /// Writes one pixel.
    pub(crate) fn put(&mut self, pos: usize, color: u32)
        requires
            pos < old(self).pixels().len(),
        ensures
            final(self).pixels() == old(self).pixels().update(pos as int, color),
            final(self).spec_width() == old(self).spec_width(),
            final(self).spec_height() == old(self).spec_height(),
    {
        self.buffer[pos] = color;
    }
}

} // verus!
