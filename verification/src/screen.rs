//! The frame: its size in pixels and the pixel writes that a frame is made of.
use vstd::prelude::*;

verus! {

/// Width of the frame in pixels.
pub const SW: i32 = 160;

/// Height of the frame in pixels.
pub const SH: i32 = 120;

/// Half of the frame's width: the column of the vanishing point.
pub const SW2: i32 = 80;

/// Half of the frame's height: the row of the horizon at level view.
pub const SH2: i32 = 60;

/// Side of the square that one frame pixel covers in the window.
pub const PIXEL_SCALE: i32 = 4;

/// Width of the window in device pixels.
pub const WINDOW_W: i32 = 640;

/// Height of the window in device pixels.
pub const WINDOW_H: i32 = 480;

/// Colour index that the background is cleared to.
pub const BACKGROUND: i32 = 8;

/// One request to paint the frame pixel in column `x` and row `y` with the
/// palette colour `c`. Row 0 is the bottom row of the frame.
#[derive(Clone, Copy, Debug, PartialEq, Eq, Structural)]
pub struct PixelWrite {
    pub x: i32,
    pub y: i32,
    pub c: i32,
}

impl PixelWrite {
    /// The pixel lies inside the frame.
    pub open spec fn on_screen(&self) -> bool {
        0 <= self.x < SW && 0 <= self.y < SH
    }

    /// The pixel lies inside the frame and not on its one-pixel border.
    pub open spec fn in_interior(&self) -> bool {
        1 <= self.x <= SW - 2 && 1 <= self.y <= SH - 2
    }
}

/// The writes that paint rows `lo` up to, not including, `hi` of column `x`
/// with colour `c`, from the lowest row upward.
pub open spec fn rows(x: i32, lo: i32, hi: i32, c: i32) -> Seq<PixelWrite> {
    Seq::new(
        if hi > lo {
            (hi - lo) as nat
        } else {
            0
        },
        |i: int| (PixelWrite { x, y: (lo + i) as i32, c }),
    )
}

/// Appends to `out` the writes that paint rows `lo..hi` of column `x`.
pub fn push_rows(out: &mut Vec<PixelWrite>, x: i32, lo: i32, hi: i32, c: i32)
    ensures
        final(out)@ == old(out)@ + rows(x, lo, hi, c),
{
    let mut y: i32 = lo;
    while y < hi
        invariant
            lo <= y <= hi || (hi < lo && y == lo),
            out@ == old(out)@ + rows(x, lo, y, c),
        decreases hi - y,
    {
        out.push(PixelWrite { x, y, c });
        assert(rows(x, lo, (y + 1) as i32, c) =~= rows(x, lo, y, c).push(PixelWrite { x, y, c }));
        y = y + 1;
    }
    assert(rows(x, lo, y, c) =~= rows(x, lo, hi, c));
}

} // verus!
