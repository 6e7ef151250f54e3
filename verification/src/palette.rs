//! The palette, and the window rectangle that stands for one frame pixel.
use crate::screen::{PixelWrite, BACKGROUND, PIXEL_SCALE, SH, SW, WINDOW_H};
use vstd::prelude::*;

verus! {

/// Largest magnitude of a frame coordinate that `pixel` takes: the window
/// coordinates that it computes then fit their type.
pub const PIXEL_LIMIT: i32 = 500_000_000;

/// Distance of the frame from the window's edge, in device pixels.
pub const MARGIN: i32 = 2;

/// A colour: red, green and blue.
#[derive(Clone, Copy, Debug, PartialEq, Eq, Structural)]
pub struct Rgb {
    pub r: u8,
    pub g: u8,
    pub b: u8,
}

/// A request to fill the window rectangle with corner `(x, y)`, width `w`
/// and height `h` with one colour. Window rows count downward.
#[derive(Clone, Copy, Debug, PartialEq, Eq, Structural)]
pub struct Fill {
    pub color: Rgb,
    pub x: i32,
    pub y: i32,
    pub w: u32,
    pub h: u32,
}

/// The colour of palette index `c`: yellow, green, cyan and brown, each
/// bright and dark, then the blue of the background. Any other index is
/// black.
pub open spec fn palette(c: int) -> Rgb {
    if c == 0 {
        Rgb { r: 255, g: 255, b: 0 }
    } else if c == 1 {
        Rgb { r: 160, g: 160, b: 0 }
    } else if c == 2 {
        Rgb { r: 0, g: 255, b: 0 }
    } else if c == 3 {
        Rgb { r: 0, g: 160, b: 0 }
    } else if c == 4 {
        Rgb { r: 0, g: 255, b: 255 }
    } else if c == 5 {
        Rgb { r: 0, g: 160, b: 160 }
    } else if c == 6 {
        Rgb { r: 160, g: 100, b: 0 }
    } else if c == 7 {
        Rgb { r: 110, g: 50, b: 0 }
    } else if c == 8 {
        Rgb { r: 0, g: 60, b: 130 }
    } else {
        Rgb { r: 0, g: 0, b: 0 }
    }
}

/// The colours that walls, floors, ceilings and the background can have.
#[derive(Clone, Copy, Debug, PartialEq, Eq, Structural)]
pub enum Palette {
    Yellow,
    DarkYellow,
    Green,
    DarkGreen,
    Cyan,
    DarkCyan,
    Brown,
    DarkBrown,
    Background,
}

impl Palette {
    /// The index by which level data names the colour.
    pub open spec fn index(self) -> int {
        match self {
            Palette::Yellow => 0,
            Palette::DarkYellow => 1,
            Palette::Green => 2,
            Palette::DarkGreen => 3,
            Palette::Cyan => 4,
            Palette::DarkCyan => 5,
            Palette::Brown => 6,
            Palette::DarkBrown => 7,
            Palette::Background => 8,
        }
    }

    /// The colour that level data names by the index `c`, if there is one.
    pub fn from_index(c: i32) -> (entry: Option<Palette>)
        ensures
            entry.is_some() == (0 <= c <= 8),
            entry matches Some(p) ==> p.index() == c,
    {
        if c == 0 {
            Some(Palette::Yellow)
        } else if c == 1 {
            Some(Palette::DarkYellow)
        } else if c == 2 {
            Some(Palette::Green)
        } else if c == 3 {
            Some(Palette::DarkGreen)
        } else if c == 4 {
            Some(Palette::Cyan)
        } else if c == 5 {
            Some(Palette::DarkCyan)
        } else if c == 6 {
            Some(Palette::Brown)
        } else if c == 7 {
            Some(Palette::DarkBrown)
        } else if c == 8 {
            Some(Palette::Background)
        } else {
            None
        }
    }

    /// Red, green and blue of the colour.
    pub fn rgb(self) -> (rgb: Rgb)
        ensures
            rgb == palette(self.index()),
    {
        match self {
            Palette::Yellow => Rgb { r: 255, g: 255, b: 0 },
            Palette::DarkYellow => Rgb { r: 160, g: 160, b: 0 },
            Palette::Green => Rgb { r: 0, g: 255, b: 0 },
            Palette::DarkGreen => Rgb { r: 0, g: 160, b: 0 },
            Palette::Cyan => Rgb { r: 0, g: 255, b: 255 },
            Palette::DarkCyan => Rgb { r: 0, g: 160, b: 160 },
            Palette::Brown => Rgb { r: 160, g: 100, b: 0 },
            Palette::DarkBrown => Rgb { r: 110, g: 50, b: 0 },
            Palette::Background => Rgb { r: 0, g: 60, b: 130 },
        }
    }
}

/// The colour of palette index `c`; black for an index that names none.
pub fn color(c: i32) -> (rgb: Rgb)
    ensures
        rgb == palette(c as int),
{
    match Palette::from_index(c) {
        Some(entry) => entry.rgb(),
        None => Rgb { r: 0, g: 0, b: 0 },
    }
}

/// The window rectangle of the frame pixel `(x, y)`, filled with the
/// colour of index `c`: a square of `PIXEL_SCALE` device pixels. Frame
/// rows count upward from the bottom of the window, window rows downward
/// from its top.
pub open spec fn pixel_fill(x: int, y: int, c: int) -> Fill {
    Fill {
        color: palette(c),
        x: (x * PIXEL_SCALE + MARGIN) as i32,
        y: (WINDOW_H - (y * PIXEL_SCALE + MARGIN)) as i32,
        w: PIXEL_SCALE as u32,
        h: PIXEL_SCALE as u32,
    }
}

/// The fill that paints the frame pixel `(x, y)` with colour `c`.
pub fn pixel(x: i32, y: i32, c: i32) -> (fill: Fill)
    requires
        -PIXEL_LIMIT <= x <= PIXEL_LIMIT,
        -PIXEL_LIMIT <= y <= PIXEL_LIMIT,
    ensures
        fill == pixel_fill(x as int, y as int, c as int),
        fill.x == x * 4 + 2,
        fill.y == 480 - (y * 4 + 2),
{
    Fill {
        color: color(c),
        x: x * PIXEL_SCALE + MARGIN,
        y: WINDOW_H - (y * PIXEL_SCALE + MARGIN),
        w: PIXEL_SCALE as u32,
        h: PIXEL_SCALE as u32,
    }
}

/// The writes that clear the frame: every pixel gets the background
/// colour, row by row from the bottom, each row from the left.
pub open spec fn background_writes() -> Seq<PixelWrite> {
    Seq::new(
        (SW * SH) as nat,
        |i: int| (PixelWrite { x: (i % SW as int) as i32, y: (i / SW as int) as i32, c: BACKGROUND }),
    )
}

/// Appends to `out` the writes that clear the frame.
pub fn clear_background(out: &mut Vec<PixelWrite>)
    ensures
        final(out)@ == old(out)@ + background_writes(),
        forall|i: int|
            old(out)@.len() <= i < final(out)@.len() ==> (#[trigger] final(out)@[i]).on_screen(),
{
    let mut y: i32 = 0;
    while y < SH
        invariant
            0 <= y <= 120,
            out@.len() == old(out)@.len() + y * 160,
            forall|i: int| 0 <= i < old(out)@.len() ==> out@[i] == old(out)@[i],
            forall|i: int|
                0 <= i < y * 160 ==> #[trigger] out@[old(out)@.len() + i] == background_writes()[i],
        decreases SH - y,
    {
        let mut x: i32 = 0;
        while x < SW
            invariant
                0 <= x <= 160,
                0 <= y < 120,
                out@.len() == old(out)@.len() + y * 160 + x,
                forall|i: int| 0 <= i < old(out)@.len() ==> out@[i] == old(out)@[i],
                forall|i: int|
                    0 <= i < y * 160 + x ==> #[trigger] out@[old(out)@.len() + i]
                        == background_writes()[i],
            decreases SW - x,
        {
            out.push(PixelWrite { x, y, c: BACKGROUND });
            x = x + 1;
        }
        y = y + 1;
    }
    proof {
        let whole = old(out)@ + background_writes();
        assert(SW * SH == 19200) by (nonlinear_arith)
            requires
                SW == 160,
                SH == 120,
        ;
        assert forall|j: int| 0 <= j < out@.len() implies out@[j] == whole[j] by {
            if j >= old(out)@.len() {
                let i = j - old(out)@.len();
                assert(out@[old(out)@.len() + i] == background_writes()[i]);
            }
        }
        assert(out@ =~= whole);
    }
}

} // verus!
