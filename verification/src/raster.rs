//! The column rasterizer: it fills the screen columns that a projected wall
//! covers, and records or uses the sector's per-column height buffer.
use crate::arith::{clamp, div_floor_wide, floor_div, lemma_floor_div_magnitude};
use crate::screen::{push_rows, rows, PixelWrite, SH, SW};
use crate::world::Sector;
use vstd::prelude::*;

verus! {

/// Surface mode of a sector whose floor and ceiling are both out of view:
/// only walls are drawn.
pub const SURFACE_NONE: i32 = 0;

/// Surface mode that records each column's bottom edge: the camera is
/// below the sector and sees the underside of its floor.
pub const SURFACE_FLOOR: i32 = 1;

/// Surface mode that records each column's top edge: the camera is above
/// the sector and sees its ceiling from above.
pub const SURFACE_CEILING: i32 = 2;

/// A wall after projection: the screen columns `x1` and `x2` of its two
/// ends, the rows `b1` and `b2` of its bottom edge there, and the rows
/// `t1` and `t2` of its top edge.
#[derive(Clone, Copy, Debug, PartialEq, Eq, Structural)]
pub struct WallQuad {
    pub x1: i32,
    pub x2: i32,
    pub b1: i32,
    pub b2: i32,
    pub t1: i32,
    pub t2: i32,
}

impl WallQuad {
    /// First column that the wall fills.
    pub open spec fn first_column(&self) -> int {
        clamp(self.x1 as int, 1, SW - 1)
    }

    /// The column after the last one that the wall fills.
    pub open spec fn end_column(&self) -> int {
        clamp(self.x2 as int, 1, SW - 1)
    }

    /// Row of the bottom edge in column `x`: the edge is interpolated at the
    /// column's centre, limited to the rows 1 to `SH - 1`, and rounded down.
    pub open spec fn bottom_at(&self, x: int) -> int {
        edge_row(self.b2 - self.b1, x - self.x1, self.x2 - self.x1, self.b1 as int)
    }

    /// Row of the top edge in column `x`, computed as `bottom_at`.
    pub open spec fn top_at(&self, x: int) -> int {
        edge_row(self.t2 - self.t1, x - self.x1, self.x2 - self.x1, self.t1 as int)
    }
}

/// The row of an edge that rises by `dy` over `dx` columns from `base`,
/// taken half a column past the `step`-th one: the exact value of
/// `base + dy * (step + 1/2) / dx`, limited to `1..=SH - 1`, rounded down.
pub open spec fn edge_row(dy: int, step: int, dx: int, base: int) -> int
    recommends
        dx > 0,
{
    clamp(base + floor_div(dy * (2 * step + 1), 2 * dx), 1, SH - 1)
}

/// What the rasterizer keeps for the sector that it is drawing: the
/// surface mode and one recorded row per screen column.
pub struct SectorState {
    pub surface: i32,
    pub surf: Vec<i32>,
}

impl SectorState {
    /// The mode is one of the five modes, there is one recorded row per
    /// column, and every recorded row is a row that an edge can have.
    pub open spec fn wf(&self) -> bool {
        &&& -2 <= self.surface <= 2
        &&& self.surf@.len() == SW
        &&& forall|x: int| 0 <= x < SW ==> 1 <= #[trigger] self.surf@[x] <= SH - 1
    }

    /// A state in mode `surface` in which every column holds row 1, the
    /// lowest row that is ever painted.
    pub fn new(surface: i32) -> (state: SectorState)
        requires
            -2 <= surface <= 2,
        ensures
            state.wf(),
            state.surface == surface,
            state.surf@ == Seq::new(SW as nat, |x: int| 1i32),
    {
        let mut surf: Vec<i32> = Vec::new();
        let mut x: i32 = 0;
        while x < SW
            invariant
                0 <= x <= SW,
                surf@ == Seq::new(x as nat, |x: int| 1i32),
            decreases SW - x,
        {
            surf.push(1);
            x = x + 1;
            assert(surf@ =~= Seq::new(x as nat, |x: int| 1i32));
        }
        SectorState { surface, surf }
    }

    /// Turns a recording mode into the stencil mode that uses the record,
    /// and back: the mode changes sign, the recorded rows stay.
    pub fn flip(&mut self)
        requires
            old(self).wf(),
        ensures
            final(self).wf(),
            final(self).surface == -old(self).surface,
            final(self).surf@ == old(self).surf@,
    {
        self.surface = -self.surface;
    }
}

/// The writes for one column `x`, given the rows `y1` and `y2` of the
/// wall's bottom and top edge there and the recorded row `h`.
///
/// Recording modes paint nothing. Mode -1 first paints the floor colour
/// from the recorded row up to the bottom edge, mode -2 the ceiling colour
/// from the top edge up to the recorded row. Then every drawing mode
/// paints the wall between its edges.
pub open spec fn column_pixels(
    x: i32,
    y1: i32,
    y2: i32,
    h: i32,
    surface: i32,
    c: i32,
    sector: Sector,
) -> Seq<PixelWrite> {
    if surface == SURFACE_FLOOR || surface == SURFACE_CEILING {
        Seq::empty()
    } else {
        let floor = if surface == -SURFACE_FLOOR {
            rows(x, h, y1, sector.c1)
        } else {
            Seq::empty()
        };
        let ceiling = if surface == -SURFACE_CEILING {
            rows(x, y2, h, sector.c2)
        } else {
            Seq::empty()
        };
        floor + ceiling + rows(x, y1, y2, c)
    }
}

/// The row that column `x` holds after the wall was drawn over it: the
/// bottom edge in mode 1, the top edge in mode 2, else what it held.
pub open spec fn column_record(y1: i32, y2: i32, h: i32, surface: i32) -> i32 {
    if surface == SURFACE_FLOOR {
        y1
    } else if surface == SURFACE_CEILING {
        y2
    } else {
        h
    }
}

/// The writes for the columns of `quad` from its first up to, not
/// including, `end`, from left to right.
pub open spec fn span_pixels(
    quad: WallQuad,
    c: i32,
    sector: Sector,
    surface: i32,
    surf: Seq<i32>,
    end: int,
) -> Seq<PixelWrite>
    decreases end - quad.first_column(),
{
    if end <= quad.first_column() {
        Seq::empty()
    } else {
        let x = end - 1;
        span_pixels(quad, c, sector, surface, surf, x) + column_pixels(
            x as i32,
            quad.bottom_at(x) as i32,
            quad.top_at(x) as i32,
            surf[x],
            surface,
            c,
            sector,
        )
    }
}

/// All the writes that drawing `quad` makes.
pub open spec fn wall_pixels(
    quad: WallQuad,
    c: i32,
    sector: Sector,
    surface: i32,
    surf: Seq<i32>,
) -> Seq<PixelWrite> {
    span_pixels(quad, c, sector, surface, surf, quad.end_column())
}

/// The recorded rows after the columns of `quad` before `end` were drawn.
pub open spec fn span_record(quad: WallQuad, surface: i32, surf: Seq<i32>, end: int) -> Seq<i32> {
    Seq::new(
        surf.len(),
        |x: int|
            if quad.first_column() <= x < end {
                column_record(quad.bottom_at(x) as i32, quad.top_at(x) as i32, surf[x], surface)
            } else {
                surf[x]
            },
    )
}

/// The recorded rows after drawing `quad`.
pub open spec fn wall_record(quad: WallQuad, surface: i32, surf: Seq<i32>) -> Seq<i32> {
    span_record(quad, surface, surf, quad.end_column())
}

/// In a column of the interior, between rows that edges can have, every
/// write of the column lies in the interior.
pub proof fn lemma_column_in_interior(
    x: i32,
    y1: i32,
    y2: i32,
    h: i32,
    surface: i32,
    c: i32,
    sector: Sector,
)
    requires
        1 <= x <= SW - 2,
        1 <= y1 <= SH - 1,
        1 <= y2 <= SH - 1,
        1 <= h <= SH - 1,
    ensures
        forall|i: int|
            0 <= i < column_pixels(x, y1, y2, h, surface, c, sector).len() ==> (
            #[trigger] column_pixels(x, y1, y2, h, surface, c, sector)[i]).in_interior(),
{
}

/// Row of an edge in one column, as `edge_row` states it.
fn edge(dy: i64, step: i64, dx: i64, base: i32) -> (y: i32)
    requires
        dx > 0,
        -0x1_0000_0000 <= dy <= 0x1_0000_0000,
        -0x1_0000_0000 <= step <= 0x1_0000_0000,
        dx <= 0x1_0000_0000,
    ensures
        y == edge_row(dy as int, step as int, dx as int, base as int),
        1 <= y <= SH - 1,
{
    let k: i128 = 2 * (step as i128) + 1;
    assert(-0x4_0000_0000_0000_0000 <= dy * k <= 0x4_0000_0000_0000_0000) by (nonlinear_arith)
        requires
            -0x1_0000_0000 <= dy <= 0x1_0000_0000,
            -0x2_0000_0001 <= k <= 0x2_0000_0001,
    ;
    let n: i128 = (dy as i128) * k;
    let q: i128 = div_floor_wide(n, 2 * (dx as i128));
    proof {
        lemma_floor_div_magnitude(n as int, 2 * dx);
    }
    let v: i128 = (base as i128) + q;
    if v < 1 {
        1
    } else if v > (SH - 1) as i128 {
        SH - 1
    } else {
        v as i32
    }
}

/// Fills the screen columns that `quad` covers.
///
/// The columns run from the wall's left end to its right end, both limited
/// to `1..=SW - 1`, the right one excluded; a wall seen from behind, whose
/// right end is not right of its left end, fills none. What is written and
/// recorded in each column is stated by `column_pixels` and
/// `column_record`. No write leaves the interior of the frame.
pub fn draw_wall(
    quad: &WallQuad,
    c: i32,
    sector: &Sector,
    state: &mut SectorState,
    out: &mut Vec<PixelWrite>,
)
    requires
        old(state).wf(),
    ensures
        final(state).wf(),
        final(state).surface == old(state).surface,
        final(state).surf@ == wall_record(*quad, old(state).surface, old(state).surf@),
        final(out)@ == old(out)@ + wall_pixels(
            *quad,
            c,
            *sector,
            old(state).surface,
            old(state).surf@,
        ),
        forall|i: int|
            old(out)@.len() <= i < final(out)@.len() ==> (#[trigger] final(out)@[i]).in_interior(),
{
    let lo: i32 = if quad.x1 < 1 {
        1
    } else if quad.x1 > SW - 1 {
        SW - 1
    } else {
        quad.x1
    };
    let hi: i32 = if quad.x2 < 1 {
        1
    } else if quad.x2 > SW - 1 {
        SW - 1
    } else {
        quad.x2
    };
    let dyb: i64 = quad.b2 as i64 - quad.b1 as i64;
    let dyt: i64 = quad.t2 as i64 - quad.t1 as i64;
    let dx: i64 = quad.x2 as i64 - quad.x1 as i64;
    let surface: i32 = state.surface;
    let mut x: i32 = lo;
    assert(state.surf@ =~= span_record(*quad, surface, old(state).surf@, lo as int));
    while x < hi
        invariant
            lo == quad.first_column(),
            hi == quad.end_column(),
            lo <= x <= hi || (hi < lo && x == lo),
            dyb == quad.b2 - quad.b1,
            dyt == quad.t2 - quad.t1,
            dx == quad.x2 - quad.x1,
            old(state).wf(),
            state.wf(),
            surface == old(state).surface,
            state.surface == surface,
            state.surf@ == span_record(*quad, surface, old(state).surf@, x as int),
            out@ == old(out)@ + span_pixels(*quad, c, *sector, surface, old(state).surf@, x as int),
            forall|i: int| old(out)@.len() <= i < out@.len() ==> (#[trigger] out@[i]).in_interior(),
        decreases hi - x,
    {
        let ghost before = out@;
        let ghost drawn = span_pixels(*quad, c, *sector, surface, old(state).surf@, x as int);
        let step: i64 = x as i64 - quad.x1 as i64;
        let y1: i32 = edge(dyb, step, dx, quad.b1);
        let y2: i32 = edge(dyt, step, dx, quad.t1);
        let h: i32 = state.surf[x as usize];
        assert(h == old(state).surf@[x as int]);
        if surface == SURFACE_FLOOR {
            state.surf.set(x as usize, y1);
        } else if surface == SURFACE_CEILING {
            state.surf.set(x as usize, y2);
        } else {
            if surface == -SURFACE_FLOOR {
                push_rows(out, x, h, y1, sector.c1);
            }
            if surface == -SURFACE_CEILING {
                push_rows(out, x, y2, h, sector.c2);
            }
            push_rows(out, x, y1, y2, c);
        }
        proof {
            let column = column_pixels(x, y1, y2, h, surface, c, *sector);
            lemma_column_in_interior(x, y1, y2, h, surface, c, *sector);
            assert(out@ =~= before + column);
            assert(out@ =~= old(out)@ + (drawn + column));
            assert(state.surf@ =~= span_record(*quad, surface, old(state).surf@, x + 1));
        }
        x = x + 1;
    }
}

} // verus!
