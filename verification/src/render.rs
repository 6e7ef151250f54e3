//! The frame: every sector, from the farthest to the nearest, is drawn in
//! two passes over its walls, first the faces turned away from the camera,
//! then the faces turned toward it.
use crate::camera::{
    cam_x, cam_y, cam_z, clip_behind_player, clip_coord, clip_forward, lemma_clip_between,
    project, rotate, screen_x, screen_y, view_height, Player, CAMERA_LIMIT, HEIGHT_LIMIT,
};
use crate::depth::{depth_order, level_depths, measure_level, sort_by_depth};
use crate::raster::{
    draw_wall, wall_pixels, wall_record, SectorState, WallQuad,
    SURFACE_CEILING, SURFACE_FLOOR, SURFACE_NONE,
};
use crate::screen::{PixelWrite, SW};
use crate::trig::{TrigTable, SCALE};
use crate::world::{sector_in_place, Geometry, Sector, Wall, WORLD_LIMIT};
use vstd::prelude::*;

verus! {

/// One end of a wall in camera space: sideways coordinate `x`, forward
/// coordinate `y`, and the heights of the wall's bottom and top edge.
#[derive(Clone, Copy, Debug, PartialEq, Eq, Structural)]
pub struct Post {
    pub x: i32,
    pub y: i32,
    pub bottom: i32,
    pub top: i32,
}

impl Post {
    /// The post lies behind the near plane.
    pub open spec fn behind(&self) -> bool {
        self.y < 1
    }

    /// Every coordinate is one that a valid level gives a valid camera.
    pub open spec fn wf(&self) -> bool {
        &&& -CAMERA_LIMIT <= self.x <= CAMERA_LIMIT
        &&& -CAMERA_LIMIT <= self.y <= CAMERA_LIMIT
        &&& -HEIGHT_LIMIT <= self.bottom <= HEIGHT_LIMIT
        &&& -HEIGHT_LIMIT <= self.top <= HEIGHT_LIMIT + 2 * WORLD_LIMIT
    }
}

/// The surface mode in which a sector's first pass is drawn: 1 for a
/// camera below the floor, 2 for a camera above the ceiling, else 0.
pub open spec fn first_surface(z: int, sector: Sector) -> i32 {
    if z < sector.z1 {
        SURFACE_FLOOR
    } else if z > sector.z1 + sector.z2 {
        SURFACE_CEILING
    } else {
        SURFACE_NONE
    }
}

/// The surface mode in which the first pass over `sector` is drawn.
pub fn surface_mode(player: &Player, sector: &Sector) -> (surface: i32)
    ensures
        surface == first_surface(player.z as int, *sector),
        0 <= surface <= 2,
{
    if player.z < sector.z1 {
        SURFACE_FLOOR
    } else if player.z as i64 > sector.z1 as i64 + sector.z2 as i64 {
        SURFACE_CEILING
    } else {
        SURFACE_NONE
    }
}

/// The post of `sector` that stands at the world point `(x, y)`.
pub open spec fn post_at(x: i32, y: i32, sector: Sector, player: Player, cs: int, sn: int) -> Post {
    let wx = cam_x(x - player.x, y - player.y, cs, sn);
    let wy = cam_y(x - player.x, y - player.y, cs, sn);
    let wz = cam_z(sector.z1 as int, player.z as int, player.l as int, wy);
    Post { x: wx as i32, y: wy as i32, bottom: wz as i32, top: (wz + sector.z2) as i32 }
}

/// The post `a`, which lies behind the near plane, cut against `b`.
pub open spec fn clip_post(a: Post, b: Post) -> Post {
    Post {
        x: clip_coord(a.x as int, b.x as int, a.y as int, b.y as int) as i32,
        y: clip_forward(a.y as int, b.y as int) as i32,
        bottom: clip_coord(a.bottom as int, b.bottom as int, a.y as int, b.y as int) as i32,
        top: clip_coord(a.top as int, b.top as int, a.y as int, b.y as int) as i32,
    }
}

/// The two posts of a wall after the cut at the near plane: a post behind
/// the plane is cut against the other one.
pub open spec fn clip_posts(first: Post, second: Post) -> (Post, Post) {
    let cut_first = if first.behind() {
        clip_post(first, second)
    } else {
        first
    };
    let cut_second = if second.behind() {
        clip_post(second, cut_first)
    } else {
        second
    };
    (cut_first, cut_second)
}

/// The wall between two posts in front of the near plane, on the screen.
pub open spec fn quad_of(first: Post, second: Post) -> WallQuad {
    WallQuad {
        x1: screen_x(first.x as int, first.y as int) as i32,
        x2: screen_x(second.x as int, second.y as int) as i32,
        b1: screen_y(first.bottom as int, first.y as int) as i32,
        b2: screen_y(second.bottom as int, second.y as int) as i32,
        t1: screen_y(first.top as int, first.y as int) as i32,
        t2: screen_y(second.top as int, second.y as int) as i32,
    }
}

/// The first post of `wall` in a pass: its second end in the pass over
/// the faces turned away (`back`), its first end in the other pass.
pub open spec fn first_post(wall: Wall, back: bool, sector: Sector, player: Player, cs: int, sn: int) -> Post {
    if back {
        post_at(wall.x2, wall.y2, sector, player, cs, sn)
    } else {
        post_at(wall.x1, wall.y1, sector, player, cs, sn)
    }
}

/// The second post of `wall` in a pass.
pub open spec fn second_post(wall: Wall, back: bool, sector: Sector, player: Player, cs: int, sn: int) -> Post {
    if back {
        post_at(wall.x1, wall.y1, sector, player, cs, sn)
    } else {
        post_at(wall.x2, wall.y2, sector, player, cs, sn)
    }
}

/// What a pass draws of `wall`: nothing where both ends lie behind the
/// near plane, else the wall cut at the plane and projected.
pub open spec fn wall_view(
    wall: Wall,
    back: bool,
    sector: Sector,
    player: Player,
    cs: int,
    sn: int,
) -> Option<WallQuad> {
    let first = first_post(wall, back, sector, player, cs, sn);
    let second = second_post(wall, back, sector, player, cs, sn);
    if first.behind() && second.behind() {
        None
    } else {
        Some(quad_of(clip_posts(first, second).0, clip_posts(first, second).1))
    }
}

/// The writes of one wall in a pass.
pub open spec fn wall_writes(
    wall: Wall,
    back: bool,
    sector: Sector,
    player: Player,
    cs: int,
    sn: int,
    surface: i32,
    surf: Seq<i32>,
) -> Seq<PixelWrite> {
    match wall_view(wall, back, sector, player, cs, sn) {
        None => Seq::empty(),
        Some(quad) => wall_pixels(quad, wall.c, sector, surface, surf),
    }
}

/// The recorded rows after one wall of a pass.
pub open spec fn wall_marks(
    wall: Wall,
    back: bool,
    sector: Sector,
    player: Player,
    cs: int,
    sn: int,
    surface: i32,
    surf: Seq<i32>,
) -> Seq<i32> {
    match wall_view(wall, back, sector, player, cs, sn) {
        None => surf,
        Some(quad) => wall_record(quad, surface, surf),
    }
}

/// The recorded rows after a pass has drawn the walls of `sector` before
/// wall `end`, starting from the rows `surf`.
pub open spec fn pass_marks(
    walls: Seq<Wall>,
    back: bool,
    sector: Sector,
    player: Player,
    cs: int,
    sn: int,
    surface: i32,
    surf: Seq<i32>,
    end: int,
) -> Seq<i32>
    decreases end - sector.ws,
{
    if end <= sector.ws {
        surf
    } else {
        wall_marks(
            walls[end - 1],
            back,
            sector,
            player,
            cs,
            sn,
            surface,
            pass_marks(walls, back, sector, player, cs, sn, surface, surf, end - 1),
        )
    }
}

/// The writes of a pass over the walls of `sector` before wall `end`.
pub open spec fn pass_writes(
    walls: Seq<Wall>,
    back: bool,
    sector: Sector,
    player: Player,
    cs: int,
    sn: int,
    surface: i32,
    surf: Seq<i32>,
    end: int,
) -> Seq<PixelWrite>
    decreases end - sector.ws,
{
    if end <= sector.ws {
        Seq::empty()
    } else {
        pass_writes(walls, back, sector, player, cs, sn, surface, surf, end - 1) + wall_writes(
            walls[end - 1],
            back,
            sector,
            player,
            cs,
            sn,
            surface,
            pass_marks(walls, back, sector, player, cs, sn, surface, surf, end - 1),
        )
    }
}

/// The recorded rows that every sector starts a frame with: row 1 in
/// every column.
pub open spec fn blank_marks() -> Seq<i32> {
    Seq::new(SW as nat, |x: int| 1i32)
}

/// The writes of one sector: the pass over the faces turned away in the
/// sector's first surface mode, then the pass over the faces turned
/// toward the camera in the negated mode and with the rows that the first
/// pass recorded.
pub open spec fn sector_writes(
    walls: Seq<Wall>,
    sector: Sector,
    player: Player,
    cs: int,
    sn: int,
) -> Seq<PixelWrite> {
    let surface = first_surface(player.z as int, sector);
    let end = sector.we as int;
    let marks = pass_marks(walls, true, sector, player, cs, sn, surface, blank_marks(), end);
    pass_writes(walls, true, sector, player, cs, sn, surface, blank_marks(), end) + pass_writes(
        walls,
        false,
        sector,
        player,
        cs,
        sn,
        (-surface) as i32,
        marks,
        end,
    )
}

/// The writes of the first `n` sectors of `order`, in that order.
pub open spec fn ordered_writes(
    walls: Seq<Wall>,
    sectors: Seq<Sector>,
    order: Seq<usize>,
    player: Player,
    cs: int,
    sn: int,
    n: int,
) -> Seq<PixelWrite>
    decreases n,
{
    if n <= 0 {
        Seq::empty()
    } else {
        ordered_writes(walls, sectors, order, player, cs, sn, n - 1) + sector_writes(
            walls,
            sectors[order[n - 1] as int],
            player,
            cs,
            sn,
        )
    }
}

/// The writes of a frame: those of every sector, in the order of depth.
pub open spec fn frame_writes(
    walls: Seq<Wall>,
    sectors: Seq<Sector>,
    player: Player,
    cs: int,
    sn: int,
) -> Seq<PixelWrite> {
    ordered_writes(
        walls,
        sectors,
        depth_order(level_depths(walls, sectors, player, cs, sn), sectors.len()),
        player,
        cs,
        sn,
        sectors.len() as int,
    )
}

/// A wall with exactly one end behind the near plane is cut at that end
/// only, and the forward coordinate of the cut end is exactly 1.
pub proof fn lemma_cut_end_forward(first: Post, second: Post)
    requires
        first.behind() != second.behind(),
    ensures
        first.behind() ==> clip_posts(first, second).0.y == 1 && clip_posts(first, second).1 == second,
        second.behind() ==> clip_posts(first, second).1.y == 1 && clip_posts(first, second).0 == first,
{
    if first.behind() {
        lemma_clip_between(first.y as int, second.y as int, first.y as int, second.y as int);
    } else {
        lemma_clip_between(second.y as int, first.y as int, second.y as int, first.y as int);
    }
}

/// A wall with both ends behind the near plane is never handed to the
/// rasterizer: it has no view, writes nothing and records nothing.
pub proof fn lemma_hidden_wall(
    wall: Wall,
    back: bool,
    sector: Sector,
    player: Player,
    cs: int,
    sn: int,
    surface: i32,
    surf: Seq<i32>,
)
    requires
        first_post(wall, back, sector, player, cs, sn).behind(),
        second_post(wall, back, sector, player, cs, sn).behind(),
    ensures
        wall_view(wall, back, sector, player, cs, sn) is None,
        wall_writes(wall, back, sector, player, cs, sn, surface, surf).len() == 0,
        wall_marks(wall, back, sector, player, cs, sn, surface, surf) == surf,
{
}

/// The post of `sector` at the world point `(x, y)`, as `post_at` states.
fn view_post(x: i32, y: i32, sector: &Sector, player: &Player, cs: i32, sn: i32) -> (p: Post)
    requires
        -WORLD_LIMIT <= x <= WORLD_LIMIT,
        -WORLD_LIMIT <= y <= WORLD_LIMIT,
        sector.heights_wf(),
        player.wf(),
        -SCALE <= cs <= SCALE,
        -SCALE <= sn <= SCALE,
    ensures
        p == post_at(x, y, *sector, *player, cs as int, sn as int),
        p.wf(),
{
    let w: (i32, i32) = rotate(x - player.x, y - player.y, cs, sn);
    let bottom: i32 = view_height(sector.z1, player, w.1);
    Post { x: w.0, y: w.1, bottom, top: bottom + sector.z2 }
}

/// Cuts the post `a`, which lies behind the near plane, against the post
/// `b`, which does not.
fn cut_post(a: &Post, b: &Post) -> (p: Post)
    requires
        a.behind(),
        !b.behind(),
        a.wf(),
        b.wf(),
    ensures
        p == clip_post(*a, *b),
        p.wf(),
        p.y == 1,
{
    proof {
        lemma_clip_between(a.x as int, b.x as int, a.y as int, b.y as int);
        lemma_clip_between(a.bottom as int, b.bottom as int, a.y as int, b.y as int);
        lemma_clip_between(a.top as int, b.top as int, a.y as int, b.y as int);
    }
    let mut x: i32 = a.x;
    let mut y: i32 = a.y;
    let mut bottom: i32 = a.bottom;
    clip_behind_player(&mut x, &mut y, &mut bottom, b.x, b.y, b.bottom);
    let mut x_top: i32 = a.x;
    let mut y_top: i32 = a.y;
    let mut top: i32 = a.top;
    clip_behind_player(&mut x_top, &mut y_top, &mut top, b.x, b.y, b.top);
    Post { x, y, bottom, top }
}

/// Projects the wall between two posts in front of the near plane.
fn project_posts(first: &Post, second: &Post) -> (quad: WallQuad)
    requires
        first.wf(),
        second.wf(),
        !first.behind(),
        !second.behind(),
    ensures
        quad == quad_of(*first, *second),
{
    let b0: (i32, i32) = project(first.x, first.y, first.bottom);
    let b1: (i32, i32) = project(second.x, second.y, second.bottom);
    let t0: (i32, i32) = project(first.x, first.y, first.top);
    let t1: (i32, i32) = project(second.x, second.y, second.top);
    WallQuad { x1: b0.0, x2: b1.0, b1: b0.1, b2: b1.1, t1: t0.1, t2: t1.1 }
}

/// Draws one wall of `sector` in one pass.
///
/// A wall with both ends behind the near plane is skipped before anything
/// is cut: it writes nothing and leaves the recorded rows as they are.
/// Any other wall is cut at the plane, projected and handed to
/// `draw_wall`.
pub fn render_wall(
    wall: &Wall,
    back: bool,
    sector: &Sector,
    player: &Player,
    math: &TrigTable,
    state: &mut SectorState,
    out: &mut Vec<PixelWrite>,
)
    requires
        wall.wf(),
        sector.heights_wf(),
        player.wf(),
        math.wf(),
        old(state).wf(),
    ensures
        final(state).wf(),
        final(state).surface == old(state).surface,
        final(state).surf@ == wall_marks(
            *wall,
            back,
            *sector,
            *player,
            math.cos_table()[player.a as int] as int,
            math.sin_table()[player.a as int] as int,
            old(state).surface,
            old(state).surf@,
        ),
        final(out)@ == old(out)@ + wall_writes(
            *wall,
            back,
            *sector,
            *player,
            math.cos_table()[player.a as int] as int,
            math.sin_table()[player.a as int] as int,
            old(state).surface,
            old(state).surf@,
        ),
        wall_view(
            *wall,
            back,
            *sector,
            *player,
            math.cos_table()[player.a as int] as int,
            math.sin_table()[player.a as int] as int,
        ) is None ==> final(out)@ == old(out)@ && final(state).surf@ == old(state).surf@,
        forall|i: int|
            old(out)@.len() <= i < final(out)@.len() ==> (#[trigger] final(out)@[i]).in_interior(),
{
    let cs: i32 = math.cos(player.a);
    let sn: i32 = math.sin(player.a);
    let (xa, ya, xb, yb): (i32, i32, i32, i32) = if back {
        (wall.x2, wall.y2, wall.x1, wall.y1)
    } else {
        (wall.x1, wall.y1, wall.x2, wall.y2)
    };
    let first: Post = view_post(xa, ya, sector, player, cs, sn);
    let second: Post = view_post(xb, yb, sector, player, cs, sn);
    assert(first == first_post(*wall, back, *sector, *player, cs as int, sn as int));
    assert(second == second_post(*wall, back, *sector, *player, cs as int, sn as int));
    if first.y < 1 && second.y < 1 {
        assert(out@ =~= old(out)@ + Seq::<PixelWrite>::empty());
        return ;
    }
    let cut_first: Post = if first.y < 1 {
        cut_post(&first, &second)
    } else {
        first
    };
    let cut_second: Post = if second.y < 1 {
        cut_post(&second, &cut_first)
    } else {
        second
    };
    let quad: WallQuad = project_posts(&cut_first, &cut_second);
    draw_wall(&quad, wall.c, sector, state, out);
}

/// Draws the walls of `sector` once: the faces turned away from the
/// camera where `back` is set, else the faces turned toward it.
pub fn render_pass(
    level: &Geometry,
    sector: &Sector,
    back: bool,
    player: &Player,
    math: &TrigTable,
    state: &mut SectorState,
    out: &mut Vec<PixelWrite>,
)
    requires
        level.wf(),
        sector.heights_wf(),
        sector.ws <= sector.we <= level.walls().len(),
        player.wf(),
        math.wf(),
        old(state).wf(),
    ensures
        final(state).wf(),
        final(state).surface == old(state).surface,
        final(state).surf@ == pass_marks(
            level.walls(),
            back,
            *sector,
            *player,
            math.cos_table()[player.a as int] as int,
            math.sin_table()[player.a as int] as int,
            old(state).surface,
            old(state).surf@,
            sector.we as int,
        ),
        final(out)@ == old(out)@ + pass_writes(
            level.walls(),
            back,
            *sector,
            *player,
            math.cos_table()[player.a as int] as int,
            math.sin_table()[player.a as int] as int,
            old(state).surface,
            old(state).surf@,
            sector.we as int,
        ),
        forall|i: int|
            old(out)@.len() <= i < final(out)@.len() ==> (#[trigger] final(out)@[i]).in_interior(),
{
    let ghost cs = math.cos_table()[player.a as int] as int;
    let ghost sn = math.sin_table()[player.a as int] as int;
    let ghost surface = state.surface;
    let ghost surf = state.surf@;
    let mut k: usize = sector.ws;
    assert(out@ =~= old(out)@ + Seq::<PixelWrite>::empty());
    while k < sector.we
        invariant
            sector.ws <= k <= sector.we <= level.walls().len(),
            level.wf(),
            sector.heights_wf(),
            player.wf(),
            math.wf(),
            state.wf(),
            cs == math.cos_table()[player.a as int] as int,
            sn == math.sin_table()[player.a as int] as int,
            state.surface == surface,
            state.surf@ == pass_marks(
                level.walls(),
                back,
                *sector,
                *player,
                cs,
                sn,
                surface,
                surf,
                k as int,
            ),
            out@ == old(out)@ + pass_writes(
                level.walls(),
                back,
                *sector,
                *player,
                cs,
                sn,
                surface,
                surf,
                k as int,
            ),
            forall|i: int| old(out)@.len() <= i < out@.len() ==> (#[trigger] out@[i]).in_interior(),
        decreases sector.we - k,
    {
        let ghost drawn = pass_writes(
            level.walls(),
            back,
            *sector,
            *player,
            cs,
            sn,
            surface,
            surf,
            k as int,
        );
        let ghost marks = state.surf@;
        let wall: Wall = level.wall(k);
        render_wall(&wall, back, sector, player, math, state, out);
        proof {
            let more = wall_writes(wall, back, *sector, *player, cs, sn, surface, marks);
            assert(out@ =~= old(out)@ + (drawn + more));
        }
        k = k + 1;
    }
}

/// Draws one sector: the pass over the faces turned away, in the mode
/// that `surface_mode` gives, then the pass over the faces turned toward
/// the camera, in that mode negated. The sector starts with blank
/// recorded rows.
pub fn render_sector(
    level: &Geometry,
    i: usize,
    player: &Player,
    math: &TrigTable,
    out: &mut Vec<PixelWrite>,
)
    requires
        level.wf(),
        i < level.sectors().len(),
        player.wf(),
        math.wf(),
    ensures
        final(out)@ == old(out)@ + sector_writes(
            level.walls(),
            level.sectors()[i as int],
            *player,
            math.cos_table()[player.a as int] as int,
            math.sin_table()[player.a as int] as int,
        ),
        forall|k: int|
            old(out)@.len() <= k < final(out)@.len() ==> (#[trigger] final(out)@[k]).in_interior(),
{
    let sector: Sector = level.sector(i);
    assert(sector_in_place(level.sectors(), i as int, level.walls().len() as int));
    let mut state: SectorState = SectorState::new(surface_mode(player, &sector));
    assert(state.surf@ =~= blank_marks());
    let ghost first = out@;
    render_pass(level, &sector, true, player, math, &mut state, out);
    state.flip();
    let ghost second = out@;
    render_pass(level, &sector, false, player, math, &mut state, out);
    proof {
        let cs = math.cos_table()[player.a as int] as int;
        let sn = math.sin_table()[player.a as int] as int;
        let surface = first_surface(player.z as int, sector);
        let end = sector.we as int;
        let back = pass_writes(
            level.walls(),
            true,
            sector,
            *player,
            cs,
            sn,
            surface,
            blank_marks(),
            end,
        );
        let marks = pass_marks(
            level.walls(),
            true,
            sector,
            *player,
            cs,
            sn,
            surface,
            blank_marks(),
            end,
        );
        let front = pass_writes(
            level.walls(),
            false,
            sector,
            *player,
            cs,
            sn,
            (-surface) as i32,
            marks,
            end,
        );
        assert(out@ =~= old(out)@ + (back + front));
    }
}

/// Renders one frame: the writes that paint the level as `player` sees
/// it, in the order in which they are to be made.
///
/// The depth of every sector is measured, the sectors are ordered from
/// the deepest to the nearest, and each is drawn by `render_sector`. The
/// result depends on nothing but the three arguments, so the same camera
/// and level give the same writes again. No write leaves the interior of
/// the frame.
pub fn render_frame(player: &Player, level: &Geometry, math: &TrigTable) -> (pixels: Vec<PixelWrite>)
    requires
        player.wf(),
        level.wf(),
        math.wf(),
    ensures
        pixels@ == frame_writes(
            level.walls(),
            level.sectors(),
            *player,
            math.cos_table()[player.a as int] as int,
            math.sin_table()[player.a as int] as int,
        ),
        forall|k: int| 0 <= k < pixels@.len() ==> (#[trigger] pixels@[k]).in_interior(),
{
    let ghost cs = math.cos_table()[player.a as int] as int;
    let ghost sn = math.sin_table()[player.a as int] as int;
    let depths: Vec<i64> = measure_level(level, player, math);
    let order: Vec<usize> = sort_by_depth(&depths);
    let mut pixels: Vec<PixelWrite> = Vec::new();
    let mut n: usize = 0;
    while n < order.len()
        invariant
            n <= order@.len(),
            order@.len() == level.sectors().len(),
            forall|i: int| 0 <= i < order@.len() ==> #[trigger] order@[i] < level.sectors().len(),
            player.wf(),
            level.wf(),
            math.wf(),
            cs == math.cos_table()[player.a as int] as int,
            sn == math.sin_table()[player.a as int] as int,
            pixels@ == ordered_writes(
                level.walls(),
                level.sectors(),
                order@,
                *player,
                cs,
                sn,
                n as int,
            ),
            forall|k: int| 0 <= k < pixels@.len() ==> (#[trigger] pixels@[k]).in_interior(),
        decreases order@.len() - n,
    {
        render_sector(level, order[n], player, math, &mut pixels);
        n = n + 1;
    }
    pixels
}

} // verus!
