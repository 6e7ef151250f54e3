//! The camera: where it stands, how a point of the world is seen from it,
//! how a wall is cut at the near plane, and how a point reaches the screen.
use crate::arith::{
    abs, div_trunc, div_trunc_wide, lemma_trunc_div_magnitude, lemma_trunc_div_remainder,
    trunc_div,
};
use crate::screen::{SH2, SW2};
use crate::trig::{unit_pair, TrigTable, DEGREES, SCALE};
use crate::world::WORLD_LIMIT;
use vstd::prelude::*;

verus! {

/// Largest magnitude of the look tilt of a camera that can render.
pub const LOOK_LIMIT: i32 = 1024;

/// Largest magnitude of a coordinate in camera space, for a camera and a
/// point that both lie within `WORLD_LIMIT`.
pub const CAMERA_LIMIT: i32 = 131072;

/// Focal length of the projection, in pixels.
pub const FOCAL: i32 = 200;

/// Largest magnitude of a sideways or upward coordinate that `project`
/// takes: the projected value then fits its type at every distance.
pub const PROJECT_LIMIT: i32 = 10_000_000;

/// Largest magnitude of the camera-space height of a floor, for a camera
/// and a floor that both lie within the limits.
pub const HEIGHT_LIMIT: i32 = 4259840;

/// Divisor of the look tilt: looking up by `l` raises a point at distance
/// `d` by `l * d / 32`.
pub const LOOK_DIVISOR: i32 = 32;

/// The camera: position, facing angle `a` in whole degrees, look tilt `l`.
#[derive(Clone, Copy, Debug, PartialEq, Eq, Structural)]
pub struct Player {
    pub x: i32,
    pub y: i32,
    pub z: i32,
    pub a: i32,
    pub l: i32,
}

impl Player {
    /// The angle is a degree of the full turn, the position lies within
    /// `WORLD_LIMIT` and the tilt within `LOOK_LIMIT`.
    pub open spec fn wf(&self) -> bool {
        &&& 0 <= self.a < DEGREES
        &&& -WORLD_LIMIT <= self.x <= WORLD_LIMIT
        &&& -WORLD_LIMIT <= self.y <= WORLD_LIMIT
        &&& -WORLD_LIMIT <= self.z <= WORLD_LIMIT
        &&& -LOOK_LIMIT <= self.l <= LOOK_LIMIT
    }

    /// Tests whether frames can be rendered from this camera.
    pub fn is_valid(&self) -> (ok: bool)
        ensures
            ok == self.wf(),
    {
        0 <= self.a && self.a < 360 && -WORLD_LIMIT <= self.x && self.x <= WORLD_LIMIT
            && -WORLD_LIMIT <= self.y && self.y <= WORLD_LIMIT && -WORLD_LIMIT <= self.z
            && self.z <= WORLD_LIMIT && -LOOK_LIMIT <= self.l && self.l <= LOOK_LIMIT
    }
}

/// Sideways coordinate, seen from the camera, of the point that lies
/// `(dx, dy)` from it: the offset turned by the facing angle whose cosine
/// and sine are `cs` and `sn`, rounded toward zero.
pub open spec fn cam_x(dx: int, dy: int, cs: int, sn: int) -> int {
    trunc_div(dx * cs - dy * sn, SCALE as int)
}

/// Forward coordinate of the same point: its distance along the view.
pub open spec fn cam_y(dx: int, dy: int, cs: int, sn: int) -> int {
    trunc_div(dy * cs + dx * sn, SCALE as int)
}

/// World offset along x of the point seen at `(wx, wy)`: `cam_x` and
/// `cam_y` undone, up to rounding.
pub open spec fn world_dx(wx: int, wy: int, cs: int, sn: int) -> int {
    trunc_div(wx * cs + wy * sn, SCALE as int)
}

/// World offset along y of the point seen at `(wx, wy)`.
pub open spec fn world_dy(wx: int, wy: int, cs: int, sn: int) -> int {
    trunc_div(wy * cs - wx * sn, SCALE as int)
}

/// Height, seen from a camera at height `pz` with look tilt `look`, of a
/// point at height `z` and forward distance `wy`.
pub open spec fn cam_z(z: int, pz: int, look: int, wy: int) -> int {
    z - pz + trunc_div(look * wy, LOOK_DIVISOR as int)
}

/// `a * cs + b * sn` divided by `SCALE`, for factors within the limits
/// that make every intermediate value fit.
fn turn(a: i32, cs: i32, b: i32, sn: i32) -> (r: i32)
    requires
        -CAMERA_LIMIT <= a <= CAMERA_LIMIT,
        -CAMERA_LIMIT <= b <= CAMERA_LIMIT,
        -SCALE <= cs <= SCALE,
        -SCALE <= sn <= SCALE,
    ensures
        r == trunc_div(a * cs + b * sn, SCALE as int),
        abs(r as int) * SCALE <= abs(a as int) * SCALE + abs(b as int) * SCALE,
{
    assert(-abs(a as int) * 65536 <= a * cs <= abs(a as int) * 65536) by (nonlinear_arith)
        requires
            -65536 <= cs <= 65536,
            abs(a as int) == if a < 0 { -a } else { a as int },
    ;
    assert(-abs(b as int) * 65536 <= b * sn <= abs(b as int) * 65536) by (nonlinear_arith)
        requires
            -65536 <= sn <= 65536,
            abs(b as int) == if b < 0 { -b } else { b as int },
    ;
    let n: i64 = (a as i64) * (cs as i64) + (b as i64) * (sn as i64);
    proof {
        lemma_trunc_div_magnitude(n as int, SCALE as int);
    }
    let q: i64 = div_trunc(n, SCALE as i64);
    q as i32
}

/// Camera-space coordinates `(sideways, forward)` of the world point
/// `(x, y)`: the point is moved by the camera's position and turned against
/// its facing angle.
pub fn transform(x: i32, y: i32, player: &Player, math: &TrigTable) -> (w: (i32, i32))
    requires
        player.wf(),
        math.wf(),
        -WORLD_LIMIT <= x <= WORLD_LIMIT,
        -WORLD_LIMIT <= y <= WORLD_LIMIT,
    ensures
        w.0 == cam_x(
            x - player.x,
            y - player.y,
            math.cos_table()[player.a as int] as int,
            math.sin_table()[player.a as int] as int,
        ),
        w.1 == cam_y(
            x - player.x,
            y - player.y,
            math.cos_table()[player.a as int] as int,
            math.sin_table()[player.a as int] as int,
        ),
        -CAMERA_LIMIT <= w.0 <= CAMERA_LIMIT,
        -CAMERA_LIMIT <= w.1 <= CAMERA_LIMIT,
{
    let cs: i32 = math.cos(player.a);
    let sn: i32 = math.sin(player.a);
    rotate(x - player.x, y - player.y, cs, sn)
}

/// The turn of `transform` alone, on an offset from the camera.
pub fn rotate(dx: i32, dy: i32, cs: i32, sn: i32) -> (w: (i32, i32))
    requires
        -2 * WORLD_LIMIT <= dx <= 2 * WORLD_LIMIT,
        -2 * WORLD_LIMIT <= dy <= 2 * WORLD_LIMIT,
        -SCALE <= cs <= SCALE,
        -SCALE <= sn <= SCALE,
    ensures
        w.0 == cam_x(dx as int, dy as int, cs as int, sn as int),
        w.1 == cam_y(dx as int, dy as int, cs as int, sn as int),
        -CAMERA_LIMIT <= w.0 <= CAMERA_LIMIT,
        -CAMERA_LIMIT <= w.1 <= CAMERA_LIMIT,
{
    let wx: i32 = turn(dx, cs, -dy, sn);
    let wy: i32 = turn(dy, cs, dx, sn);
    assert(dx * cs + (-dy) * sn == dx * cs - dy * sn) by (nonlinear_arith);
    (wx, wy)
}

/// World coordinates of the point that the camera sees at `(wx, wy)`:
/// the point is turned back by the facing angle and moved back by the
/// camera's position.
pub fn transform_inverse(wx: i32, wy: i32, player: &Player, math: &TrigTable) -> (p: (i32, i32))
    requires
        player.wf(),
        math.wf(),
        -CAMERA_LIMIT <= wx <= CAMERA_LIMIT,
        -CAMERA_LIMIT <= wy <= CAMERA_LIMIT,
    ensures
        p.0 == player.x + world_dx(
            wx as int,
            wy as int,
            math.cos_table()[player.a as int] as int,
            math.sin_table()[player.a as int] as int,
        ),
        p.1 == player.y + world_dy(
            wx as int,
            wy as int,
            math.cos_table()[player.a as int] as int,
            math.sin_table()[player.a as int] as int,
        ),
{
    let cs: i32 = math.cos(player.a);
    let sn: i32 = math.sin(player.a);
    let dx: i32 = turn(wx, cs, wy, sn);
    let dy: i32 = turn(wy, cs, -wx, sn);
    assert(wy * cs + (-wx) * sn == wy * cs - wx * sn) by (nonlinear_arith);
    (player.x + dx, player.y + dy)
}

/// The divisor of the clip: the difference of the two forward
/// coordinates, or 1 where they are equal.
pub open spec fn clip_divisor(da: int, db: int) -> int {
    if da - db == 0 {
        1
    } else {
        da - db
    }
}

/// One coordinate of the point where the segment from an end behind the
/// camera to the other end meets the near plane. `a` is the coordinate at
/// the end that is cut, `b` at the other end, `da` and `db` their forward
/// coordinates: the exact value of `a + s * (b - a)` with
/// `s = da / (da - db)`, rounded toward zero.
pub open spec fn clip_coord(a: int, b: int, da: int, db: int) -> int {
    trunc_div(a * clip_divisor(da, db) + da * (b - a), clip_divisor(da, db))
}

/// The forward coordinate after the cut: never less than 1.
pub open spec fn clip_forward(da: int, db: int) -> int {
    if clip_coord(da, db, da, db) < 1 {
        1
    } else {
        clip_coord(da, db, da, db)
    }
}

/// The cut coordinate can be stored in 32 bits.
pub open spec fn clip_fits(a: int, b: int, da: int, db: int) -> bool {
    i32::MIN <= clip_coord(a, b, da, db) <= i32::MAX
}

/// Where the end that is cut lies behind the near plane and the other end
/// does not, the cut coordinate lies between the coordinates of the two
/// ends, and the cut forward coordinate is exactly 1.
pub proof fn lemma_clip_between(a: int, b: int, da: int, db: int)
    requires
        da < 1 <= db,
    ensures
        a <= b ==> a <= clip_coord(a, b, da, db) <= b,
        b <= a ==> b <= clip_coord(a, b, da, db) <= a,
        clip_coord(da, db, da, db) == 0,
        clip_forward(da, db) == 1,
{
    let d = clip_divisor(da, db);
    assert(d == da - db && d < 0);
    lemma_clip_weighted(a, b, da, db);
    assert(da * d + da * (db - da) == 0) by (nonlinear_arith)
        requires
            d == da - db,
    ;
    assert(trunc_div(0, d) == 0);
}

/// The cut coordinate lies between the coordinates of the two ends: it
/// is a mean of the two, weighted by their distances from the plane.
proof fn lemma_clip_weighted(a: int, b: int, da: int, db: int)
    requires
        da < 1 <= db,
    ensures
        a <= b ==> a <= clip_coord(a, b, da, db) <= b,
        b <= a ==> b <= clip_coord(a, b, da, db) <= a,
{
    let d = da - db;
    let e = db - da;
    let n = a * d + da * (b - a);
    let m = -n;
    let q = trunc_div(n, d);
    lemma_trunc_div_remainder(n, d);
    let r = n - q * d;
    // The dividend is minus a weighted sum of the two coordinates, with
    // the non-negative weights `db` and `-da`, which add up to `e`.
    assert(m == a * db + b * (-da)) by (nonlinear_arith)
        requires
            n == a * d + da * (b - a),
            d == da - db,
            m == -n,
    ;
    if a <= b {
        assert(a * e <= m <= b * e) by (nonlinear_arith)
            requires
                m == a * db + b * (-da),
                e == db - da,
                a <= b,
                db >= 1,
                da <= 0,
        ;
        assert(a <= q <= b) by (nonlinear_arith)
            requires
                a * e <= m <= b * e,
                m == -n,
                r == n - q * d,
                d == -e,
                e >= 1,
                n >= 0 ==> 0 <= r < e,
                n <= 0 ==> -e < r <= 0,
        ;
    }
    if b <= a {
        assert(b * e <= m <= a * e) by (nonlinear_arith)
            requires
                m == a * db + b * (-da),
                e == db - da,
                b <= a,
                db >= 1,
                da <= 0,
        ;
        assert(b <= q <= a) by (nonlinear_arith)
            requires
                b * e <= m <= a * e,
                m == -n,
                r == n - q * d,
                d == -e,
                e >= 1,
                n >= 0 ==> 0 <= r < e,
                n <= 0 ==> -e < r <= 0,
        ;
    }
}

/// One coordinate of the cut, as `clip_coord` states it.
fn clip_one(a: i32, b: i32, da: i32, db: i32) -> (r: i128)
    ensures
        r == clip_coord(a as int, b as int, da as int, db as int),
{
    let mut d: i128 = da as i128 - db as i128;
    if d == 0 {
        d = 1;
    }
    assert(-0x8000_0000_0000_0000 <= a * d <= 0x8000_0000_0000_0000) by (nonlinear_arith)
        requires
            -0x8000_0000 <= a <= 0x8000_0000,
            -0x1_0000_0000 <= d <= 0x1_0000_0000,
    ;
    assert(-0x8000_0000_0000_0000 <= da * (b - a) <= 0x8000_0000_0000_0000) by (nonlinear_arith)
        requires
            -0x8000_0000 <= da <= 0x8000_0000,
            -0x1_0000_0000 <= b - a <= 0x1_0000_0000,
    ;
    let n: i128 = (a as i128) * d + (da as i128) * (b as i128 - a as i128);
    div_trunc_wide(n, d)
}

/// Cuts a wall at the near plane: replaces the end `(x1, y1, z1)`, which
/// lies behind the camera, by the point where the segment to the other end
/// `(x2, y2, z2)` meets the plane. `y` is the forward coordinate.
///
/// Each coordinate becomes `clip_coord` of the two ends; the forward
/// coordinate is then raised to 1 where it is less. Where the two forward
/// coordinates are equal the divisor is 1. The three results must fit in
/// 32 bits, which `lemma_clip_between` shows for every end behind the
/// plane that is cut against an end not behind it.
pub fn clip_behind_player(x1: &mut i32, y1: &mut i32, z1: &mut i32, x2: i32, y2: i32, z2: i32)
    requires
        clip_fits(*old(x1) as int, x2 as int, *old(y1) as int, y2 as int),
        clip_fits(*old(y1) as int, y2 as int, *old(y1) as int, y2 as int),
        clip_fits(*old(z1) as int, z2 as int, *old(y1) as int, y2 as int),
    ensures
        *final(x1) == clip_coord(*old(x1) as int, x2 as int, *old(y1) as int, y2 as int),
        *final(y1) == clip_forward(*old(y1) as int, y2 as int),
        *final(z1) == clip_coord(*old(z1) as int, z2 as int, *old(y1) as int, y2 as int),
        *final(y1) >= 1,
        *old(y1) < 1 <= y2 ==> *final(y1) == 1,
{
    let da: i32 = *y1;
    let cx: i128 = clip_one(*x1, x2, da, y2);
    let cy: i128 = clip_one(da, y2, da, y2);
    let cz: i128 = clip_one(*z1, z2, da, y2);
    proof {
        if da < 1 && 1 <= y2 {
            lemma_clip_between(da as int, y2 as int, da as int, y2 as int);
        }
    }
    *x1 = cx as i32;
    *y1 = if cy < 1 {
        1
    } else {
        cy as i32
    };
    *z1 = cz as i32;
}

/// Screen column of a point at sideways coordinate `x` and forward
/// distance `y`.
pub open spec fn screen_x(x: int, y: int) -> int
    recommends
        y >= 1,
{
    trunc_div(x * FOCAL, y) + SW2
}

/// Screen row of a point at height `z` and forward distance `y`.
pub open spec fn screen_y(z: int, y: int) -> int
    recommends
        y >= 1,
{
    trunc_div(z * FOCAL, y) + SH2
}

/// Projects a point of camera space onto the screen: `(column, row)`.
/// The point lies in front of the near plane. Nothing is limited to the
/// frame here.
pub fn project(x: i32, y: i32, z: i32) -> (s: (i32, i32))
    requires
        y >= 1,
        -PROJECT_LIMIT <= x <= PROJECT_LIMIT,
        -PROJECT_LIMIT <= z <= PROJECT_LIMIT,
    ensures
        s.0 == screen_x(x as int, y as int),
        s.1 == screen_y(z as int, y as int),
{
    let focal: i64 = FOCAL as i64;
    assert(focal == 200);
    let nx: i64 = (x as i64) * focal;
    let nz: i64 = (z as i64) * focal;
    proof {
        lemma_trunc_div_magnitude(nx as int, y as int);
        lemma_trunc_div_magnitude(nz as int, y as int);
    }
    let qx: i64 = div_trunc(nx, y as i64);
    let qz: i64 = div_trunc(nz, y as i64);
    ((qx + SW2 as i64) as i32, (qz + SH2 as i64) as i32)
}

/// Camera-space height of a point at height `z` and forward distance
/// `wy`, as `cam_z` states it.
pub fn view_height(z: i32, player: &Player, wy: i32) -> (wz: i32)
    requires
        player.wf(),
        -WORLD_LIMIT <= z <= WORLD_LIMIT,
        -CAMERA_LIMIT <= wy <= CAMERA_LIMIT,
    ensures
        wz == cam_z(z as int, player.z as int, player.l as int, wy as int),
        -HEIGHT_LIMIT <= wz <= HEIGHT_LIMIT,
{
    assert(-0x800_0000 <= player.l * wy <= 0x800_0000) by (nonlinear_arith)
        requires
            -1024 <= player.l <= 1024,
            -131072 <= wy <= 131072,
    ;
    let n: i64 = (player.l as i64) * (wy as i64);
    proof {
        lemma_trunc_div_magnitude(n as int, LOOK_DIVISOR as int);
        assert(abs(trunc_div(n as int, 32)) * 32 <= 0x800_0000);
    }
    let tilt: i64 = div_trunc(n, LOOK_DIVISOR as i64);
    (z as i64 - player.z as i64 + tilt) as i32
}

/// Largest distance, along either axis, between a point and the point
/// that comes back when it is taken to camera space and back.
pub const ROUND_TRIP_ERROR: i32 = 4;

/// The product of two bounded numbers is bounded by the product of the
/// bounds.
proof fn lemma_product_bound(a: int, b: int, ma: int, mb: int)
    by (nonlinear_arith)
    requires
        -ma <= a <= ma,
        -mb <= b <= mb,
    ensures
        -(ma * mb) <= a * b <= ma * mb,
{
}

/// Turning `(a, b)` by `(cs, sn)` and back by the same pair multiplies
/// `a` by the squared length of the pair.
proof fn lemma_turn_back(a: int, b: int, cs: int, sn: int)
    by (nonlinear_arith)
    ensures
        (a * cs - b * sn) * cs + (b * cs + a * sn) * sn == a * (cs * cs + sn * sn),
{
}

/// Multiplication distributes over a sum of two products.
proof fn lemma_scale_sum(s: int, w1: int, cs: int, w2: int, sn: int)
    by (nonlinear_arith)
    ensures
        s * (w1 * cs + w2 * sn) == (w1 * s) * cs + (w2 * s) * sn,
{
}

/// Multiplication distributes over a difference.
proof fn lemma_split_product(n: int, r: int, c: int)
    by (nonlinear_arith)
    ensures
        (n - r) * c == n * c - r * c,
{
}

/// Turning the offset `(a, b)` by a `unit_pair` and back gives `a` again
/// within `ROUND_TRIP_ERROR`.
proof fn lemma_round_trip_axis(a: int, b: int, cs: int, sn: int)
    requires
        unit_pair(cs, sn),
        -2 * WORLD_LIMIT <= a <= 2 * WORLD_LIMIT,
        -2 * WORLD_LIMIT <= b <= 2 * WORLD_LIMIT,
    ensures
        -ROUND_TRIP_ERROR <= trunc_div(
            trunc_div(a * cs - b * sn, SCALE as int) * cs + trunc_div(b * cs + a * sn, SCALE as int)
                * sn,
            SCALE as int,
        ) - a <= ROUND_TRIP_ERROR,
{
    let s = SCALE as int;
    let n1 = a * cs - b * sn;
    let n2 = b * cs + a * sn;
    let w1 = trunc_div(n1, s);
    let w2 = trunc_div(n2, s);
    let n3 = w1 * cs + w2 * sn;
    let back = trunc_div(n3, s);
    lemma_trunc_div_remainder(n1, s);
    lemma_trunc_div_remainder(n2, s);
    lemma_trunc_div_remainder(n3, s);
    let r1 = n1 - w1 * s;
    let r2 = n2 - w2 * s;
    let r3 = n3 - back * s;
    let norm = cs * cs + sn * sn;
    let e = norm - s * s;
    // Turning there and back multiplies by the squared length of the
    // pair; what the two roundings lose is turned along.
    lemma_scale_sum(s, w1, cs, w2, sn);
    lemma_split_product(n1, r1, cs);
    lemma_split_product(n2, r2, sn);
    lemma_turn_back(a, b, cs, sn);
    assert(s * n3 == a * norm - r1 * cs - r2 * sn);
    assert(a * norm == a * (s * s) + a * e) by (nonlinear_arith)
        requires
            norm == s * s + e,
    ;
    assert(s * n3 == s * s * back + s * r3) by (nonlinear_arith)
        requires
            n3 == back * s + r3,
    ;
    assert(s * s * back - a * (s * s) == (s * s) * (back - a)) by (nonlinear_arith);
    lemma_product_bound(a, e, s, 2 * s);
    lemma_product_bound(r1, cs, s - 1, s);
    lemma_product_bound(r2, sn, s - 1, s);
    lemma_product_bound(s, r3, s, s - 1);
    assert(s * s == 0x1_0000_0000 && s * (2 * s) == 0x2_0000_0000 && (s - 1) * s == 0xffff_0000
        && s * (s - 1) == 0xffff_0000) by (nonlinear_arith)
        requires
            s == 65536,
    ;
    let k = back - a;
    assert(0x1_0000_0000 * k == a * e - r1 * cs - r2 * sn - s * r3);
}

/// A point that is taken to camera space and back comes back to where it
/// was, within `ROUND_TRIP_ERROR` along each axis: at every facing angle
/// of a well-formed table, for every offset `(dx, dy)` from the camera
/// that a valid level can hold.
pub proof fn lemma_transform_round_trip(dx: int, dy: int, cs: int, sn: int)
    requires
        unit_pair(cs, sn),
        -2 * WORLD_LIMIT <= dx <= 2 * WORLD_LIMIT,
        -2 * WORLD_LIMIT <= dy <= 2 * WORLD_LIMIT,
    ensures
        -ROUND_TRIP_ERROR <= world_dx(cam_x(dx, dy, cs, sn), cam_y(dx, dy, cs, sn), cs, sn) - dx
            <= ROUND_TRIP_ERROR,
        -ROUND_TRIP_ERROR <= world_dy(cam_x(dx, dy, cs, sn), cam_y(dx, dy, cs, sn), cs, sn) - dy
            <= ROUND_TRIP_ERROR,
{
    lemma_round_trip_axis(dx, dy, cs, sn);
    // Along y the same holds with the sine negated: turning by the
    // opposite angle swaps the roles of the two axes.
    assert((-sn) * (-sn) == sn * sn) by (nonlinear_arith);
    lemma_round_trip_axis(dy, dx, cs, -sn);
    assert(dy * cs - dx * (-sn) == dy * cs + dx * sn) by (nonlinear_arith);
    assert(dx * cs + dy * (-sn) == dx * cs - dy * sn) by (nonlinear_arith);
    let wx = cam_x(dx, dy, cs, sn);
    let wy = cam_y(dx, dy, cs, sn);
    assert(wy * cs + wx * (-sn) == wy * cs - wx * sn) by (nonlinear_arith);
}

} // verus!
