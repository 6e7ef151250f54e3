//! Sector depth and the far-to-near drawing order.
use crate::arith::{div_trunc, lemma_trunc_div_magnitude, trunc_div};
use crate::camera::{cam_x, cam_y, rotate, Player};
use crate::trig::{TrigTable, SCALE};
use crate::world::{sector_in_place, Geometry, Sector, Wall};
use vstd::prelude::*;

verus! {

/// Largest depth of a sector of a valid level seen from a valid camera.
pub const DEPTH_LIMIT: i64 = 0x8_0000_0000;

/// The square of the distance between two points.
pub open spec fn sq_dist(x1: int, y1: int, x2: int, y2: int) -> int {
    (x2 - x1) * (x2 - x1) + (y2 - y1) * (y2 - y1)
}

/// The square of the distance from `(x1, y1)` to `(x2, y2)`.
pub fn dist(x1: i32, y1: i32, x2: i32, y2: i32) -> (distance: i128)
    ensures
        distance == sq_dist(x1 as int, y1 as int, x2 as int, y2 as int),
        distance >= 0,
{
    let dx: i128 = x2 as i128 - x1 as i128;
    let dy: i128 = y2 as i128 - y1 as i128;
    assert(0 <= dx * dx <= 0x1_0000_0000_0000_0000) by (nonlinear_arith)
        requires
            -0x1_0000_0000 <= dx <= 0x1_0000_0000,
    ;
    assert(0 <= dy * dy <= 0x1_0000_0000_0000_0000) by (nonlinear_arith)
        requires
            -0x1_0000_0000 <= dy <= 0x1_0000_0000,
    ;
    dx * dx + dy * dy
}

/// The square of the distance from the camera to the middle of `wall`:
/// both ends are taken to camera space, and each coordinate of the middle
/// is half the sum of the ends', rounded toward zero.
pub open spec fn wall_distance(wall: Wall, player: Player, cs: int, sn: int) -> int {
    let x0 = cam_x(wall.x1 - player.x, wall.y1 - player.y, cs, sn);
    let y0 = cam_y(wall.x1 - player.x, wall.y1 - player.y, cs, sn);
    let x1 = cam_x(wall.x2 - player.x, wall.y2 - player.y, cs, sn);
    let y1 = cam_y(wall.x2 - player.x, wall.y2 - player.y, cs, sn);
    sq_dist(0, 0, trunc_div(x0 + x1, 2), trunc_div(y0 + y1, 2))
}

/// The sum of `wall_distance` over the walls `from..to`.
pub open spec fn distance_sum(
    walls: Seq<Wall>,
    player: Player,
    cs: int,
    sn: int,
    from: int,
    to: int,
) -> int
    decreases to - from,
{
    if to <= from {
        0
    } else {
        distance_sum(walls, player, cs, sn, from, to - 1) + wall_distance(
            walls[to - 1],
            player,
            cs,
            sn,
        )
    }
}

/// The depth of a sector: the mean of `wall_distance` over its walls,
/// rounded down.
pub open spec fn sector_depth(
    walls: Seq<Wall>,
    sector: Sector,
    player: Player,
    cs: int,
    sn: int,
) -> int {
    distance_sum(walls, player, cs, sn, sector.ws as int, sector.we as int) / (sector.we
        - sector.ws)
}

/// The depths of all sectors of a level, by sector.
pub open spec fn level_depths(
    walls: Seq<Wall>,
    sectors: Seq<Sector>,
    player: Player,
    cs: int,
    sn: int,
) -> Seq<i64> {
    Seq::new(sectors.len(), |i: int| sector_depth(walls, sectors[i], player, cs, sn) as i64)
}

/// `wall_distance` of one wall.
fn measure_wall(wall: &Wall, player: &Player, cs: i32, sn: i32) -> (d: i64)
    requires
        wall.wf(),
        player.wf(),
        -SCALE <= cs <= SCALE,
        -SCALE <= sn <= SCALE,
    ensures
        d == wall_distance(*wall, *player, cs as int, sn as int),
        0 <= d <= DEPTH_LIMIT,
{
    let a: (i32, i32) = rotate(wall.x1 - player.x, wall.y1 - player.y, cs, sn);
    let b: (i32, i32) = rotate(wall.x2 - player.x, wall.y2 - player.y, cs, sn);
    proof {
        lemma_trunc_div_magnitude(a.0 + b.0, 2);
        lemma_trunc_div_magnitude(a.1 + b.1, 2);
    }
    let mx: i64 = div_trunc(a.0 as i64 + b.0 as i64, 2);
    let my: i64 = div_trunc(a.1 as i64 + b.1 as i64, 2);
    assert(0 <= mx * mx <= 0x4_0000_0000) by (nonlinear_arith)
        requires
            -0x2_0000 <= mx <= 0x2_0000,
    ;
    assert(0 <= my * my <= 0x4_0000_0000) by (nonlinear_arith)
        requires
            -0x2_0000 <= my <= 0x2_0000,
    ;
    let d: i128 = dist(0, 0, mx as i32, my as i32);
    d as i64
}

/// The depth of sector `i` of `level`, seen from `player`.
pub fn measure_sector(level: &Geometry, i: usize, player: &Player, math: &TrigTable) -> (depth: i64)
    requires
        level.wf(),
        player.wf(),
        math.wf(),
        i < level.sectors().len(),
    ensures
        depth == sector_depth(
            level.walls(),
            level.sectors()[i as int],
            *player,
            math.cos_table()[player.a as int] as int,
            math.sin_table()[player.a as int] as int,
        ),
        0 <= depth <= DEPTH_LIMIT,
{
    let cs: i32 = math.cos(player.a);
    let sn: i32 = math.sin(player.a);
    let sector: Sector = level.sector(i);
    assert(sector_in_place(level.sectors(), i as int, level.walls().len() as int));
    let mut sum: i128 = 0;
    let mut k: usize = sector.ws;
    while k < sector.we
        invariant
            sector.ws <= k <= sector.we <= level.walls().len(),
            level.wf(),
            player.wf(),
            -SCALE <= cs <= SCALE,
            -SCALE <= sn <= SCALE,
            sum == distance_sum(
                level.walls(),
                *player,
                cs as int,
                sn as int,
                sector.ws as int,
                k as int,
            ),
            0 <= sum <= (k - sector.ws) * DEPTH_LIMIT,
        decreases sector.we - k,
    {
        let wall: Wall = level.wall(k);
        let d: i64 = measure_wall(&wall, player, cs, sn);
        assert((k - sector.ws) * DEPTH_LIMIT + DEPTH_LIMIT == (k + 1 - sector.ws) * DEPTH_LIMIT)
            by (nonlinear_arith);
        assert((k - sector.ws) * DEPTH_LIMIT <= 0x1_0000_0000_0000_0000 * 0x8_0000_0000)
            by (nonlinear_arith)
            requires
                0 <= k - sector.ws <= 0x1_0000_0000_0000_0000,
                DEPTH_LIMIT == 0x8_0000_0000,
        ;
        sum = sum + d as i128;
        k = k + 1;
    }
    let n: i128 = (sector.we - sector.ws) as i128;
    let mean: i128 = sum / n;
    assert(mean <= DEPTH_LIMIT) by (nonlinear_arith)
        requires
            mean == sum as int / n as int,
            n > 0,
            0 <= sum <= n * DEPTH_LIMIT,
    ;
    mean as i64
}

/// The depths of all sectors of `level`, seen from `player`.
pub fn measure_level(level: &Geometry, player: &Player, math: &TrigTable) -> (depths: Vec<i64>)
    requires
        level.wf(),
        player.wf(),
        math.wf(),
    ensures
        depths@ == level_depths(
            level.walls(),
            level.sectors(),
            *player,
            math.cos_table()[player.a as int] as int,
            math.sin_table()[player.a as int] as int,
        ),
{
    let mut depths: Vec<i64> = Vec::new();
    let mut i: usize = 0;
    while i < level.sector_count()
        invariant
            i <= level.sectors().len(),
            level.wf(),
            player.wf(),
            math.wf(),
            depths@.len() == i,
            forall|j: int|
                0 <= j < i ==> #[trigger] depths@[j] == sector_depth(
                    level.walls(),
                    level.sectors()[j],
                    *player,
                    math.cos_table()[player.a as int] as int,
                    math.sin_table()[player.a as int] as int,
                ),
        decreases level.sectors().len() - i,
    {
        let depth: i64 = measure_sector(level, i, player, math);
        depths.push(depth);
        i = i + 1;
    }
    assert(depths@ =~= level_depths(
        level.walls(),
        level.sectors(),
        *player,
        math.cos_table()[player.a as int] as int,
        math.sin_table()[player.a as int] as int,
    ));
    depths
}

/// Sector `a` is drawn before sector `b`: it is deeper, or as deep and
/// earlier in the level.
pub open spec fn drawn_before(depths: Seq<i64>, a: usize, b: usize) -> bool {
    depths[a as int] > depths[b as int] || (depths[a as int] == depths[b as int] && a < b)
}

/// `order` with sector `s` put in behind the last sector that is at least
/// as deep as `s`.
pub open spec fn insert_by_depth(order: Seq<usize>, depths: Seq<i64>, s: usize) -> Seq<usize>
    decreases order.len(),
{
    if order.len() == 0 {
        seq![s]
    } else if depths[order.last() as int] >= depths[s as int] {
        order.push(s)
    } else {
        insert_by_depth(order.drop_last(), depths, s).push(order.last())
    }
}

/// The order in which the first `n` sectors are drawn: deepest first, and
/// sectors of equal depth in the order of the level.
pub open spec fn depth_order(depths: Seq<i64>, n: nat) -> Seq<usize>
    decreases n,
{
    if n == 0 {
        Seq::empty()
    } else {
        insert_by_depth(depth_order(depths, (n - 1) as nat), depths, (n - 1) as usize)
    }
}

/// Every sector of `order` stands before all the sectors behind it.
pub open spec fn far_to_near(depths: Seq<i64>, order: Seq<usize>) -> bool {
    forall|i: int, j: int|
        0 <= i < j < order.len() ==> drawn_before(depths, #[trigger] order[i], #[trigger] order[j])
}

/// Putting a later sector into an order that is far to near keeps it far
/// to near, keeps every sector that was in it, and adds the new one.
pub proof fn lemma_insert_by_depth(order: Seq<usize>, depths: Seq<i64>, s: usize)
    requires
        far_to_near(depths, order),
        forall|i: int| 0 <= i < order.len() ==> #[trigger] order[i] < s,
    ensures
        insert_by_depth(order, depths, s).len() == order.len() + 1,
        far_to_near(depths, insert_by_depth(order, depths, s)),
        forall|i: int|
            0 <= i < order.len() + 1 ==> #[trigger] insert_by_depth(order, depths, s)[i] <= s,
        insert_by_depth(order, depths, s).contains(s),
        forall|i: int|
            0 <= i < order.len() ==> insert_by_depth(order, depths, s).contains(#[trigger] order[i]),
        forall|i: int|
            0 <= i < order.len() + 1 ==> insert_by_depth(order, depths, s)[i] == s
                || order.contains(#[trigger] insert_by_depth(order, depths, s)[i]),
    decreases order.len(),
{
    let r = insert_by_depth(order, depths, s);
    if order.len() == 0 {
        assert(r[0] == s);
    } else if depths[order.last() as int] >= depths[s as int] {
        assert(r[order.len() as int] == s);
        assert forall|i: int, j: int| 0 <= i < j < r.len() implies drawn_before(
            depths,
            #[trigger] r[i],
            #[trigger] r[j],
        ) by {
            if j == order.len() {
                if i < order.len() - 1 {
                    assert(drawn_before(depths, order[i], order[order.len() - 1]));
                }
                assert(r[i] == order[i]);
            } else {
                assert(r[i] == order[i] && r[j] == order[j]);
            }
        }
        assert forall|i: int| 0 <= i < order.len() implies r.contains(#[trigger] order[i]) by {
            assert(r[i] == order[i]);
        }
        assert forall|i: int| 0 <= i < order.len() + 1 implies r[i] == s || order.contains(
            #[trigger] r[i],
        ) by {
            if i < order.len() {
                assert(r[i] == order[i]);
            }
        }
    } else {
        let front = order.drop_last();
        let last = order.last();
        let inner = insert_by_depth(front, depths, s);
        assert forall|i: int, j: int| 0 <= i < j < front.len() implies drawn_before(
            depths,
            #[trigger] front[i],
            #[trigger] front[j],
        ) by {
            assert(front[i] == order[i] && front[j] == order[j]);
        }
        assert forall|i: int| 0 <= i < front.len() implies #[trigger] front[i] < s by {
            assert(front[i] == order[i]);
        }
        lemma_insert_by_depth(front, depths, s);
        assert(r == inner.push(last));
        assert forall|i: int, j: int| 0 <= i < j < r.len() implies drawn_before(
            depths,
            #[trigger] r[i],
            #[trigger] r[j],
        ) by {
            if j == inner.len() {
                assert(r[i] == inner[i]);
                if inner[i] == s {
                } else {
                    assert(front.contains(inner[i]));
                    let k = choose|k: int| 0 <= k < front.len() && front[k] == inner[i];
                    assert(order[k] == front[k]);
                    assert(drawn_before(depths, order[k], order[order.len() - 1]));
                }
            } else {
                assert(r[i] == inner[i] && r[j] == inner[j]);
            }
        }
        let at = choose|k: int| 0 <= k < inner.len() && inner[k] == s;
        assert(r[at] == s);
        assert forall|i: int| 0 <= i < order.len() implies r.contains(#[trigger] order[i]) by {
            if i < front.len() {
                assert(front[i] == order[i]);
                assert(inner.contains(front[i]));
                let k = choose|k: int| 0 <= k < inner.len() && inner[k] == front[i];
                assert(r[k] == order[i]);
            } else {
                assert(r[inner.len() as int] == order[i]);
            }
        }
        assert forall|i: int| 0 <= i < order.len() + 1 implies r[i] == s || order.contains(
            #[trigger] r[i],
        ) by {
            if i < inner.len() {
                assert(r[i] == inner[i]);
                if inner[i] != s {
                    let k = choose|k: int| 0 <= k < front.len() && front[k] == inner[i];
                    assert(order[k] == r[i]);
                }
            } else {
                assert(order[order.len() - 1] == r[i]);
            }
        }
        assert forall|i: int| 0 <= i < order.len() + 1 implies #[trigger] r[i] <= s by {
            if i < inner.len() {
                assert(r[i] == inner[i]);
            } else {
                assert(r[i] == order[order.len() - 1]);
            }
        }
    }
}

/// The drawing order is stable and descending: it holds each of the
/// first `n` sectors exactly once, and of any two sectors in it the one
/// that stands first is the deeper one, or, at equal depth, the one that
/// comes first in the level. So a sector that is deeper than another is
/// drawn before it.
pub proof fn lemma_depth_order(depths: Seq<i64>, n: nat)
    requires
        n <= depths.len() <= usize::MAX,
    ensures
        depth_order(depths, n).len() == n,
        far_to_near(depths, depth_order(depths, n)),
        forall|i: int| 0 <= i < n ==> #[trigger] depth_order(depths, n)[i] < n,
        forall|s: usize| s < n ==> #[trigger] depth_order(depths, n).contains(s),
        forall|i: int, j: int|
            0 <= i < n && 0 <= j < n && depths[depth_order(depths, n)[i] as int]
                > depths[depth_order(depths, n)[j] as int] ==> i < j,
    decreases n,
{
    if n > 0 {
        let prev = depth_order(depths, (n - 1) as nat);
        let s = (n - 1) as usize;
        lemma_depth_order(depths, (n - 1) as nat);
        lemma_insert_by_depth(prev, depths, s);
        let r = depth_order(depths, n);
        assert forall|t: usize| t < n implies #[trigger] r.contains(t) by {
            if t < n - 1 {
                assert(prev.contains(t));
                let k = choose|k: int| 0 <= k < prev.len() && prev[k] == t;
                assert(r.contains(prev[k]));
            }
        }
    }
    let r = depth_order(depths, n);
    assert forall|i: int, j: int|
        0 <= i < n && 0 <= j < n && depths[r[i] as int] > depths[r[j] as int] implies i < j by {
        if j < i {
            assert(drawn_before(depths, r[j], r[i]));
        }
    }
}

/// Orders the sectors for drawing: deepest first, sectors of equal depth
/// in the order of the level. `depths` holds one depth per sector.
pub fn sort_by_depth(depths: &Vec<i64>) -> (order: Vec<usize>)
    ensures
        order@ == depth_order(depths@, depths@.len()),
        order@.len() == depths@.len(),
        forall|i: int| 0 <= i < order@.len() ==> #[trigger] order@[i] < depths@.len(),
{
    let mut order: Vec<usize> = Vec::new();
    let mut s: usize = 0;
    while s < depths.len()
        invariant
            s <= depths@.len(),
            order@ == depth_order(depths@, s as nat),
            order@.len() == s,
            forall|i: int| 0 <= i < s ==> #[trigger] order@[i] < s,
        decreases depths.len() - s,
    {
        let ghost prev = order@;
        order.push(s);
        let mut j: usize = s;
        assert(order@ =~= prev.take(j as int).push(s) + prev.skip(j as int));
        assert(prev.take(j as int) =~= prev);
        assert(insert_by_depth(prev, depths@, s) =~= insert_by_depth(
            prev.take(j as int),
            depths@,
            s,
        ) + prev.skip(j as int));
        while j > 0 && depths[order[j - 1]] < depths[s]
            invariant
                j <= s < depths@.len(),
                prev.len() == s,
                order@.len() == s + 1,
                forall|i: int| 0 <= i < s ==> #[trigger] prev[i] < s,
                order@ == prev.take(j as int).push(s) + prev.skip(j as int),
                insert_by_depth(prev, depths@, s) == insert_by_depth(
                    prev.take(j as int),
                    depths@,
                    s,
                ) + prev.skip(j as int),
            decreases j,
        {
            let t: usize = order[j - 1];
            assert(t == prev[j - 1]);
            order.set(j, t);
            order.set(j - 1, s);
            proof {
                let head = prev.take(j as int);
                assert(head.last() == prev[j - 1]);
                assert(head.drop_last() =~= prev.take(j - 1));
                assert(insert_by_depth(head, depths@, s) == insert_by_depth(
                    prev.take(j - 1),
                    depths@,
                    s,
                ).push(prev[j - 1]));
                assert(insert_by_depth(prev.take(j - 1), depths@, s).push(prev[j - 1]) + prev.skip(
                    j as int,
                ) =~= insert_by_depth(prev.take(j - 1), depths@, s) + prev.skip(j - 1));
                assert(order@ =~= prev.take(j - 1).push(s) + prev.skip(j - 1));
            }
            j = j - 1;
        }
        proof {
            let head = prev.take(j as int);
            if j > 0 {
                assert(order@[j - 1] == prev[j - 1]);
                assert(head.last() == prev[j - 1]);
            }
            assert(insert_by_depth(head, depths@, s) == head.push(s));
            assert(order@ == depth_order(depths@, (s + 1) as nat));
            assert forall|i: int| 0 <= i < s + 1 implies #[trigger] order@[i] < s + 1 by {
                if i < j {
                    assert(order@[i] == prev[i]);
                } else if i > j {
                    assert(order@[i] == prev[i - 1]);
                }
            }
        }
        s = s + 1;
    }
    order
}

} // verus!
