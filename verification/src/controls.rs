//! The keys that steer the camera, and the move that they make each frame.
use crate::arith::{div_trunc, lemma_trunc_div_magnitude, trunc_div};
use crate::camera::Player;
use crate::trig::{TrigTable, DEGREES, SCALE};
use vstd::prelude::*;

verus! {

/// Degrees that the camera turns in one frame.
pub const TURN_STEP: i32 = 4;

/// Distance that the camera walks in one frame.
pub const WALK_STEP: i32 = 10;

/// Height that the camera climbs or sinks in one frame.
pub const FLY_STEP: i32 = 4;

/// A key that steers the camera.
#[derive(Clone, Copy, Debug, PartialEq, Eq, Structural)]
pub enum Key {
    /// Walk forward; with `Mode`, fly up.
    Forward,
    /// Walk backward; with `Mode`, fly down.
    Backward,
    /// Turn left; with `Mode`, look up.
    Left,
    /// Turn right; with `Mode`, look down.
    Right,
    /// Step to the left.
    StrafeLeft,
    /// Step to the right.
    StrafeRight,
    /// Changes what the first four keys do.
    Mode,
}

/// Which keys are held down.
#[derive(Clone, Copy, Debug, PartialEq, Eq, Structural)]
pub struct Keys {
    pub w: bool,
    pub s: bool,
    pub a: bool,
    pub d: bool,
    pub sl: bool,
    pub sr: bool,
    pub m: bool,
}

impl Keys {
    /// No key is held down.
    pub fn new() -> (keys: Keys)
        ensures
            keys == (Keys { w: false, s: false, a: false, d: false, sl: false, sr: false, m: false }),
    {
        Keys { w: false, s: false, a: false, d: false, sl: false, sr: false, m: false }
    }

    /// The keys with `key` held down (`down`) or let go, and the others as
    /// they are.
    pub open spec fn with(self, key: Key, down: bool) -> Keys {
        match key {
            Key::Forward => Keys { w: down, ..self },
            Key::Backward => Keys { s: down, ..self },
            Key::Left => Keys { a: down, ..self },
            Key::Right => Keys { d: down, ..self },
            Key::StrafeLeft => Keys { sl: down, ..self },
            Key::StrafeRight => Keys { sr: down, ..self },
            Key::Mode => Keys { m: down, ..self },
        }
    }

    /// Records that `key` went down or up.
    pub fn set(&mut self, key: Key, down: bool)
        ensures
            *final(self) == old(self).with(key, down),
    {
        match key {
            Key::Forward => {
                self.w = down;
            },
            Key::Backward => {
                self.s = down;
            },
            Key::Left => {
                self.a = down;
            },
            Key::Right => {
                self.d = down;
            },
            Key::StrafeLeft => {
                self.sl = down;
            },
            Key::StrafeRight => {
                self.sr = down;
            },
            Key::Mode => {
                self.m = down;
            },
        }
    }
}

/// The facing angle after one frame of turning: four degrees less for the
/// left key, four more for the right key, kept within the full turn.
/// With the mode key held the angle stays.
pub open spec fn turned(keys: Keys, a: int) -> int {
    let left = if keys.a && !keys.m {
        if a - TURN_STEP < 0 {
            a - TURN_STEP + DEGREES
        } else {
            a - TURN_STEP
        }
    } else {
        a
    };
    if keys.d && !keys.m {
        if left + TURN_STEP > DEGREES - 1 {
            left + TURN_STEP - DEGREES
        } else {
            left + TURN_STEP
        }
    } else {
        left
    }
}

/// One walking step along a direction whose fixed-point component is
/// `unit`: ten times the component, rounded toward zero.
pub open spec fn stride(unit: int) -> int {
    trunc_div(unit * WALK_STEP, SCALE as int)
}

/// 1 where `on` holds, else 0.
pub open spec fn held(on: bool) -> int {
    if on {
        1
    } else {
        0
    }
}

/// The camera after one frame with `keys` held: it turns first, then
/// walks and steps sideways along the new facing angle, looks up or down
/// by one, and flies up or down by four.
pub open spec fn moved(keys: Keys, player: Player, cos: Seq<i32>, sin: Seq<i32>) -> Player {
    let a = turned(keys, player.a as int);
    let dx = stride(sin[a] as int);
    let dy = stride(cos[a] as int);
    let walk = held(keys.w && !keys.m) - held(keys.s && !keys.m);
    let side = held(keys.sr) - held(keys.sl);
    Player {
        x: (player.x + walk * dx + side * dy) as i32,
        y: (player.y + walk * dy - side * dx) as i32,
        z: (player.z + FLY_STEP * (held(keys.w && keys.m) - held(keys.s && keys.m))) as i32,
        a: a as i32,
        l: (player.l + held(keys.d && keys.m) - held(keys.a && keys.m)) as i32,
    }
}

/// The camera can make one more move: its angle is a degree of the full
/// turn, and no coordinate is so close to the end of its type that a
/// frame's move could leave it.
pub open spec fn can_move(player: Player) -> bool {
    &&& 0 <= player.a < DEGREES
    &&& i32::MIN + 2 * WALK_STEP <= player.x <= i32::MAX - 2 * WALK_STEP
    &&& i32::MIN + 2 * WALK_STEP <= player.y <= i32::MAX - 2 * WALK_STEP
    &&& i32::MIN + FLY_STEP <= player.z <= i32::MAX - FLY_STEP
    &&& i32::MIN + 1 <= player.l <= i32::MAX - 1
}

/// Tests `can_move`.
pub fn ready_to_move(player: &Player) -> (ok: bool)
    ensures
        ok == can_move(*player),
{
    0 <= player.a && player.a < 360 && i32::MIN + 20 <= player.x && player.x <= i32::MAX - 20
        && i32::MIN + 20 <= player.y && player.y <= i32::MAX - 20 && i32::MIN + 4 <= player.z
        && player.z <= i32::MAX - 4 && i32::MIN + 1 <= player.l && player.l <= i32::MAX - 1
}

/// One walking step, as `stride` states it.
fn step_along(unit: i32) -> (d: i32)
    requires
        -SCALE <= unit <= SCALE,
    ensures
        d == stride(unit as int),
        -WALK_STEP <= d <= WALK_STEP,
{
    let step: i64 = WALK_STEP as i64;
    assert(step == 10);
    let n: i64 = (unit as i64) * step;
    proof {
        lemma_trunc_div_magnitude(n as int, SCALE as int);
    }
    div_trunc(n, SCALE as i64) as i32
}

/// Moves the camera by one frame, as `moved` states it.
pub fn move_player(keys: &Keys, player: &mut Player, math: &TrigTable)
    requires
        can_move(*old(player)),
        math.wf(),
    ensures
        *final(player) == moved(*keys, *old(player), math.cos_table(), math.sin_table()),
        0 <= final(player).a < DEGREES,
{
    // turn left, right
    if keys.a && !keys.m {
        player.a = player.a - TURN_STEP;
        if player.a < 0 {
            player.a = player.a + 360;
        }
    }
    if keys.d && !keys.m {
        player.a = player.a + TURN_STEP;
        if player.a > 359 {
            player.a = player.a - 360;
        }
    }
    let dx: i32 = step_along(math.sin(player.a));
    let dy: i32 = step_along(math.cos(player.a));
    proof {
        let walk = held(keys.w && !keys.m) - held(keys.s && !keys.m);
        let side = held(keys.sr) - held(keys.sl);
        assert(walk * dx == if walk == 1 { dx as int } else if walk == -1 { -dx } else { 0 })
            by (nonlinear_arith)
            requires
                -1 <= walk <= 1,
        ;
        assert(walk * dy == if walk == 1 { dy as int } else if walk == -1 { -dy } else { 0 })
            by (nonlinear_arith)
            requires
                -1 <= walk <= 1,
        ;
        assert(side * dx == if side == 1 { dx as int } else if side == -1 { -dx } else { 0 })
            by (nonlinear_arith)
            requires
                -1 <= side <= 1,
        ;
        assert(side * dy == if side == 1 { dy as int } else if side == -1 { -dy } else { 0 })
            by (nonlinear_arith)
            requires
                -1 <= side <= 1,
        ;
    }
    // walk forward, backward
    if keys.w && !keys.m {
        player.x = player.x + dx;
        player.y = player.y + dy;
    }
    if keys.s && !keys.m {
        player.x = player.x - dx;
        player.y = player.y - dy;
    }
    // step left, right
    if keys.sl {
        player.x = player.x - dy;
        player.y = player.y + dx;
    }
    if keys.sr {
        player.x = player.x + dy;
        player.y = player.y - dx;
    }
    // look up, down
    if keys.a && keys.m {
        player.l = player.l - 1;
    }
    if keys.d && keys.m {
        player.l = player.l + 1;
    }
    // fly up, down
    if keys.w && keys.m {
        player.z = player.z + FLY_STEP;
    }
    if keys.s && keys.m {
        player.z = player.z - FLY_STEP;
    }
}

} // verus!
