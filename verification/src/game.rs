//! One round of the main loop: if a frame is due, the camera makes its
//! move and the frame is drawn.
use crate::camera::Player;
use crate::controls::{can_move, move_player, moved, Keys};
use crate::palette::{background_writes, clear_background};
use crate::render::{frame_writes, render_frame};
use crate::screen::PixelWrite;
use crate::timing::Time;
use crate::trig::TrigTable;
use crate::world::Geometry;
use vstd::prelude::*;

verus! {

/// The camera can take part in the next round: if a frame is due, it can
/// make its move and can render from where the move takes it.
pub open spec fn ready(time: Time, keys: Keys, player: Player, math: TrigTable) -> bool {
    time.due() ==> can_move(player) && moved(
        keys,
        player,
        math.cos_table(),
        math.sin_table(),
    ).wf()
}

/// The writes of a whole frame: the background, then the level as the
/// camera sees it.
pub open spec fn display_writes(player: Player, level: Geometry, math: TrigTable) -> Seq<
    PixelWrite,
> {
    background_writes() + frame_writes(
        level.walls(),
        level.sectors(),
        player,
        math.cos_table()[player.a as int] as int,
        math.sin_table()[player.a as int] as int,
    )
}

/// Plays one round. Where no frame is due nothing changes and nothing is
/// returned. Where one is due, the camera makes the move that `keys` ask
/// for, the frame counts from the latest reading of the clock, and the
/// writes of the frame are returned: the background first, then the level
/// seen from the camera's new place. They all lie inside the frame.
pub fn display(
    time: &mut Time,
    keys: &Keys,
    player: &mut Player,
    math: &TrigTable,
    level: &Geometry,
) -> (frame: Option<Vec<PixelWrite>>)
    requires
        old(time).wf(),
        math.wf(),
        level.wf(),
        ready(*old(time), *keys, *old(player), *math),
    ensures
        final(time).wf(),
        frame.is_some() == old(time).due(),
        !old(time).due() ==> *final(time) == *old(time) && *final(player) == *old(player),
        old(time).due() ==> final(time).frame1 == old(time).frame1 && final(time).frame2 == old(
            time,
        ).frame1 && *final(player) == moved(
            *keys,
            *old(player),
            math.cos_table(),
            math.sin_table(),
        ),
        frame matches Some(pixels) ==> pixels@ == display_writes(*final(player), *level, *math)
            && forall|i: int| 0 <= i < pixels@.len() ==> (#[trigger] pixels@[i]).on_screen(),
{
    if !time.frame_due() {
        return None;
    }
    let mut pixels: Vec<PixelWrite> = Vec::new();
    clear_background(&mut pixels);
    move_player(keys, player, math);
    let mut drawn: Vec<PixelWrite> = render_frame(player, level, math);
    let ghost cleared = pixels@;
    let ghost seen = drawn@;
    pixels.append(&mut drawn);
    time.mark_frame();
    proof {
        assert(cleared =~= background_writes());
        assert(pixels@ =~= display_writes(*player, *level, *math));
        assert forall|i: int| 0 <= i < pixels@.len() implies (#[trigger] pixels@[i]).on_screen() by {
            if i >= cleared.len() {
                assert(pixels@[i] == seen[i - cleared.len()]);
                assert(seen[i - cleared.len()].in_interior());
            }
        }
    }
    Some(pixels)
}

} // verus!
