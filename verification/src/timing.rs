//! The frame gate: a frame is drawn when enough time has passed since the
//! last one.
use vstd::prelude::*;

verus! {

/// Milliseconds that pass between two frames, at least.
pub const FRAME_INTERVAL: u128 = 50;

/// The clock of the frame gate, in milliseconds since the program began:
/// `frame1` is the latest reading and `frame2` the reading at which the
/// last frame was drawn.
#[derive(Clone, Copy, Debug, PartialEq, Eq, Structural)]
pub struct Time {
    pub frame1: u128,
    pub frame2: u128,
}

impl Time {
    /// The last frame was not drawn after the latest reading.
    pub open spec fn wf(&self) -> bool {
        self.frame2 <= self.frame1
    }

    /// A new frame is due: at least `FRAME_INTERVAL` lies between the
    /// latest reading and the last frame.
    pub open spec fn due(&self) -> bool {
        self.frame1 - self.frame2 >= FRAME_INTERVAL
    }

    /// A clock at the program's begin.
    pub fn new() -> (time: Time)
        ensures
            time.wf(),
            time.frame1 == 0,
            time.frame2 == 0,
    {
        Time { frame1: 0, frame2: 0 }
    }

    /// Tells whether a new frame is due.
    pub fn frame_due(&self) -> (due: bool)
        requires
            self.wf(),
        ensures
            due == self.due(),
    {
        self.frame1 - self.frame2 >= FRAME_INTERVAL
    }

    /// Records that a frame is drawn now: it counts from the latest
    /// reading.
    pub fn mark_frame(&mut self)
        ensures
            final(self).wf(),
            final(self).frame1 == old(self).frame1,
            final(self).frame2 == old(self).frame1,
    {
        self.frame2 = self.frame1;
    }

    /// Takes a new reading of the clock.
    pub fn tick(&mut self, now: u128)
        requires
            now >= old(self).frame2,
        ensures
            final(self).wf(),
            final(self).frame1 == now,
            final(self).frame2 == old(self).frame2,
    {
        self.frame1 = now;
    }
}

} // verus!
