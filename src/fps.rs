//! A rolling count of frames drawn per second.
use vstd::prelude::*;
use crate::duration::{Duration, sat_sub};

verus! {

/// `frames` frames drawn over `window`; no frames at all for an empty window.
#[derive(Clone, Copy, Debug, PartialEq, Eq, Structural)]
pub struct FrameRate {
    pub frames: u32,
    pub window: Duration,
}

/// Counts frames and turns the count into a rate once per second or more.
pub struct Fps {
    last_frame_update: Duration,
    frame_count: u32,
    fps: FrameRate,
}

/// What a frame counter holds, in milliseconds.
pub struct FpsState {
    /// When the current window started.
    pub window_start: nat,
    /// Frames drawn in the current window.
    pub frames: nat,
    /// The last rate computed.
    pub rate: FrameRate,
}

impl View for Fps {
    type V = FpsState;

    closed spec fn view(&self) -> FpsState {
        FpsState {
            window_start: self.last_frame_update@,
            frames: self.frame_count as nat,
            rate: self.fps,
        }
    }
}

impl Fps {
    /// A counter whose first window starts at `now`.
    pub fn new(now: Duration) -> (r: Fps)
        ensures
            r@.window_start == now@,
            r@.frames == 0,
            r@.rate.frames == 0,
            r@.rate.window@ == 0,
    {
        Fps { last_frame_update: now, frame_count: 0, fps: FrameRate { frames: 0, window: Duration::zero() } }
    }

    /// Counts a frame drawn at `now`. Where a second or more has passed
    /// since the window started, the window's count becomes the rate and a
    /// new window starts at `now`.
    pub fn update(&mut self, now: Duration)
        ensures
            ({
                let frames = if old(self)@.frames < u32::MAX { old(self)@.frames + 1 } else { old(self)@.frames };
                let elapsed = sat_sub(now@, old(self)@.window_start);
                if elapsed >= 1000 {
                    &&& final(self)@.rate.frames == frames
                    &&& final(self)@.rate.window@ == elapsed
                    &&& final(self)@.window_start == now@
                    &&& final(self)@.frames == 0
                } else {
                    &&& final(self)@.rate == old(self)@.rate
                    &&& final(self)@.window_start == old(self)@.window_start
                    &&& final(self)@.frames == frames
                }
            }),
    {
        self.frame_count = self.frame_count.saturating_add(1);
        let elapsed = now.saturating_sub(self.last_frame_update);
        if elapsed.as_millis() >= 1000 {
            self.fps = FrameRate { frames: self.frame_count, window: elapsed };
            self.last_frame_update = now;
            self.frame_count = 0;
        }
    }

    /// The last rate computed: no frames over an empty window until the
    /// first window has closed.
    pub fn fps(&self) -> (r: FrameRate)
        ensures
            r == self@.rate,
    {
        self.fps
    }
}

} // verus!
