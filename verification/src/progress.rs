//! Progress reporting and the frame clock that drives a capture loop.

use vstd::prelude::*;

verus! {

/// Receives progress of a rendering or sampling task: after each frame, the
/// number of frames done and the number of frames in total.
///
/// A closure is not a sink by itself: `on_frame` admits every report, and a
/// closure's own precondition is unknown, so Verus refuses a blanket impl that
/// calls one. Wrap the closure in a type of your own.
pub trait ProgressSink {
    /// Called once per finished frame.
    fn on_frame(&mut self, frame_index: u32, total_frames: u32);
}

/// A progress sink that ignores every report.
pub struct NoopProgress;

impl ProgressSink for NoopProgress {
    fn on_frame(&mut self, frame_index: u32, total_frames: u32) {
    }
}

/// What a capture loop does next.
#[derive(Debug, Clone, Copy, PartialEq, Eq, Structural)]
pub enum FrameStep {
    /// Seek to frame `frame_index` and capture it.
    Capture { frame_index: u32 },
    /// Every frame has been captured.
    Finished,
}

/// Counts the frames of a capture loop: frames `0 .. total` are captured in
/// order, and each finished frame is to be reported to the progress sink as
/// `(frames done, total)`.
pub struct FrameClock {
    next: u32,
    total: u32,
}

impl FrameClock {
    #[verifier::type_invariant]
    closed spec fn wf(self) -> bool {
        self.next <= self.total
    }

    /// Frames captured so far.
    pub closed spec fn done(self) -> nat {
        self.next as nat
    }

    /// Frames to capture in all.
    pub closed spec fn total(self) -> nat {
        self.total as nat
    }

    /// A clock for `total_frames` frames, none captured yet.
    pub fn new(total_frames: u32) -> (res: Self)
        ensures
            res.done() == 0,
            res.total() == total_frames,
    {
        FrameClock { next: 0, total: total_frames }
    }

    /// The next step: the first frame not yet captured, or the end.
    pub fn next_step(&self) -> (res: FrameStep)
        ensures
            self.done() <= self.total(),
            self.done() < self.total() ==> res == (FrameStep::Capture { frame_index: self.done() as u32 }),
            self.done() == self.total() ==> res == FrameStep::Finished,
    {
        proof { use_type_invariant(self); }
        if self.next < self.total {
            FrameStep::Capture { frame_index: self.next }
        } else {
            FrameStep::Finished
        }
    }

    /// Records that the current frame has been captured and returns the report
    /// owed to the progress sink: `(frames done, total)`.
    pub fn frame_done(&mut self) -> (reported: (u32, u32))
        requires
            old(self).done() < old(self).total(),
        ensures
            final(self).done() == old(self).done() + 1,
            final(self).total() == old(self).total(),
            reported.0 == old(self).done() + 1,
            reported.1 == old(self).total(),
    {
        proof { use_type_invariant(&*self); }
        let done = self.next + 1;
        let total = self.total;
        self.next = done;
        (done, total)
    }
}

} // verus!
