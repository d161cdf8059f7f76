use css2mp4_core::progress::{FrameClock, FrameStep, NoopProgress, ProgressSink};

struct Recorder {
    seen: Vec<(u32, u32)>,
}

impl ProgressSink for Recorder {
    fn on_frame(&mut self, frame_index: u32, total_frames: u32) {
        self.seen.push((frame_index, total_frames));
    }
}

#[test]
fn clock_visits_frames_in_order_and_reports_each() {
    let mut clock = FrameClock::new(3);
    let mut rec = Recorder { seen: Vec::new() };
    let mut captured = Vec::new();
    loop {
        match clock.next_step() {
            FrameStep::Capture { frame_index } => {
                captured.push(frame_index);
                let reported = clock.frame_done();
                assert_eq!(reported, (frame_index + 1, 3));
                rec.on_frame(reported.0, reported.1);
            }
            FrameStep::Finished => break,
        }
    }
    assert_eq!(captured, vec![0, 1, 2]);
    assert_eq!(rec.seen, vec![(1, 3), (2, 3), (3, 3)]);
}

#[test]
fn empty_clock_finishes_at_once() {
    let clock = FrameClock::new(0);
    assert_eq!(clock.next_step(), FrameStep::Finished);
}

#[test]
fn noop_progress_accepts_reports() {
    let mut sink = NoopProgress;
    sink.on_frame(1, 2);
    let mut clock = FrameClock::new(1);
    assert_eq!(clock.frame_done(), (1, 1));
    assert_eq!(clock.next_step(), FrameStep::Finished);
}
