//! Upload scripts: the reports, the pauses between them, and running them
//! with cancellation between reports.

use yunzii_b75_tui::device::DeviceError;
use yunzii_b75_tui::exec::{
    drain_warning, gif_upload_steps, layout, pause_outcome, picture_upload_steps, ExecEvent,
    Phase, Step, Upload, UploadAction, UploadStep,
};
use yunzii_b75_tui::protocol::{
    build_finish, build_gif_declare_size, build_gif_frame_blocks, build_gif_frame_header,
    build_gif_session_close, build_gif_session_open, build_picture_upload_body,
    build_picture_upload_start, gif_upload_report_count, picture_upload_report_count,
    GIF_BLOCKS_PER_FRAME, GIF_MODE_SAVE_TO_DEVICE, GIF_PACKETS_PER_BLOCK, PICTURE_BYTES,
};

fn frame(seed: u8) -> Vec<u8> {
    (0..PICTURE_BYTES).map(|i| (i as u8).wrapping_mul(seed)).collect()
}

/// What running a script against a recording transport and clock gave:
/// the outcome, every report in order, every event, and the pause layout.
struct Run {
    result: Result<(), DeviceError>,
    reports: Vec<[u8; 64]>,
    events: Vec<ExecEvent>,
    steps: Vec<Step>,
}

/// Runs a script to the end, or until the cancel flag is raised once
/// `cancel_after` reports have gone out, performing each action the way a
/// caller does: a drain that reads `drain_returns` reports before each
/// write, a write that is always acknowledged, and pauses that return at
/// once, recorded as they were asked for.
fn run_with(steps: Vec<UploadStep>, total: usize, cancel_after: Option<usize>, drain_returns: usize) -> Run {
    let mut u = Upload::new(steps, total);
    let mut out = Run { result: Ok(()), reports: Vec::new(), events: Vec::new(), steps: Vec::new() };
    loop {
        let cancelled = cancel_after.is_some_and(|n| out.reports.len() >= n);
        match u.next_action(cancelled) {
            UploadAction::Send { report, batch_index } => {
                if let Some(warning) = drain_warning(drain_returns, batch_index) {
                    out.events.push(warning);
                }
                out.reports.push(report);
                match out.steps.last_mut() {
                    Some(Step::Reports(n)) => *n += 1,
                    _ => out.steps.push(Step::Reports(1)),
                }
                out.events.push(u.acknowledged());
            }
            UploadAction::Pause { ms } => {
                out.steps.push(Step::Slept(ms));
                if let Err(e) = pause_outcome(!cancelled) {
                    out.result = Err(e);
                    return out;
                }
            }
            UploadAction::Emit(e) => out.events.push(e),
            UploadAction::Finished => return out,
            UploadAction::Stopped(e) => {
                out.result = Err(e);
                return out;
            }
        }
    }
}

fn run(steps: Vec<UploadStep>, total: usize, cancel_after: Option<usize>) -> Run {
    run_with(steps, total, cancel_after, 0)
}

/// A two-frame animation at 10 fps, as the planner hands it over.
fn two_frames() -> Vec<Vec<u8>> {
    vec![frame(1), frame(2)]
}

fn gif_run(frames: &Vec<Vec<u8>>, cancel_after: Option<usize>) -> Run {
    let steps = gif_upload_steps(frames, GIF_MODE_SAVE_TO_DEVICE, 10);
    run(steps, gif_upload_report_count(frames.len()), cancel_after)
}

fn progress_of(events: &[ExecEvent]) -> Vec<(usize, usize)> {
    events
        .iter()
        .filter_map(|e| match e {
            ExecEvent::Progress { done, total, .. } => Some((*done, *total)),
            _ => None,
        })
        .collect()
}

#[test]
fn a_cancelled_upload_still_warns_about_what_it_left_behind() {
    let err = DeviceError::Cancelled { note: None }
        .with_note("the animation on the keyboard may be incomplete");
    let msg = err.message();
    assert!(msg.starts_with("cancelled"), "got: {msg}");
    assert!(msg.contains("may be incomplete"), "got: {msg}");

    let twice = DeviceError::Cancelled { note: Some("first".into()) }.with_note("second");
    assert!(twice.message().contains("first -- second"));
}

#[test]
fn picture_upload_choreography() {
    let pixels = frame(3);
    let body = build_picture_upload_body(&pixels);
    let r = run(picture_upload_steps(&pixels), picture_upload_report_count(), None);
    r.result.unwrap();
    assert_eq!(
        r.steps,
        vec![Step::Reports(1), Step::Slept(300), Step::Reports(body.len())],
        "the picture pause must sit between the start report and the body"
    );
    assert_eq!(r.reports.len(), picture_upload_report_count());
    assert_eq!(layout(&picture_upload_steps(&pixels)), r.steps);
}

#[test]
fn gif_upload_choreography() {
    let frames = two_frames();
    assert_eq!(frames.len(), 2);
    let r = gif_run(&frames, None);
    r.result.unwrap();

    let blocks = GIF_BLOCKS_PER_FRAME;
    let per_block = GIF_PACKETS_PER_BLOCK;
    let mut want = vec![Step::Reports(2), Step::Slept(30)];
    for i in 0..2 {
        want.push(Step::Reports(1));
        want.push(Step::Slept(if i % 16 == 0 { 3000 } else { 30 }));
        // Declare-size runs straight into the first block.
        want.push(Step::Reports(1 + per_block));
        want.push(Step::Slept(30));
        for _ in 1..blocks {
            want.push(Step::Reports(per_block));
            want.push(Step::Slept(30));
        }
    }
    want.push(Step::Reports(1));
    want.push(Step::Slept(30));
    want.push(Step::Reports(1));
    want.push(Step::Slept(30));
    want.push(Step::Slept(500));
    want.push(Step::Reports(1));

    assert_eq!(r.steps, want);
    assert_eq!(r.reports.len(), gif_upload_report_count(2));
    assert_eq!(layout(&gif_upload_steps(&frames, GIF_MODE_SAVE_TO_DEVICE, 10)), want);
}

#[test]
fn the_long_pause_falls_on_every_sixteenth_frame_only() {
    let frames: Vec<Vec<u8>> = (0..18).map(|i| frame(i as u8)).collect();
    assert_eq!(frames.len(), 18);
    let r = gif_run(&frames, None);
    r.result.unwrap();

    let declare_plus_first_block = 1 + GIF_PACKETS_PER_BLOCK;
    let mut header_pauses = Vec::new();
    for w in r.steps.windows(3) {
        if let [Step::Reports(1), Step::Slept(ms), Step::Reports(n)] = w {
            if *n == declare_plus_first_block {
                header_pauses.push(*ms);
            }
        }
    }
    assert_eq!(header_pauses.len(), 18, "one header pause per frame, got {header_pauses:?}");
    let slow: Vec<usize> = header_pauses
        .iter()
        .enumerate()
        .filter(|(_, ms)| **ms == 3000)
        .map(|(i, _)| i)
        .collect();
    assert_eq!(slow, vec![0, 16], "the 3 s pause belongs to frames 0 and 16 only");
}

#[test]
fn the_gif_executor_emits_exactly_the_expected_reports() {
    let frames = two_frames();
    let r = gif_run(&frames, None);
    r.result.unwrap();

    let mode = GIF_MODE_SAVE_TO_DEVICE;
    let mut want: Vec<[u8; 64]> = Vec::new();
    want.extend(build_gif_session_open(mode));
    for (i, pixels) in frames.iter().enumerate() {
        want.push(build_gif_frame_header(mode, i as u8));
        want.push(build_gif_declare_size());
        for block in build_gif_frame_blocks(pixels) {
            want.extend(block);
        }
    }
    want.extend(build_gif_session_close(mode, frames.len() as u8, 10));
    want.push(build_finish());

    assert_eq!(r.reports.len(), want.len(), "report count");
    assert_eq!(r.reports.len(), 1149);
    for (i, (g, w)) in r.reports.iter().zip(want.iter()).enumerate() {
        assert_eq!(g, w, "report #{i} differs");
    }
}

#[test]
fn the_picture_executor_emits_exactly_the_expected_reports() {
    let pixels = frame(5);
    let r = run(picture_upload_steps(&pixels), picture_upload_report_count(), None);
    r.result.unwrap();
    let mut want = vec![build_picture_upload_start()];
    want.extend(build_picture_upload_body(&pixels));
    assert_eq!(r.reports.len(), want.len());
    for (i, (g, w)) in r.reports.iter().zip(want.iter()).enumerate() {
        assert_eq!(g, w, "report #{i} differs");
    }
}

#[test]
fn progress_counts_every_report_and_ends_on_the_planned_total() {
    let total = gif_upload_report_count(2);
    let r = gif_run(&two_frames(), None);
    r.result.unwrap();
    let progress = progress_of(&r.events);
    assert_eq!(progress.len(), total, "one event per report");
    assert_eq!(progress.first(), Some(&(1, total)));
    assert_eq!(progress.last(), Some(&(total, total)));
    assert!(progress.windows(2).all(|w| w[1].0 == w[0].0 + 1));
}

#[test]
fn progress_names_the_frame_being_sent() {
    let r = gif_run(&two_frames(), None);
    let frames: Vec<usize> = r
        .events
        .iter()
        .filter_map(|e| match e {
            ExecEvent::Progress { phase: Phase::Frame { index, of }, .. } => {
                assert_eq!(*of, 2);
                Some(*index)
            }
            _ => None,
        })
        .collect();
    assert!(frames.contains(&0) && frames.contains(&1));
    assert!(frames.windows(2).all(|w| w[1] >= w[0]), "frames are sent in order");

    let first = r.events.iter().find_map(|e| match e {
        ExecEvent::Progress { phase, .. } => Some(*phase),
        _ => None,
    });
    assert_eq!(first, Some(Phase::Session));
}

#[test]
fn cancelling_stops_promptly_and_is_not_an_io_error() {
    let total = gif_upload_report_count(2);
    let r = gif_run(&two_frames(), Some(50));
    let err = r.result.expect_err("a cancelled upload must not report success");
    assert!(matches!(err, DeviceError::Cancelled { .. }), "pressing Esc is not a fault; got {err:?}");
    assert!(r.reports.len() < total);
    assert!(r.reports.len() <= 51, "it must stop at the next report boundary: {}", r.reports.len());
}

#[test]
fn a_cancel_during_a_pause_ends_the_upload() {
    // The two session-open reports go out, then the 30 ms pause: the flag
    // is up by then.
    let r = gif_run(&two_frames(), Some(2));
    assert!(matches!(r.result.expect_err("must stop"), DeviceError::Cancelled { .. }));
    assert_eq!(r.reports.len(), 2, "nothing may be sent after the interrupted pause");
    assert_eq!(r.steps, vec![Step::Reports(2), Step::Slept(30)]);
}

#[test]
fn a_frame_is_reported_only_after_its_whole_body_is_sent() {
    let r = gif_run(&two_frames(), None);
    r.result.unwrap();
    let mut sent = 0usize;
    let mut done_at = Vec::new();
    for ev in &r.events {
        match ev {
            ExecEvent::Progress { done, .. } => sent = *done,
            ExecEvent::FrameDone { index, of } => {
                assert_eq!(*of, 2);
                done_at.push((*index, sent));
            }
            _ => {}
        }
    }
    assert_eq!(done_at.len(), 2, "one per frame");
    let per_frame = 1 + 1 + GIF_BLOCKS_PER_FRAME * GIF_PACKETS_PER_BLOCK;
    assert_eq!(done_at[0], (0, 2 + per_frame));
    assert_eq!(done_at[1], (1, 2 + 2 * per_frame));
}

#[test]
fn an_interrupted_frame_is_never_reported_as_done() {
    let r = gif_run(&two_frames(), Some(10));
    assert!(matches!(r.result.expect_err("must stop"), DeviceError::Cancelled { .. }));
    assert!(!r.events.iter().any(|e| matches!(e, ExecEvent::FrameDone { .. })));
}

#[test]
fn a_nonzero_drain_becomes_a_note() {
    let pixels = frame(9);
    let total = picture_upload_report_count();
    let r = run_with(picture_upload_steps(&pixels), total, None, 3);
    r.result.unwrap();
    let notes: Vec<&str> = r
        .events
        .iter()
        .filter_map(|e| match e {
            ExecEvent::Note(m) => Some(m.as_str()),
            _ => None,
        })
        .collect();
    assert_eq!(notes.len(), total, "one warning per report");
    assert!(notes[0].contains("drained 3 unexpected report(s)"), "got {:?}", notes[0]);
    assert!(notes[0].contains("before write #0"), "got {:?}", notes[0]);
}

#[test]
fn a_drain_that_read_something_becomes_a_warning() {
    assert!(drain_warning(0, 4).is_none());
    match drain_warning(3, 0) {
        Some(ExecEvent::Note(m)) => {
            assert_eq!(m, "warning: drained 3 unexpected report(s) before write #0")
        }
        other => panic!("expected a note, got {other:?}"),
    }
}
