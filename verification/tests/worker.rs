//! What the background threads decide.

use yunzii_b75_tui::app::{DeviceState, Update};
use yunzii_b75_tui::device::{DeviceError, IoKind};
use yunzii_b75_tui::exec::{ExecEvent, Phase};
use yunzii_b75_tui::worker::{
    command_outcome, event_update, preview_failure_text, probe, upload_outcome,
};

#[test]
fn probing_always_yields_a_describable_state() {
    let searches = vec![
        Err(DeviceError::NoMatchingDevice),
        Err(DeviceError::MultipleMatchingDevices(vec!["/a".into(), "/b".into()])),
        Err(DeviceError::PermissionDenied("/dev/hidraw5".into())),
        Err(DeviceError::Io(IoKind::Other, "no /sys".into())),
        Ok("/dev/hidraw5".to_string()),
    ];
    for found in searches {
        let state = probe(found, |_| Ok(()));
        assert!(!state.summary().is_empty());
    }
}

#[test]
fn only_a_node_that_opens_is_ready() {
    assert_eq!(probe(Ok("/dev/hidraw5".into()), |_| Ok(())), DeviceState::Ready("/dev/hidraw5".into()));
    assert_eq!(
        probe(Ok("/dev/hidraw5".into()), |p| Err(DeviceError::PermissionDenied(p.to_string()))),
        DeviceState::PermissionDenied("/dev/hidraw5".into())
    );
    assert_eq!(
        probe(Ok("/dev/hidraw5".into()), |_| Err(DeviceError::Io(IoKind::Other, "busy".into()))),
        DeviceState::ScanFailed("I/O error: busy".into())
    );
    assert_eq!(probe(Err(DeviceError::NoMatchingDevice), |_| panic!("not opened")), DeviceState::NotFound);
}

#[test]
fn a_finished_upload_says_how_it_ended() {
    assert_eq!(upload_outcome("Uploading GIF", "/dev/hidraw5", Ok(()), "x"), (Ok("Uploading GIF: done".into()), false));
    let (msg, lost) = upload_outcome(
        "Uploading GIF",
        "/dev/hidraw5",
        Err(DeviceError::Cancelled { note: None }),
        "the animation may be incomplete",
    );
    assert_eq!(msg, Err("cancelled -- the animation may be incomplete".into()));
    assert!(!lost, "a cancellation says nothing about the device");
    let (msg, lost) = upload_outcome("Uploading GIF", "/dev/hidraw5", Err(DeviceError::Io(IoKind::Other, "broken pipe".into())), "partial");
    assert!(lost);
    let m = msg.unwrap_err();
    assert!(m.starts_with("I/O error: broken pipe -- the device node \"/dev/hidraw5\""), "{m}");
    assert!(m.ends_with(" -- partial"), "{m}");

    assert_eq!(command_outcome("switched page", "/dev/hidraw5", Ok(())), (Ok("switched page".into()), false));
    assert!(command_outcome("x", "/p", Err(DeviceError::NoMatchingDevice)).1);
}

#[test]
fn a_too_long_gif_gets_pointed_at_the_command_line() {
    let plain = preview_failure_text("could not use x as an animation: broken".into());
    assert_eq!(plain, "could not use x as an animation: broken");
    let long = preview_failure_text("it has 200 frames, more frames than the keyboard can store (160).".into());
    assert!(long.ends_with("--max-frames 160`)"), "{long}");
}

#[test]
fn upload_events_become_progress_and_notes_but_not_frame_lines() {
    let u: Option<Update<(), ()>> = event_update(ExecEvent::Progress {
        done: 33,
        total: 100,
        phase: Phase::Frame { index: 11, of: 36 },
    });
    assert!(matches!(
        u,
        Some(Update::Progress { done: 33, total: 100, frame: Some((11, 36)) })
    ));
    let u: Option<Update<(), ()>> =
        event_update(ExecEvent::Progress { done: 1, total: 484, phase: Phase::Picture });
    assert!(matches!(u, Some(Update::Progress { done: 1, total: 484, frame: None })));
    let u: Option<Update<(), ()>> = event_update(ExecEvent::Note("warning".into()));
    assert!(matches!(u, Some(Update::Note(m)) if m == "warning"));
    let u: Option<Update<(), ()>> = event_update(ExecEvent::FrameDone { index: 0, of: 2 });
    assert!(u.is_none());
}
