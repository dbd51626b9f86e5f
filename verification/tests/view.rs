//! What the screens say, without a terminal.

use yunzii_b75_tui::app::{Action, App, DeviceState, Entry, Key, Running, Screen, Update};
use yunzii_b75_tui::preview::{render, Preview};
use yunzii_b75_tui::view::{browse_heading, browse_lines, browse_title, confirm_lines, Facts};

type TestApp = App<&'static str, &'static str>;

fn app_ready() -> TestApp {
    let mut a = App::new(".");
    a.device = DeviceState::Ready("/dev/hidraw5".into());
    a
}

fn running_gif(a: &TestApp) -> Running {
    match &a.screen {
        Screen::Running(r) => r.clone(),
        _ => panic!("not running"),
    }
}

#[test]
fn the_progress_bar_shows_the_frame_and_the_percentage() {
    let mut a = app_ready();
    a.on_update(Update::Started { label: "Uploading GIF".into(), total: 100, est_secs: Some(45) });
    a.on_update(Update::Progress { done: 33, total: 100, frame: Some((11, 36)) });
    let r = running_gif(&a);
    assert_eq!(r.label, "Uploading GIF");
    // 67 reports left at 1 s per report.
    assert_eq!(r.gauge_label(33_000), "frame 12/36  33%  ~67s left");
}

#[test]
fn the_progress_label_uses_the_estimate_early_on() {
    let mut a = app_ready();
    a.on_update(Update::Started { label: "Uploading GIF".into(), total: 100, est_secs: Some(45) });
    a.on_update(Update::Progress { done: 3, total: 100, frame: None });
    assert_eq!(running_gif(&a).gauge_label(99_000), "3%  ~45s left");
}

#[test]
fn the_progress_label_without_an_estimate_shows_only_the_percentage() {
    let mut a = app_ready();
    a.on_update(Update::Started { label: "Setting time".into(), total: 4, est_secs: None });
    a.on_update(Update::Progress { done: 1, total: 4, frame: None });
    assert_eq!(running_gif(&a).gauge_label(0), "25%");
}

#[test]
fn cancelling_says_so_instead_of_showing_a_percentage() {
    let mut a = app_ready();
    a.on_update(Update::Started { label: "Uploading GIF".into(), total: 100, est_secs: None });
    a.on_update(Update::Progress { done: 10, total: 100, frame: Some((2, 5)) });
    a.on_key(Key::Esc);
    let label = running_gif(&a).gauge_label(0);
    assert_eq!(label, "frame 3/5  cancelling…");
    assert!(!label.contains('%'));
}

#[test]
fn the_quit_prompt_is_visible_and_says_what_it_costs() {
    let mut a = app_ready();
    a.on_update(Update::Started { label: "Uploading GIF".into(), total: 100, est_secs: None });
    a.on_key(Key::Char('q'));
    assert!(a.status_text().contains("cancel it and quit"));
    a.on_key(Key::Char('n'));
    assert!(!a.status_text().contains("cancel it and quit"));
}

#[test]
fn the_status_line_is_the_last_status_or_nothing() {
    let mut a = app_ready();
    assert_eq!(a.status_text(), "browsing from .");
    a.status = None;
    assert_eq!(a.status_text(), "");
    a.status = Some("done".into());
    assert_eq!(a.status_text(), "done");
}

#[test]
fn each_screen_has_its_key_hints() {
    let mut a = app_ready();
    assert_eq!(a.key_hint(), "q quit · ↑↓ move · ⏎ run");
    a.screen = Screen::Browse {
        for_gif: true,
        dir: "/tmp".into(),
        entries: vec![],
        selected: 0,
        error: None,
    };
    assert_eq!(a.key_hint(), "esc back · ↑↓ move · ⏎ open · ⌫ parent · ~ home");
    a.screen = Screen::Menu;
    a.on_update(Update::Started { label: "x".into(), total: 1, est_secs: None });
    assert_eq!(a.key_hint(), "esc cancel · q quit");
}

#[test]
fn a_picture_confirmation_states_its_size_and_reports() {
    let lines = confirm_lines(&Facts::Picture { bytes: 30720, reports: 484 });
    assert_eq!(
        lines,
        vec!["160x96, 30720 bytes", "484 reports", "", "Enter to upload · Esc to discard"]
    );
}

#[test]
fn a_gif_confirmation_states_frames_rate_time_and_notes() {
    let facts = Facts::Gif {
        kept: 36,
        source: 72,
        rate: 12,
        rate_override: None,
        est_secs: 45,
        notes: vec!["kept every second frame".into()],
    };
    assert_eq!(
        confirm_lines(&facts),
        vec![
            "36 frames of 72",
            "12 fps",
            "~45s to upload",
            "kept every second frame",
            "",
            "Enter to upload · Esc to discard",
            "← → to change the rate",
        ]
    );
    let chosen = Facts::Gif {
        kept: 2,
        source: 2,
        rate: 12,
        rate_override: Some(24),
        est_secs: 3,
        notes: vec![],
    };
    assert_eq!(confirm_lines(&chosen)[1], "24 fps (chosen)");
}

#[test]
fn the_browser_marks_directories_and_says_when_there_is_nothing() {
    assert_eq!(browse_lines(&vec![]), vec![" (nothing here to upload) "]);
    let entries = vec![
        Entry { name: "pics".into(), path: "/h/pics".into(), is_dir: true },
        Entry { name: "cat.png".into(), path: "/h/cat.png".into(), is_dir: false },
    ];
    assert_eq!(browse_lines(&entries), vec![" pics/ ", " cat.png "]);
    assert_eq!(browse_heading(true), " Pick a GIF ");
    assert_eq!(browse_title(false, "/h"), " Pick a PNG or JPEG · /h ");
}

#[test]
fn the_log_pane_shows_the_newest_lines() {
    let mut a = app_ready();
    for i in 0..10 {
        a.log.push(format!("line {i}"));
    }
    // Ten rows, two of them border: the last eight lines.
    assert_eq!(a.first_visible(10), 2);
    assert_eq!(a.first_visible(40), 0);
    assert_eq!(a.first_visible(1), 10);
}

#[test]
fn a_preview_scales_to_the_pane_by_nearest_cell() {
    let p = Preview {
        rows: vec![
            vec![((1, 1, 1), (1, 1, 1)), ((2, 2, 2), (2, 2, 2))],
            vec![((3, 3, 3), (3, 3, 3)), ((4, 4, 4), (4, 4, 4))],
        ],
    };
    assert!(p.is_drawable());
    let s = p.scaled(4, 1);
    assert_eq!(s.len(), 1);
    let firsts: Vec<u8> = s[0].iter().map(|c| (c.0).0).collect();
    assert_eq!(firsts, vec![1, 1, 2, 2]);
    let tall = p.scaled(1, 2);
    assert_eq!(((tall[0][0].0).0, (tall[1][0].0).0), (1, 3));
    assert!(!Preview { rows: vec![] }.is_drawable());
    assert!(!Preview { rows: vec![vec![((0, 0, 0), (0, 0, 0))], vec![]] }.is_drawable());
    assert!(render(&vec![0u8; 30720], 8, 4).is_drawable());
}

#[test]
fn the_menu_names_the_device_and_every_action() {
    let a = app_ready();
    assert!(a.device.summary().contains("/dev/hidraw5"));
    let labels: Vec<&str> = Action::ALL.iter().map(|x| x.label()).collect();
    assert_eq!(
        labels,
        vec![
            "Set time",
            "Show home page",
            "Show picture page",
            "Show GIF page",
            "Clear picture",
            "Upload picture…",
            "Upload GIF…",
        ]
    );
}

#[test]
fn a_permission_problem_is_shown_with_its_fix() {
    let mut a: TestApp = App::new(".");
    a.device = DeviceState::PermissionDenied("/dev/hidraw5".into());
    let header = a.device.summary();
    assert!(header.contains("permission denied"), "{header}");
    assert!(header.contains("udev"), "and how to fix it: {header}");
}

#[test]
fn a_count_past_the_plan_shows_a_full_bar() {
    let r = Running { label: "x".into(), done: 5, total: 4, frame: None, est_secs: Some(3), cancelling: false };
    assert_eq!(r.percent(), 100);
    assert_eq!(r.gauge_label(0), "100%  ~3s left");
}
