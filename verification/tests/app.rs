//! The interface's state machine, without a terminal, a device or threads.

use yunzii_b75_tui::app::{
    Action, App, DeviceState, Entry, Job, Key, KeyOutcome, Listing, Pending, Running, Screen,
    Update, ACTION_COUNT,
};
use yunzii_b75_tui::listing::browsable_entries;
use yunzii_b75_tui::preview::render;
use yunzii_b75_tui::protocol::{Page, GIF_FPS_MAX, GIF_FPS_MIN, PICTURE_BYTES};

type TestApp = App<&'static str, &'static str>;

fn app_ready() -> TestApp {
    let mut a = App::new(".");
    a.device = DeviceState::Ready("/dev/hidraw5".into());
    a
}

fn gif_pending(rate: u8) -> Pending<&'static str, &'static str> {
    Pending::Gif {
        path: "anim.gif".into(),
        plan: "the gif plan",
        preview: render(&vec![0u8; PICTURE_BYTES], 8, 4),
        rate,
        rate_override: None,
    }
}

#[test]
fn every_device_state_says_what_to_do_about_it() {
    let cases = [
        (DeviceState::NotFound, "rescanning"),
        (DeviceState::PermissionDenied("/dev/hidraw5".into()), "udev"),
        (DeviceState::MultipleMatches(vec!["/a".into(), "/b".into()]), "refusing to guess"),
        (DeviceState::ScanFailed("no /sys".into()), "scan failed"),
    ];
    for (state, expected) in cases {
        assert!(!state.is_ready());
        let s = state.summary();
        assert!(s.contains(expected), "{state:?} should mention {expected}: {s}");
    }
    assert!(DeviceState::Ready("/dev/hidraw5".into()).is_ready());
}

#[test]
fn nothing_can_be_started_without_a_keyboard() {
    let mut a: TestApp = App::new(".");
    assert!(!a.actions_enabled());
    for i in 0..ACTION_COUNT {
        a.selected = i;
        assert!(matches!(a.on_key(Key::Enter), KeyOutcome::Nothing), "{:?}", Action::ALL[i]);
    }
    assert!(a.status.as_deref().unwrap().contains("no keyboard"));
}

#[test]
fn the_selection_stops_at_both_ends() {
    let mut a = app_ready();
    a.on_key(Key::Up);
    assert_eq!(a.selected, 0);
    for _ in 0..20 {
        a.on_key(Key::Down);
    }
    assert_eq!(a.selected, ACTION_COUNT - 1);
}

#[test]
fn each_menu_entry_starts_the_job_its_label_promises() {
    let cases = [
        (Action::SetTime, "SetTime"),
        (Action::ShowHome, "SwitchPage(Home)"),
        (Action::ShowPicture, "SwitchPage(Picture)"),
        (Action::ShowGif, "SwitchPage(Gif)"),
        (Action::ClearPicture, "ClearPicture"),
    ];
    for (action, expected) in cases {
        let mut a = app_ready();
        a.selected = Action::ALL.iter().position(|x| *x == action).unwrap();
        match a.on_key(Key::Enter) {
            KeyOutcome::Start(job) => assert_eq!(format!("{job:?}"), expected),
            other => panic!("{action:?}: expected a job, got {other:?}"),
        }
    }
    assert_eq!(Action::ShowHome.label(), "Show home page");
}

#[test]
fn the_upload_entries_open_a_browser_rather_than_uploading() {
    for (action, for_gif) in [(Action::UploadPicture, false), (Action::UploadGif, true)] {
        let mut a = app_ready();
        a.selected = Action::ALL.iter().position(|x| *x == action).unwrap();
        match a.on_key(Key::Enter) {
            KeyOutcome::List { target: Listing::Current, for_gif: g } => assert_eq!(g, for_gif),
            other => panic!("expected a listing request, got {other:?}"),
        }
        a.show_listing(for_gif, "/tmp".into(), vec![], None);
        assert!(matches!(a.screen, Screen::Browse { .. }));
    }
}

#[test]
fn choosing_a_file_previews_it_and_uploads_only_on_a_second_key() {
    let mut a = app_ready();
    a.show_listing(
        true,
        "fixtures".into(),
        vec![Entry { name: "anim.gif".into(), path: "fixtures/anim.gif".into(), is_dir: false }],
        None,
    );
    match a.on_key(Key::Enter) {
        KeyOutcome::Start(Job::Preview { path, for_gif: true }) => assert_eq!(path, "fixtures/anim.gif"),
        other => panic!("the first Enter previews: {other:?}"),
    }
    a.on_update(Update::Preview(Ok(gif_pending(10))));
    assert!(matches!(a.screen, Screen::Confirm(_)));
    match a.on_key(Key::Enter) {
        KeyOutcome::Start(Job::UploadGif { plan, rate }) => {
            assert_eq!(plan, "the gif plan");
            assert_eq!(rate, 10);
        }
        other => panic!("now it uploads: {other:?}"),
    }
    assert!(matches!(a.screen, Screen::Menu));
}

#[test]
fn the_rate_can_be_changed_before_uploading() {
    let mut a = app_ready();
    a.screen = Screen::Confirm(Box::new(gif_pending(10)));
    let native = match &a.screen {
        Screen::Confirm(p) => match p.as_ref() {
            Pending::Gif { rate, .. } => *rate,
            _ => unreachable!(),
        },
        _ => unreachable!(),
    };
    a.on_key(Key::Right);
    a.on_key(Key::Right);
    match a.on_key(Key::Enter) {
        KeyOutcome::Start(Job::UploadGif { rate, .. }) => assert_eq!(rate, native + 2),
        other => panic!("got {other:?}"),
    }
}

#[test]
fn the_rate_cannot_leave_the_devices_range() {
    let mut a = app_ready();
    a.screen = Screen::Confirm(Box::new(gif_pending(10)));
    for _ in 0..200 {
        a.on_key(Key::Right);
    }
    match &a.screen {
        Screen::Confirm(p) => match p.as_ref() {
            Pending::Gif { rate_override, .. } => assert_eq!(*rate_override, Some(GIF_FPS_MAX)),
            _ => unreachable!(),
        },
        _ => unreachable!(),
    }
    for _ in 0..200 {
        a.on_key(Key::Left);
    }
    match &a.screen {
        Screen::Confirm(p) => match p.as_ref() {
            Pending::Gif { rate_override, .. } => assert_eq!(*rate_override, Some(GIF_FPS_MIN)),
            _ => unreachable!(),
        },
        _ => unreachable!(),
    }
}

#[test]
fn a_preview_that_fails_says_so_and_stays_in_the_browser() {
    let mut a = app_ready();
    a.show_listing(true, ".".into(), vec![], None);
    a.on_update(Update::Preview(Err("could not use x.png as an animation".into())));
    assert!(matches!(a.screen, Screen::Browse { .. }), "pick another one");
    assert!(a.status.as_deref().unwrap().contains("as an animation"));
}

#[test]
fn discarding_a_preview_sends_nothing() {
    let mut a = app_ready();
    a.screen = Screen::Confirm(Box::new(gif_pending(10)));
    assert!(matches!(a.on_key(Key::Esc), KeyOutcome::Nothing));
    assert!(matches!(a.screen, Screen::Menu));
    assert_eq!(a.status.as_deref(), Some("discarded"));
}

fn running(a: &mut TestApp) {
    a.on_update(Update::Started { label: "Uploading GIF".into(), total: 100, est_secs: Some(45) });
}

/// Whether the running job has been asked to stop.
fn cancelling(a: &TestApp) -> bool {
    match &a.screen {
        Screen::Running(r) => r.cancelling,
        _ => panic!("still running"),
    }
}

#[test]
fn escape_asks_the_worker_to_stop() {
    let mut a = app_ready();
    running(&mut a);
    assert!(!cancelling(&a));
    a.on_key(Key::Esc);
    assert!(cancelling(&a), "the worker is told to stop");
    assert!(!a.should_quit);
    assert!(a.status.as_deref().unwrap().contains("cancelling"));
}

#[test]
fn quitting_during_an_upload_asks_first() {
    let mut a = app_ready();
    running(&mut a);
    a.on_key(Key::Char('q'));
    assert!(a.quit_confirm, "it must ask");
    assert!(!a.should_quit);
    assert!(!cancelling(&a), "and not act yet");
    a.on_key(Key::Char('n'));
    assert!(!a.quit_confirm, "answering no returns to the upload");
    assert!(!a.should_quit);
    assert!(!cancelling(&a));
    a.on_key(Key::Char('q'));
    a.on_key(Key::Char('y'));
    assert!(cancelling(&a), "yes cancels");
    assert!(a.should_quit);
}

#[test]
fn quitting_from_the_menu_does_not_ask() {
    let mut a = app_ready();
    a.on_key(Key::Char('q'));
    assert!(a.should_quit);
    assert!(!a.quit_confirm);
}

#[test]
fn finishing_returns_to_the_menu_and_says_what_happened() {
    let mut a = app_ready();
    running(&mut a);
    a.on_update(Update::Finished(Ok("Uploading GIF: done".into())));
    assert!(matches!(a.screen, Screen::Menu));
    assert!(a.status.as_deref().unwrap().contains("done"));

    running(&mut a);
    a.on_update(Update::Finished(Err("I/O error: broken pipe".into())));
    assert!(matches!(a.screen, Screen::Menu));
    assert!(a.status.as_deref().unwrap().contains("broken pipe"));
}

#[test]
fn a_pending_quit_completes_when_the_job_ends() {
    let mut a = app_ready();
    running(&mut a);
    a.on_key(Key::Char('q'));
    a.on_key(Key::Char('y'));
    assert!(a.should_quit);
    a.on_update(Update::Finished(Err("cancelled".into())));
    assert!(a.should_quit);
    assert!(matches!(a.screen, Screen::Menu));
}

#[test]
fn progress_and_frames_reach_the_bar() {
    let mut a = app_ready();
    running(&mut a);
    a.on_update(Update::Progress { done: 25, total: 100, frame: Some((3, 36)) });
    a.on_update(Update::Progress { done: 26, total: 100, frame: None });
    match &a.screen {
        Screen::Running(r) => {
            assert_eq!(r.percent(), 26);
            assert_eq!(r.frame, Some((3, 36)), "the frame number must not blink out");
        }
        _ => panic!("still running"),
    }
}

#[test]
fn the_estimate_is_the_planners_until_there_is_enough_to_measure() {
    let r = Running { label: "x".into(), done: 10, total: 100, frame: None, est_secs: Some(45), cancelling: false };
    assert_eq!(r.remaining_secs(1_000), Some(45));
    let r = Running { done: 50, ..r };
    // 50 reports in 5 s: 50 more take 5 s.
    assert_eq!(r.remaining_secs(5_000), Some(5));
    assert_eq!(Running { total: 0, ..r.clone() }.percent(), 0);
}

#[test]
fn losing_the_device_mid_session_is_reported_once() {
    let mut a = app_ready();
    a.on_update(Update::Device(DeviceState::NotFound));
    assert!(!a.device.is_ready());
    let logged = a.log.len();
    a.on_update(Update::Device(DeviceState::NotFound));
    assert_eq!(a.log.len(), logged, "no duplicate lines");
}

#[test]
fn the_log_does_not_grow_without_bound() {
    let mut a = app_ready();
    for i in 0..500 {
        a.on_update(Update::Note(format!("line {i}")));
    }
    assert!(a.log.len() <= 200, "got {}", a.log.len());
    assert!(a.log.last().unwrap().contains("499"), "and keeps the newest");
}

#[test]
fn backspace_at_the_root_does_nothing() {
    let mut a = app_ready();
    a.show_listing(false, "/".into(), vec![], None);
    assert!(matches!(a.on_key(Key::Backspace), KeyOutcome::Nothing));
    match &a.screen {
        Screen::Browse { dir, .. } => assert_eq!(dir, "/"),
        _ => panic!("still browsing"),
    }
}

#[test]
fn escape_leaves_the_browser() {
    let mut a = app_ready();
    a.show_listing(false, ".".into(), vec![], None);
    a.on_key(Key::Esc);
    assert!(matches!(a.screen, Screen::Menu));
}

#[test]
fn the_browser_moves_up_and_into_directories() {
    let mut a = app_ready();
    a.show_listing(
        false,
        "/home/u".into(),
        vec![Entry { name: "pics".into(), path: "/home/u/pics".into(), is_dir: true }],
        None,
    );
    match a.on_key(Key::Enter) {
        KeyOutcome::List { target: Listing::Dir(d), for_gif: false } => assert_eq!(d, "/home/u/pics"),
        other => panic!("got {other:?}"),
    }
    match a.on_key(Key::Backspace) {
        KeyOutcome::List { target: Listing::Dir(d), .. } => assert_eq!(d, "/home"),
        other => panic!("got {other:?}"),
    }
    assert!(matches!(a.on_key(Key::Char('~')), KeyOutcome::List { target: Listing::Home, .. }));
    a.home_missing();
    match &a.screen {
        Screen::Browse { error, .. } => assert_eq!(error.as_deref(), Some("no home directory")),
        _ => panic!(),
    }
    a.show_listing(false, "/".into(), vec![], None);
    assert!(matches!(a.on_key(Key::Backspace), KeyOutcome::Nothing), "the root has no parent");
    a.on_key(Key::Esc);
    assert!(matches!(a.screen, Screen::Menu));
}

#[test]
fn the_browser_lists_only_what_the_command_accepts() {
    let e = |name: &str, is_dir: bool| Entry { name: name.into(), path: format!("/d/{name}"), is_dir };
    let raw = vec![
        e("b.GIF", false),
        e(".hidden.gif", false),
        e("zeta", true),
        e("a.png", false),
        e("Alpha", true),
        e("c.jpeg", false),
        e("notes.txt", false),
        e("gif", false),
    ];
    let gifs: Vec<String> = browsable_entries(raw.clone(), true).into_iter().map(|e| e.name).collect();
    assert_eq!(gifs, vec!["Alpha", "zeta", "b.GIF"]);
    let pictures: Vec<String> = browsable_entries(raw, false).into_iter().map(|e| e.name).collect();
    assert_eq!(pictures, vec!["Alpha", "zeta", "a.png", "c.jpeg"]);
}

#[test]
fn a_switch_page_job_names_its_page() {
    let j: Job<(), ()> = Job::SwitchPage(Page::Gif);
    assert_eq!(format!("{j:?}"), "SwitchPage(Gif)");
}

#[test]
fn names_equal_but_for_case_keep_the_order_they_were_read_in() {
    let e = |name: &str| Entry { name: name.into(), path: format!("/d/{name}"), is_dir: false };
    let names = |v: Vec<Entry>| v.into_iter().map(|e| e.name).collect::<Vec<String>>();
    assert_eq!(names(browsable_entries(vec![e("b.png"), e("A.PNG"), e("a.png")], false)), vec!["A.PNG", "a.png", "b.png"]);
    assert_eq!(names(browsable_entries(vec![e("a.png"), e("b.png"), e("A.PNG")], false)), vec!["a.png", "A.PNG", "b.png"]);
}

#[test]
fn the_same_device_spelled_differently_is_not_news() {
    let mut a = app_ready();
    let logged = a.log.len();
    a.on_update(Update::Device(DeviceState::Ready("/dev//hidraw5".into())));
    assert_eq!(a.log.len(), logged, "the same path, respelled");
    a.on_update(Update::Device(DeviceState::Ready("/dev/hidraw6".into())));
    assert_eq!(a.log.len(), logged + 1);
}
