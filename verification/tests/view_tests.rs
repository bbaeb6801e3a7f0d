use chronograph::aggregator::AppEvent;
use chronograph::names::NameSet;
use chronograph::totals::Totals;
use chronograph::tracker::WindowInfo;
use chronograph::tray::TrayCommand;
use chronograph::view::{TrayEffect, ViewState, REFRESH_INTERVAL_MS};

fn s(x: &str) -> String {
    x.to_string()
}

fn win(name: &str, title: &str) -> WindowInfo {
    WindowInfo { process_name: s(name), exe_path: format!("/apps/{name}"), window_title: s(title) }
}

fn state() -> ViewState {
    ViewState::new(Totals::from_rows(vec![(s("a"), 100), (s("b"), 50)]), 1_000)
}

#[test]
fn starts_unpaused_and_empty() {
    let v = state();
    assert!(!v.paused);
    assert!(v.current_window.is_none());
    assert!(v.session_start_ms.is_none());
    assert_eq!(v.last_refresh_ms, 1_000);
    assert!(v.known_processes.is_empty());
    assert!(!v.manage_loaded);
    assert!(!v.history_loaded);
}

#[test]
fn toggle_pause_twice() {
    let mut v = state();
    v.on_active_window(Some(win("a", "A")), 2_000);
    match v.on_tray_command(TrayCommand::TogglePause) {
        TrayEffect::Forward(AppEvent::Pause) => {}
        other => panic!("unexpected {other:?}"),
    }
    assert!(v.paused);
    assert!(v.current_window.is_none());
    assert!(v.session_start_ms.is_none());
    match v.on_tray_command(TrayCommand::TogglePause) {
        TrayEffect::Forward(AppEvent::Resume) => {}
        other => panic!("unexpected {other:?}"),
    }
    assert!(!v.paused);
    assert!(matches!(v.on_tray_command(TrayCommand::Quit), TrayEffect::Exit));
    assert!(!v.paused);
}

#[test]
fn first_window_starts_a_session_without_refresh() {
    let mut v = state();
    assert!(!v.on_active_window(Some(win("a", "A")), 2_000));
    assert_eq!(v.current_window.as_ref().unwrap().process_name, "a");
    assert_eq!(v.session_start_ms, Some(2_000));
}

#[test]
fn process_change_asks_for_refresh_and_learns_the_process() {
    let mut v = state();
    v.load_known_processes(vec![s("a"), s("c")]);
    v.on_active_window(Some(win("a", "A")), 2_000);
    assert!(v.on_active_window(Some(win("b", "B")), 5_000));
    assert_eq!(v.session_start_ms, Some(5_000));
    assert_eq!(v.known_processes, vec![s("a"), s("b"), s("c")]);
    assert!(v.visible_processes.contains(&s("b")));
    // a known process is not added twice
    assert!(v.on_active_window(Some(win("a", "A")), 6_000));
    assert_eq!(v.known_processes, vec![s("a"), s("b"), s("c")]);
}

#[test]
fn title_change_keeps_the_session() {
    let mut v = state();
    v.on_active_window(Some(win("a", "A")), 2_000);
    assert!(!v.on_active_window(Some(win("a", "A2")), 3_000));
    assert_eq!(v.current_window.as_ref().unwrap().window_title, "A2");
    assert_eq!(v.session_start_ms, Some(2_000));
}

#[test]
fn losing_the_window_ends_the_session() {
    let mut v = state();
    v.on_active_window(Some(win("a", "A")), 2_000);
    assert!(v.on_active_window(None, 3_000));
    assert!(v.current_window.is_none());
    assert!(v.session_start_ms.is_none());
    assert!(!v.on_active_window(None, 4_000));
}

#[test]
fn refresh_every_thirty_seconds() {
    let mut v = state();
    assert_eq!(REFRESH_INTERVAL_MS, 30_000);
    assert!(!v.refresh_due(30_999));
    assert!(v.refresh_due(31_000));
    assert!(!v.refresh_due(500));
    v.refreshed(Totals::from_rows(vec![(s("z"), 1)]), 31_000);
    assert_eq!(v.last_refresh_ms, 31_000);
    assert_eq!(v.accumulated.get(&s("z")), Some(1));
    assert_eq!(v.accumulated.get(&s("a")), None);
}

#[test]
fn manager_list_checks_every_process() {
    let mut v = state();
    v.load_known_processes(vec![s("x"), s("y")]);
    assert!(v.manage_loaded);
    assert_eq!(v.known_processes, vec![s("x"), s("y")]);
    assert!(v.visible_processes.contains(&s("x")));
    assert!(v.visible_processes.contains(&s("y")));
    v.set_visible(&s("x"), false);
    assert!(!v.visible_processes.contains(&s("x")));
    v.set_visible(&s("x"), true);
    assert!(v.visible_processes.contains(&s("x")));
}

#[test]
fn display_adds_running_time_and_hides_unchecked() {
    let mut v = state();
    v.on_active_window(Some(win("b", "B")), 10_000);
    assert_eq!(v.running(71_500), Some((s("b"), 61)));
    assert_eq!(v.display_totals(71_500), vec![(s("b"), 111), (s("a"), 100)]);
    v.load_known_processes(vec![s("a"), s("b")]);
    v.set_visible(&s("a"), false);
    assert_eq!(v.display_totals(71_500), vec![(s("b"), 111)]);
    // a clock going backwards counts as no time
    assert_eq!(v.running(5_000), Some((s("b"), 0)));
    let _ = NameSet::new();
}

#[test]
fn uncheck_then_check_gives_back_the_list() {
    let mut v = state();
    v.load_known_processes(vec![s("a"), s("b")]);
    let before = v.display_totals(0);
    v.set_visible(&s("b"), false);
    assert_eq!(v.display_totals(0), vec![(s("a"), 100)]);
    v.set_visible(&s("b"), true);
    assert_eq!(v.display_totals(0), before);
}
