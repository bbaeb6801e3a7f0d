use chronograph::aggregator::{
    close_target, recovery_ids, session_row, ActiveUpdate, Aggregator, AppEvent, HEARTBEAT_INTERVAL_SECS,
};
use chronograph::idle::IdleEvent;
use chronograph::tracker::{TrackerEvent, WindowInfo};

fn win(name: &str, title: &str) -> WindowInfo {
    WindowInfo {
        process_name: name.to_string(),
        exe_path: format!("C:/Apps/{name}"),
        window_title: title.to_string(),
    }
}

fn focus(w: &WindowInfo) -> AppEvent {
    AppEvent::Tracker(TrackerEvent::FocusChanged(w.clone()))
}

/// Runs one event the way the event loop does: plan, pretend the insert
/// gave `row` back, apply.
fn step(a: &mut Aggregator, ev: AppEvent, row: Option<i64>) -> (Option<i64>, Option<WindowInfo>, ActiveUpdate) {
    let p = a.plan(&ev);
    let opened = if p.open.is_some() { row } else { None };
    a.apply(ev, opened);
    (p.close, p.open, p.publish)
}

fn shown(u: &ActiveUpdate) -> Option<&str> {
    match u {
        ActiveUpdate::Show(w) => Some(w.process_name.as_str()),
        _ => None,
    }
}

#[test]
fn new_aggregator_tracks_nothing() {
    let a = Aggregator::new();
    assert!(a.focused.is_none());
    assert!(!a.user_idle);
    assert!(!a.paused);
    assert_eq!(a.row, 0);
    assert_eq!(a.heartbeat_target(), None);
    assert_eq!(a.shutdown_target(), None);
    assert_eq!(HEARTBEAT_INTERVAL_SECS, 30);
}

#[test]
fn first_focus_opens_a_session() {
    let mut a = Aggregator::new();
    let w = win("code.exe", "main.rs");
    let (close, open, publish) = step(&mut a, focus(&w), Some(7));
    assert_eq!(close, None);
    assert_eq!(open.unwrap().process_name, "code.exe");
    assert_eq!(shown(&publish), Some("code.exe"));
    assert_eq!(a.row, 7);
    assert_eq!(a.focused.as_ref().unwrap().process_name, "code.exe");
    assert_eq!(a.heartbeat_target(), Some(7));
    assert_eq!(a.shutdown_target(), Some(7));
}

#[test]
fn focus_change_closes_previous_before_opening() {
    let mut a = Aggregator::new();
    step(&mut a, focus(&win("a.exe", "A")), Some(1));
    let (close, open, _) = step(&mut a, focus(&win("b.exe", "B")), Some(2));
    assert_eq!(close, Some(1));
    assert_eq!(open.unwrap().process_name, "b.exe");
    assert_eq!(a.row, 2);
}

#[test]
fn failed_insert_leaves_no_row() {
    let mut a = Aggregator::new();
    let (_, _, publish) = step(&mut a, focus(&win("a.exe", "A")), None);
    assert_eq!(shown(&publish), Some("a.exe"));
    assert_eq!(a.row, 0);
    assert_eq!(a.heartbeat_target(), None);
    assert!(a.focused.is_none());
}

#[test]
fn idle_and_active_after_a_failed_focus_insert_do_nothing() {
    let mut a = Aggregator::new();
    step(&mut a, focus(&win("a.exe", "A")), None);
    let (close, open, publish) = step(&mut a, AppEvent::Idle(IdleEvent::Idle), Some(7));
    assert_eq!(close, None);
    assert!(open.is_none());
    assert!(matches!(publish, ActiveUpdate::Keep));
    let (close, open, publish) = step(&mut a, AppEvent::Idle(IdleEvent::Active), Some(8));
    assert_eq!(close, None);
    assert!(open.is_none());
    assert!(matches!(publish, ActiveUpdate::Keep));
    assert_eq!(a.row, 0);
    let (_, open, _) = step(&mut a, focus(&win("b.exe", "B")), Some(9));
    assert_eq!(open.unwrap().process_name, "b.exe");
    assert_eq!(a.row, 9);
}

#[test]
fn at_most_one_row_is_open_along_a_run() {
    let mut a = Aggregator::new();
    let mut open_rows: Vec<i64> = Vec::new();
    let mut last_shown: Option<String> = None;
    let mut next_id: i64 = 1;
    let events = vec![
        focus(&win("a.exe", "A")),
        focus(&win("b.exe", "B")),
        AppEvent::Idle(IdleEvent::Idle),
        focus(&win("c.exe", "C")),
        AppEvent::Idle(IdleEvent::Active),
        AppEvent::Pause,
        focus(&win("d.exe", "D")),
        AppEvent::Resume,
        AppEvent::Idle(IdleEvent::Active),
    ];
    for ev in events {
        let p = a.plan(&ev);
        if let Some(id) = p.close {
            open_rows.retain(|r| *r != id);
        }
        let opened = if p.open.is_some() {
            open_rows.push(next_id);
            next_id += 1;
            Some(next_id - 1)
        } else {
            None
        };
        match &p.publish {
            ActiveUpdate::Keep => {}
            ActiveUpdate::Clear => last_shown = None,
            ActiveUpdate::Show(w) => last_shown = Some(w.process_name.clone()),
        }
        a.apply(ev, opened);
        assert!(open_rows.len() <= 1);
        if a.row != 0 {
            assert_eq!(open_rows, vec![a.row]);
            assert_eq!(last_shown.as_deref(), Some(a.focused.as_ref().unwrap().process_name.as_str()));
        } else {
            assert!(open_rows.is_empty());
            assert!(last_shown.is_none());
        }
    }
    assert_eq!(a.row, 4);
    assert_eq!(a.focused.as_ref().unwrap().process_name, "d.exe");
}

#[test]
fn going_idle_closes_the_row_and_clears_the_window() {
    let mut a = Aggregator::new();
    step(&mut a, focus(&win("a.exe", "A")), Some(3));
    let (close, open, publish) = step(&mut a, AppEvent::Idle(IdleEvent::Idle), Some(99));
    assert_eq!(close, Some(3));
    assert!(open.is_none());
    assert!(matches!(publish, ActiveUpdate::Clear));
    assert!(a.user_idle);
    assert_eq!(a.row, 0);
    assert_eq!(a.shutdown_target(), None);
    assert_eq!(a.heartbeat_target(), None);
}

#[test]
fn coming_back_reopens_the_same_window() {
    let mut a = Aggregator::new();
    step(&mut a, focus(&win("a.exe", "A")), Some(3));
    step(&mut a, AppEvent::Idle(IdleEvent::Idle), None);
    let (close, open, publish) = step(&mut a, AppEvent::Idle(IdleEvent::Active), Some(4));
    assert_eq!(close, None);
    assert_eq!(open.unwrap().process_name, "a.exe");
    assert_eq!(shown(&publish), Some("a.exe"));
    assert_eq!(a.row, 4);
    assert!(!a.user_idle);
}

#[test]
fn idle_then_focus_change_then_activity_records_the_new_window() {
    let mut a = Aggregator::new();
    step(&mut a, focus(&win("a.exe", "A")), Some(3));
    step(&mut a, AppEvent::Idle(IdleEvent::Idle), None);
    let (close, open, publish) = step(&mut a, focus(&win("b.exe", "B")), Some(5));
    assert_eq!(close, None);
    assert!(open.is_none());
    assert!(matches!(publish, ActiveUpdate::Clear));
    assert_eq!(a.row, 0);
    let (close, open, publish) = step(&mut a, AppEvent::Idle(IdleEvent::Active), Some(6));
    assert_eq!(close, None);
    assert_eq!(open.unwrap().process_name, "b.exe");
    assert_eq!(shown(&publish), Some("b.exe"));
    assert_eq!(a.row, 6);
}

#[test]
fn coming_back_with_a_failed_insert_keeps_row_zero() {
    let mut a = Aggregator::new();
    step(&mut a, focus(&win("a.exe", "A")), Some(3));
    step(&mut a, AppEvent::Idle(IdleEvent::Idle), None);
    step(&mut a, AppEvent::Idle(IdleEvent::Active), None);
    assert_eq!(a.row, 0);
    assert!(!a.user_idle);
}

#[test]
fn repeated_idle_report_is_ignored() {
    let mut a = Aggregator::new();
    step(&mut a, focus(&win("a.exe", "A")), Some(3));
    let (close, open, publish) = step(&mut a, AppEvent::Idle(IdleEvent::Active), Some(9));
    assert_eq!(close, None);
    assert!(open.is_none());
    assert!(matches!(publish, ActiveUpdate::Keep));
    assert_eq!(a.row, 3);
}

#[test]
fn idle_report_without_a_window_is_remembered() {
    let mut a = Aggregator::new();
    let (close, open, publish) = step(&mut a, AppEvent::Idle(IdleEvent::Idle), None);
    assert_eq!(close, None);
    assert!(open.is_none());
    assert!(matches!(publish, ActiveUpdate::Keep));
    assert!(a.user_idle);
    // a focus change while idle opens nothing
    let (_, open, publish) = step(&mut a, focus(&win("a.exe", "A")), Some(2));
    assert!(open.is_none());
    assert!(matches!(publish, ActiveUpdate::Clear));
    let (_, open, _) = step(&mut a, AppEvent::Idle(IdleEvent::Active), Some(2));
    assert_eq!(open.unwrap().process_name, "a.exe");
    assert_eq!(a.row, 2);
}

#[test]
fn pause_closes_and_resume_picks_up_the_focused_window() {
    let mut a = Aggregator::new();
    step(&mut a, focus(&win("a.exe", "A")), Some(3));
    let (close, open, publish) = step(&mut a, AppEvent::Pause, None);
    assert_eq!(close, Some(3));
    assert!(open.is_none());
    assert!(matches!(publish, ActiveUpdate::Clear));
    assert!(a.paused);
    assert_eq!(a.row, 0);

    // a second pause changes nothing
    let (close, _, publish) = step(&mut a, AppEvent::Pause, None);
    assert_eq!(close, None);
    assert!(matches!(publish, ActiveUpdate::Keep));

    let (close, open, publish) = step(&mut a, AppEvent::Resume, Some(4));
    assert_eq!(close, None);
    assert_eq!(open.unwrap().process_name, "a.exe");
    assert_eq!(shown(&publish), Some("a.exe"));
    assert!(!a.paused);
    assert_eq!(a.row, 4);
}

#[test]
fn activity_while_paused_is_remembered_but_not_recorded() {
    let mut a = Aggregator::new();
    step(&mut a, focus(&win("a.exe", "A")), Some(3));
    step(&mut a, AppEvent::Pause, None);
    let (close, open, publish) = step(&mut a, focus(&win("b.exe", "B")), Some(5));
    assert_eq!(close, None);
    assert!(open.is_none());
    assert!(matches!(publish, ActiveUpdate::Keep));
    assert_eq!(a.row, 0);
    let (_, open, _) = step(&mut a, AppEvent::Resume, Some(6));
    assert_eq!(open.unwrap().process_name, "b.exe");
    assert_eq!(a.row, 6);
}

#[test]
fn resume_while_idle_opens_nothing() {
    let mut a = Aggregator::new();
    step(&mut a, focus(&win("a.exe", "A")), Some(3));
    step(&mut a, AppEvent::Pause, None);
    step(&mut a, AppEvent::Idle(IdleEvent::Idle), None);
    let (_, open, publish) = step(&mut a, AppEvent::Resume, Some(4));
    assert!(open.is_none());
    assert!(matches!(publish, ActiveUpdate::Keep));
    assert_eq!(a.row, 0);
    assert!(!a.paused);
}

#[test]
fn resume_without_pause_changes_nothing() {
    let mut a = Aggregator::new();
    step(&mut a, focus(&win("a.exe", "A")), Some(3));
    let (close, open, publish) = step(&mut a, AppEvent::Resume, None);
    assert_eq!(close, None);
    assert!(open.is_none());
    assert!(matches!(publish, ActiveUpdate::Keep));
    assert_eq!(a.row, 3);
}

#[test]
fn close_target_skips_row_zero() {
    assert_eq!(close_target(0), None);
    assert_eq!(close_target(12), Some(12));
    assert_eq!(close_target(-4), Some(-4));
}

#[test]
fn session_row_holds_the_window_and_time() {
    let w = win("a.exe", "Title");
    let r = session_row(&w, 1_700_000_000_123);
    assert_eq!(r.start_ts, 1_700_000_000_123);
    assert_eq!(r.last_heartbeat_ts, 1_700_000_000_123);
    assert_eq!(r.process_name, "a.exe");
    assert_eq!(r.exe_path, "C:/Apps/a.exe");
    assert_eq!(r.window_title, "Title");
    assert_eq!(r.is_idle, 0);
}

#[test]
fn recovery_closes_every_open_row_in_order() {
    let rows = vec![(4, 100), (9, 250), (2, 300)];
    assert_eq!(recovery_ids(&rows), vec![4, 9, 2]);
    assert!(recovery_ids(&Vec::new()).is_empty());
}
