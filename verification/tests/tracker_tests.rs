use chronograph::tracker::{
    hook_event_relevant, window_info, window_info_with_fallback, FocusFilter, HookObject, TrackerEvent,
    WindowInfo, POLL_INTERVAL_MS,
};

fn win(name: &str, path: &str, title: &str) -> WindowInfo {
    WindowInfo { process_name: name.to_string(), exe_path: path.to_string(), window_title: title.to_string() }
}

#[test]
fn equality_ignores_the_executable_path() {
    assert_eq!(win("a.exe", "C:/x/a.exe", "T"), win("a.exe", "D:/y/a.exe", "T"));
    assert_ne!(win("a.exe", "C:/x/a.exe", "T"), win("a.exe", "C:/x/a.exe", "U"));
    assert_ne!(win("a.exe", "C:/x/a.exe", "T"), win("b.exe", "C:/x/a.exe", "T"));
}

#[test]
fn duplicate_copies_every_field() {
    let w = win("a.exe", "C:/x/a.exe", "T");
    let d = w.duplicate();
    assert_eq!(d.process_name, w.process_name);
    assert_eq!(d.exe_path, w.exe_path);
    assert_eq!(d.window_title, w.window_title);
}

#[test]
fn process_name_is_kept_when_present() {
    let w = window_info("Code".to_string(), "/opt/code/bin/code".to_string(), "main.rs".to_string()).unwrap();
    assert_eq!(w.process_name, "Code");
    assert_eq!(w.exe_path, "/opt/code/bin/code");
    assert_eq!(w.window_title, "main.rs");
}

#[test]
fn empty_name_falls_back_to_the_file_name() {
    let w = window_info(String::new(), "/opt/app/bin/electron-app".to_string(), "Home".to_string()).unwrap();
    assert_eq!(w.process_name, "electron-app");
    assert_eq!(w.exe_path, "/opt/app/bin/electron-app");
    assert_eq!(w.window_title, "Home");
}

#[test]
fn bare_file_name_is_its_own_fallback() {
    let w = window_info(String::new(), "notepad.exe".to_string(), "T".to_string()).unwrap();
    assert_eq!(w.process_name, "notepad.exe");
    assert_eq!(w.exe_path, "notepad.exe");
}

#[test]
fn nothing_to_report_without_a_name() {
    assert!(window_info(String::new(), String::new(), "T".to_string()).is_none());
    assert!(window_info(String::new(), "/".to_string(), "T".to_string()).is_none());
    assert!(window_info(String::new(), "/opt/..".to_string(), "T".to_string()).is_none());
}

#[test]
fn fallback_rules() {
    let w = window_info_with_fallback("n".into(), Some("f".into()), "p".into(), "t".into()).unwrap();
    assert_eq!(w.process_name, "n");
    let w = window_info_with_fallback("n".into(), None, "p".into(), "t".into()).unwrap();
    assert_eq!(w.process_name, "n");
    let w = window_info_with_fallback("".into(), Some("f".into()), "p".into(), "t".into()).unwrap();
    assert_eq!(w.process_name, "f");
    assert_eq!(w.exe_path, "p");
    assert_eq!(w.window_title, "t");
    assert!(window_info_with_fallback("".into(), Some("".into()), "p".into(), "t".into()).is_none());
    assert!(window_info_with_fallback("".into(), None, "p".into(), "t".into()).is_none());
}

#[test]
fn only_window_objects_trigger_a_check() {
    assert!(hook_event_relevant(HookObject::Window));
    assert!(!hook_event_relevant(HookObject::Other));
    assert_eq!(POLL_INTERVAL_MS, 1000);
}

#[test]
fn filter_sends_each_change_once() {
    let mut f = FocusFilter::new();
    assert!(f.last_sent.is_none());
    assert!(f.observe(None).is_none());
    let e = f.observe(Some(win("a.exe", "p", "A"))).unwrap();
    let TrackerEvent::FocusChanged(w) = e;
    assert_eq!(w.process_name, "a.exe");
    // same window again (even from another path): nothing
    assert!(f.observe(Some(win("a.exe", "q", "A"))).is_none());
    // a new title is news
    assert!(f.observe(Some(win("a.exe", "p", "A2"))).is_some());
    assert!(f.observe(None).is_none());
    assert_eq!(f.last_sent.as_ref().unwrap().window_title, "A2");
    assert!(f.observe(Some(win("b.exe", "p", "A2"))).is_some());
}

#[test]
fn consecutive_sent_windows_differ() {
    let mut f = FocusFilter::new();
    let inputs = ["a", "a", "b", "b", "a", "c", "c", "c", "a"];
    let mut sent: Vec<String> = Vec::new();
    for n in inputs {
        if let Some(TrackerEvent::FocusChanged(w)) = f.observe(Some(win(n, "p", "T"))) {
            sent.push(w.process_name);
        }
    }
    assert_eq!(sent, vec!["a", "b", "a", "c", "a"]);
}
