use chronograph::autostart::{
    check_outcome, disable, disable_outcome, enable, enable_outcome, enabled_or_false, is_enabled, launch_settings,
    launcher, AutostartError, APP_NAME,
    MINIMIZED_ARG,
};
use chronograph::db::{db_url, APP_DIR_NAME, DB_FILE_NAME};
use chronograph::instance::{client_arrived, instance_check, InstanceCheck, PIPE_NAME};
use chronograph::tray::{click_shows_window, menu_action, MenuAction, MenuIds, TrayClick, TrayCommand};

#[test]
fn database_url_opens_read_write_create() {
    assert_eq!(db_url("/home/u/.local/share/chronograph/chronograph.db"), "sqlite:///home/u/.local/share/chronograph/chronograph.db?mode=rwc");
    assert_eq!(db_url(""), "sqlite://?mode=rwc");
    assert_eq!(APP_DIR_NAME, "chronograph");
    assert_eq!(DB_FILE_NAME, "chronograph.db");
}

#[test]
fn menu_ids_map_to_actions() {
    let ids = MenuIds { show: "1".to_string(), pause: "2".to_string(), quit: "3".to_string() };
    assert_eq!(menu_action(&ids, &"1".to_string()), Some(MenuAction::ShowWindow));
    assert_eq!(menu_action(&ids, &"2".to_string()), Some(MenuAction::Send(TrayCommand::TogglePause)));
    assert_eq!(menu_action(&ids, &"3".to_string()), Some(MenuAction::Send(TrayCommand::Quit)));
    assert_eq!(menu_action(&ids, &"4".to_string()), None);
    assert!(click_shows_window(TrayClick::DoubleClick));
    assert!(!click_shows_window(TrayClick::Other));
}

#[test]
fn single_instance_decisions() {
    assert_eq!(instance_check(false), InstanceCheck::First);
    assert_eq!(instance_check(true), InstanceCheck::AlreadyRunning);
    assert!(client_arrived(true, false));
    assert!(client_arrived(false, true));
    assert!(!client_arrived(false, false));
    assert_eq!(PIPE_NAME, r"\\.\pipe\ChronographShowWindow");
}

#[test]
fn launch_entry_starts_minimized() {
    let s = launch_settings("/opt/chronograph/chronograph");
    assert_eq!(s.app_name, "Chronograph");
    assert_eq!(s.app_name, APP_NAME);
    assert_eq!(s.app_path, "/opt/chronograph/chronograph");
    assert_eq!(s.args, vec![MINIMIZED_ARG.to_string()]);
    assert_eq!(MINIMIZED_ARG, "--minimized");
}

#[test]
fn unknown_executable_is_an_error() {
    assert!(!is_enabled(None));
    assert_eq!(enable(None), Err(AutostartError::ExecutableUnknown));
    assert_eq!(disable(None), Err(AutostartError::ExecutableUnknown));
    assert!(matches!(launcher(None), Err(AutostartError::ExecutableUnknown)));
}

#[test]
fn launcher_is_built_for_a_known_executable() {
    let al = launcher(Some("/opt/chronograph/chronograph")).expect("supported platform");
    assert_eq!(al.get_app_name(), "Chronograph");
    assert_eq!(al.get_app_path(), "/opt/chronograph/chronograph");
    assert_eq!(al.get_args(), &["--minimized".to_string()]);
}

#[test]
fn a_known_executable_is_never_unknown() {
    assert_ne!(launcher(Some("/opt/chronograph/chronograph")).err(), Some(AutostartError::ExecutableUnknown));
}

#[test]
fn check_outcome_reads_as_an_answer() {
    assert!(enabled_or_false(Ok(true)));
    assert!(!enabled_or_false(Ok(false)));
    assert!(!enabled_or_false(Err(AutostartError::Setup)));
}

#[test]
fn entry_check_outcomes_are_handed_on() {
    assert_eq!(check_outcome(Ok(true)), Ok(true));
    assert_eq!(check_outcome(Ok(false)), Ok(false));
    assert_eq!(check_outcome(Err(auto_launch::Error::UnsupportedOS)), Err(AutostartError::Setup));
    assert!(!enabled_or_false(check_outcome(Ok(false))));
    assert!(enabled_or_false(check_outcome(Ok(true))));
}

#[test]
fn entry_write_and_removal_outcomes_are_handed_on() {
    assert_eq!(enable_outcome(Ok(())), Ok(()));
    assert_eq!(enable_outcome(Err(auto_launch::Error::AppNameNotSpecified)), Err(AutostartError::Enable));
    assert_eq!(disable_outcome(Ok(())), Ok(()));
    assert_eq!(disable_outcome(Err(auto_launch::Error::AppPathNotSpecified)), Err(AutostartError::Disable));
}
