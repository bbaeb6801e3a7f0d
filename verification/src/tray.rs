//! What the tray menu and the tray icon ask for.
use vstd::prelude::*;

verus! {

/// A command from the tray menu to the window.
#[derive(Debug, Clone, Copy, PartialEq, Eq, Structural)]
pub enum TrayCommand {
    TogglePause,
    Quit,
}

/// What a click in the tray menu does.
#[derive(Debug, Clone, Copy, PartialEq, Eq, Structural)]
pub enum MenuAction {
    /// Bring the window back.
    ShowWindow,
    /// Hand a command to the window.
    Send(TrayCommand),
}

/// The menu items by their ids: "open", "pause" and "quit".
pub struct MenuIds {
    pub show: String,
    pub pause: String,
    pub quit: String,
}

/// The action for a click on the item with id `clicked`, the ids being tried
/// in the order open, pause, quit.
pub open spec fn spec_menu_action(show: Seq<char>, pause: Seq<char>, quit: Seq<char>, clicked: Seq<char>) -> Option<
    MenuAction,
> {
    if clicked == show {
        Some(MenuAction::ShowWindow)
    } else if clicked == pause {
        Some(MenuAction::Send(TrayCommand::TogglePause))
    } else if clicked == quit {
        Some(MenuAction::Send(TrayCommand::Quit))
    } else {
        None
    }
}

/// The action for a click on the menu item `clicked`; none for an unknown id.
pub fn menu_action(ids: &MenuIds, clicked: &String) -> (r: Option<MenuAction>)
    ensures
        r == spec_menu_action(ids.show@, ids.pause@, ids.quit@, clicked@),
{
    if *clicked == ids.show {
        Some(MenuAction::ShowWindow)
    } else if *clicked == ids.pause {
        Some(MenuAction::Send(TrayCommand::TogglePause))
    } else if *clicked == ids.quit {
        Some(MenuAction::Send(TrayCommand::Quit))
    } else {
        None
    }
}

/// With three different menu ids, "open" shows the window, "pause" sends
/// exactly the pause toggle, "quit" sends exactly quit, and any other id does
/// nothing.
pub proof fn lemma_menu_items(show: Seq<char>, pause: Seq<char>, quit: Seq<char>, other: Seq<char>)
    requires
        show != pause,
        show != quit,
        pause != quit,
    ensures
        spec_menu_action(show, pause, quit, show) == Some(MenuAction::ShowWindow),
        spec_menu_action(show, pause, quit, pause) == Some(MenuAction::Send(TrayCommand::TogglePause)),
        spec_menu_action(show, pause, quit, quit) == Some(MenuAction::Send(TrayCommand::Quit)),
        other != show && other != pause && other != quit ==> spec_menu_action(show, pause, quit, other) is None,
{
}

/// The tray icon events the app tells apart.
#[derive(Debug, Clone, Copy, PartialEq, Eq, Structural)]
pub enum TrayClick {
    DoubleClick,
    Other,
}

/// A double click on the tray icon brings the window back; nothing else does.
pub fn click_shows_window(click: TrayClick) -> (r: bool)
    ensures
        r == (click == TrayClick::DoubleClick),
{
    match click {
        TrayClick::DoubleClick => true,
        TrayClick::Other => false,
    }
}

} // verus!
