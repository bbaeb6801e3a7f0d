//! Chronograph: records how long each application window has the focus,
//! pauses while the user is idle or has paused tracking, and shows today's
//! usage and a daily / monthly history.
//!
//! The modules hold the decisions and computations, each with its contract;
//! the program around them (window hooks, the database, the tray, the GUI)
//! performs what they decide.
use vstd::prelude::*;

pub mod aggregator;
pub mod autostart;
pub mod db;
pub mod duration;
pub mod history;
pub mod icon;
pub mod idle;
pub mod instance;
pub mod names;
pub mod totals;
pub mod tracker;
pub mod tray;
pub mod view;

verus! {

} // verus!
