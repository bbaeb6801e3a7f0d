//! The window's state between frames: pause state, today's totals, the window
//! being watched, and the app manager's lists.
use vstd::prelude::*;

use crate::aggregator::AppEvent;
use crate::names::{lemma_sorted_with_new_name, list_contains, sort_names, sorted_names, strictly_sorted_names, texts, NameSet};
use crate::totals::{running_fits, running_view, rows_map, shown_map, sorted_by_secs_desc, names_distinct, Totals};
use crate::tracker::WindowInfo;
use crate::tray::TrayCommand;

verus! {

/// Totals are read from the database again after this many milliseconds.
pub const REFRESH_INTERVAL_MS: u64 = 30_000;

/// What a tray command asks of the window.
#[derive(Debug)]
pub enum TrayEffect {
    /// Hand this event to the aggregator.
    Forward(AppEvent),
    /// End the program.
    Exit,
}

/// The window's state.
#[derive(Debug)]
pub struct ViewState {
    pub paused: bool,
    /// Today's seconds per process, as last read from the database.
    pub accumulated: Totals,
    /// The window being watched and when (in milliseconds of a monotonic
    /// clock) its session started.
    pub current_window: Option<WindowInfo>,
    pub session_start_ms: Option<u64>,
    /// When the totals were last read.
    pub last_refresh_ms: u64,
    /// Every process the app manager lists, and those whose box is checked.
    pub known_processes: Vec<String>,
    pub visible_processes: NameSet,
    pub manage_loaded: bool,
    pub history_loaded: bool,
}

/// The process name of a watched window.
pub open spec fn process_of(w: Option<WindowInfo>) -> Option<Seq<char>> {
    match w {
        Some(w) => Some(w.process_name@),
        None => None,
    }
}

/// The running session as a process name and whole seconds elapsed, if a
/// window is watched.
pub open spec fn running_of(s: ViewState, now_ms: u64) -> Option<(String, i64)> {
    match (s.current_window, s.session_start_ms) {
        (Some(w), Some(start)) => Some(
            (w.process_name, (if now_ms >= start { (now_ms - start) / 1000 } else { 0 }) as i64),
        ),
        _ => None,
    }
}

/// The running session counts whole seconds from the start of the session:
/// with a window watched since `start`, it is that window's process with
/// `(now_ms - start) / 1000` seconds; nothing runs while no window is
/// watched.
pub proof fn lemma_running_counts_from_start(s: ViewState, now_ms: u64)
    ensures
        match (s.current_window, s.session_start_ms) {
            (Some(w), Some(start)) => running_of(s, now_ms) matches Some((n, secs)) && n == w.process_name
                && (now_ms >= start ==> secs as int == (now_ms - start) / 1000)
                && (now_ms < start ==> secs == 0),
            _ => running_of(s, now_ms) is None,
        },
{
    if let (Some(w), Some(start)) = (s.current_window, s.session_start_ms) {
        if now_ms >= start {
            assert((now_ms - start) / 1000 <= u64::MAX / 1000);
        }
    }
}

/// The running session does not depend on when or what the totals were last
/// read: two states watching the same window since the same start agree on
/// it, so a refresh of the totals leaves it as it was.
pub proof fn lemma_running_ignores_refresh(s: ViewState, t: ViewState, now_ms: u64)
    requires
        s.current_window == t.current_window,
        s.session_start_ms == t.session_start_ms,
    ensures
        running_of(s, now_ms) == running_of(t, now_ms),
{
}

/// The names on `procs` that `known` does not hold.
pub open spec fn new_names(procs: Seq<String>, known: Seq<String>) -> Set<Seq<char>> {
    Set::new(|t: Seq<char>| texts(procs).contains(t) && !texts(known).contains(t))
}

impl ViewState {
    /// The state when the window opens: not paused, nothing watched, lists
    /// not loaded yet.
    pub fn new(accumulated: Totals, now_ms: u64) -> (r: ViewState)
        ensures
            !r.paused,
            r.accumulated == accumulated,
            r.current_window is None,
            r.session_start_ms is None,
            r.last_refresh_ms == now_ms,
            r.known_processes@.len() == 0,
            r.visible_processes.view() == Set::<Seq<char>>::empty(),
            !r.manage_loaded,
            !r.history_loaded,
    {
        ViewState {
            paused: false,
            accumulated,
            current_window: None,
            session_start_ms: None,
            last_refresh_ms: now_ms,
            known_processes: Vec::new(),
            visible_processes: NameSet::new(),
            manage_loaded: false,
            history_loaded: false,
        }
    }

    /// A command from the tray: pausing toggles and stops watching the
    /// window; quitting ends the program.
    pub fn on_tray_command(&mut self, cmd: TrayCommand) -> (r: TrayEffect)
        ensures
            match cmd {
                TrayCommand::TogglePause => {
                    &&& final(self).paused == !old(self).paused
                    &&& r matches TrayEffect::Forward(ev) && (if final(self).paused {
                        ev is Pause
                    } else {
                        ev is Resume
                    })
                    &&& final(self).current_window == (if final(self).paused {
                        None
                    } else {
                        old(self).current_window
                    })
                    &&& final(self).session_start_ms == (if final(self).paused {
                        None
                    } else {
                        old(self).session_start_ms
                    })
                },
                TrayCommand::Quit => {
                    &&& r is Exit
                    &&& final(self).paused == old(self).paused
                    &&& final(self).current_window == old(self).current_window
                    &&& final(self).session_start_ms == old(self).session_start_ms
                },
            },
            final(self).accumulated == old(self).accumulated,
            final(self).last_refresh_ms == old(self).last_refresh_ms,
            final(self).known_processes == old(self).known_processes,
            final(self).visible_processes == old(self).visible_processes,
            final(self).manage_loaded == old(self).manage_loaded,
            final(self).history_loaded == old(self).history_loaded,
    {
        match cmd {
            TrayCommand::TogglePause => {
                self.paused = !self.paused;
                if self.paused {
                    self.current_window = None;
                    self.session_start_ms = None;
                    TrayEffect::Forward(AppEvent::Pause)
                } else {
                    TrayEffect::Forward(AppEvent::Resume)
                }
            },
            TrayCommand::Quit => TrayEffect::Exit,
        }
    }

    /// The aggregator published a new active window at `now_ms`. When the
    /// process changes a new session starts, and, if one was being watched,
    /// the result is `true`: today's totals must be read again, and a process
    /// the app manager did not know joins its list (sorted) checked. When
    /// only the title changes, the window is updated and its session goes on.
    pub fn on_active_window(&mut self, new_win: Option<WindowInfo>, now_ms: u64) -> (r: bool)
        ensures
            ({
                let changed = process_of(new_win) != process_of(old(self).current_window);
                &&& r == (changed && old(self).current_window is Some)
                &&& changed ==> final(self).current_window == new_win && final(self).session_start_ms == (
                if new_win is Some {
                    Some(now_ms)
                } else {
                    None
                })
                &&& !changed ==> final(self).session_start_ms == old(self).session_start_ms
                &&& !changed ==> final(self).current_window == (match (new_win, old(self).current_window) {
                    (Some(n), Some(c)) => if n.window_title@ != c.window_title@ {
                        new_win
                    } else {
                        old(self).current_window
                    },
                    _ => old(self).current_window,
                })
                &&& if r && new_win is Some && !texts(old(self).known_processes@).contains(
                    new_win->0.process_name@,
                ) {
                    &&& sorted_names(final(self).known_processes@)
                    &&& final(self).known_processes@.to_multiset() == old(
                        self,
                    ).known_processes@.push(new_win->0.process_name).to_multiset()
                    &&& final(self).visible_processes.view() == old(
                        self,
                    ).visible_processes.view().insert(new_win->0.process_name@)
                } else {
                    &&& final(self).known_processes == old(self).known_processes
                    &&& final(self).visible_processes.view() == old(self).visible_processes.view()
                }
            }),
            strictly_sorted_names(old(self).known_processes@) ==> strictly_sorted_names(
                final(self).known_processes@,
            ),
            final(self).paused == old(self).paused,
            final(self).accumulated == old(self).accumulated,
            final(self).last_refresh_ms == old(self).last_refresh_ms,
            final(self).manage_loaded == old(self).manage_loaded,
            final(self).history_loaded == old(self).history_loaded,
    {
        let changed = match (&new_win, &self.current_window) {
            (Some(n), Some(c)) => !(n.process_name == c.process_name),
            (None, None) => false,
            _ => true,
        };
        if changed {
            let refresh = self.current_window.is_some();
            if refresh {
                match &new_win {
                    Some(w) => {
                        if !list_contains(&self.known_processes, &w.process_name) {
                            let ghost before = self.known_processes@;
                            self.known_processes.push(w.process_name.clone());
                            sort_names(&mut self.known_processes);
                            proof {
                                if strictly_sorted_names(before) {
                                    lemma_sorted_with_new_name(before, w.process_name, self.known_processes@);
                                }
                            }
                            self.visible_processes.insert(w.process_name.clone());
                        }
                    },
                    None => {},
                }
            }
            self.session_start_ms = match &new_win {
                Some(_) => Some(now_ms),
                None => None,
            };
            self.current_window = new_win;
            refresh
        } else {
            match (new_win, &self.current_window) {
                (Some(n), Some(c)) => {
                    if !(n.window_title == c.window_title) {
                        self.current_window = Some(n);
                    }
                },
                _ => {},
            }
            false
        }
    }

    /// Whether today's totals are due to be read again.
    pub fn refresh_due(&self, now_ms: u64) -> (r: bool)
        ensures
            r == (now_ms >= self.last_refresh_ms && now_ms - self.last_refresh_ms >= REFRESH_INTERVAL_MS),
    {
        now_ms >= self.last_refresh_ms && now_ms - self.last_refresh_ms >= REFRESH_INTERVAL_MS
    }

    /// Today's totals were read at `now_ms`.
    pub fn refreshed(&mut self, totals: Totals, now_ms: u64)
        ensures
            final(self).accumulated == totals,
            final(self).last_refresh_ms == now_ms,
            final(self).paused == old(self).paused,
            final(self).current_window == old(self).current_window,
            final(self).session_start_ms == old(self).session_start_ms,
            final(self).known_processes == old(self).known_processes,
            final(self).visible_processes == old(self).visible_processes,
            final(self).manage_loaded == old(self).manage_loaded,
            final(self).history_loaded == old(self).history_loaded,
    {
        self.accumulated = totals;
        self.last_refresh_ms = now_ms;
    }

    /// The app manager's list was read from the database: it becomes the
    /// list, and the processes that were not on it before are checked; a
    /// process the user unchecked stays unchecked.
    pub fn load_known_processes(&mut self, procs: Vec<String>)
        ensures
            final(self).known_processes == procs,
            final(self).visible_processes.view() == old(self).visible_processes.view().union(
                new_names(procs@, old(self).known_processes@),
            ),
            final(self).manage_loaded,
            final(self).paused == old(self).paused,
            final(self).accumulated == old(self).accumulated,
            final(self).current_window == old(self).current_window,
            final(self).session_start_ms == old(self).session_start_ms,
            final(self).last_refresh_ms == old(self).last_refresh_ms,
            final(self).history_loaded == old(self).history_loaded,
    {
        let mut i: usize = 0;
        while i < procs.len()
            invariant
                i <= procs.len(),
                self.known_processes == old(self).known_processes,
                self.visible_processes.view() == old(self).visible_processes.view().union(
                    new_names(procs@.subrange(0, i as int), old(self).known_processes@),
                ),
                self.paused == old(self).paused,
                self.accumulated == old(self).accumulated,
                self.current_window == old(self).current_window,
                self.session_start_ms == old(self).session_start_ms,
                self.last_refresh_ms == old(self).last_refresh_ms,
                self.history_loaded == old(self).history_loaded,
            decreases procs.len() - i,
        {
            let fresh = !list_contains(&self.known_processes, &procs[i]);
            if fresh {
                self.visible_processes.insert(procs[i].clone());
            }
            proof {
                let known = old(self).known_processes@;
                let t = procs@[i as int]@;
                let a = texts(procs@.subrange(0, i as int));
                let b = texts(procs@.subrange(0, i + 1));
                assert(b =~= a.push(t));
                assert forall|x: Seq<char>| b.contains(x) <==> a.contains(x) || x == t by {
                    if b.contains(x) {
                        let j = choose|j: int| 0 <= j < b.len() && b[j] == x;
                        if j < a.len() {
                            assert(a[j] == x);
                        }
                    }
                    if a.contains(x) {
                        let j = choose|j: int| 0 <= j < a.len() && a[j] == x;
                        assert(b[j] == x);
                    }
                    if x == t {
                        assert(b[i as int] == x);
                    }
                }
                let na = new_names(procs@.subrange(0, i as int), known);
                let nb = new_names(procs@.subrange(0, i + 1), known);
                if fresh {
                    assert(nb =~= na.insert(t));
                } else {
                    assert(nb =~= na);
                }
                assert(self.visible_processes.view() =~= old(self).visible_processes.view().union(nb));
            }
            i = i + 1;
        }
        assert(procs@.subrange(0, procs.len() as int) =~= procs@);
        self.known_processes = procs;
        self.manage_loaded = true;
    }

    /// A box in the app manager was checked (`visible`) or unchecked.
    pub fn set_visible(&mut self, name: &String, visible: bool)
        ensures
            final(self).visible_processes.view() == (if visible {
                old(self).visible_processes.view().insert(name@)
            } else {
                old(self).visible_processes.view().remove(name@)
            }),
            final(self).known_processes == old(self).known_processes,
            final(self).paused == old(self).paused,
            final(self).accumulated == old(self).accumulated,
            final(self).current_window == old(self).current_window,
            final(self).session_start_ms == old(self).session_start_ms,
            final(self).last_refresh_ms == old(self).last_refresh_ms,
            final(self).manage_loaded == old(self).manage_loaded,
            final(self).history_loaded == old(self).history_loaded,
    {
        if visible {
            self.visible_processes.insert(name.clone());
        } else {
            self.visible_processes.remove(name);
        }
    }

    /// The running session: the watched window's process and the whole
    /// seconds since its session started.
    pub fn running(&self, now_ms: u64) -> (r: Option<(String, i64)>)
        ensures
            r == running_of(*self, now_ms),
    {
        match (&self.current_window, &self.session_start_ms) {
            (Some(w), Some(start)) => {
                let elapsed: u64 = if now_ms >= *start { (now_ms - *start) / 1000 } else { 0 };
                Some((w.process_name.clone(), elapsed as i64))
            },
            _ => None,
        }
    }

    /// The "today" list at `now_ms`: see [`Totals::shown`].
    pub fn display_totals(&self, now_ms: u64) -> (r: Vec<(String, i64)>)
        requires
            running_fits(self.accumulated.view(), running_view(running_of(*self, now_ms))),
        ensures
            sorted_by_secs_desc(r@),
            names_distinct(r@),
            rows_map(r@) == shown_map(
                self.accumulated.view(),
                running_view(running_of(*self, now_ms)),
                self.known_processes@,
                self.visible_processes.view(),
            ),
    {
        let running = self.running(now_ms);
        self.accumulated.shown(running, &self.known_processes, &self.visible_processes)
    }
}

} // verus!
