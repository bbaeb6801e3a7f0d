//! The session bookkeeping that turns focus and idle events into rows of the
//! `sessions` table.
//!
//! Time is recorded while tracking is on, the user is not idle and a window
//! has the focus; a row is open for the focused window exactly then (unless
//! its insert failed). Idle time and paused time are gaps between rows.
//!
//! The state machine here decides; the caller performs what a [`Plan`] asks
//! for (close a row, insert a row, publish the active window) and hands the
//! outcome of the insert back to [`Aggregator::apply`].
use vstd::prelude::*;

use crate::idle::IdleEvent;
use crate::tracker::{TrackerEvent, WindowInfo};

verus! {

/// Seconds between two heartbeat writes for the open session.
pub const HEARTBEAT_INTERVAL_SECS: u64 = 30;

/// Everything that reaches the aggregator.
#[derive(Debug, Clone)]
pub enum AppEvent {
    Tracker(TrackerEvent),
    Idle(IdleEvent),
    Pause,
    Resume,
}

/// What the window watchers are told about the active window.
#[derive(Debug)]
pub enum ActiveUpdate {
    /// Nothing is sent.
    Keep,
    /// No window is being tracked.
    Clear,
    /// This window is being tracked.
    Show(WindowInfo),
}

/// What one event asks the caller to do, in this order: close a row, insert
/// a row for a window, publish the active window.
#[derive(Debug)]
pub struct Plan {
    pub close: Option<i64>,
    pub open: Option<WindowInfo>,
    pub publish: ActiveUpdate,
}

/// The aggregator's state between events.
#[derive(Debug)]
pub struct Aggregator {
    /// The window that has the focus, as last reported; forgotten when the
    /// insert of the session that its report started failed.
    pub focused: Option<WindowInfo>,
    /// Whether the user is idle, as last reported.
    pub user_idle: bool,
    pub paused: bool,
    /// The open row of the session being recorded; 0 when there is none.
    pub row: i64,
}

/// Time is being recorded: tracking is on, the user is active and a window
/// has the focus.
pub open spec fn recording(s: Aggregator) -> bool {
    !s.paused && !s.user_idle && s.focused is Some
}

/// A row is closed only when there is one: id 0 stands for "no row".
pub open spec fn spec_close_target(id: i64) -> Option<i64> {
    if id == 0 {
        None
    } else {
        Some(id)
    }
}

/// The row id an insert gave back, 0 when it failed.
pub open spec fn row_of(opened: Option<i64>) -> i64 {
    match opened {
        Some(id) => id,
        None => 0,
    }
}

/// A plan that does nothing.
pub open spec fn idle_plan() -> Plan {
    Plan { close: None, open: None, publish: ActiveUpdate::Keep }
}

/// What the event asks of the caller in state `s`.
pub open spec fn plan_spec(s: Aggregator, ev: AppEvent) -> Plan {
    match ev {
        AppEvent::Pause => {
            if !s.paused {
                Plan { close: spec_close_target(s.row), open: None, publish: ActiveUpdate::Clear }
            } else {
                idle_plan()
            }
        },
        AppEvent::Resume => {
            if s.paused && !s.user_idle && s.focused is Some {
                Plan {
                    close: spec_close_target(s.row),
                    open: s.focused,
                    publish: ActiveUpdate::Show(s.focused->0),
                }
            } else {
                idle_plan()
            }
        },
        AppEvent::Tracker(TrackerEvent::FocusChanged(win)) => {
            if s.paused {
                idle_plan()
            } else if s.user_idle {
                Plan { close: spec_close_target(s.row), open: None, publish: ActiveUpdate::Clear }
            } else {
                Plan {
                    close: spec_close_target(s.row),
                    open: Some(win),
                    publish: ActiveUpdate::Show(win),
                }
            }
        },
        AppEvent::Idle(e) => {
            let idle = e == IdleEvent::Idle;
            if idle == s.user_idle || s.paused || s.focused is None {
                idle_plan()
            } else if idle {
                Plan { close: spec_close_target(s.row), open: None, publish: ActiveUpdate::Clear }
            } else {
                Plan {
                    close: spec_close_target(s.row),
                    open: s.focused,
                    publish: ActiveUpdate::Show(s.focused->0),
                }
            }
        },
    }
}

/// The state after the event, where `opened` is the row id that the insert
/// asked for by the plan gave back (`None` when it failed); it is not read
/// when the plan asked for no insert. When the insert for a newly focused
/// window fails, no session is kept for it: later idle and active reports
/// find no window to reopen until the focus changes again.
pub open spec fn next_spec(s: Aggregator, ev: AppEvent, opened: Option<i64>) -> Aggregator {
    match ev {
        AppEvent::Pause => Aggregator { paused: true, row: 0, ..s },
        AppEvent::Resume => {
            if !s.paused {
                s
            } else if !s.user_idle && s.focused is Some {
                Aggregator { paused: false, row: row_of(opened), ..s }
            } else {
                Aggregator { paused: false, row: 0, ..s }
            }
        },
        AppEvent::Tracker(TrackerEvent::FocusChanged(win)) => {
            if s.paused || s.user_idle {
                Aggregator { focused: Some(win), row: 0, ..s }
            } else {
                match opened {
                    Some(id) => Aggregator { focused: Some(win), row: id, ..s },
                    None => Aggregator { focused: None, row: 0, ..s },
                }
            }
        },
        AppEvent::Idle(e) => {
            let idle = e == IdleEvent::Idle;
            if idle == s.user_idle || s.paused || s.focused is None {
                Aggregator { user_idle: idle, ..s }
            } else if idle {
                Aggregator { user_idle: true, row: 0, ..s }
            } else {
                Aggregator { user_idle: false, row: row_of(opened), ..s }
            }
        },
    }
}

/// The state the aggregator keeps: a row is open only while time is being
/// recorded.
pub open spec fn wf(s: Aggregator) -> bool {
    !recording(s) ==> s.row == 0
}

/// While tracking is paused, focus and idle reports ask for nothing; they are
/// remembered, and no row is opened.
pub proof fn lemma_paused_ignores_activity(s: Aggregator, ev: AppEvent, opened: Option<i64>)
    requires
        s.paused,
        wf(s),
        ev is Tracker || ev is Idle,
    ensures
        plan_spec(s, ev) == idle_plan(),
        next_spec(s, ev, opened).paused,
        next_spec(s, ev, opened).row == 0,
{
}

/// Pausing closes the row being recorded, clears the active window and
/// records nothing.
pub proof fn lemma_pause_stops_tracking(s: Aggregator, opened: Option<i64>)
    requires
        !s.paused,
    ensures
        plan_spec(s, AppEvent::Pause) == (Plan {
            close: spec_close_target(s.row),
            open: None,
            publish: ActiveUpdate::Clear,
        }),
        !recording(next_spec(s, AppEvent::Pause, opened)),
        next_spec(s, AppEvent::Pause, opened).row == 0,
{
}

/// Resuming picks up the window that has the focus: unless the user is idle,
/// a row is opened for it and it is shown, though the tracker does not
/// report it again. Pause followed by resume returns to recording the same
/// window; a second pause or resume changes nothing.
pub proof fn lemma_pause_resume(s: Aggregator, o1: Option<i64>, id: i64)
    requires
        wf(s),
        recording(s),
    ensures
        ({
            let p = next_spec(s, AppEvent::Pause, o1);
            &&& plan_spec(p, AppEvent::Resume) == (Plan {
                close: None,
                open: s.focused,
                publish: ActiveUpdate::Show(s.focused->0),
            })
            &&& next_spec(p, AppEvent::Resume, Some(id)) == (Aggregator { row: id, ..s })
            &&& recording(next_spec(p, AppEvent::Resume, Some(id)))
            &&& plan_spec(p, AppEvent::Pause) == idle_plan()
            &&& next_spec(p, AppEvent::Pause, o1) == p
        }),
        plan_spec(s, AppEvent::Resume) == idle_plan(),
        next_spec(s, AppEvent::Resume, o1) == s,
{
}

/// A focus change while the user is idle is remembered: when the user comes
/// back, a row is opened for the window that has the focus then and it is
/// shown.
pub proof fn lemma_idle_focus_active(s: Aggregator, w2: WindowInfo, o1: Option<i64>, o2: Option<i64>, id: i64)
    requires
        wf(s),
        recording(s),
    ensures
        ({
            let a = next_spec(s, AppEvent::Idle(IdleEvent::Idle), o1);
            let b = next_spec(a, AppEvent::Tracker(TrackerEvent::FocusChanged(w2)), o2);
            &&& plan_spec(s, AppEvent::Idle(IdleEvent::Idle)).close == spec_close_target(s.row)
            &&& plan_spec(a, AppEvent::Tracker(TrackerEvent::FocusChanged(w2))).open is None
            &&& b.row == 0
            &&& plan_spec(b, AppEvent::Idle(IdleEvent::Active)) == (Plan {
                close: None,
                open: Some(w2),
                publish: ActiveUpdate::Show(w2),
            })
            &&& next_spec(b, AppEvent::Idle(IdleEvent::Active), Some(id)) == (Aggregator {
                focused: Some(w2),
                row: id,
                ..s
            })
        }),
{
}

/// An idle or active report is always taken in, paused or not: afterwards
/// the user counts as idle exactly when the report said so, and the focused
/// window and the pause flag are as they were.
pub proof fn lemma_idle_report_remembered(s: Aggregator, e: IdleEvent, opened: Option<i64>)
    ensures
        next_spec(s, AppEvent::Idle(e), opened).user_idle == (e == IdleEvent::Idle),
        next_spec(s, AppEvent::Idle(e), opened).focused == s.focused,
        next_spec(s, AppEvent::Idle(e), opened).paused == s.paused,
{
}

/// Being away and back while paused leaves the user active: resuming then
/// opens a row for the focused window and shows it, and a later focus change
/// opens a row for the new window and shows it.
pub proof fn lemma_away_while_paused(
    s: Aggregator,
    o1: Option<i64>,
    o2: Option<i64>,
    o3: Option<i64>,
    id: i64,
    w: WindowInfo,
    o5: Option<i64>,
)
    requires
        wf(s),
        recording(s),
    ensures
        ({
            let a = next_spec(s, AppEvent::Pause, o1);
            let b = next_spec(a, AppEvent::Idle(IdleEvent::Idle), o2);
            let c = next_spec(b, AppEvent::Idle(IdleEvent::Active), o3);
            let d = next_spec(c, AppEvent::Resume, Some(id));
            let f = AppEvent::Tracker(TrackerEvent::FocusChanged(w));
            &&& !c.user_idle
            &&& plan_spec(c, AppEvent::Resume).open == s.focused
            &&& plan_spec(c, AppEvent::Resume).publish == ActiveUpdate::Show(s.focused->0)
            &&& plan_spec(d, f).open == Some(w)
            &&& plan_spec(d, f).publish == ActiveUpdate::Show(w)
            &&& plan_spec(d, f).close == spec_close_target(id)
            &&& (o5 matches Some(r) ==> next_spec(d, f, o5).row == r && recording(next_spec(d, f, o5)))
        }),
{
}

/// Every event keeps the aggregator's invariant.
pub proof fn lemma_step_keeps_wf(s: Aggregator, ev: AppEvent, opened: Option<i64>)
    requires
        wf(s),
    ensures
        wf(next_spec(s, ev, opened)),
{
}

/// A row is inserted only after the row of the previous session has been
/// closed, so at most one session is open in the table at a time; and only
/// while the user is active and tracking is on, so idle and paused time is
/// never recorded.
pub proof fn lemma_open_after_close(s: Aggregator, ev: AppEvent, opened: Option<i64>)
    requires
        plan_spec(s, ev).open is Some,
    ensures
        plan_spec(s, ev).close == spec_close_target(s.row),
        !next_spec(s, ev, opened).paused,
        !next_spec(s, ev, opened).user_idle,
        opened is Some ==> recording(next_spec(s, ev, opened)),
{
}

/// What is published agrees with what is recorded: a shown window is the one
/// that has the focus while time is recorded (or, when the insert for a newly
/// focused window failed, nothing is kept), a cleared one leaves nothing
/// recorded, and an inserted row becomes the open row of that window.
pub proof fn lemma_publish_matches_state(s: Aggregator, ev: AppEvent, opened: Option<i64>)
    ensures
        ({
            let p = plan_spec(s, ev);
            let n = next_spec(s, ev, opened);
            &&& p.publish matches ActiveUpdate::Show(w) ==> (recording(n) && n.focused == Some(w))
                || (ev is Tracker && opened is None && n.focused is None && n.row == 0)
            &&& p.publish is Clear ==> !recording(n)
            &&& p.open matches Some(w) ==> (opened matches Some(id) ==> n.row == id && n.focused == Some(w))
        }),
{
}

/// An idle or active report that matches what was last reported changes
/// nothing.
pub proof fn lemma_repeated_idle_report(s: Aggregator, e: IdleEvent, opened: Option<i64>)
    requires
        s.user_idle == (e == IdleEvent::Idle),
    ensures
        plan_spec(s, AppEvent::Idle(e)) == idle_plan(),
        next_spec(s, AppEvent::Idle(e), opened) == s,
{
}

/// The rows of the `sessions` table that are still open (no end time yet),
/// each with the window it was inserted for, after the caller performed plan
/// `p` and the insert gave back `opened`.
pub open spec fn open_rows_after(
    open: Map<i64, WindowInfo>,
    p: Plan,
    opened: Option<i64>,
) -> Map<i64, WindowInfo> {
    let closed = match p.close {
        Some(id) => open.remove(id),
        None => open,
    };
    match (p.open, opened) {
        (Some(w), Some(id)) => closed.insert(id, w),
        _ => closed,
    }
}

/// The value the window watchers hold after plan `p` was published.
pub open spec fn shown_after(shown: Option<WindowInfo>, p: Plan) -> Option<WindowInfo> {
    match p.publish {
        ActiveUpdate::Keep => shown,
        ActiveUpdate::Clear => None,
        ActiveUpdate::Show(w) => Some(w),
    }
}

/// State, open rows and published window agree: a row is open exactly while
/// time is recorded, it is the only open row and belongs to the focused
/// window, and that window is what was last published; otherwise no row is
/// open and nothing (or "no window") was last published.
pub open spec fn table_agrees(s: Aggregator, open: Map<i64, WindowInfo>, shown: Option<WindowInfo>) -> bool {
    &&& (s.row != 0 <==> recording(s))
    &&& open == (if s.row != 0 {
        Map::<i64, WindowInfo>::empty().insert(s.row, s.focused->0)
    } else {
        Map::<i64, WindowInfo>::empty()
    })
    &&& shown == (if s.row != 0 { s.focused } else { None })
}

/// Every insert asked for along `events` gives back a row id other than 0;
/// `opens[i]` is what the insert of the `i`-th event gave back.
pub open spec fn inserts_succeed(s: Aggregator, events: Seq<AppEvent>, opens: Seq<Option<i64>>) -> bool
    decreases events.len(),
{
    if events.len() == 0 || opens.len() == 0 {
        true
    } else {
        &&& (plan_spec(s, events[0]).open is Some ==> (opens[0] matches Some(id) && id != 0))
        &&& inserts_succeed(
            next_spec(s, events[0], opens[0]),
            events.drop_first(),
            opens.drop_first(),
        )
    }
}

/// The state, the open rows and the published window after the caller has
/// handled every event of `events` in turn.
pub open spec fn run_events(
    s: Aggregator,
    open: Map<i64, WindowInfo>,
    shown: Option<WindowInfo>,
    events: Seq<AppEvent>,
    opens: Seq<Option<i64>>,
) -> (Aggregator, Map<i64, WindowInfo>, Option<WindowInfo>)
    decreases events.len(),
{
    if events.len() == 0 || opens.len() == 0 {
        (s, open, shown)
    } else {
        let p = plan_spec(s, events[0]);
        run_events(
            next_spec(s, events[0], opens[0]),
            open_rows_after(open, p, opens[0]),
            shown_after(shown, p),
            events.drop_first(),
            opens.drop_first(),
        )
    }
}

/// A new aggregator agrees with a table in which no row is open and with
/// watchers that were sent nothing.
pub proof fn lemma_start_agrees()
    ensures
        table_agrees(
            Aggregator { focused: None, user_idle: false, paused: false, row: 0 },
            Map::empty(),
            None,
        ),
{
}

/// One event keeps state, table and published window in agreement, when the
/// insert it asks for (if any) succeeds.
pub proof fn lemma_step_keeps_table(
    s: Aggregator,
    open: Map<i64, WindowInfo>,
    shown: Option<WindowInfo>,
    ev: AppEvent,
    opened: Option<i64>,
)
    requires
        table_agrees(s, open, shown),
        plan_spec(s, ev).open is Some ==> (opened matches Some(id) && id != 0),
    ensures
        table_agrees(
            next_spec(s, ev, opened),
            open_rows_after(open, plan_spec(s, ev), opened),
            shown_after(shown, plan_spec(s, ev)),
        ),
{
    let p = plan_spec(s, ev);
    let n = next_spec(s, ev, opened);
    let closed = match p.close {
        Some(id) => open.remove(id),
        None => open,
    };
    if p.open is Some || p.close is Some {
        assert(closed =~= Map::<i64, WindowInfo>::empty());
    }
    if n.row != 0 {
        assert(open_rows_after(open, p, opened) =~= Map::<i64, WindowInfo>::empty().insert(
            n.row,
            n.focused->0,
        ));
    } else {
        assert(open_rows_after(open, p, opened) =~= Map::<i64, WindowInfo>::empty());
    }
}

/// Over any run of events in which every insert succeeds, at most one row of
/// the table is open after each event; it is open exactly while a window is
/// being recorded, it is that window's row, and that window is what the
/// watchers were last sent; otherwise they were last sent "no window" or
/// nothing.
pub proof fn lemma_run_keeps_table(
    s: Aggregator,
    open: Map<i64, WindowInfo>,
    shown: Option<WindowInfo>,
    events: Seq<AppEvent>,
    opens: Seq<Option<i64>>,
)
    requires
        table_agrees(s, open, shown),
        inserts_succeed(s, events, opens),
    ensures
        ({
            let (t, o, w) = run_events(s, open, shown, events, opens);
            &&& table_agrees(t, o, w)
            &&& o.dom().len() <= 1
        }),
    decreases events.len(),
{
    if events.len() == 0 || opens.len() == 0 {
    } else {
        let p = plan_spec(s, events[0]);
        lemma_step_keeps_table(s, open, shown, events[0], opens[0]);
        lemma_run_keeps_table(
            next_spec(s, events[0], opens[0]),
            open_rows_after(open, p, opens[0]),
            shown_after(shown, p),
            events.drop_first(),
            opens.drop_first(),
        );
    }
    let (t, o, w) = run_events(s, open, shown, events, opens);
    if t.row != 0 {
        assert(o.dom() =~= set![t.row]);
    } else {
        assert(o.dom() =~= Set::<i64>::empty());
    }
}

/// The row a session close writes to; id 0 means there is no row.
pub fn close_target(id: i64) -> (r: Option<i64>)
    ensures
        r == spec_close_target(id),
{
    if id == 0 {
        None
    } else {
        Some(id)
    }
}

/// The values of a row inserted for a new session: it starts and beats at
/// `now_ms`; `is_idle` is stored as 1 or 0.
#[derive(Debug)]
pub struct SessionRow {
    pub start_ts: i64,
    pub process_name: String,
    pub exe_path: String,
    pub window_title: String,
    pub is_idle: i64,
    pub last_heartbeat_ts: i64,
}

/// The row to insert when a session for `win` starts at `now_ms`. Rows are
/// inserted only while the user is active, so the row is never idle.
pub fn session_row(win: &WindowInfo, now_ms: i64) -> (r: SessionRow)
    ensures
        r.start_ts == now_ms,
        r.last_heartbeat_ts == now_ms,
        r.process_name == win.process_name,
        r.exe_path == win.exe_path,
        r.window_title == win.window_title,
        r.is_idle == 0,
{
    SessionRow {
        start_ts: now_ms,
        process_name: win.process_name.clone(),
        exe_path: win.exe_path.clone(),
        window_title: win.window_title.clone(),
        is_idle: 0,
        last_heartbeat_ts: now_ms,
    }
}

/// The rows that a restart finds still open, given as `(id, last_heartbeat_ts)`,
/// are closed at their last heartbeat, one update per id, in the order found.
pub fn recovery_ids(rows: &Vec<(i64, i64)>) -> (r: Vec<i64>)
    ensures
        r@ == rows@.map_values(|row: (i64, i64)| row.0),
{
    let mut r: Vec<i64> = Vec::new();
    let mut i: usize = 0;
    while i < rows.len()
        invariant
            i <= rows.len(),
            r@ == rows@.subrange(0, i as int).map_values(|row: (i64, i64)| row.0),
        decreases rows.len() - i,
    {
        r.push(rows[i].0);
        i = i + 1;
        assert(rows@.subrange(0, i as int) == rows@.subrange(0, i - 1).push(rows@[i - 1]));
    }
    assert(rows@.subrange(0, rows.len() as int) == rows@);
    r
}

impl Aggregator {
    /// No window is known, the user counts as active, tracking is on, and no
    /// row is open.
    pub fn new() -> (r: Aggregator)
        ensures
            r.focused is None,
            !r.user_idle,
            !r.paused,
            r.row == 0,
            wf(r),
    {
        Aggregator { focused: None, user_idle: false, paused: false, row: 0 }
    }

    /// The row whose heartbeat the periodic tick refreshes.
    pub fn heartbeat_target(&self) -> (r: Option<i64>)
        ensures
            r == spec_close_target(self.row),
    {
        close_target(self.row)
    }

    /// The row to close when the event stream ends.
    pub fn shutdown_target(&self) -> (r: Option<i64>)
        ensures
            r == spec_close_target(self.row),
    {
        close_target(self.row)
    }

    /// What `event` asks of the caller.
    pub fn plan(&self, event: &AppEvent) -> (p: Plan)
        ensures
            p == plan_spec(*self, *event),
    {
        let keep = Plan { close: None, open: None, publish: ActiveUpdate::Keep };
        match event {
            AppEvent::Pause => {
                if !self.paused {
                    Plan { close: close_target(self.row), open: None, publish: ActiveUpdate::Clear }
                } else {
                    keep
                }
            },
            AppEvent::Resume => {
                if self.paused && !self.user_idle {
                    match &self.focused {
                        Some(w) => Plan {
                            close: close_target(self.row),
                            open: Some(w.duplicate()),
                            publish: ActiveUpdate::Show(w.duplicate()),
                        },
                        None => keep,
                    }
                } else {
                    keep
                }
            },
            AppEvent::Tracker(TrackerEvent::FocusChanged(win)) => {
                if self.paused {
                    keep
                } else if self.user_idle {
                    Plan { close: close_target(self.row), open: None, publish: ActiveUpdate::Clear }
                } else {
                    Plan {
                        close: close_target(self.row),
                        open: Some(win.duplicate()),
                        publish: ActiveUpdate::Show(win.duplicate()),
                    }
                }
            },
            AppEvent::Idle(e) => {
                let idle = match e {
                    IdleEvent::Idle => true,
                    IdleEvent::Active => false,
                };
                if idle == self.user_idle || self.paused {
                    keep
                } else {
                    match &self.focused {
                        None => keep,
                        Some(w) => {
                            if idle {
                                Plan {
                                    close: close_target(self.row),
                                    open: None,
                                    publish: ActiveUpdate::Clear,
                                }
                            } else {
                                Plan {
                                    close: close_target(self.row),
                                    open: Some(w.duplicate()),
                                    publish: ActiveUpdate::Show(w.duplicate()),
                                }
                            }
                        },
                    }
                }
            },
        }
    }

    /// Moves to the state after `event`; `opened` is what the insert that the
    /// plan asked for gave back.
    pub fn apply(&mut self, event: AppEvent, opened: Option<i64>)
        ensures
            *final(self) == next_spec(*old(self), event, opened),
    {
        let opened_row: i64 = match opened {
            Some(id) => id,
            None => 0,
        };
        match event {
            AppEvent::Pause => {
                self.paused = true;
                self.row = 0;
            },
            AppEvent::Resume => {
                if self.paused {
                    let reopen = !self.user_idle && self.focused.is_some();
                    self.paused = false;
                    self.row = if reopen { opened_row } else { 0 };
                }
            },
            AppEvent::Tracker(TrackerEvent::FocusChanged(win)) => {
                if self.paused || self.user_idle {
                    self.row = 0;
                    self.focused = Some(win);
                } else if opened.is_some() {
                    self.row = opened_row;
                    self.focused = Some(win);
                } else {
                    self.row = 0;
                    self.focused = None;
                }
            },
            AppEvent::Idle(e) => {
                let idle = match e {
                    IdleEvent::Idle => true,
                    IdleEvent::Active => false,
                };
                if idle == self.user_idle || self.paused || self.focused.is_none() {
                    self.user_idle = idle;
                } else if idle {
                    self.user_idle = true;
                    self.row = 0;
                } else {
                    self.user_idle = false;
                    self.row = opened_row;
                }
            },
        }
    }
}

} // verus!
