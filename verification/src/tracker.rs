use vstd::prelude::*;

verus! {

/// The foreground window as the tracker reports it.
#[derive(Debug, Clone)]
pub struct WindowInfo {
    pub process_name: String,
    pub exe_path: String,
    pub window_title: String,
}

impl WindowInfo {
    /// Two reports name the same window when process name and title agree;
    /// the executable path is not compared.
    pub open spec fn same_window(&self, other: &WindowInfo) -> bool {
        &&& self.process_name@ == other.process_name@
        &&& self.window_title@ == other.window_title@
    }
}

impl PartialEq for WindowInfo {
    fn eq(&self, other: &Self) -> (r: bool) {
        self.process_name == other.process_name && self.window_title == other.window_title
    }
}

impl vstd::std_specs::cmp::PartialEqSpecImpl for WindowInfo {
    open spec fn obeys_eq_spec() -> bool {
        true
    }

    open spec fn eq_spec(&self, other: &WindowInfo) -> bool {
        self.same_window(other)
    }
}

impl WindowInfo {
    /// A copy that equals the original in every field.
    pub fn duplicate(&self) -> (r: WindowInfo)
        ensures
            r == *self,
    {
        WindowInfo {
            process_name: self.process_name.clone(),
            exe_path: self.exe_path.clone(),
            window_title: self.window_title.clone(),
        }
    }
}

/// What the tracker hands on: the foreground window changed.
#[derive(Debug, Clone)]
pub enum TrackerEvent {
    FocusChanged(WindowInfo),
}

/// Milliseconds between two polls of the foreground window.
pub const POLL_INTERVAL_MS: u64 = 1000;

/// The kind of accessible object that a foreground hook event is about.
#[derive(Debug, Clone, Copy, PartialEq, Eq, Structural)]
pub enum HookObject {
    Window,
    Other,
}

/// Only hook events about a window itself lead to a look at the foreground
/// window.
pub fn hook_event_relevant(object: HookObject) -> (r: bool)
    ensures
        r == (object == HookObject::Window),
{
    match object {
        HookObject::Window => true,
        HookObject::Other => false,
    }
}

/// `part` occurs in `whole` as a run of consecutive characters.
pub open spec fn is_substring(part: Seq<char>, whole: Seq<char>) -> bool {
    exists|i: int|
        0 <= i && i + part.len() <= whole.len() && #[trigger] whole.subrange(i, i + part.len())
            == part
}

/// `p` is a single plain path component on every platform: not empty, no
/// separator or drive colon (`/`, `\`, `:`), and neither `.` nor `..`.
pub open spec fn is_bare_file_name(p: Seq<char>) -> bool {
    &&& p.len() > 0
    &&& !p.contains('/')
    &&& !p.contains('\\')
    &&& !p.contains(':')
    &&& p != seq!['.']
    &&& p != seq!['.', '.']
}

/// `p` begins with the verbatim prefix `\\?\`, after which Windows does not
/// treat `/` as a separator.
pub open spec fn has_verbatim_prefix(p: Seq<char>) -> bool {
    p.len() >= 4 && p.subrange(0, 4) == seq!['\\', '\\', '?', '\\']
}

/// The final component of `path` as `std::path::Path::file_name` finds it,
/// as text; `None` when the path has none (it ends in `..`, or is empty).
pub uninterp spec fn file_name_of(path: Seq<char>) -> Option<Seq<char>>;

/// Calls `std::path::Path::file_name`, and `to_str` on the component it
/// gives. The result is `file_name_of(path)`. What a path's components are
/// depends on the platform (a backslash separates them on Windows only, and
/// after a verbatim `\\?\` prefix `/` does not), so of a name that comes back
/// only this is stated: it is a non-empty run of consecutive characters of
/// `path`; `/` separates components everywhere but after a verbatim prefix,
/// so otherwise it holds no `/`; and a path that is one plain component is
/// its own file name.
#[verifier::external_body]
fn path_file_name(path: &str) -> (r: Option<String>)
    ensures
        r matches Some(t) ==> file_name_of(path@) == Some(t@),
        r is None ==> file_name_of(path@) is None,
        r matches Some(t) ==> t@.len() > 0 && is_substring(t@, path@),
        r matches Some(t) ==> (!has_verbatim_prefix(path@) ==> !t@.contains('/')),
        r matches Some(t) ==> (is_bare_file_name(path@) ==> t@ == path@),
        is_bare_file_name(path@) ==> r is Some,
{
    match std::path::Path::new(path).file_name() {
        Some(component) => match component.to_str() {
            Some(text) => Some(text.to_string()),
            None => None,
        },
        None => None,
    }
}

/// The window report for a foreground window whose process is called `name`,
/// with `fallback_name` standing in when `name` is empty; no report when
/// neither gives a non-empty name.
pub fn window_info_with_fallback(
    name: String,
    fallback_name: Option<String>,
    exe_path: String,
    window_title: String,
) -> (r: Option<WindowInfo>)
    ensures
        r == (if name@.len() > 0 {
            Some(WindowInfo { process_name: name, exe_path, window_title })
        } else {
            match fallback_name {
                Some(f) => if f@.len() > 0 {
                    Some(WindowInfo { process_name: f, exe_path, window_title })
                } else {
                    None
                },
                None => None,
            }
        }),
{
    if name.as_str().unicode_len() > 0 {
        Some(WindowInfo { process_name: name, exe_path, window_title })
    } else {
        match fallback_name {
            Some(f) => {
                if f.as_str().unicode_len() > 0 {
                    Some(WindowInfo { process_name: f, exe_path, window_title })
                } else {
                    None
                }
            },
            None => None,
        }
    }
}

/// The window report for a foreground window: its process name, or when that
/// is empty the file name of its executable; no report when both are empty.
pub fn window_info(name: String, exe_path: String, window_title: String) -> (r: Option<WindowInfo>)
    ensures
        name@.len() > 0 ==> r == Some(
            WindowInfo { process_name: name, exe_path, window_title },
        ),
        name@.len() == 0 ==> match file_name_of(exe_path@) {
            Some(t) => if t.len() > 0 {
                r matches Some(w) && w.process_name@ == t && w.exe_path == exe_path
                    && w.window_title == window_title
            } else {
                r is None
            },
            None => r is None,
        },
        r matches Some(w) ==> {
            &&& w.exe_path == exe_path
            &&& w.window_title == window_title
            &&& w.process_name@.len() > 0
            &&& name@.len() == 0 ==> is_substring(w.process_name@, exe_path@)
            &&& name@.len() == 0 && !has_verbatim_prefix(exe_path@) ==> !w.process_name@.contains('/')
        },
        name@.len() == 0 && is_bare_file_name(exe_path@) ==> (r matches Some(w)
            && w.process_name@ == exe_path@),
{
    if name.as_str().unicode_len() > 0 {
        Some(WindowInfo { process_name: name, exe_path, window_title })
    } else {
        let fallback = path_file_name(exe_path.as_str());
        window_info_with_fallback(name, fallback, exe_path, window_title)
    }
}

/// Forwards a foreground window only when it differs from the last one sent.
#[derive(Debug)]
pub struct FocusFilter {
    pub last_sent: Option<WindowInfo>,
}

/// Whether `info` is news after `last`.
pub open spec fn is_news(last: Option<WindowInfo>, info: WindowInfo) -> bool {
    match last {
        Some(prev) => !prev.same_window(&info),
        None => true,
    }
}

impl FocusFilter {
    /// Nothing has been sent yet.
    pub fn new() -> (r: FocusFilter)
        ensures
            r.last_sent is None,
    {
        FocusFilter { last_sent: None }
    }

    /// Looks at a reading of the foreground window (`None` when there was no
    /// window to report) and returns the event to send, if any.
    pub fn observe(&mut self, info: Option<WindowInfo>) -> (r: Option<TrackerEvent>)
        ensures
            match info {
                Some(w) => if is_news(old(self).last_sent, w) {
                    &&& r == Some(TrackerEvent::FocusChanged(w))
                    &&& final(self).last_sent == Some(w)
                } else {
                    &&& r is None
                    &&& final(self).last_sent == old(self).last_sent
                },
                None => r is None && final(self).last_sent == old(self).last_sent,
            },
    {
        match info {
            Some(w) => {
                let news = match &self.last_sent {
                    Some(prev) => !(*prev == w),
                    None => true,
                };
                if news {
                    self.last_sent = Some(w.duplicate());
                    Some(TrackerEvent::FocusChanged(w))
                } else {
                    None
                }
            },
            None => None,
        }
    }
}

/// Two focus changes sent one after the other name different windows: a
/// report is sent only when it is not the window last sent, and then becomes
/// the window last sent.
pub proof fn lemma_sent_windows_differ(last: Option<WindowInfo>, w: WindowInfo)
    requires
        is_news(last, w),
    ensures
        !is_news(Some(w), w),
        last matches Some(prev) ==> !prev.same_window(&w),
{
}

} // verus!
