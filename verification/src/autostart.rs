//! Starting the app with the user's session, through the `auto-launch` crate.
use vstd::prelude::*;

use auto_launch::{AutoLaunch, AutoLaunchBuilder};

verus! {

#[verifier::external_type_specification]
#[verifier::external_body]
pub struct ExAutoLaunch(AutoLaunch);

#[verifier::external_type_specification]
#[verifier::external_body]
pub struct ExAutoLaunchError(auto_launch::Error);

/// The name the start-up entry is registered under.
pub const APP_NAME: &'static str = "Chronograph";

/// The argument the app is started with at log-in, so that it starts hidden.
pub const MINIMIZED_ARG: &'static str = "--minimized";

/// Why the start-up entry could not be read or changed.
#[derive(Debug, Clone, Copy, PartialEq, Eq, Structural)]
pub enum AutostartError {
    /// The path of the running executable is not known.
    ExecutableUnknown,
    /// The entry could not be set up for this platform.
    Setup,
    /// Writing the entry failed.
    Enable,
    /// Removing the entry failed.
    Disable,
}

/// What the start-up entry holds: a name, the program and its arguments.
pub struct LaunchSettings {
    pub app_name: String,
    pub app_path: String,
    pub args: Vec<String>,
}

/// The entry for the executable at `exe_path`: named "Chronograph", started
/// with `--minimized`.
pub fn launch_settings(exe_path: &str) -> (r: LaunchSettings)
    ensures
        r.app_name@ == APP_NAME@,
        r.app_path@ == exe_path@,
        r.args@.len() == 1,
        r.args@[0]@ == MINIMIZED_ARG@,
{
    let mut args: Vec<String> = Vec::new();
    args.push(MINIMIZED_ARG.to_owned());
    LaunchSettings { app_name: APP_NAME.to_owned(), app_path: exe_path.to_owned(), args }
}

/// The launcher that `AutoLaunchBuilder` builds for a name, a program path
/// and arguments (the platform's default launch mode).
pub uninterp spec fn auto_launch_for(app_name: Seq<char>, app_path: Seq<char>, args: Seq<Seq<char>>) -> AutoLaunch;

/// The texts of the arguments.
pub open spec fn arg_texts(args: Seq<String>) -> Seq<Seq<char>> {
    args.map_values(|a: String| a@)
}

/// Whether `AutoLaunchBuilder` builds a launcher for a name, a program path
/// and arguments. With a name and a path set, `build` (in the default launch
/// modes) succeeds on Linux, macOS and Windows and fails with `UnsupportedOS`
/// elsewhere: the answer depends on the arguments and the platform the
/// program was built for, never on the machine's state.
pub uninterp spec fn auto_launch_builds(app_name: Seq<char>, app_path: Seq<char>, args: Seq<Seq<char>>) -> bool;

/// Calls `AutoLaunchBuilder::new`, `set_app_name`, `set_app_path`,
/// `set_args` and `build` in turn. Whether a launcher comes back is
/// `auto_launch_builds` of the settings; one that comes back is the one for
/// the settings' name, path and arguments.
#[verifier::external_body]
fn build_launcher(s: &LaunchSettings) -> (r: Result<AutoLaunch, auto_launch::Error>)
    ensures
        (r is Ok) == auto_launch_builds(s.app_name@, s.app_path@, arg_texts(s.args@)),
        r matches Ok(al) ==> al == auto_launch_for(s.app_name@, s.app_path@, arg_texts(s.args@)),
{
    AutoLaunchBuilder::new()
        .set_app_name(&s.app_name)
        .set_app_path(&s.app_path)
        .set_args(s.args.as_slice())
        .build()
}

/// Calls `AutoLaunch::is_enabled`. Nothing is stated of the result: it
/// depends on the user's start-up entries on disk (or the registry).
#[verifier::external_body]
fn launcher_is_enabled(al: &AutoLaunch) -> Result<bool, auto_launch::Error> {
    al.is_enabled()
}

/// Calls `AutoLaunch::enable`. Nothing is stated of the result: it depends on
/// the file system (or the registry).
#[verifier::external_body]
fn launcher_enable(al: &AutoLaunch) -> Result<(), auto_launch::Error> {
    al.enable()
}

/// Calls `AutoLaunch::disable`. Nothing is stated of the result: it depends
/// on the file system (or the registry).
#[verifier::external_body]
fn launcher_disable(al: &AutoLaunch) -> Result<(), auto_launch::Error> {
    al.disable()
}

/// Whether a launcher is built for the executable at `path`.
pub open spec fn builds_for(path: Seq<char>) -> bool {
    auto_launch_builds(APP_NAME@, path, seq![MINIMIZED_ARG@])
}

/// The launcher for the running executable, whose path is `exe_path` (`None`
/// when it could not be found): named "Chronograph", started with
/// `--minimized`.
pub fn launcher(exe_path: Option<&str>) -> (r: Result<AutoLaunch, AutostartError>)
    ensures
        match exe_path {
            None => r == Err::<AutoLaunch, AutostartError>(AutostartError::ExecutableUnknown),
            Some(p) => if builds_for(p@) {
                r == Ok::<AutoLaunch, AutostartError>(auto_launch_for(APP_NAME@, p@, seq![MINIMIZED_ARG@]))
            } else {
                r == Err::<AutoLaunch, AutostartError>(AutostartError::Setup)
            },
        },
{
    match exe_path {
        None => Err(AutostartError::ExecutableUnknown),
        Some(path) => {
            let settings = launch_settings(path);
            proof {
                assert(arg_texts(settings.args@) =~= seq![MINIMIZED_ARG@]);
            }
            match build_launcher(&settings) {
                Ok(al) => Ok(al),
                Err(_) => Err(AutostartError::Setup),
            }
        },
    }
}

/// A check's outcome read as a plain answer: enabled only when the check
/// succeeded and said so.
pub fn enabled_or_false(status: Result<bool, AutostartError>) -> (r: bool)
    ensures
        r == (status == Ok::<bool, AutostartError>(true)),
{
    match status {
        Ok(b) => b,
        Err(_) => false,
    }
}

/// What a look at the start-up entry answered, with a failure reported as
/// `Setup`.
pub fn check_outcome(raw: Result<bool, auto_launch::Error>) -> (r: Result<bool, AutostartError>)
    ensures
        match raw {
            Ok(b) => r == Ok::<bool, AutostartError>(b),
            Err(_) => r == Err::<bool, AutostartError>(AutostartError::Setup),
        },
{
    match raw {
        Ok(b) => Ok(b),
        Err(_) => Err(AutostartError::Setup),
    }
}

/// What writing the start-up entry gave, with a failure reported as `Enable`.
pub fn enable_outcome(raw: Result<(), auto_launch::Error>) -> (r: Result<(), AutostartError>)
    ensures
        match raw {
            Ok(_) => r == Ok::<(), AutostartError>(()),
            Err(_) => r == Err::<(), AutostartError>(AutostartError::Enable),
        },
{
    match raw {
        Ok(()) => Ok(()),
        Err(_) => Err(AutostartError::Enable),
    }
}

/// What removing the start-up entry gave, with a failure reported as
/// `Disable`.
pub fn disable_outcome(raw: Result<(), auto_launch::Error>) -> (r: Result<(), AutostartError>)
    ensures
        match raw {
            Ok(_) => r == Ok::<(), AutostartError>(()),
            Err(_) => r == Err::<(), AutostartError>(AutostartError::Disable),
        },
{
    match raw {
        Ok(()) => Ok(()),
        Err(_) => Err(AutostartError::Disable),
    }
}

/// Whether the app starts with the user's session; `false` when that cannot
/// be found out. With a launcher built, the answer is what the entry check
/// says (read by `check_outcome` and `enabled_or_false`); that answer depends
/// on the start-up entries on disk (or the registry) and is not stated.
pub fn is_enabled(exe_path: Option<&str>) -> (r: bool)
    ensures
        exe_path is None ==> !r,
        exe_path matches Some(p) && !builds_for(p@) ==> !r,
{
    let status = match launcher(exe_path) {
        Ok(al) => check_outcome(launcher_is_enabled(&al)),
        Err(e) => Err(e),
    };
    enabled_or_false(status)
}

/// Makes the app start with the user's session. With a launcher built, the
/// outcome is what writing the entry gave (read by `enable_outcome`); whether
/// that succeeds depends on the file system (or the registry).
pub fn enable(exe_path: Option<&str>) -> (r: Result<(), AutostartError>)
    ensures
        exe_path is None ==> r == Err::<(), AutostartError>(AutostartError::ExecutableUnknown),
        exe_path matches Some(p) && !builds_for(p@) ==> r == Err::<(), AutostartError>(
            AutostartError::Setup,
        ),
        exe_path matches Some(p) && builds_for(p@) ==> (r is Ok || r == Err::<(), AutostartError>(
            AutostartError::Enable,
        )),
{
    let al = match launcher(exe_path) {
        Ok(al) => al,
        Err(e) => return Err(e),
    };
    enable_outcome(launcher_enable(&al))
}

/// Stops the app from starting with the user's session. With a launcher
/// built, the outcome is what removing the entry gave (read by
/// `disable_outcome`); whether that succeeds depends on the file system (or
/// the registry).
pub fn disable(exe_path: Option<&str>) -> (r: Result<(), AutostartError>)
    ensures
        exe_path is None ==> r == Err::<(), AutostartError>(AutostartError::ExecutableUnknown),
        exe_path matches Some(p) && !builds_for(p@) ==> r == Err::<(), AutostartError>(
            AutostartError::Setup,
        ),
        exe_path matches Some(p) && builds_for(p@) ==> (r is Ok || r == Err::<(), AutostartError>(
            AutostartError::Disable,
        )),
{
    let al = match launcher(exe_path) {
        Ok(al) => al,
        Err(e) => return Err(e),
    };
    disable_outcome(launcher_disable(&al))
}

} // verus!
