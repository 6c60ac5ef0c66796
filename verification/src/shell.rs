//! Which shell a new session runs, and how it is launched.

use vstd::prelude::*;

verus! {

/// Shell launched on Windows.
pub const WINDOWS_SHELL: &'static str = "cmd";

/// Shell launched elsewhere when the user has configured none.
pub const DEFAULT_SHELL: &'static str = "/bin/zsh";

/// Environment variable that names the user's shell.
pub const SHELL_VARIABLE: &'static str = "SHELL";

/// Environment variable that announces the terminal type to the shell.
pub const TERM_VARIABLE: &'static str = "TERM";

/// Terminal type announced to the shell: one that can show colour.
pub const TERM_VALUE: &'static str = "xterm-256color";

/// Environment variable that names the user's home directory on Windows.
pub const WINDOWS_HOME_VARIABLE: &'static str = "USERPROFILE";

/// Environment variable that names the user's home directory elsewhere.
pub const UNIX_HOME_VARIABLE: &'static str = "HOME";

/// The family of operating system the multiplexer runs on.
#[derive(Clone, Copy, Debug, PartialEq, Eq, Structural)]
pub enum Platform {
    Windows,
    Unix,
}

/// How the shell of a new session is launched.
#[derive(Debug, PartialEq, Eq)]
pub struct LaunchPlan {
    /// The program to run.
    pub program: String,
    /// The value the `TERM` variable gets in the shell's environment.
    pub term: String,
    /// The directory the shell starts in; the launcher's own where `None`.
    pub cwd: Option<String>,
}

/// The program a session runs: on Windows the command interpreter, elsewhere
/// the user's configured shell, or the default where none is configured.
pub open spec fn program_for(platform: Platform, configured: Option<Seq<char>>) -> Seq<char> {
    match platform {
        Platform::Windows => WINDOWS_SHELL@,
        Platform::Unix => match configured {
            Some(shell) => shell,
            None => DEFAULT_SHELL@,
        },
    }
}

/// The views of an optional string.
pub open spec fn text_of(value: Option<String>) -> Option<Seq<char>> {
    match value {
        Some(text) => Some(text@),
        None => None,
    }
}

/// The environment variable to read the user's shell from, where the
/// platform has one.
pub fn shell_variable(platform: Platform) -> (name: Option<&'static str>)
    ensures
        match platform {
            Platform::Windows => name is None,
            Platform::Unix => name is Some && name->0@ == SHELL_VARIABLE@,
        },
{
    match platform {
        Platform::Windows => None,
        Platform::Unix => Some(SHELL_VARIABLE),
    }
}

/// The environment variable to read the user's home directory from.
pub fn home_variable(platform: Platform) -> (name: &'static str)
    ensures
        name@ == match platform {
            Platform::Windows => WINDOWS_HOME_VARIABLE@,
            Platform::Unix => UNIX_HOME_VARIABLE@,
        },
{
    match platform {
        Platform::Windows => WINDOWS_HOME_VARIABLE,
        Platform::Unix => UNIX_HOME_VARIABLE,
    }
}

/// The program to launch, given the value of the shell variable where it is
/// set and readable.
pub fn shell_command(platform: Platform, configured: Option<String>) -> (program: String)
    ensures
        program@ == program_for(platform, text_of(configured)),
{
    match platform {
        Platform::Windows => WINDOWS_SHELL.to_owned(),
        Platform::Unix => match configured {
            Some(shell) => shell,
            None => DEFAULT_SHELL.to_owned(),
        },
    }
}

/// The launch of a new session's shell: the platform's program, a
/// colour-capable terminal type, and the home directory as working directory
/// where it is known.
pub fn launch_plan(platform: Platform, configured: Option<String>, home: Option<String>) -> (plan:
    LaunchPlan)
    ensures
        plan.program@ == program_for(platform, text_of(configured)),
        plan.term@ == TERM_VALUE@,
        plan.cwd == home,
{
    LaunchPlan { program: shell_command(platform, configured), term: TERM_VALUE.to_owned(), cwd: home }
}

} // verus!
