use pty_mux::error::MuxError;
use pty_mux::shell::{
    home_variable, launch_plan, shell_command, shell_variable, LaunchPlan, Platform,
    DEFAULT_SHELL, SHELL_VARIABLE, TERM_VALUE, TERM_VARIABLE, UNIX_HOME_VARIABLE,
    WINDOWS_HOME_VARIABLE, WINDOWS_SHELL,
};
use pty_mux::size::{TerminalSize, MIN_COLS, MIN_ROWS};

#[test]
fn open_size_raises_zero_dimensions_to_the_floor() {
    let size = TerminalSize::for_open(0, 0);
    assert_eq!(
        size,
        TerminalSize { rows: 1, cols: 2, pixel_width: 0, pixel_height: 0 }
    );
}

#[test]
fn open_size_raises_one_column_to_two() {
    let size = TerminalSize::for_open(1, 1);
    assert_eq!(size.cols, 2);
    assert_eq!(size.rows, 1);
}

#[test]
fn open_size_keeps_ordinary_dimensions() {
    let size = TerminalSize::for_open(80, 24);
    assert_eq!(
        size,
        TerminalSize { rows: 24, cols: 80, pixel_width: 0, pixel_height: 0 }
    );
}

#[test]
fn open_size_keeps_the_floor_itself() {
    let size = TerminalSize::for_open(MIN_COLS, MIN_ROWS);
    assert_eq!(size.cols, 2);
    assert_eq!(size.rows, 1);
}

#[test]
fn open_size_keeps_the_largest_dimensions() {
    let size = TerminalSize::for_open(u16::MAX, u16::MAX);
    assert_eq!(size.cols, 65535);
    assert_eq!(size.rows, 65535);
}

#[test]
fn open_size_clamps_each_dimension_on_its_own() {
    let wide = TerminalSize::for_open(120, 0);
    assert_eq!((wide.cols, wide.rows), (120, 1));
    let tall = TerminalSize::for_open(0, 40);
    assert_eq!((tall.cols, tall.rows), (2, 40));
}

#[test]
fn open_size_is_never_below_the_floor() {
    for cols in 0u16..6 {
        for rows in 0u16..6 {
            let size = TerminalSize::for_open(cols, rows);
            assert!(size.cols >= MIN_COLS);
            assert!(size.rows >= MIN_ROWS);
            assert_eq!(size.cols, cols.max(2));
            assert_eq!(size.rows, rows.max(1));
        }
    }
}

#[test]
fn resize_size_is_not_clamped() {
    let size = TerminalSize::for_resize(0, 0);
    assert_eq!(
        size,
        TerminalSize { rows: 0, cols: 0, pixel_width: 0, pixel_height: 0 }
    );
    let size = TerminalSize::for_resize(132, 43);
    assert_eq!(
        size,
        TerminalSize { rows: 43, cols: 132, pixel_width: 0, pixel_height: 0 }
    );
}

#[test]
fn windows_runs_the_command_interpreter() {
    assert_eq!(shell_command(Platform::Windows, None), "cmd");
    assert_eq!(
        shell_command(Platform::Windows, Some("/bin/bash".to_string())),
        "cmd"
    );
    assert_eq!(WINDOWS_SHELL, "cmd");
}

#[test]
fn unix_runs_the_configured_shell() {
    assert_eq!(
        shell_command(Platform::Unix, Some("/usr/bin/fish".to_string())),
        "/usr/bin/fish"
    );
}

#[test]
fn unix_falls_back_to_the_default_shell() {
    assert_eq!(shell_command(Platform::Unix, None), "/bin/zsh");
    assert_eq!(DEFAULT_SHELL, "/bin/zsh");
}

#[test]
fn unix_keeps_an_empty_configured_shell() {
    assert_eq!(shell_command(Platform::Unix, Some(String::new())), "");
}

#[test]
fn shell_variable_is_read_on_unix_only() {
    assert_eq!(shell_variable(Platform::Unix), Some("SHELL"));
    assert_eq!(shell_variable(Platform::Windows), None);
    assert_eq!(SHELL_VARIABLE, "SHELL");
}

#[test]
fn home_variable_depends_on_the_platform() {
    assert_eq!(home_variable(Platform::Unix), "HOME");
    assert_eq!(home_variable(Platform::Windows), "USERPROFILE");
    assert_eq!(UNIX_HOME_VARIABLE, "HOME");
    assert_eq!(WINDOWS_HOME_VARIABLE, "USERPROFILE");
}

#[test]
fn launch_plan_starts_in_the_home_directory() {
    let plan = launch_plan(
        Platform::Unix,
        Some("/bin/bash".to_string()),
        Some("/home/user".to_string()),
    );
    assert_eq!(
        plan,
        LaunchPlan {
            program: "/bin/bash".to_string(),
            term: "xterm-256color".to_string(),
            cwd: Some("/home/user".to_string()),
        }
    );
}

#[test]
fn launch_plan_without_home_keeps_the_working_directory() {
    let plan = launch_plan(Platform::Unix, None, None);
    assert_eq!(plan.program, "/bin/zsh");
    assert_eq!(plan.cwd, None);
}

#[test]
fn launch_plan_on_windows() {
    let plan = launch_plan(
        Platform::Windows,
        Some("/bin/bash".to_string()),
        Some("C:\\Users\\user".to_string()),
    );
    assert_eq!(plan.program, "cmd");
    assert_eq!(plan.term, "xterm-256color");
    assert_eq!(plan.cwd, Some("C:\\Users\\user".to_string()));
}

#[test]
fn launch_plan_announces_a_colour_terminal() {
    assert_eq!(TERM_VARIABLE, "TERM");
    assert_eq!(TERM_VALUE, "xterm-256color");
    assert_eq!(launch_plan(Platform::Unix, None, None).term, TERM_VALUE);
}

#[test]
fn not_found_message() {
    assert_eq!(MuxError::NotFound.message(), "missing terminal session");
}

#[test]
fn poisoned_message() {
    assert_eq!(MuxError::Poisoned.message(), "terminal state poisoned");
}

#[test]
fn setup_message_is_the_cause() {
    let error = MuxError::Setup("openpty failed: out of ptys".to_string());
    assert_eq!(error.message(), "openpty failed: out of ptys");
}

#[test]
fn transport_message_is_the_cause() {
    let error = MuxError::Transport("Broken pipe (os error 32)".to_string());
    assert_eq!(error.message(), "Broken pipe (os error 32)");
}

#[test]
fn not_found_differs_from_setup_failure() {
    assert_ne!(
        MuxError::NotFound,
        MuxError::Setup("missing terminal session".to_string())
    );
    assert_ne!(MuxError::NotFound, MuxError::Poisoned);
}
