use std::io::{Read, Write};

use portable_pty::{native_pty_system, Child, CommandBuilder, MasterPty, PtySize};
use pty_mux::error::MuxError;
use pty_mux::reader::{reader_step, ReaderStep, CHUNK_SIZE};
use pty_mux::registry::Multiplexer;
use pty_mux::shell::{launch_plan, Platform, TERM_VARIABLE};
use pty_mux::size::TerminalSize;

/// The operating-system handles of one live session.
struct Live {
    master: Box<dyn MasterPty + Send>,
    writer: Box<dyn Write + Send>,
    child: Box<dyn Child + Send + Sync>,
    reader: Box<dyn Read + Send>,
}

fn pty_size(size: TerminalSize) -> PtySize {
    PtySize {
        rows: size.rows,
        cols: size.cols,
        pixel_width: size.pixel_width,
        pixel_height: size.pixel_height,
    }
}

fn open(mux: &mut Multiplexer<Live>, id: &str, cols: u16, rows: u16) -> Result<(), String> {
    open_with(mux, id, cols, rows, "/bin/sh")
}

fn open_with(
    mux: &mut Multiplexer<Live>,
    id: &str,
    cols: u16,
    rows: u16,
    shell: &str,
) -> Result<(), String> {
    let plan = mux.begin_open(id, cols, rows);
    if let Some(mut previous) = plan.evicted {
        let _ = previous.child.kill();
    }
    let pair = native_pty_system()
        .openpty(pty_size(plan.size))
        .map_err(|error| MuxError::Setup(error.to_string()).message())?;
    let launch = launch_plan(Platform::Unix, Some(shell.to_string()), None);
    let mut cmd = CommandBuilder::new(launch.program);
    cmd.env(TERM_VARIABLE, launch.term);
    let child = pair
        .slave
        .spawn_command(cmd)
        .map_err(|error| MuxError::Setup(error.to_string()).message())?;
    let reader = pair.master.try_clone_reader().map_err(|error| error.to_string())?;
    let writer = pair.master.take_writer().map_err(|error| error.to_string())?;
    let session = Live { master: pair.master, writer, child, reader };
    assert!(mux.finish_open(id.to_string(), session).is_none());
    Ok(())
}

fn write(mux: &mut Multiplexer<Live>, id: &str, data: &str) -> Result<(), String> {
    let action = mux.write_request(id, data).map_err(|error| error.message())?;
    action.session.writer.write_all(action.bytes).map_err(|error| error.to_string())?;
    action.session.writer.flush().map_err(|error| error.to_string())?;
    Ok(())
}

fn close(mux: &mut Multiplexer<Live>, id: &str) {
    if let Some(mut session) = mux.close(id) {
        let _ = session.child.kill();
    }
}

/// Reads from the session until its output holds `needle` or the stream ends.
fn read_until(mux: &mut Multiplexer<Live>, id: &str, needle: &str) -> String {
    let session = mux.session_mut(id).expect("session is registered");
    let mut seen = String::new();
    let mut buffer = [0u8; CHUNK_SIZE];
    while !seen.contains(needle) {
        let read = session.reader.read(&mut buffer).ok();
        match reader_step(id, &buffer, read) {
            ReaderStep::Emit(output) => {
                assert_eq!(output.id, id);
                seen.push_str(&output.data);
            }
            ReaderStep::Stop => break,
        }
    }
    seen
}

#[test]
fn echo_hi_comes_back_as_output() {
    let mut mux = Multiplexer::new();
    open(&mut mux, "term", 80, 24).expect("a shell can be started");
    write(&mut mux, "term", "echo hi\n").expect("the session takes input");
    let seen = read_until(&mut mux, "term", "hi");
    assert!(seen.contains("hi"));
    close(&mut mux, "term");
}

#[test]
fn zero_dimensions_open_a_terminal_of_the_floor_size() {
    let mut mux = Multiplexer::new();
    open(&mut mux, "tiny", 0, 0).expect("zero dimensions are no reason to fail");
    let size = mux
        .session_mut("tiny")
        .expect("session is registered")
        .master
        .get_size()
        .expect("the terminal reports its size");
    assert_eq!((size.cols, size.rows), (2, 1));
    close(&mut mux, "tiny");
}

#[test]
fn resize_reaches_the_terminal() {
    let mut mux = Multiplexer::new();
    open(&mut mux, "term", 80, 24).expect("a shell can be started");
    let action = mux.resize_request("term", 132, 43).expect("session is registered");
    action.session.master.resize(pty_size(action.size)).expect("the terminal takes the size");
    let size = mux
        .session_mut("term")
        .expect("session is registered")
        .master
        .get_size()
        .expect("the terminal reports its size");
    assert_eq!((size.cols, size.rows), (132, 43));
    close(&mut mux, "term");
}

#[test]
fn write_after_close_of_a_live_session_is_not_found() {
    let mut mux = Multiplexer::new();
    open(&mut mux, "term", 80, 24).expect("a shell can be started");
    close(&mut mux, "term");
    assert_eq!(
        write(&mut mux, "term", "echo late\n"),
        Err("missing terminal session".to_string())
    );
    close(&mut mux, "term");
}

#[test]
fn reopening_a_live_session_replaces_it() {
    let mut mux = Multiplexer::new();
    open(&mut mux, "term", 80, 24).expect("a shell can be started");
    let first = mux.session_mut("term").expect("session is registered").child.process_id();
    open(&mut mux, "term", 100, 30).expect("a shell can be started again");
    let second = mux.session_mut("term").expect("session is registered").child.process_id();
    assert_eq!(mux.len(), 1);
    assert_ne!(first, second);
    close(&mut mux, "term");
    assert!(mux.is_empty());
}

#[test]
fn failed_reopen_of_a_live_session_leaves_the_id_absent() {
    let mut mux = Multiplexer::new();
    open(&mut mux, "term", 80, 24).expect("a shell can be started");
    let failure = open_with(&mut mux, "term", 80, 24, "/no/such/directory/shell");
    assert!(failure.is_err());
    assert_ne!(failure, Err("missing terminal session".to_string()));
    assert!(!mux.contains("term"));
    assert_eq!(
        write(&mut mux, "term", "echo late\n"),
        Err("missing terminal session".to_string())
    );
    assert!(mux.is_empty());
}
