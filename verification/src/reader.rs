//! What a session's background reader does with each read from the
//! pseudo-terminal.

use vstd::prelude::*;
use vstd::slice::slice_subrange;
use vstd::utf8::{decode_utf8, valid_utf8};
use crate::text::{decode_lossy, lossy_text};

verus! {

/// Size of the buffer a background reader reads into.
pub const CHUNK_SIZE: usize = 8192;

/// Name under which output events are published.
pub const OUTPUT_EVENT: &'static str = "terminal-output";

/// One chunk of a session's output, as published to subscribers.
#[derive(Debug, PartialEq, Eq)]
pub struct TerminalOutput {
    /// The session the output came from.
    pub id: String,
    /// The output, as text.
    pub data: String,
}

/// What the reader does after a read.
#[derive(Debug, PartialEq, Eq)]
pub enum ReaderStep {
    /// Publish the event, then read again.
    Emit(TerminalOutput),
    /// Stop reading, without publishing anything.
    Stop,
}

/// Whether a read delivered bytes. A read is `None` where it failed, else the
/// number of bytes it put at the start of the buffer; none at the end of the
/// stream.
pub open spec fn read_delivers(read: Option<usize>) -> bool {
    match read {
        Some(count) => count > 0,
        None => false,
    }
}

/// The bytes a read delivered: the start of the buffer, as long as the read says.
pub open spec fn chunk_read(buffer: Seq<u8>, read: Option<usize>) -> Seq<u8>
    recommends
        read is Some,
        read->0 <= buffer.len(),
{
    buffer.subrange(0, read->0 as int)
}

/// The event for `data` read from session `id`.
pub fn output_event(id: &str, data: String) -> (event: TerminalOutput)
    ensures
        event.id@ == id@,
        event.data == data,
{
    TerminalOutput { id: id.to_owned(), data }
}

/// Decides what follows a read from session `id` into `buffer`. A read that
/// delivered bytes is published as one event that holds exactly those bytes,
/// decoded lossily; the end of the stream (no bytes) and a failed read stop
/// the reader silently.
pub fn reader_step(id: &str, buffer: &[u8], read: Option<usize>) -> (step: ReaderStep)
    requires
        read is Some ==> read->0 <= buffer@.len(),
    ensures
        match step {
            ReaderStep::Emit(event) => {
                &&& read_delivers(read)
                &&& event.id@ == id@
                &&& event.data@ == lossy_text(chunk_read(buffer@, read))
                &&& valid_utf8(chunk_read(buffer@, read)) ==> event.data@ == decode_utf8(
                    chunk_read(buffer@, read),
                )
            },
            ReaderStep::Stop => !read_delivers(read),
        },
{
    match read {
        Some(count) => {
            if count == 0 {
                ReaderStep::Stop
            } else {
                let chunk = slice_subrange(buffer, 0, count);
                ReaderStep::Emit(output_event(id, decode_lossy(chunk)))
            }
        },
        None => ReaderStep::Stop,
    }
}

} // verus!
