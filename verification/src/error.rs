//! Errors a multiplexer request can end in.

use vstd::prelude::*;

verus! {

/// Why a request failed.
#[derive(Debug, PartialEq, Eq)]
pub enum MuxError {
    /// Allocating the pseudo-terminal or spawning the shell failed; the text
    /// is the cause as the operating system gave it.
    Setup(String),
    /// No session is registered under the identifier.
    NotFound,
    /// The lock around the registry was poisoned by an earlier panic.
    Poisoned,
    /// Writing to, flushing or resizing a registered session failed.
    Transport(String),
}

impl MuxError {
    /// The text shown to the caller for this error.
    pub open spec fn text(self) -> Seq<char> {
        match self {
            MuxError::Setup(cause) => cause@,
            MuxError::NotFound => "missing terminal session"@,
            MuxError::Poisoned => "terminal state poisoned"@,
            MuxError::Transport(cause) => cause@,
        }
    }

    /// Renders the error for the caller: a fixed phrase for a missing session
    /// and for a poisoned lock, the cause itself otherwise.
    pub fn message(&self) -> (message: String)
        ensures
            message@ == self.text(),
    {
        match self {
            MuxError::Setup(cause) => cause.clone(),
            MuxError::NotFound => "missing terminal session".to_owned(),
            MuxError::Poisoned => "terminal state poisoned".to_owned(),
            MuxError::Transport(cause) => cause.clone(),
        }
    }
}

} // verus!
