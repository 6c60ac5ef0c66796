//! Session multiplexer core for interactive pseudo-terminal sessions.
//!
//! The crate holds the decisions of a terminal session multiplexer: which
//! session an identifier names, what has to be terminated before a new session
//! may take an identifier, which size a new pseudo-terminal gets, which shell is
//! launched, and what a background reader does with each chunk it has read.
//! Every operating-system effect (allocating a pseudo-terminal, spawning,
//! killing, reading, writing) is left to the caller, who hands the outcome back.

pub mod entries;
pub mod error;
pub mod laws;
pub mod model;
pub mod reader;
pub mod registry;
pub mod shell;
pub mod size;
pub mod text;
