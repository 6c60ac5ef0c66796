//! The multiplexer as callers see it: a finite mapping from session
//! identifier to session, and what each request does to it.

use vstd::prelude::*;
use crate::error::MuxError;

verus! {

/// The session registered under `id`, if any.
pub open spec fn registered<S>(sessions: Map<Seq<char>, S>, id: Seq<char>) -> Option<S> {
    if sessions.contains_key(id) {
        Some(sessions[id])
    } else {
        None
    }
}

/// What a write or a resize finds under `id`: the session, or the
/// not-found error.
pub open spec fn lookup<S>(sessions: Map<Seq<char>, S>, id: Seq<char>) -> Result<S, MuxError> {
    match registered(sessions, id) {
        Some(session) => Ok(session),
        None => Err(MuxError::NotFound),
    }
}

/// The registry once `id` has been closed.
pub open spec fn after_close<S>(sessions: Map<Seq<char>, S>, id: Seq<char>) -> Map<Seq<char>, S> {
    sessions.remove(id)
}

/// The registry once `session` has been installed under `id`.
pub open spec fn after_install<S>(
    sessions: Map<Seq<char>, S>,
    id: Seq<char>,
    session: S,
) -> Map<Seq<char>, S> {
    sessions.insert(id, session)
}

/// The registry once a whole open of `session` under `id` has succeeded:
/// whatever held the identifier is evicted, then the new session installed.
pub open spec fn after_open<S>(
    sessions: Map<Seq<char>, S>,
    id: Seq<char>,
    session: S,
) -> Map<Seq<char>, S> {
    after_install(after_close(sessions, id), id, session)
}

} // verus!
