//! Laws of the session lifecycle, stated over the caller's view of the
//! registry and proved for every registry, identifier and session.

use vstd::prelude::*;
use crate::error::MuxError;
use crate::model::{after_close, after_install, after_open, lookup, registered};

verus! {

/// One request to the multiplexer, as far as the registry is concerned.
pub enum Request<S> {
    /// An open under `id` that succeeded with `session`.
    Open { id: Seq<char>, session: S },
    /// An open under `id` whose pseudo-terminal or shell could not be set up.
    OpenFailed { id: Seq<char> },
    /// A write or a resize under `id`, which leaves the session as `session`
    /// where one is registered.
    Touch { id: Seq<char>, session: S },
    /// A close of `id`.
    Close { id: Seq<char> },
}

/// The registry after one request.
pub open spec fn apply<S>(sessions: Map<Seq<char>, S>, request: Request<S>) -> Map<Seq<char>, S> {
    match request {
        Request::Open { id, session } => after_open(sessions, id, session),
        Request::OpenFailed { id } => after_close(sessions, id),
        Request::Touch { id, session } => match lookup(sessions, id) {
            Ok(_) => after_install(sessions, id, session),
            Err(_) => sessions,
        },
        Request::Close { id } => after_close(sessions, id),
    }
}

/// The session that one request hands over for termination, if any.
pub open spec fn handed_over<S>(sessions: Map<Seq<char>, S>, request: Request<S>) -> Option<S> {
    match request {
        Request::Open { id, session } => registered(sessions, id),
        Request::OpenFailed { id } => registered(sessions, id),
        Request::Touch { id, session } => None,
        Request::Close { id } => registered(sessions, id),
    }
}

/// The registry after a sequence of requests, starting from `sessions`.
pub open spec fn run<S>(sessions: Map<Seq<char>, S>, requests: Seq<Request<S>>) -> Map<
    Seq<char>,
    S,
>
    decreases requests.len(),
{
    if requests.len() == 0 {
        sessions
    } else {
        apply(run(sessions, requests.drop_last()), requests.last())
    }
}

/// Whether `request` is a write or a resize.
pub open spec fn touches<S>(request: Request<S>) -> bool {
    request is Touch
}

/// Whether `request` is a successful open under `id`.
pub open spec fn opens<S>(request: Request<S>, id: Seq<char>) -> bool {
    match request {
        Request::Open { id: opened, session } => opened == id,
        _ => false,
    }
}

/// The registry after each of `sessions` has been opened under `id`, in turn.
pub open spec fn reopened<S>(start: Map<Seq<char>, S>, id: Seq<char>, sessions: Seq<S>) -> Map<
    Seq<char>,
    S,
>
    decreases sessions.len(),
{
    if sessions.len() == 0 {
        start
    } else {
        after_open(reopened(start, id, sessions.drop_last()), id, sessions.last())
    }
}

/// The sessions handed over for termination while each of `sessions` is
/// opened under `id`, in the order in which they are handed over.
pub open spec fn terminated<S>(start: Map<Seq<char>, S>, id: Seq<char>, sessions: Seq<S>) -> Seq<S>
    decreases sessions.len(),
{
    if sessions.len() == 0 {
        Seq::empty()
    } else {
        let earlier = terminated(start, id, sessions.drop_last());
        match registered(reopened(start, id, sessions.drop_last()), id) {
            Some(previous) => earlier.push(previous),
            None => earlier,
        }
    }
}

/// An open replaces. The identifier is free once its holder has been handed
/// over, so the old session has left the registry before the new one enters;
/// afterwards the identifier names the new session and nothing else has
/// changed.
pub proof fn law_open_replaces<S>(sessions: Map<Seq<char>, S>, id: Seq<char>, session: S)
    ensures
        registered(after_close(sessions, id), id) is None,
        registered(after_open(sessions, id, session), id) == Some(session),
        after_open(sessions, id, session) == sessions.insert(id, session),
        forall|other: Seq<char>|
            other != id ==> registered(after_open(sessions, id, session), other) == registered(
                sessions,
                other,
            ),
{
    assert(after_open(sessions, id, session) =~= sessions.insert(id, session));
}

/// However often sessions are opened under one identifier, the identifier
/// names one session, the last; every earlier one, and whatever held the
/// identifier at the start, has been handed over for termination, in order.
pub proof fn law_repeated_open<S>(start: Map<Seq<char>, S>, id: Seq<char>, sessions: Seq<S>)
    requires
        sessions.len() > 0,
    ensures
        registered(reopened(start, id, sessions), id) == Some(sessions.last()),
        reopened(start, id, sessions) == start.insert(id, sessions.last()),
        terminated(start, id, sessions) == match registered(start, id) {
            Some(first) => seq![first] + sessions.drop_last(),
            None => sessions.drop_last(),
        },
    decreases sessions.len(),
{
    let earlier = sessions.drop_last();
    let before = reopened(start, id, earlier);
    law_open_replaces(before, id, sessions.last());
    if earlier.len() == 0 {
        assert(terminated(start, id, earlier) =~= Seq::<S>::empty());
        match registered(start, id) {
            Some(first) => {
                assert(terminated(start, id, sessions) =~= seq![first] + earlier);
            },
            None => {
                assert(terminated(start, id, sessions) =~= earlier);
            },
        }
    } else {
        law_repeated_open(start, id, earlier);
        assert(before.insert(id, sessions.last()) =~= start.insert(id, sessions.last()));
        assert(earlier.drop_last().push(earlier.last()) =~= earlier);
        match registered(start, id) {
            Some(first) => {
                assert((seq![first] + earlier.drop_last()).push(earlier.last()) =~= seq![first]
                    + earlier);
            },
            None => {},
        }
    }
}

/// A write or a resize finds the session exactly where one is registered,
/// and fails with the not-found error everywhere else.
pub proof fn law_lookup<S>(sessions: Map<Seq<char>, S>, id: Seq<char>)
    ensures
        sessions.contains_key(id) ==> lookup(sessions, id) == Ok::<S, MuxError>(sessions[id]),
        !sessions.contains_key(id) ==> lookup(sessions, id) == Err::<S, MuxError>(
            MuxError::NotFound,
        ),
{
}

/// Whatever was requested before: as long as no open under `id` has
/// succeeded, a write or a resize under `id` fails with the not-found error.
pub proof fn law_not_found_until_opened<S>(requests: Seq<Request<S>>, id: Seq<char>)
    requires
        forall|i: int| 0 <= i < requests.len() ==> !opens(#[trigger] requests[i], id),
    ensures
        lookup(run(Map::<Seq<char>, S>::empty(), requests), id) == Err::<S, MuxError>(
            MuxError::NotFound,
        ),
    decreases requests.len(),
{
    if requests.len() > 0 {
        law_not_found_until_opened(requests.drop_last(), id);
        assert(!opens(requests[requests.len() - 1], id));
    }
}

/// After a close of `id`, however the registry was reached, a write or a
/// resize under `id` fails with the not-found error: the session does not
/// linger.
pub proof fn law_not_found_after_close<S>(sessions: Map<Seq<char>, S>, id: Seq<char>)
    ensures
        lookup(after_close(sessions, id), id) == Err::<S, MuxError>(MuxError::NotFound),
        lookup(apply(sessions, Request::Close { id }), id) == Err::<S, MuxError>(
            MuxError::NotFound,
        ),
{
}

/// After a close of `id`, a write or a resize under `id` keeps failing with
/// the not-found error until an open under `id` succeeds.
pub proof fn law_not_found_until_reopened<S>(
    sessions: Map<Seq<char>, S>,
    requests: Seq<Request<S>>,
    id: Seq<char>,
)
    requires
        forall|i: int| 0 <= i < requests.len() ==> !opens(#[trigger] requests[i], id),
    ensures
        lookup(run(after_close(sessions, id), requests), id) == Err::<S, MuxError>(
            MuxError::NotFound,
        ),
    decreases requests.len(),
{
    if requests.len() > 0 {
        law_not_found_until_reopened(sessions, requests.drop_last(), id);
        assert(!opens(requests[requests.len() - 1], id));
    }
}

/// Closing an identifier that names no session changes nothing and hands
/// nothing over; closing twice is closing once.
pub proof fn law_close_is_idempotent<S>(sessions: Map<Seq<char>, S>, id: Seq<char>)
    ensures
        !sessions.contains_key(id) ==> after_close(sessions, id) == sessions && registered(
            sessions,
            id,
        ) is None,
        after_close(after_close(sessions, id), id) == after_close(sessions, id),
        registered(after_close(sessions, id), id) is None,
{
    if !sessions.contains_key(id) {
        assert(after_close(sessions, id) =~= sessions);
    }
    assert(after_close(after_close(sessions, id), id) =~= after_close(sessions, id));
}

/// A failed open leaves the identifier absent: the previous session is gone
/// and is not restored.
pub proof fn law_failed_open_leaves_absent<S>(sessions: Map<Seq<char>, S>, id: Seq<char>)
    ensures
        lookup(apply(sessions, Request::OpenFailed { id }), id) == Err::<S, MuxError>(
            MuxError::NotFound,
        ),
        handed_over(sessions, Request::<S>::OpenFailed { id }) == registered(sessions, id),
{
}

/// A write or a resize never adds or removes a session: the registered
/// identifiers are the same before and after.
pub proof fn law_touch_keeps_sessions<S>(sessions: Map<Seq<char>, S>, id: Seq<char>, session: S)
    ensures
        apply(sessions, Request::Touch { id, session }).dom() == sessions.dom(),
{
    assert(apply(sessions, Request::Touch { id, session }).dom() =~= sessions.dom());
}

/// In whatever order writes and resizes from many callers reach the registry,
/// one after the other, no session is lost and none appears: every one of
/// them finds the sessions that were registered at the start.
pub proof fn law_touches_keep_sessions<S>(sessions: Map<Seq<char>, S>, requests: Seq<Request<S>>)
    requires
        forall|i: int| 0 <= i < requests.len() ==> touches(#[trigger] requests[i]),
    ensures
        run(sessions, requests).dom() == sessions.dom(),
        forall|i: int|
            0 <= i <= requests.len() ==> (#[trigger] run(sessions, requests.take(i))).dom()
                == sessions.dom(),
    decreases requests.len(),
{
    if requests.len() > 0 {
        let earlier = requests.drop_last();
        law_touches_keep_sessions(sessions, earlier);
        assert(touches(requests[requests.len() - 1]));
        match requests.last() {
            Request::Touch { id, session } => {
                law_touch_keeps_sessions(run(sessions, earlier), id, session);
            },
            _ => {},
        }
        assert forall|i: int| 0 <= i <= requests.len() implies (#[trigger] run(
            sessions,
            requests.take(i),
        )).dom() == sessions.dom() by {
            if i < requests.len() {
                assert(requests.take(i) =~= earlier.take(i));
            } else {
                assert(requests.take(i) =~= requests);
            }
        }
    } else {
        assert forall|i: int| 0 <= i <= requests.len() implies (#[trigger] run(
            sessions,
            requests.take(i),
        )).dom() == sessions.dom() by {
            assert(requests.take(i) =~= requests);
        }
    }
}

} // verus!
