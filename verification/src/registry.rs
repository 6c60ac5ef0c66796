//! The registry of live sessions and the lifecycle requests on it.
//!
//! Each request changes the registry and tells the caller what to do to the
//! operating system: which session to terminate, which to write to or resize.
//! The caller holds whatever lock guards the registry while it calls in here
//! and while it carries out what it was told.

use vstd::prelude::*;
use vstd::string::StringSliceAdditionalSpecFns;
use crate::entries::{
    as_map, count_id, distinct_ids, holds_id, lemma_count, lemma_push, lemma_remove, lemma_size,
    lemma_slot, lemma_update, Entry,
};
use crate::error::MuxError;
use crate::model::{after_close, after_install, lookup, registered};
use crate::size::TerminalSize;
use crate::text::same_text;

verus! {

/// The registry of live sessions, keyed by identifier. `S` is the caller's
/// handle on one session. The registry never holds two sessions under one
/// identifier.
pub struct Multiplexer<S> {
    entries: Vec<Entry<S>>,
}

/// What opening a session starts with: the session that held the identifier,
/// to be terminated before anything else, and the size of the new
/// pseudo-terminal.
pub struct OpenPlan<S> {
    pub evicted: Option<S>,
    pub size: TerminalSize,
}

/// What a write request asks of the caller: send `bytes` to `session`, then flush.
pub struct WriteAction<'a, S> {
    pub session: &'a mut S,
    pub bytes: &'a [u8],
}

/// What a resize request asks of the caller: set the pseudo-terminal of
/// `session` to `size`.
pub struct ResizeAction<'a, S> {
    pub session: &'a mut S,
    pub size: TerminalSize,
}

impl<S> View for Multiplexer<S> {
    type V = Map<Seq<char>, S>;

    closed spec fn view(&self) -> Map<Seq<char>, S> {
        as_map(self.entries@)
    }
}

impl<S> Multiplexer<S> {
    /// The registry's invariant: no identifier is registered twice.
    pub closed spec fn wf(&self) -> bool {
        distinct_ids(self.entries@)
    }

    /// How many sessions the registry lists under `id`.
    pub closed spec fn sessions_under(&self, id: Seq<char>) -> nat {
        count_id(self.entries@, id)
    }

    /// At most one session is registered under an identifier: one where the
    /// identifier is known, none where it is not.
    pub proof fn lemma_one_session_per_id(&self, id: Seq<char>)
        requires
            self.wf(),
        ensures
            self.sessions_under(id) <= 1,
            self.sessions_under(id) == 1 <==> self@.contains_key(id),
    {
        lemma_count(self.entries@, id);
    }

    /// The registry is finite.
    pub proof fn lemma_finite(&self)
        requires
            self.wf(),
        ensures
            self@.dom().finite(),
    {
        lemma_size(self.entries@);
    }

    /// A registry without sessions.
    pub fn new() -> (mux: Self)
        ensures
            mux.wf(),
            mux@ == Map::<Seq<char>, S>::empty(),
    {
        let mux = Multiplexer { entries: Vec::new() };
        assert(mux@ =~= Map::<Seq<char>, S>::empty());
        mux
    }

    /// Index of the entry that carries `id`.
    fn position(&self, id: &str) -> (found: Option<usize>)
        ensures
            match found {
                Some(i) => i < self.entries@.len() && self.entries@[i as int].id@ == id@,
                None => !holds_id(self.entries@, id@),
            },
    {
        let mut i: usize = 0;
        while i < self.entries.len()
            invariant
                i <= self.entries@.len(),
                forall|j: int| 0 <= j < i ==> self.entries@[j].id@ != id@,
            decreases self.entries@.len() - i,
        {
            if same_text(self.entries[i].id.as_str(), id) {
                return Some(i);
            }
            i += 1;
        }
        None
    }

    /// Whether a session is registered under `id`.
    pub fn contains(&self, id: &str) -> (present: bool)
        ensures
            present == self@.contains_key(id@),
    {
        self.position(id).is_some()
    }

    /// Number of registered sessions.
    pub fn len(&self) -> (count: usize)
        requires
            self.wf(),
        ensures
            self@.dom().finite(),
            count == self@.dom().len(),
    {
        proof {
            lemma_size(self.entries@);
        }
        self.entries.len()
    }

    /// Whether no session is registered.
    pub fn is_empty(&self) -> (empty: bool)
        requires
            self.wf(),
        ensures
            empty == (self@.dom().len() == 0),
            empty == (self@ == Map::<Seq<char>, S>::empty()),
    {
        proof {
            lemma_size(self.entries@);
            if self.entries@.len() == 0 {
                assert(self@ =~= Map::<Seq<char>, S>::empty());
            } else {
                lemma_slot(self.entries@, 0);
            }
        }
        self.entries.len() == 0
    }

    /// First half of opening a session under `id`: frees the identifier and
    /// fixes the size of the new pseudo-terminal. The session that held the
    /// identifier leaves the registry and is handed over for termination; the
    /// requested dimensions are raised to their floors, never refused.
    pub fn begin_open(&mut self, id: &str, cols: u16, rows: u16) -> (plan: OpenPlan<S>)
        requires
            old(self).wf(),
        ensures
            final(self).wf(),
            final(self)@ == after_close(old(self)@, id@),
            plan.evicted == registered(old(self)@, id@),
            plan.size == TerminalSize::opening(cols, rows),
    {
        let evicted = self.close(id);
        OpenPlan { evicted, size: TerminalSize::for_open(cols, rows) }
    }

    /// Second half of opening a session: registers `session` under `id`. A
    /// session that took the identifier in the meantime is replaced and handed
    /// over for termination, so the identifier never names two sessions.
    pub fn finish_open(&mut self, id: String, session: S) -> (displaced: Option<S>)
        requires
            old(self).wf(),
        ensures
            final(self).wf(),
            final(self)@ == after_install(old(self)@, id@, session),
            displaced == registered(old(self)@, id@),
    {
        let displaced = self.close(id.as_str());
        proof {
            assert(!self@.contains_key(id@));
            assert(!holds_id(self.entries@, id@));
            lemma_push(self.entries@, Entry { id, session });
            assert(old(self)@.remove(id@).insert(id@, session) =~= old(self)@.insert(id@, session));
        }
        self.entries.push(Entry { id, session });
        displaced
    }

    /// The session registered under `id`, borrowed for the caller to act on;
    /// the not-found error where there is none.
    pub fn session_mut(&mut self, id: &str) -> (target: Result<&mut S, MuxError>)
        requires
            old(self).wf(),
        ensures
            final(self).wf(),
            match target {
                Ok(session) => lookup(old(self)@, id@) == Ok::<S, MuxError>(*session) && final(self)@
                    == after_install(old(self)@, id@, *final(session)),
                Err(error) => lookup(old(self)@, id@) == Err::<S, MuxError>(error) && final(self)@
                    == old(self)@,
            },
    {
        match self.position(id) {
            Some(i) => {
                proof {
                    lemma_slot(self.entries@, i as int);
                }
                let session = &mut self.entries[i].session;
                proof {
                    lemma_update(old(self).entries@, i as int, *final(session));
                }
                Ok(session)
            },
            None => Err(MuxError::NotFound),
        }
    }

    /// A write of `data` to the session under `id`: the session and the bytes
    /// to send, which are the text's own encoding, unchanged. Fails with the
    /// not-found error where no session is registered.
    pub fn write_request<'a>(&'a mut self, id: &str, data: &'a str) -> (request: Result<
        WriteAction<'a, S>,
        MuxError,
    >)
        requires
            old(self).wf(),
        ensures
            final(self).wf(),
            match request {
                Ok(action) => lookup(old(self)@, id@) == Ok::<S, MuxError>(*action.session)
                    && action.bytes@ == data.spec_bytes() && final(self)@ == after_install(
                    old(self)@,
                    id@,
                    *final(action.session),
                ),
                Err(error) => lookup(old(self)@, id@) == Err::<S, MuxError>(error) && final(self)@
                    == old(self)@,
            },
    {
        match self.session_mut(id) {
            Ok(session) => Ok(WriteAction { session, bytes: data.as_bytes() }),
            Err(error) => Err(error),
        }
    }

    /// A resize of the session under `id`: the session and the size to set,
    /// which is the requested one, unclamped. Fails with the not-found error
    /// where no session is registered.
    pub fn resize_request(&mut self, id: &str, cols: u16, rows: u16) -> (request: Result<
        ResizeAction<'_, S>,
        MuxError,
    >)
        requires
            old(self).wf(),
        ensures
            final(self).wf(),
            match request {
                Ok(action) => lookup(old(self)@, id@) == Ok::<S, MuxError>(*action.session)
                    && action.size == TerminalSize::resizing(cols, rows) && final(self)@
                    == after_install(old(self)@, id@, *final(action.session)),
                Err(error) => lookup(old(self)@, id@) == Err::<S, MuxError>(error) && final(self)@
                    == old(self)@,
            },
    {
        match self.session_mut(id) {
            Ok(session) => Ok(ResizeAction { session, size: TerminalSize::for_resize(cols, rows) }),
            Err(error) => Err(error),
        }
    }

    /// Takes the session registered under `id` out of the registry and hands
    /// it over for termination. An unknown `id` is no error: nothing changes
    /// and nothing is handed over.
    pub fn close(&mut self, id: &str) -> (evicted: Option<S>)
        requires
            old(self).wf(),
        ensures
            final(self).wf(),
            final(self)@ == after_close(old(self)@, id@),
            evicted == registered(old(self)@, id@),
    {
        match self.position(id) {
            Some(i) => {
                proof {
                    lemma_slot(self.entries@, i as int);
                    lemma_remove(self.entries@, i as int);
                }
                let entry = self.entries.remove(i);
                Some(entry.session)
            },
            None => {
                assert(self@ =~= self@.remove(id@));
                None
            },
        }
    }

    /// Empties the registry and hands every session over for termination,
    /// each once, with the identifier it was registered under.
    pub fn teardown(&mut self) -> (drained: Vec<Entry<S>>)
        requires
            old(self).wf(),
        ensures
            final(self).wf(),
            final(self)@ == Map::<Seq<char>, S>::empty(),
            distinct_ids(drained@),
            as_map(drained@) == old(self)@,
    {
        let mut drained: Vec<Entry<S>> = Vec::new();
        std::mem::swap(&mut self.entries, &mut drained);
        assert(self@ =~= Map::<Seq<char>, S>::empty());
        drained
    }
}

} // verus!
