//! The per-request sandbox lifecycle.
//!
//! One request owns at most one sandbox.  A [`RunSession`] records where in
//! the lifecycle the request stands and only hands out a teardown command
//! from the active state; the trace of box events it accumulates is proved
//! balanced: a finished session created exactly one box and tore exactly
//! that box down, in that order.

use vstd::prelude::*;
use crate::isolate::{cleanup_args, spec_cleanup_args, token_views};

verus! {

/// Where a request stands in its sandbox's lifecycle.
#[derive(Debug, Clone, Copy, PartialEq, Eq, Structural)]
pub enum SessionState {
    /// No box exists yet.
    Fresh,
    /// The box with this id was created and not yet torn down.
    Active(u32),
    /// The box with this id was torn down.
    Finished(u32),
    /// Creating a box failed; there is nothing to tear down.
    Aborted,
}

/// One observable step of the sandbox lifecycle.
#[derive(Debug, Clone, Copy, PartialEq, Eq, Structural)]
pub enum BoxEvent {
    /// A box was created under this id.
    InitOk(u32),
    /// Creating a box failed.
    InitFailed,
    /// The box with this id was torn down.
    Cleanup(u32),
}

/// The lifecycle's transition relation: which event may happen in which
/// state, and where it leads.
pub open spec fn session_step(s: SessionState, e: BoxEvent) -> Option<SessionState> {
    match (s, e) {
        (SessionState::Fresh, BoxEvent::InitOk(id)) => Some(SessionState::Active(id)),
        (SessionState::Fresh, BoxEvent::InitFailed) => Some(SessionState::Aborted),
        (SessionState::Active(id), BoxEvent::Cleanup(id2)) => if id2 == id {
            Some(SessionState::Finished(id))
        } else {
            None
        },
        _ => None,
    }
}

/// Whether `events` is a run of the lifecycle from `s0` to `s1`.
pub open spec fn valid_trace(s0: SessionState, events: Seq<BoxEvent>, s1: SessionState) -> bool
    decreases events.len(),
{
    if events.len() == 0 {
        s0 == s1
    } else {
        match session_step(s0, events[0]) {
            Some(s) => valid_trace(s, events.drop_first(), s1),
            None => false,
        }
    }
}

/// How many box creations a trace holds.
pub open spec fn count_init(events: Seq<BoxEvent>) -> int
    decreases events.len(),
{
    if events.len() == 0 {
        0
    } else {
        (match events[0] {
            BoxEvent::InitOk(_) => 1int,
            _ => 0,
        }) + count_init(events.drop_first())
    }
}

/// How many box teardowns a trace holds.
pub open spec fn count_cleanup(events: Seq<BoxEvent>) -> int
    decreases events.len(),
{
    if events.len() == 0 {
        0
    } else {
        (match events[0] {
            BoxEvent::Cleanup(_) => 1int,
            _ => 0,
        }) + count_cleanup(events.drop_first())
    }
}

/// From the active state, a run to `Finished(id)` creates nothing further
/// and tears down exactly the active box.
proof fn lemma_trace_from_active(id0: u32, events: Seq<BoxEvent>, id: u32)
    requires
        valid_trace(SessionState::Active(id0), events, SessionState::Finished(id)),
    ensures
        id0 == id,
        count_init(events) == 0,
        count_cleanup(events) == 1,
        events.len() == 1 && events[0] == BoxEvent::Cleanup(id),
    decreases events.len(),
{
    assert(events.len() > 0);
    match events[0] {
        BoxEvent::Cleanup(id2) => {
            assert(id2 == id0);
            assert(valid_trace(SessionState::Finished(id0), events.drop_first(), SessionState::Finished(id)));
            lemma_trace_from_finished(id0, events.drop_first(), id);
            assert(count_cleanup(events.drop_first()) == 0);
            assert(count_init(events.drop_first()) == 0);
        },
        _ => {
            assert(false);
        },
    }
}

/// The finished state has no further transitions.
proof fn lemma_trace_from_finished(id0: u32, events: Seq<BoxEvent>, id: u32)
    requires
        valid_trace(SessionState::Finished(id0), events, SessionState::Finished(id)),
    ensures
        id0 == id,
        events.len() == 0,
{
    if events.len() > 0 {
        assert(session_step(SessionState::Finished(id0), events[0]) is None);
    }
}

/// Lifecycle balance: a request that reaches the finished state for box
/// `id` created exactly one box — `id` itself — and tore it down exactly
/// once, afterwards.
pub proof fn lemma_lifecycle_balance(events: Seq<BoxEvent>, id: u32)
    requires
        valid_trace(SessionState::Fresh, events, SessionState::Finished(id)),
    ensures
        count_init(events) == 1,
        count_cleanup(events) == 1,
        events.len() == 2,
        events[0] == BoxEvent::InitOk(id),
        events[1] == BoxEvent::Cleanup(id),
{
    match events[0] {
        BoxEvent::InitOk(id0) => {
            assert(valid_trace(SessionState::Active(id0), events.drop_first(), SessionState::Finished(id)));
            lemma_trace_from_active(id0, events.drop_first(), id);
            assert(events.drop_first()[0] == events[1]);
        },
        BoxEvent::InitFailed => {
            // An aborted session never finishes: no transition leaves `Aborted`.
            let rest = events.drop_first();
            assert(valid_trace(SessionState::Aborted, rest, SessionState::Finished(id)));
            if rest.len() == 0 {
                assert(false);
            } else {
                assert(session_step(SessionState::Aborted, rest[0]) is None);
            }
        },
        BoxEvent::Cleanup(_) => {
            assert(false);
        },
    }
}

/// The other half of lifecycle balance: a request whose box creation failed
/// created nothing and tears nothing down.
pub proof fn lemma_aborted_no_box(events: Seq<BoxEvent>)
    requires
        valid_trace(SessionState::Fresh, events, SessionState::Aborted),
    ensures
        count_init(events) == 0,
        count_cleanup(events) == 0,
        events.len() == 1,
        events[0] == BoxEvent::InitFailed,
{
    assert(events.len() > 0);
    match events[0] {
        BoxEvent::InitFailed => {
            let rest = events.drop_first();
            assert(valid_trace(SessionState::Aborted, rest, SessionState::Aborted));
            if rest.len() > 0 {
                assert(session_step(SessionState::Aborted, rest[0]) is None);
            }
            assert(count_init(rest) == 0);
            assert(count_cleanup(rest) == 0);
        },
        BoxEvent::InitOk(id0) => {
            // Once a box is active, the lifecycle can only move through a
            // teardown to the finished state; it never reaches `Aborted`.
            let rest = events.drop_first();
            assert(valid_trace(SessionState::Active(id0), rest, SessionState::Aborted));
            assert(rest.len() > 0);
            match rest[0] {
                BoxEvent::Cleanup(_) => {
                    let rest2 = rest.drop_first();
                    assert(valid_trace(SessionState::Finished(id0), rest2, SessionState::Aborted));
                    assert(rest2.len() > 0);
                    assert(session_step(SessionState::Finished(id0), rest2[0]) is None);
                    assert(false);
                },
                _ => {
                    assert(false);
                },
            }
        },
        BoxEvent::Cleanup(_) => {
            assert(false);
        },
    }
}

/// The lifecycle tracker a request drives.  The events field records what
/// happened; every method keeps the trace valid.
pub struct RunSession {
    pub state: SessionState,
    pub events: Ghost<Seq<BoxEvent>>,
}

impl RunSession {
    /// The trace recorded so far is a valid run ending in the current state.
    pub open spec fn wf(&self) -> bool {
        valid_trace(SessionState::Fresh, self.events@, self.state)
    }

    /// A session that has done nothing yet.
    pub fn new() -> (r: RunSession)
        ensures
            r.state == SessionState::Fresh,
            r.events@ == Seq::<BoxEvent>::empty(),
            r.wf(),
    {
        RunSession { state: SessionState::Fresh, events: Ghost(Seq::empty()) }
    }

    /// Records that the box with this id was created.
    pub fn note_init_ok(&mut self, box_id: u32)
        requires
            old(self).state == SessionState::Fresh,
            old(self).wf(),
        ensures
            final(self).state == SessionState::Active(box_id),
            final(self).events@ == old(self).events@.push(BoxEvent::InitOk(box_id)),
            final(self).wf(),
    {
        proof {
            lemma_valid_trace_push(
                self.events@,
                self.state,
                BoxEvent::InitOk(box_id),
                SessionState::Active(box_id),
            );
        }
        self.state = SessionState::Active(box_id);
        self.events = Ghost(self.events@.push(BoxEvent::InitOk(box_id)));
    }

    /// Records that creating a box failed; the session is over with nothing
    /// to tear down.
    pub fn note_init_failed(&mut self)
        requires
            old(self).state == SessionState::Fresh,
            old(self).wf(),
        ensures
            final(self).state == SessionState::Aborted,
            final(self).events@ == old(self).events@.push(BoxEvent::InitFailed),
            final(self).wf(),
    {
        proof {
            lemma_valid_trace_push(
                self.events@,
                self.state,
                BoxEvent::InitFailed,
                SessionState::Aborted,
            );
        }
        self.state = SessionState::Aborted;
        self.events = Ghost(self.events@.push(BoxEvent::InitFailed));
    }

    /// Finishes the session: hands out the argument vector that tears the
    /// active box down, exactly once.
    pub fn finish(&mut self) -> (args: Vec<Vec<u8>>)
        requires
            old(self).state matches SessionState::Active(_),
            old(self).wf(),
        ensures
            ({
                let id = old(self).state->Active_0;
                &&& final(self).state == SessionState::Finished(id)
                &&& final(self).events@ == old(self).events@.push(BoxEvent::Cleanup(id))
                &&& final(self).wf()
                &&& token_views(args@) == spec_cleanup_args(id)
            }),
    {
        let id = match self.state {
            SessionState::Active(id) => id,
            _ => 0,
        };
        proof {
            lemma_valid_trace_push(
                self.events@,
                self.state,
                BoxEvent::Cleanup(id),
                SessionState::Finished(id),
            );
        }
        self.state = SessionState::Finished(id);
        self.events = Ghost(self.events@.push(BoxEvent::Cleanup(id)));
        cleanup_args(id)
    }
}

/// A valid trace extends by any permitted step.
proof fn lemma_valid_trace_push(events: Seq<BoxEvent>, s1: SessionState, e: BoxEvent, s2: SessionState)
    requires
        valid_trace(SessionState::Fresh, events, s1),
        session_step(s1, e) == Some(s2),
    ensures
        valid_trace(SessionState::Fresh, events.push(e), s2),
{
    lemma_valid_trace_push_from(SessionState::Fresh, events, s1, e, s2);
}

proof fn lemma_valid_trace_push_from(
    s0: SessionState,
    events: Seq<BoxEvent>,
    s1: SessionState,
    e: BoxEvent,
    s2: SessionState,
)
    requires
        valid_trace(s0, events, s1),
        session_step(s1, e) == Some(s2),
    ensures
        valid_trace(s0, events.push(e), s2),
    decreases events.len(),
{
    if events.len() == 0 {
        assert(events.push(e)[0] == e);
        assert(events.push(e).drop_first() =~= Seq::<BoxEvent>::empty());
        assert(valid_trace(s2, events.push(e).drop_first(), s2));
    } else {
        let s = session_step(s0, events[0])->Some_0;
        lemma_valid_trace_push_from(s, events.drop_first(), s1, e, s2);
        assert(events.push(e)[0] == events[0]);
        assert(events.push(e).drop_first() =~= events.drop_first().push(e));
    }
}

} // verus!
