//! Who may touch the store, and when.
//!
//! Any number of readers may hold the store together. A writer holds it
//! alone. A writer that has to wait is queued, and from then on no new reader
//! is let in: the readers that are in leave one by one, and then it is the
//! writer's turn. So a steady stream of readers cannot keep a writer out.
//!
//! The state here only counts. Whoever runs the lock asks it before letting
//! anyone in, tells it when someone leaves, and makes the others wait.

use vstd::prelude::*;

verus! {

/// What can happen at the lock.
#[derive(Clone, Copy, Debug, PartialEq, Eq, Structural)]
pub enum AccessEvent {
    /// A reader asks to be let in.
    RequestRead,
    /// A writer joins the queue.
    QueueWrite,
    /// A queued writer asks to be let in.
    RequestWrite,
    /// A reader leaves.
    ReleaseRead,
    /// The writer leaves.
    ReleaseWrite,
}

/// The state of the lock as contracts see it.
pub struct AccessView {
    /// How many readers hold the store.
    pub readers: nat,
    /// Whether a writer holds the store.
    pub writing: bool,
    /// How many writers wait.
    pub queued: nat,
}

impl AccessView {
    /// Nobody holds the store and nobody waits.
    pub open spec fn initial() -> AccessView {
        AccessView { readers: 0, writing: false, queued: 0 }
    }

    /// A writer is never in together with a reader.
    pub open spec fn exclusive(self) -> bool {
        self.writing ==> self.readers == 0
    }

    /// Whether the event is granted in this state. A request that is not
    /// granted has to be made again later; a release that is not granted was
    /// made by someone who held nothing.
    pub open spec fn grants(self, event: AccessEvent) -> bool {
        match event {
            AccessEvent::RequestRead => !self.writing && self.queued == 0 && self.readers
                < u64::MAX,
            AccessEvent::QueueWrite => self.queued < u64::MAX,
            AccessEvent::RequestWrite => self.queued > 0 && !self.writing && self.readers == 0,
            AccessEvent::ReleaseRead => self.readers > 0,
            AccessEvent::ReleaseWrite => self.writing,
        }
    }

    /// The state after the event. An event that is not granted changes
    /// nothing.
    pub open spec fn next(self, event: AccessEvent) -> AccessView {
        if !self.grants(event) {
            self
        } else {
            match event {
                AccessEvent::RequestRead => AccessView { readers: self.readers + 1, ..self },
                AccessEvent::QueueWrite => AccessView { queued: self.queued + 1, ..self },
                AccessEvent::RequestWrite => AccessView {
                    writing: true,
                    queued: (self.queued - 1) as nat,
                    ..self
                },
                AccessEvent::ReleaseRead => AccessView {
                    readers: (self.readers - 1) as nat,
                    ..self
                },
                AccessEvent::ReleaseWrite => AccessView { writing: false, ..self },
            }
        }
    }

    /// The state after a run of events.
    pub open spec fn after(self, events: Seq<AccessEvent>) -> AccessView
        decreases events.len(),
    {
        if events.len() == 0 {
            self
        } else {
            self.after(events.drop_last()).next(events.last())
        }
    }
}

/// The counters of the lock.
#[derive(Debug)]
pub struct AccessState {
    readers: u64,
    writing: bool,
    queued: u64,
}

impl View for AccessState {
    type V = AccessView;

    closed spec fn view(&self) -> AccessView {
        AccessView { readers: self.readers as nat, writing: self.writing, queued: self.queued as nat }
    }
}

impl AccessState {
    #[verifier::type_invariant]
    spec fn exclusive(&self) -> bool {
        self.writing ==> self.readers == 0
    }

    /// A lock that nobody holds and nobody waits for.
    pub fn new() -> (state: AccessState)
        ensures
            state@ == AccessView::initial(),
    {
        AccessState { readers: 0, writing: false, queued: 0 }
    }

    /// Takes note of an event and says whether it is granted. The state
    /// moves exactly as `AccessView::next` says, and in every state that can
    /// come about a writer is in alone.
    pub fn step(&mut self, event: AccessEvent) -> (granted: bool)
        ensures
            granted == old(self)@.grants(event),
            final(self)@ == old(self)@.next(event),
            old(self)@.exclusive(),
            final(self)@.exclusive(),
    {
        proof {
            use_type_invariant(&*self);
        }
        match event {
            AccessEvent::RequestRead => {
                if !self.writing && self.queued == 0 && self.readers < u64::MAX {
                    self.readers = self.readers + 1;
                    true
                } else {
                    false
                }
            },
            AccessEvent::QueueWrite => {
                if self.queued < u64::MAX {
                    self.queued = self.queued + 1;
                    true
                } else {
                    false
                }
            },
            AccessEvent::RequestWrite => {
                if self.queued > 0 && !self.writing && self.readers == 0 {
                    self.queued = self.queued - 1;
                    self.writing = true;
                    true
                } else {
                    false
                }
            },
            AccessEvent::ReleaseRead => {
                if self.readers > 0 {
                    self.readers = self.readers - 1;
                    true
                } else {
                    false
                }
            },
            AccessEvent::ReleaseWrite => {
                if self.writing {
                    self.writing = false;
                    true
                } else {
                    false
                }
            },
        }
    }

    /// How many readers hold the store.
    pub fn readers(&self) -> (n: u64)
        ensures
            n == self@.readers,
    {
        self.readers
    }

    /// Whether a writer holds the store.
    pub fn is_writing(&self) -> (b: bool)
        ensures
            b == self@.writing,
    {
        self.writing
    }

    /// How many writers wait.
    pub fn queued_writers(&self) -> (n: u64)
        ensures
            n == self@.queued,
    {
        self.queued
    }
}

/// No event lets a reader and a writer be in together.
pub proof fn lemma_step_keeps_exclusion(state: AccessView, event: AccessEvent)
    requires
        state.exclusive(),
    ensures
        state.next(event).exclusive(),
{
}

/// Whatever happens at a lock that started out free, a writer is never in
/// together with a reader.
pub proof fn lemma_exclusion_always(events: Seq<AccessEvent>)
    ensures
        AccessView::initial().after(events).exclusive(),
    decreases events.len(),
{
    if events.len() > 0 {
        lemma_exclusion_always(events.drop_last());
        lemma_step_keeps_exclusion(AccessView::initial().after(events.drop_last()), events.last());
    }
}

/// A reader is let in only while no writer is in, and a writer only while
/// nobody is in; once a writer is in, nobody is let in until it leaves.
pub proof fn lemma_grants_are_exclusive(state: AccessView)
    requires
        state.exclusive(),
    ensures
        state.grants(AccessEvent::RequestRead) ==> !state.writing,
        state.grants(AccessEvent::RequestWrite) ==> !state.writing && state.readers == 0,
        state.writing ==> !state.grants(AccessEvent::RequestRead) && !state.grants(
            AccessEvent::RequestWrite,
        ),
        state.grants(AccessEvent::RequestWrite) ==> {
            let held = state.next(AccessEvent::RequestWrite);
            held.writing && held.readers == 0
        },
{
}

/// While a writer waits, no reader is let in and no event adds a reader.
pub proof fn lemma_queued_writer_holds_readers_back(state: AccessView, event: AccessEvent)
    requires
        state.queued > 0,
    ensures
        !state.grants(AccessEvent::RequestRead),
        state.next(event).readers <= state.readers,
        event != AccessEvent::RequestWrite ==> state.next(event).queued > 0,
{
}

/// The events of `count` readers leaving.
pub open spec fn readers_leave(count: nat) -> Seq<AccessEvent> {
    Seq::new(count, |i: int| AccessEvent::ReleaseRead)
}

/// A queued writer waits for the readers that are in and for nothing else:
/// when the last of them has left, it is let in.
pub proof fn lemma_writer_admitted_after_readers_leave(state: AccessView)
    requires
        state.queued > 0,
        !state.writing,
    ensures
        ({
            let drained = state.after(readers_leave(state.readers));
            &&& drained.readers == 0
            &&& drained.queued == state.queued
            &&& drained.grants(AccessEvent::RequestWrite)
            &&& drained.next(AccessEvent::RequestWrite).writing
        }),
{
    lemma_readers_leaving(state, state.readers);
}

/// After `count` of the readers have left, that many fewer are in and
/// nothing else has changed.
proof fn lemma_readers_leaving(state: AccessView, count: nat)
    requires
        count <= state.readers,
    ensures
        state.after(readers_leave(count)) == (AccessView {
            readers: (state.readers - count) as nat,
            ..state
        }),
    decreases count,
{
    if count > 0 {
        let events = readers_leave(count);
        assert(events.drop_last() =~= readers_leave((count - 1) as nat));
        assert(events.last() == AccessEvent::ReleaseRead);
        lemma_readers_leaving(state, (count - 1) as nat);
    }
}

} // verus!
