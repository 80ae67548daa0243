//! The event reactor: a bounded ring of events plus a one-shot list of
//! consumer wake tokens.  It is an explicitly constructed instance that the
//! owner shares behind its own lock; pushing an event returns the tokens to
//! wake after the lock is released.

use vstd::prelude::*;

use crate::event::{Event, EventModel};
use crate::ring::RingVec;

verus! {

/// How many recent events stay retrievable.
pub const BUFFER_SIZE: usize = 32;

/// Why a drain could not be answered.
#[derive(Clone, Copy, PartialEq, Eq, Structural, Debug)]
pub enum DrainError {
    /// The cursor lies before the retrievable window: events from it on have
    /// been overwritten.  `oldest` is the first cursor still answerable.
    Stale { oldest: usize },
    /// The cursor lies beyond the number of events ever pushed.
    Ahead,
}

/// Holds incoming events and the wake tokens of suspended consumers.  The
/// token type is the consumer's business; the reactor only stores and
/// returns tokens.
pub struct Reactor<W> {
    events: RingVec<Event>,
    wakers: Vec<W>,
}

impl<W> Reactor<W> {
    /// Models of all events ever pushed, oldest first.
    pub closed spec fn hist(&self) -> Seq<EventModel> {
        self.events.history().map_values(|e: Event| e@)
    }

    /// Number of events ever pushed.
    pub closed spec fn count(&self) -> int {
        self.events.total()
    }

    /// Capacity of the ring.
    pub closed spec fn cap(&self) -> int {
        self.events.capacity()
    }

    /// Wake tokens registered since the last push.
    pub closed spec fn subs(&self) -> Seq<W> {
        self.wakers@
    }

    pub closed spec fn wf(&self) -> bool {
        &&& self.events.wf()
        &&& self.cap() == BUFFER_SIZE
    }

    /// The history is as long as the count of pushes.
    pub proof fn lemma_hist_len(&self)
        requires
            self.wf(),
        ensures
            self.hist().len() == self.count(),
            self.cap() == BUFFER_SIZE,
    {
        self.events.lemma_history_len();
    }

    /// A cursor whose events have been partly overwritten.
    pub open spec fn cursor_stale(&self, cursor: int) -> bool {
        cursor < self.count() - self.cap()
    }

    pub fn new() -> (r: Self)
        ensures
            r.wf(),
            r.count() == 0,
            r.hist() == Seq::<EventModel>::empty(),
            r.subs() == Seq::<W>::empty(),
    {
        let r = Reactor { events: RingVec::new(BUFFER_SIZE), wakers: Vec::new() };
        proof {
            assert(r.hist() =~= Seq::<EventModel>::empty());
            assert(r.subs() =~= Seq::<W>::empty());
        }
        r
    }

    /// Register a wake token, to be returned (once) by the next push.
    pub fn subscribe(&mut self, waker: W)
        requires
            old(self).wf(),
        ensures
            final(self).wf(),
            final(self).subs() == old(self).subs().push(waker),
            final(self).hist() == old(self).hist(),
            final(self).count() == old(self).count(),
    {
        self.wakers.push(waker);
    }

    /// Older name for [`Self::subscribe`].
    pub fn register(&mut self, waker: W)
        requires
            old(self).wf(),
        ensures
            final(self).wf(),
            final(self).subs() == old(self).subs().push(waker),
            final(self).hist() == old(self).hist(),
            final(self).count() == old(self).count(),
    {
        self.subscribe(waker);
    }

    /// Append an event to the ring, overwriting the oldest slot once the
    /// capacity is reached.
    pub fn push_event(&mut self, event: Event)
        requires
            old(self).wf(),
            old(self).count() < usize::MAX,
        ensures
            final(self).wf(),
            final(self).hist() == old(self).hist().push(event@),
            final(self).count() == old(self).count() + 1,
            final(self).subs() == old(self).subs(),
    {
        let ghost pre = self.events.history();
        self.events.push(event);
        proof {
            old(self).events.lemma_history_len();
            assert(self.hist() =~= old(self).hist().push(event@));
        }
    }

    /// Hand out the registered wake tokens and clear the list; consumers
    /// must re-register to be woken again.
    pub fn take_wakers(&mut self) -> (r: Vec<W>)
        requires
            old(self).wf(),
        ensures
            final(self).wf(),
            r@ == old(self).subs(),
            final(self).subs() == Seq::<W>::empty(),
            final(self).hist() == old(self).hist(),
            final(self).count() == old(self).count(),
    {
        let mut out: Vec<W> = Vec::new();
        core::mem::swap(&mut out, &mut self.wakers);
        proof {
            assert(self.subs() =~= Seq::<W>::empty());
        }
        out
    }

    /// Number of events ever pushed.
    pub fn total(&self) -> (r: usize)
        requires
            self.wf(),
        ensures
            r == self.count(),
    {
        self.events.total_exec()
    }

    /// Older name for [`Self::total`].
    pub fn top(&self) -> (r: usize)
        requires
            self.wf(),
        ensures
            r == self.count(),
    {
        self.total()
    }

    /// The ring's capacity.
    pub fn capacity(&self) -> (r: usize)
        requires
            self.wf(),
        ensures
            r == self.cap(),
    {
        self.events.capacity_exec()
    }

    /// The event with global number `idx`, while its slot survives.
    pub fn get_event(&self, idx: usize) -> (r: Option<&Event>)
        requires
            self.wf(),
        ensures
            match r {
                Some(e) => {
                    &&& self.count() - self.cap() <= idx < self.count()
                    &&& e@ == self.hist()[idx as int]
                },
                None => idx >= self.count() || self.cursor_stale(idx as int),
            },
    {
        proof {
            self.events.lemma_history_len();
        }
        let r = self.events.get(idx);
        proof {
            if r is Some {
                assert(self.hist()[idx as int] == self.events.history()[idx as int]@);
            }
        }
        r
    }

    /// All events from `cursor` up to the present, with the new cursor.  A
    /// cursor outside the retrievable window is refused: overwritten events
    /// are reported as such, never silently replaced by newer ones.
    pub fn drain_from(&self, cursor: usize) -> (r: Result<(Vec<Event>, usize), DrainError>)
        requires
            self.wf(),
        ensures
            match r {
                Ok(p) => {
                    &&& cursor <= self.count()
                    &&& !self.cursor_stale(cursor as int)
                    &&& p.0@.map_values(|e: Event| e@) == self.hist().subrange(
                        cursor as int,
                        self.count(),
                    )
                    &&& p.1 == self.count()
                },
                Err(DrainError::Ahead) => cursor > self.count(),
                Err(DrainError::Stale { oldest }) => {
                    &&& self.cursor_stale(cursor as int)
                    &&& oldest == self.count() - self.cap()
                },
            },
    {
        proof {
            self.events.lemma_history_len();
        }
        let total = self.events.total_exec();
        let cap = self.events.capacity_exec();
        if cursor > total {
            return Err(DrainError::Ahead);
        }
        if total - cursor > cap {
            return Err(DrainError::Stale { oldest: total - cap });
        }
        let mut out: Vec<Event> = Vec::new();
        let mut idx = cursor;
        while idx < total
            invariant
                self.wf(),
                self.hist().len() == self.count(),
                cursor <= idx <= total,
                total == self.count(),
                total - cursor <= self.cap(),
                out@.len() == idx - cursor,
                forall|k: int|
                    0 <= k < out@.len() ==> (#[trigger] out@[k])@ == self.hist()[cursor + k],
            decreases total - idx,
        {
            match self.events.get(idx) {
                Some(e) => {
                    let ev = e.clone();
                    let ghost evm = ev@;
                    proof {
                        assert(self.hist()[idx as int] == self.events.history()[idx as int]@);
                        assert(evm == self.hist()[idx as int]);
                    }
                    out.push(ev);
                },
                None => {
                    proof {
                        assert(false);
                    }
                },
            }
            idx = idx + 1;
        }
        proof {
            let m = out@.map_values(|x: Event| x@);
            let sub = self.hist().subrange(cursor as int, self.count());
            assert forall|k: int| 0 <= k < m.len() implies m[k] == sub[k] by {
                assert(m[k] == out@[k]@);
                assert(out@[k]@ == self.hist()[cursor + k]);
            }
            assert(m =~= sub);
        }
        Ok((out, total))
    }
}

/// Push an event and collect the wake tokens to fire: the reactor's owner
/// calls this under its lock and wakes the returned tokens after releasing
/// it.
pub fn event_callback<W>(reactor: &mut Reactor<W>, event: Event) -> (r: Vec<W>)
    requires
        old(reactor).wf(),
        old(reactor).count() < usize::MAX,
    ensures
        final(reactor).wf(),
        final(reactor).hist() == old(reactor).hist().push(event@),
        final(reactor).count() == old(reactor).count() + 1,
        final(reactor).subs() == Seq::<W>::empty(),
        r@ == old(reactor).subs(),
{
    reactor.push_event(event);
    reactor.take_wakers()
}

/// Once more events than the capacity have been pushed, the origin cursor is
/// stale: a drain from it is refused instead of being answered with the
/// surviving, newer slots.
pub proof fn lemma_overflow_stales_origin<W>(r: Reactor<W>)
    requires
        r.wf(),
        r.count() > r.cap(),
    ensures
        r.cursor_stale(0),
{
}

} // verus!
