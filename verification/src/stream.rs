//! Per-consumer event stream adapters: a cursor into the reactor plus a
//! local buffer.  Each poll either yields the next event, drains newly
//! available events, or registers a wake token and reports that nothing is
//! ready.  The asynchronous plumbing around these steps lives with the
//! caller.

use vstd::prelude::*;

use std::collections::VecDeque;

use crate::event::{Event, EventModel};
use crate::reactor::Reactor;

verus! {

/// Where a consumer resumes reading: at its own cursor, or at the oldest
/// retrievable event when the ring has overwritten part of its backlog.
/// Skipping to the oldest survivor is the documented exception to the
/// no-skip rule, for consumers slower than the ring.
pub open spec fn resume_point(cursor: int, total: int, cap: int) -> int {
    if total - cursor > cap {
        total - cap
    } else {
        cursor
    }
}

/// A restartable, order-preserving consumer of the reactor's events that
/// begins at the start of the event history.
pub struct EventStream {
    top: usize,
    buffer: VecDeque<Event>,
}

impl EventStream {
    /// How many events of the global sequence this consumer has taken or
    /// buffered.
    pub closed spec fn cursor(&self) -> int {
        self.top as int
    }

    /// Models of the locally buffered, not yet yielded events.
    pub closed spec fn buf(&self) -> Seq<EventModel> {
        self.buffer@.map_values(|e: Event| e@)
    }

    pub fn new() -> (r: Self)
        ensures
            r.cursor() == 0,
            r.buf() == Seq::<EventModel>::empty(),
    {
        let r = EventStream { top: 0, buffer: VecDeque::new() };
        proof {
            assert(r.buf() =~= Seq::<EventModel>::empty());
        }
        r
    }

    /// One poll step.  Yields the next buffered event if any; otherwise
    /// drains newly available events from the reactor (skipping to the
    /// oldest survivor when overwritten) and yields the first; otherwise
    /// registers `waker` and reports `None`.
    pub fn poll_next<W>(&mut self, reactor: &mut Reactor<W>, waker: W) -> (r: Option<Event>)
        requires
            old(reactor).wf(),
            old(self).cursor() <= old(reactor).count(),
        ensures
            final(reactor).wf(),
            final(reactor).hist() == old(reactor).hist(),
            final(reactor).count() == old(reactor).count(),
            final(self).cursor() <= final(reactor).count(),
            match r {
                Some(e) => {
                    &&& final(reactor).subs() == old(reactor).subs()
                    &&& if old(self).buf().len() > 0 {
                        &&& e@ == old(self).buf()[0]
                        &&& final(self).buf() == old(self).buf().drop_first()
                        &&& final(self).cursor() == old(self).cursor()
                    } else {
                        &&& old(self).cursor() < old(reactor).count()
                        &&& e@ == old(reactor).hist()[resume_point(
                            old(self).cursor(),
                            old(reactor).count(),
                            old(reactor).cap(),
                        )]
                        &&& final(self).buf() == old(reactor).hist().subrange(
                            resume_point(
                                old(self).cursor(),
                                old(reactor).count(),
                                old(reactor).cap(),
                            ) + 1,
                            old(reactor).count(),
                        )
                        &&& final(self).cursor() == old(reactor).count()
                    }
                },
                None => {
                    &&& old(self).buf().len() == 0
                    &&& old(self).cursor() == old(reactor).count()
                    &&& final(self).cursor() == old(self).cursor()
                    &&& final(self).buf() == old(self).buf()
                    &&& final(reactor).subs() == old(reactor).subs().push(waker)
                },
            },
    {
        poll_step(&mut self.top, &mut self.buffer, reactor, waker)
    }
}

/// A consumer that starts at the present: its cursor is fixed to the
/// reactor's total on the first poll, so it only observes events pushed
/// after it subscribed.
pub struct NetworkEventStream {
    reactor_cursor: Option<usize>,
    buffer: VecDeque<Event>,
}

impl NetworkEventStream {
    /// The cursor, once the first poll has anchored it.
    pub closed spec fn cursor(&self) -> Option<int> {
        match self.reactor_cursor {
            Some(c) => Some(c as int),
            None => None,
        }
    }

    /// Models of the locally buffered, not yet yielded events.
    pub closed spec fn buf(&self) -> Seq<EventModel> {
        self.buffer@.map_values(|e: Event| e@)
    }

    pub fn new() -> (r: Self)
        ensures
            r.cursor() is None,
            r.buf() == Seq::<EventModel>::empty(),
    {
        let r = NetworkEventStream { reactor_cursor: None, buffer: VecDeque::new() };
        proof {
            assert(r.buf() =~= Seq::<EventModel>::empty());
        }
        r
    }

    /// One poll step.  The first poll anchors the cursor at the present and
    /// registers `waker`; later polls behave like [`EventStream::poll_next`].
    pub fn poll_next<W>(&mut self, reactor: &mut Reactor<W>, waker: W) -> (r: Option<Event>)
        requires
            old(reactor).wf(),
            match old(self).cursor() {
                Some(c) => c <= old(reactor).count(),
                None => true,
            },
        ensures
            final(reactor).wf(),
            final(reactor).hist() == old(reactor).hist(),
            final(reactor).count() == old(reactor).count(),
            old(self).cursor() is None ==> {
                &&& r is None
                &&& final(self).cursor() == Some(old(reactor).count())
                &&& final(self).buf() == old(self).buf()
                &&& final(reactor).subs() == old(reactor).subs().push(waker)
            },
            old(self).cursor() matches Some(cur) ==> match r {
                Some(e) => {
                    &&& final(reactor).subs() == old(reactor).subs()
                    &&& if old(self).buf().len() > 0 {
                        &&& e@ == old(self).buf()[0]
                        &&& final(self).buf() == old(self).buf().drop_first()
                        &&& final(self).cursor() == old(self).cursor()
                    } else {
                        &&& cur < old(reactor).count()
                        &&& e@ == old(reactor).hist()[resume_point(
                            cur,
                            old(reactor).count(),
                            old(reactor).cap(),
                        )]
                        &&& final(self).buf() == old(reactor).hist().subrange(
                            resume_point(cur, old(reactor).count(), old(reactor).cap()) + 1,
                            old(reactor).count(),
                        )
                        &&& final(self).cursor() == Some(old(reactor).count())
                    }
                },
                None => {
                    &&& old(self).buf().len() == 0
                    &&& cur == old(reactor).count()
                    &&& final(self).cursor() == old(self).cursor()
                    &&& final(self).buf() == old(self).buf()
                    &&& final(reactor).subs() == old(reactor).subs().push(waker)
                },
            },
    {
        match self.reactor_cursor {
            None => {
                let total = reactor.total();
                reactor.subscribe(waker);
                self.reactor_cursor = Some(total);
                None
            },
            Some(mut cur) => {
                let r = poll_step(&mut cur, &mut self.buffer, reactor, waker);
                self.reactor_cursor = Some(cur);
                r
            },
        }
    }
}

/// Shared poll logic over a bare cursor and buffer.
fn poll_step<W>(
    top: &mut usize,
    buffer: &mut VecDeque<Event>,
    reactor: &mut Reactor<W>,
    waker: W,
) -> (r: Option<Event>)
    requires
        old(reactor).wf(),
        *old(top) <= old(reactor).count(),
    ensures
        final(reactor).wf(),
        final(reactor).hist() == old(reactor).hist(),
        final(reactor).count() == old(reactor).count(),
        *final(top) <= final(reactor).count(),
        match r {
            Some(e) => {
                &&& final(reactor).subs() == old(reactor).subs()
                &&& if old(buffer)@.len() > 0 {
                    &&& e@ == old(buffer)@.map_values(|x: Event| x@)[0]
                    &&& final(buffer)@.map_values(|x: Event| x@) == old(buffer)@.map_values(
                        |x: Event| x@,
                    ).drop_first()
                    &&& *final(top) == *old(top)
                } else {
                    &&& *old(top) < old(reactor).count()
                    &&& e@ == old(reactor).hist()[resume_point(
                        *old(top) as int,
                        old(reactor).count(),
                        old(reactor).cap(),
                    )]
                    &&& final(buffer)@.map_values(|x: Event| x@) == old(reactor).hist().subrange(
                        resume_point(*old(top) as int, old(reactor).count(), old(reactor).cap())
                            + 1,
                        old(reactor).count(),
                    )
                    &&& *final(top) == old(reactor).count()
                }
            },
            None => {
                &&& old(buffer)@.len() == 0
                &&& *old(top) == old(reactor).count()
                &&& *final(top) == *old(top)
                &&& final(buffer)@ == old(buffer)@
                &&& final(reactor).subs() == old(reactor).subs().push(waker)
            },
        },
{
    proof {
        reactor.lemma_hist_len();
    }
    match buffer.pop_front() {
        Some(e) => {
            proof {
                assert(buffer@.map_values(|x: Event| x@) =~= old(buffer)@.map_values(
                    |x: Event| x@,
                ).drop_first());
                assert(old(buffer)@.map_values(|x: Event| x@)[0] == old(buffer)@[0]@);
            }
            return Some(e);
        },
        None => {
        },
    }
    let total = reactor.total();
    if *top == total {
        reactor.subscribe(waker);
        return None;
    }
    let cap = reactor.capacity();
    let start = if total - *top > cap {
        total - cap
    } else {
        *top
    };
    let mut idx = start;
    proof {
        reactor.lemma_hist_len();
        assert(start < total);
    }
    while idx < total
        invariant
            reactor.wf(),
            start < total,
            reactor.hist().len() == reactor.count(),
            start <= idx <= total,
            total == reactor.count(),
            total - start <= reactor.cap(),
            reactor.hist() == old(reactor).hist(),
            reactor.subs() == old(reactor).subs(),
            buffer@.len() == idx - start,
            forall|k: int|
                0 <= k < buffer@.len() ==> (#[trigger] buffer@[k])@ == reactor.hist()[start + k],
        decreases total - idx,
    {
        match reactor.get_event(idx) {
            Some(e) => {
                let ev = e.clone();
                let ghost evm = ev@;
                proof {
                    assert(evm == reactor.hist()[idx as int]);
                }
                buffer.push_back(ev);
            },
            None => {
                proof {
                    assert(false);
                }
            },
        }
        idx = idx + 1;
    }
    *top = total;
    match buffer.pop_front() {
        Some(e) => {
            proof {
                let m = buffer@.map_values(|x: Event| x@);
                let sub = old(reactor).hist().subrange(start + 1, total as int);
                assert forall|k: int| 0 <= k < m.len() implies m[k] == sub[k] by {
                    assert(m[k] == buffer@[k]@);
                }
                assert(m =~= sub);
            }
            Some(e)
        },
        None => {
            proof {
                assert(false);
            }
            None
        },
    }
}

} // verus!
