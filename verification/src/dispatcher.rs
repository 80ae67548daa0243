//! The connection/message dispatcher: tracks connected peers, in-flight
//! dials with the messages queued behind them, and the send requests not yet
//! routed.  Each send request is either forwarded to a connected peer's
//! handler, stashed behind the dial already in flight for its peer, or
//! triggers the one dial for that peer.
//!
//! Policy notes: a dial failure is reported as an `Error` event and not
//! retried by the dispatcher (a new send request triggers a new dial), and a
//! disconnection drops whatever was still stashed behind a dial for that
//! peer, again leaving the retry to a new send request.

use vstd::prelude::*;

use std::collections::VecDeque;

use crate::base58::{bs58_decode, is_base58_seq};
use crate::error::Error;
use crate::event::{ErrorKind, Event, EventModel, HandshakeMetadata, MessageModel,
    PlainTextMessage};
use crate::peer::{clone_bytes, PeerId};

verus! {

/// A dial in flight: the peer's identifier and the messages waiting for the
/// connection.
pub type DialEntry = (Seq<u8>, Seq<MessageModel>);

/// Mathematical state of the dispatcher.
#[verifier::ext_equal]
pub struct DispatchState {
    /// Send requests not yet routed, in arrival order.
    pub queue: Seq<(Seq<u8>, MessageModel)>,
    /// Peers being dialed, each with its stashed messages, in dial order.
    pub dialing: Seq<DialEntry>,
    /// Peers with a live connection, in connection order, without repeats.
    pub connected: Seq<Seq<u8>>,
    /// Events waiting to be surfaced.
    pub events: Seq<EventModel>,
}

/// Whether a peer list holds `p`.
pub open spec fn has_peer(s: Seq<Seq<u8>>, p: Seq<u8>) -> bool {
    exists|i: int| 0 <= i < s.len() && s[i] == p
}

/// Whether a dial for `p` is in flight.
pub open spec fn has_key(d: Seq<DialEntry>, p: Seq<u8>) -> bool {
    exists|i: int| 0 <= i < d.len() && d[i].0 == p
}

/// Stash one more message behind the dial for `p`.
pub open spec fn stash(d: Seq<DialEntry>, p: Seq<u8>, m: MessageModel) -> Seq<DialEntry> {
    d.map(
        |i: int, e: DialEntry|
            if e.0 == p {
                (e.0, e.1.push(m))
            } else {
                e
            },
    )
}

/// Remove the dial entry for `p`, keeping the order of the others.
pub open spec fn remove_entry(d: Seq<DialEntry>, p: Seq<u8>) -> Seq<DialEntry>
    decreases d.len(),
{
    if d.len() == 0 {
        d
    } else if d[0].0 == p {
        d.drop_first()
    } else {
        seq![d[0]] + remove_entry(d.drop_first(), p)
    }
}

/// The messages stashed behind the dial for `p`.
pub open spec fn entry_msgs(d: Seq<DialEntry>, p: Seq<u8>) -> Seq<MessageModel>
    decreases d.len(),
{
    if d.len() == 0 {
        Seq::empty()
    } else if d[0].0 == p {
        d[0].1
    } else {
        entry_msgs(d.drop_first(), p)
    }
}

/// Remove `p` from a peer list, keeping the order of the others.
pub open spec fn remove_peer(s: Seq<Seq<u8>>, p: Seq<u8>) -> Seq<Seq<u8>>
    decreases s.len(),
{
    if s.len() == 0 {
        s
    } else if s[0] == p {
        s.drop_first()
    } else {
        seq![s[0]] + remove_peer(s.drop_first(), p)
    }
}

/// Mathematical form of a dispatcher action.
pub enum RoutedAction {
    Notify { peer: Seq<u8>, message: MessageModel },
    DialPeer { peer: Seq<u8> },
    Emit { event: EventModel },
}

/// One routing pass: take send requests in order; forward one for a
/// connected peer, stash one for a peer already being dialed, or start the
/// single dial for its peer; with the queue exhausted, surface the next
/// pending event.
pub open spec fn route(s: DispatchState) -> (Option<RoutedAction>, DispatchState)
    decreases s.queue.len(),
{
    if s.queue.len() == 0 {
        if s.events.len() > 0 {
            (
                Some(RoutedAction::Emit { event: s.events[0] }),
                DispatchState { events: s.events.drop_first(), ..s },
            )
        } else {
            (None, s)
        }
    } else {
        let peer = s.queue[0].0;
        let m = s.queue[0].1;
        let rest = DispatchState { queue: s.queue.drop_first(), ..s };
        if has_peer(s.connected, peer) {
            (Some(RoutedAction::Notify { peer, message: m }), rest)
        } else if has_key(s.dialing, peer) {
            route(DispatchState { dialing: stash(s.dialing, peer, m), ..rest })
        } else {
            (
                Some(RoutedAction::DialPeer { peer }),
                DispatchState { dialing: rest.dialing.push((peer, seq![m])), ..rest },
            )
        }
    }
}

/// What the dispatcher asks its surroundings to do next.
pub enum DispatcherAction {
    /// Hand the message to the connected peer's handler.
    NotifyHandler { peer_id: PeerId, message: PlainTextMessage },
    /// Ask the transport to establish a connection to the peer.
    Dial { peer_id: PeerId },
    /// Surface an event to consumers.
    GenerateEvent { event: Event },
}

/// Mathematical form of an action.
pub open spec fn action_model(a: DispatcherAction) -> RoutedAction {
    match a {
        DispatcherAction::NotifyHandler { peer_id, message } => RoutedAction::Notify {
            peer: peer_id@,
            message: message@,
        },
        DispatcherAction::Dial { peer_id } => RoutedAction::DialPeer { peer: peer_id@ },
        DispatcherAction::GenerateEvent { event } => RoutedAction::Emit { event: event@ },
    }
}

/// Network behaviour for private chat: the connection/message dispatcher.
pub struct PrivateChatBehaviour {
    local_metadata: HandshakeMetadata,
    pending_events: VecDeque<Event>,
    pending_messages: VecDeque<(PeerId, PlainTextMessage)>,
    pending_connections: Vec<(PeerId, Vec<PlainTextMessage>)>,
    connected: Vec<PeerId>,
}

impl PrivateChatBehaviour {
    /// Mathematical state.
    pub closed spec fn dstate(&self) -> DispatchState {
        DispatchState {
            queue: self.pending_messages@.map_values(
                |e: (PeerId, PlainTextMessage)| (e.0@, e.1@),
            ),
            dialing: self.pending_connections@.map_values(
                |e: (PeerId, Vec<PlainTextMessage>)|
                    (e.0@, e.1@.map_values(|m: PlainTextMessage| m@)),
            ),
            connected: self.connected@.map_values(|p: PeerId| p@),
            events: self.pending_events@.map_values(|e: Event| e@),
        }
    }

    /// The metadata sent during each connection's handshake.
    pub closed spec fn metadata(&self) -> Seq<u8> {
        self.local_metadata@
    }

    /// At most one dial entry per peer, and no repeated connected peer.
    pub closed spec fn wf(&self) -> bool {
        &&& forall|i: int, j: int|
            0 <= i < j < self.dstate().dialing.len() ==> (#[trigger] self.dstate().dialing[i]).0
                != (#[trigger] self.dstate().dialing[j]).0
        &&& forall|i: int, j: int|
            0 <= i < j < self.dstate().connected.len() ==> #[trigger] self.dstate().connected[i]
                != #[trigger] self.dstate().connected[j]
    }

    /// Create a dispatcher that will hand `local_metadata` to each new
    /// connection handler.
    pub fn new(local_metadata: HandshakeMetadata) -> (r: Self)
        ensures
            r.wf(),
            r.metadata() == local_metadata@,
            r.dstate() == (DispatchState {
                queue: Seq::<(Seq<u8>, MessageModel)>::empty(),
                dialing: Seq::<DialEntry>::empty(),
                connected: Seq::<Seq<u8>>::empty(),
                events: Seq::<EventModel>::empty(),
            }),
    {
        let r = PrivateChatBehaviour {
            local_metadata,
            pending_events: VecDeque::new(),
            pending_messages: VecDeque::new(),
            pending_connections: Vec::new(),
            connected: Vec::new(),
        };
        proof {
            assert(r.dstate() =~= (DispatchState {
                queue: Seq::<(Seq<u8>, MessageModel)>::empty(),
                dialing: Seq::<DialEntry>::empty(),
                connected: Seq::<Seq<u8>>::empty(),
                events: Seq::<EventModel>::empty(),
            }));
        }
        r
    }

    /// A copy of the local handshake metadata, for a new connection handler.
    pub fn handler_metadata(&self) -> (r: HandshakeMetadata)
        ensures
            r@ == self.metadata(),
    {
        self.local_metadata.clone()
    }

    /// Queue a send request.  Fire-and-forget: later failures surface as
    /// `Error` events.  Rejected exactly when the destination identifier is
    /// not Base58 text.
    pub fn send_message(&mut self, message: PlainTextMessage) -> (r: Result<(), Error>)
        requires
            old(self).wf(),
        ensures
            final(self).wf(),
            final(self).metadata() == old(self).metadata(),
            r is Ok <==> is_base58_seq(message@.to),
            r is Ok ==> final(self).dstate() == (DispatchState {
                queue: old(self).dstate().queue.push((message@.to, message@)),
                ..old(self).dstate()
            }),
            r is Err ==> final(self).dstate() == old(self).dstate() && r == Err::<(), Error>(
                Error::Base58,
            ),
    {
        match bs58_decode(message.to.text()) {
            Some(_) => {
                let peer = message.to.clone();
                let ghost pre = self.dstate();
                self.pending_messages.push_back((peer, message));
                proof {
                    assert(self.dstate() =~= (DispatchState {
                        queue: pre.queue.push((message@.to, message@)),
                        ..pre
                    }));
                }
                Ok(())
            },
            None => Err(Error::Base58),
        }
    }

    /// Whether `peer` is in the connected list.
    fn find_connected(&self, peer: &PeerId) -> (r: bool)
        ensures
            r == has_peer(self.dstate().connected, peer@),
    {
        let mut i: usize = 0;
        while i < self.connected.len()
            invariant
                i <= self.connected.len(),
                forall|j: int| 0 <= j < i ==> self.dstate().connected[j] != peer@,
            decreases self.connected.len() - i,
        {
            if self.connected[i].equals(peer) {
                proof {
                    assert(self.dstate().connected[i as int] == peer@);
                }
                return true;
            }
            i = i + 1;
        }
        proof {
            assert(!has_peer(self.dstate().connected, peer@));
        }
        false
    }

    /// The position of the in-flight dial for `peer`, if one exists.
    fn find_dialing(&self, peer: &PeerId) -> (r: Option<usize>)
        ensures
            match r {
                Some(i) => {
                    &&& i < self.dstate().dialing.len()
                    &&& self.dstate().dialing[i as int].0 == peer@
                    &&& forall|j: int| 0 <= j < i ==> self.dstate().dialing[j].0 != peer@
                },
                None => !has_key(self.dstate().dialing, peer@),
            },
    {
        let mut i: usize = 0;
        while i < self.pending_connections.len()
            invariant
                i <= self.pending_connections.len(),
                forall|j: int| 0 <= j < i ==> self.dstate().dialing[j].0 != peer@,
            decreases self.pending_connections.len() - i,
        {
            if self.pending_connections[i].0.equals(peer) {
                proof {
                    assert(self.dstate().dialing[i as int].0 == peer@);
                }
                return Some(i);
            }
            i = i + 1;
        }
        proof {
            assert(!has_key(self.dstate().dialing, peer@));
        }
        None
    }

    /// Route queued send requests and surface pending events.
    pub fn poll(&mut self) -> (r: Option<DispatcherAction>)
        requires
            old(self).wf(),
        ensures
            final(self).wf(),
            final(self).metadata() == old(self).metadata(),
            route(old(self).dstate()).0 == match r {
                Some(a) => Some(action_model(a)),
                None => None::<RoutedAction>,
            },
            final(self).dstate() == route(old(self).dstate()).1,
    {
        loop
            invariant
                self.wf(),
                self.metadata() == old(self).metadata(),
                route(old(self).dstate()) == route(self.dstate()),
            ensures
                self.wf(),
                self.metadata() == old(self).metadata(),
                route(old(self).dstate()) == route(self.dstate()),
                self.dstate().queue.len() == 0,
            decreases self.pending_messages@.len(),
        {
            let ghost cur = self.dstate();
            match self.pending_messages.pop_front() {
                None => {
                    break;
                },
                Some((peer, m)) => {
                    let ghost popped = self.dstate();
                    proof {
                        assert(popped =~= (DispatchState { queue: cur.queue.drop_first(), ..cur }));
                        assert(cur.queue[0] == (peer@, m@));
                    }
                    if self.find_connected(&peer) {
                        proof {
                            assert(route(cur) == (
                                Some(RoutedAction::Notify { peer: peer@, message: m@ }),
                                popped,
                            ));
                        }
                        return Some(DispatcherAction::NotifyHandler { peer_id: peer, message: m });
                    }
                    match self.find_dialing(&peer) {
                        Some(i) => {
                            let mut entry = self.pending_connections.remove(i);
                            entry.1.push(m);
                            self.pending_connections.insert(i, entry);
                            proof {
                                let st = DispatchState {
                                    dialing: stash(popped.dialing, peer@, m@),
                                    ..popped
                                };
                                assert forall|k: int|
                                    0 <= k < self.dstate().dialing.len() implies self.dstate()
                                    .dialing[k] == st.dialing[k] by {
                                    if k != i {
                                        assert(popped.dialing[k].0 != peer@);
                                    }
                                }
                                assert(self.dstate() =~= st);
                                assert(route(cur) == route(self.dstate()));
                            }
                        },
                        None => {
                            let mut v: Vec<PlainTextMessage> = Vec::new();
                            let dial_peer = peer.clone();
                            v.push(m);
                            self.pending_connections.push((peer, v));
                            proof {
                                let st = DispatchState {
                                    dialing: popped.dialing.push((dial_peer@, seq![m@])),
                                    ..popped
                                };
                                assert(v@.map_values(|x: PlainTextMessage| x@) =~= seq![m@]);
                                assert(self.dstate() =~= st);
                                assert(route(cur) == (
                                    Some(RoutedAction::DialPeer { peer: dial_peer@ }),
                                    st,
                                ));
                            }
                            return Some(DispatcherAction::Dial { peer_id: dial_peer });
                        },
                    }
                },
            }
        }
        let ghost cur = self.dstate();
        match self.pending_events.pop_front() {
            Some(event) => {
                proof {
                    assert(cur.events[0] == event@);
                    assert(self.dstate() =~= (DispatchState {
                        events: cur.events.drop_first(),
                        ..cur
                    }));
                }
                Some(DispatcherAction::GenerateEvent { event })
            },
            None => {
                proof {
                    assert(self.dstate() =~= cur);
                }
                None
            },
        }
    }

    /// The transport reports a connection: the peer moves from dialing to
    /// connected, and its stashed messages rejoin the send queue in order.
    pub fn inject_connected(&mut self, peer_id: &PeerId)
        requires
            old(self).wf(),
        ensures
            final(self).wf(),
            final(self).metadata() == old(self).metadata(),
            final(self).dstate() == (DispatchState {
                queue: old(self).dstate().queue + entry_msgs(
                    old(self).dstate().dialing,
                    peer_id@,
                ).map_values(|m: MessageModel| (peer_id@, m)),
                dialing: remove_entry(old(self).dstate().dialing, peer_id@),
                connected: if has_peer(old(self).dstate().connected, peer_id@) {
                    old(self).dstate().connected
                } else {
                    old(self).dstate().connected.push(peer_id@)
                },
                ..old(self).dstate()
            }),
    {
        let ghost pre = self.dstate();
        let msgs: Vec<PlainTextMessage> = match self.find_dialing(peer_id) {
            Some(i) => {
                proof {
                    lemma_remove_entry_at(pre.dialing, peer_id@, i as int);
                }
                let entry = self.pending_connections.remove(i);
                entry.1
            },
            None => {
                proof {
                    lemma_remove_entry_missing(pre.dialing, peer_id@);
                    lemma_entry_msgs_missing(pre.dialing, peer_id@);
                }
                Vec::new()
            },
        };
        proof {
            assert(self.dstate().dialing =~= remove_entry(pre.dialing, peer_id@));
            assert(msgs@.map_values(|m: PlainTextMessage| m@) =~= entry_msgs(
                pre.dialing,
                peer_id@,
            ));
            lemma_remove_entry_unique(pre.dialing, peer_id@);
        }
        let ghost mid = self.dstate();
        let mut k: usize = 0;
        let ghost msgs_model = msgs@.map_values(|m: PlainTextMessage| m@);
        while k < msgs.len()
            invariant
                k <= msgs.len(),
                msgs_model == msgs@.map_values(|m: PlainTextMessage| m@),
                self.wf(),
                self.metadata() == old(self).metadata(),
                self.dstate() == (DispatchState {
                    queue: mid.queue + msgs_model.take(k as int).map_values(
                        |m: MessageModel| (peer_id@, m),
                    ),
                    ..mid
                }),
            decreases msgs.len() - k,
        {
            let ghost before = self.dstate();
            let m = take_message(&msgs, k);
            let ghost mm = m@;
            self.pending_messages.push_back((peer_id.clone(), m));
            proof {
                assert(mm == msgs_model[k as int]);
                assert(self.dstate().queue =~= before.queue.push((peer_id@, mm)));
                assert(self.dstate().dialing =~= before.dialing);
                assert(self.dstate().connected =~= before.connected);
                assert(self.dstate().events =~= before.events);
                assert(msgs_model.take(k + 1) =~= msgs_model.take(k as int).push(mm));
                assert(msgs_model.take(k + 1).map_values(|x: MessageModel| (peer_id@, x))
                    =~= msgs_model.take(k as int).map_values(|x: MessageModel| (peer_id@, x)).push(
                    (peer_id@, mm),
                ));
                assert(before.queue.push((peer_id@, mm)) =~= mid.queue + msgs_model.take(
                    k + 1,
                ).map_values(|x: MessageModel| (peer_id@, x)));
                assert(self.dstate() =~= (DispatchState {
                    queue: mid.queue + msgs_model.take(k + 1).map_values(
                        |x: MessageModel| (peer_id@, x),
                    ),
                    ..mid
                }));
            }
            k = k + 1;
        }
        proof {
            assert(msgs_model.take(msgs_model.len() as int) =~= msgs_model);
        }
        if !self.find_connected(peer_id) {
            let ghost before = self.dstate();
            self.connected.push(peer_id.clone());
            proof {
                assert(self.dstate() =~= (DispatchState {
                    connected: before.connected.push(peer_id@),
                    ..before
                }));
                assert forall|i: int, j: int|
                    0 <= i < j < self.dstate().connected.len() implies (
                #[trigger] self.dstate().connected[i]) != (#[trigger] self.dstate().connected[j])
                    by {
                    if j == self.dstate().connected.len() - 1 {
                        assert(!has_peer(before.connected, peer_id@));
                        assert(before.connected[i] != peer_id@);
                    }
                }
            }
        }
    }

    /// The transport reports a disconnection: the peer leaves the connected
    /// list; anything still stashed behind a dial for it is dropped, and a
    /// new send request is needed to reach the peer again.
    pub fn inject_disconnected(&mut self, peer_id: &PeerId)
        requires
            old(self).wf(),
        ensures
            final(self).wf(),
            final(self).metadata() == old(self).metadata(),
            final(self).dstate() == (DispatchState {
                dialing: remove_entry(old(self).dstate().dialing, peer_id@),
                connected: remove_peer(old(self).dstate().connected, peer_id@),
                ..old(self).dstate()
            }),
    {
        let ghost pre = self.dstate();
        match self.find_dialing(peer_id) {
            Some(i) => {
                proof {
                    lemma_remove_entry_at(pre.dialing, peer_id@, i as int);
                }
                let _ = self.pending_connections.remove(i);
            },
            None => {
                proof {
                    lemma_remove_entry_missing(pre.dialing, peer_id@);
                }
            },
        }
        proof {
            assert(self.dstate().dialing =~= remove_entry(pre.dialing, peer_id@));
            lemma_remove_entry_unique(pre.dialing, peer_id@);
        }
        let ghost mid = self.dstate();
        match self.find_connected_index(peer_id) {
            Some(i) => {
                proof {
                    lemma_remove_peer_at(mid.connected, peer_id@, i as int);
                }
                let _ = self.connected.remove(i);
            },
            None => {
                proof {
                    lemma_remove_peer_missing(mid.connected, peer_id@);
                }
            },
        }
        proof {
            assert(self.dstate().connected =~= remove_peer(mid.connected, peer_id@));
            lemma_remove_peer_unique(mid.connected, peer_id@);
            assert(self.dstate() =~= (DispatchState {
                dialing: remove_entry(pre.dialing, peer_id@),
                connected: remove_peer(pre.connected, peer_id@),
                ..pre
            }));
        }
    }

    /// A dial failed: the dial entry is dropped (its stashed messages with
    /// it) and the failure is surfaced as an `Error` event carrying the
    /// peer's identifier.
    pub fn inject_dial_failure(&mut self, peer_id: &PeerId)
        requires
            old(self).wf(),
        ensures
            final(self).wf(),
            final(self).metadata() == old(self).metadata(),
            final(self).dstate() == (DispatchState {
                dialing: remove_entry(old(self).dstate().dialing, peer_id@),
                events: old(self).dstate().events.push(
                    EventModel::Error { kind: ErrorKind::FailedToDial, detail: peer_id@ },
                ),
                ..old(self).dstate()
            }),
    {
        let ghost pre = self.dstate();
        match self.find_dialing(peer_id) {
            Some(i) => {
                proof {
                    lemma_remove_entry_at(pre.dialing, peer_id@, i as int);
                }
                let _ = self.pending_connections.remove(i);
            },
            None => {
                proof {
                    lemma_remove_entry_missing(pre.dialing, peer_id@);
                }
            },
        }
        let detail = clone_bytes(peer_id.text());
        self.pending_events.push_back(Event::Error { kind: ErrorKind::FailedToDial, detail });
        proof {
            lemma_remove_entry_unique(pre.dialing, peer_id@);
            assert(self.dstate() =~= (DispatchState {
                dialing: remove_entry(pre.dialing, peer_id@),
                events: pre.events.push(
                    EventModel::Error { kind: ErrorKind::FailedToDial, detail: peer_id@ },
                ),
                ..pre
            }));
        }
    }

    /// An event from a connection handler: queue it for consumers.
    pub fn inject_event(&mut self, event: Event)
        requires
            old(self).wf(),
        ensures
            final(self).wf(),
            final(self).metadata() == old(self).metadata(),
            final(self).dstate() == (DispatchState {
                events: old(self).dstate().events.push(event@),
                ..old(self).dstate()
            }),
    {
        let ghost pre = self.dstate();
        self.pending_events.push_back(event);
        proof {
            assert(self.dstate() =~= (DispatchState { events: pre.events.push(event@), ..pre }));
        }
    }

    /// The position of `peer` in the connected list.
    fn find_connected_index(&self, peer: &PeerId) -> (r: Option<usize>)
        ensures
            match r {
                Some(i) => {
                    &&& i < self.dstate().connected.len()
                    &&& self.dstate().connected[i as int] == peer@
                    &&& forall|j: int| 0 <= j < i ==> self.dstate().connected[j] != peer@
                },
                None => !has_peer(self.dstate().connected, peer@),
            },
    {
        let mut i: usize = 0;
        while i < self.connected.len()
            invariant
                i <= self.connected.len(),
                forall|j: int| 0 <= j < i ==> self.dstate().connected[j] != peer@,
            decreases self.connected.len() - i,
        {
            if self.connected[i].equals(peer) {
                proof {
                    assert(self.dstate().connected[i as int] == peer@);
                }
                return Some(i);
            }
            i = i + 1;
        }
        proof {
            assert(!has_peer(self.dstate().connected, peer@));
        }
        None
    }
}

/// Copy the message at `k` out of the vector.
fn take_message(msgs: &Vec<PlainTextMessage>, k: usize) -> (r: PlainTextMessage)
    requires
        k < msgs@.len(),
    ensures
        r@ == msgs@.map_values(|m: PlainTextMessage| m@)[k as int],
{
    let r = msgs[k].clone();
    proof {
        assert(r@ == msgs@.map_values(|m: PlainTextMessage| m@)[k as int]);
    }
    r
}

/// `remove_entry` at the first (and, with unique keys, only) occurrence.
proof fn lemma_remove_entry_at(d: Seq<DialEntry>, p: Seq<u8>, i: int)
    requires
        0 <= i < d.len(),
        d[i].0 == p,
        forall|j: int| 0 <= j < i ==> (#[trigger] d[j]).0 != p,
    ensures
        remove_entry(d, p) == d.subrange(0, i) + d.subrange(i + 1, d.len() as int),
        entry_msgs(d, p) == d[i].1,
    decreases i,
{
    if i == 0 {
        assert(remove_entry(d, p) == d.drop_first());
        assert(d.drop_first() =~= d.subrange(0, 0) + d.subrange(1, d.len() as int));
    } else {
        assert(d[0].0 != p);
        lemma_remove_entry_at(d.drop_first(), p, i - 1);
        assert(d.drop_first().subrange(0, i - 1) =~= d.subrange(1, i));
        assert(d.drop_first().subrange(i, d.len() - 1) =~= d.subrange(i + 1, d.len() as int));
        assert(seq![d[0]] + (d.subrange(1, i) + d.subrange(i + 1, d.len() as int)) =~= d.subrange(
            0,
            i,
        ) + d.subrange(i + 1, d.len() as int));
        assert(d.drop_first()[i - 1] == d[i]);
    }
}

/// Removing a missing key changes nothing.
proof fn lemma_remove_entry_missing(d: Seq<DialEntry>, p: Seq<u8>)
    requires
        !has_key(d, p),
    ensures
        remove_entry(d, p) == d,
    decreases d.len(),
{
    if d.len() > 0 {
        assert(d[0].0 != p);
        assert(forall|i: int| 0 <= i < d.drop_first().len() ==> d.drop_first()[i] == d[i + 1]);
        lemma_remove_entry_missing(d.drop_first(), p);
        assert(seq![d[0]] + d.drop_first() =~= d);
    }
}

/// A missing key stashes no messages.
proof fn lemma_entry_msgs_missing(d: Seq<DialEntry>, p: Seq<u8>)
    requires
        !has_key(d, p),
    ensures
        entry_msgs(d, p) == Seq::<MessageModel>::empty(),
    decreases d.len(),
{
    if d.len() > 0 {
        assert(d[0].0 != p);
        assert(forall|i: int| 0 <= i < d.drop_first().len() ==> d.drop_first()[i] == d[i + 1]);
        lemma_entry_msgs_missing(d.drop_first(), p);
    }
}

/// Removal keeps keys unique and removes the key.
proof fn lemma_remove_entry_unique(d: Seq<DialEntry>, p: Seq<u8>)
    requires
        forall|i: int, j: int|
            0 <= i < j < d.len() ==> (#[trigger] d[i]).0 != (#[trigger] d[j]).0,
    ensures
        !has_key(remove_entry(d, p), p),
        forall|i: int, j: int|
            0 <= i < j < remove_entry(d, p).len() ==> (#[trigger] remove_entry(d, p)[i]).0 != (
            #[trigger] remove_entry(d, p)[j]).0,
    decreases d.len(),
{
    if d.len() > 0 {
        if d[0].0 == p {
            assert(remove_entry(d, p) == d.drop_first());
            assert forall|i: int|
                0 <= i < d.drop_first().len() implies (#[trigger] d.drop_first()[i]).0 != p by {
                assert(d.drop_first()[i] == d[i + 1]);
            }
        } else {
            assert(forall|i: int, j: int|
                0 <= i < j < d.drop_first().len() ==> (#[trigger] d.drop_first()[i]).0 != (
                #[trigger] d.drop_first()[j]).0) by {
                assert(forall|i: int|
                    0 <= i < d.drop_first().len() ==> d.drop_first()[i] == d[i + 1]);
            }
            lemma_remove_entry_unique(d.drop_first(), p);
            let r = seq![d[0]] + remove_entry(d.drop_first(), p);
            assert forall|i: int, j: int|
                0 <= i < j < r.len() implies (#[trigger] r[i]).0 != (#[trigger] r[j]).0 by {
                if i == 0 {
                    lemma_remove_entry_member(d.drop_first(), p, j - 1);
                } else {
                    assert(r[i] == remove_entry(d.drop_first(), p)[i - 1]);
                    assert(r[j] == remove_entry(d.drop_first(), p)[j - 1]);
                }
            }
            assert forall|i: int| 0 <= i < r.len() implies (#[trigger] r[i]).0 != p by {
                if i > 0 {
                    assert(r[i] == remove_entry(d.drop_first(), p)[i - 1]);
                    assert(!has_key(remove_entry(d.drop_first(), p), p));
                }
            }
        }
    }
}

/// Every entry that survives removal was present before.
proof fn lemma_remove_entry_member(d: Seq<DialEntry>, p: Seq<u8>, i: int)
    requires
        0 <= i < remove_entry(d, p).len(),
    ensures
        exists|j: int| 0 <= j < d.len() && d[j] == remove_entry(d, p)[i],
    decreases d.len(),
{
    if d.len() > 0 {
        if d[0].0 == p {
            assert(d[i + 1] == remove_entry(d, p)[i]);
        } else {
            if i == 0 {
                assert(d[0] == remove_entry(d, p)[0]);
            } else {
                lemma_remove_entry_member(d.drop_first(), p, i - 1);
                let j = choose|j: int|
                    0 <= j < d.drop_first().len() && d.drop_first()[j] == remove_entry(
                        d.drop_first(),
                        p,
                    )[i - 1];
                assert(d[j + 1] == remove_entry(d, p)[i]);
            }
        }
    }
}

/// `remove_peer` at the first occurrence.
proof fn lemma_remove_peer_at(s: Seq<Seq<u8>>, p: Seq<u8>, i: int)
    requires
        0 <= i < s.len(),
        s[i] == p,
        forall|j: int| 0 <= j < i ==> s[j] != p,
    ensures
        remove_peer(s, p) == s.subrange(0, i) + s.subrange(i + 1, s.len() as int),
    decreases i,
{
    if i == 0 {
        assert(remove_peer(s, p) == s.drop_first());
        assert(s.drop_first() =~= s.subrange(0, 0) + s.subrange(1, s.len() as int));
    } else {
        assert(s[0] != p);
        lemma_remove_peer_at(s.drop_first(), p, i - 1);
        assert(s.drop_first().subrange(0, i - 1) =~= s.subrange(1, i));
        assert(s.drop_first().subrange(i, s.len() - 1) =~= s.subrange(i + 1, s.len() as int));
        assert(seq![s[0]] + (s.subrange(1, i) + s.subrange(i + 1, s.len() as int)) =~= s.subrange(
            0,
            i,
        ) + s.subrange(i + 1, s.len() as int));
    }
}

/// Removing a missing peer changes nothing.
proof fn lemma_remove_peer_missing(s: Seq<Seq<u8>>, p: Seq<u8>)
    requires
        !has_peer(s, p),
    ensures
        remove_peer(s, p) == s,
    decreases s.len(),
{
    if s.len() > 0 {
        assert(s[0] != p);
        assert(forall|i: int| 0 <= i < s.drop_first().len() ==> s.drop_first()[i] == s[i + 1]);
        lemma_remove_peer_missing(s.drop_first(), p);
        assert(seq![s[0]] + s.drop_first() =~= s);
    }
}

/// Removal keeps the list free of repeats.
proof fn lemma_remove_peer_unique(s: Seq<Seq<u8>>, p: Seq<u8>)
    requires
        forall|i: int, j: int| 0 <= i < j < s.len() ==> s[i] != s[j],
    ensures
        forall|i: int, j: int|
            0 <= i < j < remove_peer(s, p).len() ==> #[trigger] remove_peer(s, p)[i]
                != #[trigger] remove_peer(s, p)[j],
    decreases s.len(),
{
    if s.len() > 0 {
        assert(forall|i: int| 0 <= i < s.drop_first().len() ==> s.drop_first()[i] == s[i + 1]);
        if s[0] == p {
            assert(remove_peer(s, p) == s.drop_first());
        } else {
            lemma_remove_peer_unique(s.drop_first(), p);
            let r = seq![s[0]] + remove_peer(s.drop_first(), p);
            assert forall|i: int, j: int|
                0 <= i < j < r.len() implies #[trigger] r[i] != #[trigger] r[j] by {
                if i == 0 {
                    lemma_remove_peer_member(s.drop_first(), p, j - 1);
                } else {
                    assert(r[i] == remove_peer(s.drop_first(), p)[i - 1]);
                    assert(r[j] == remove_peer(s.drop_first(), p)[j - 1]);
                }
            }
        }
    }
}

/// Every peer that survives removal was present before.
proof fn lemma_remove_peer_member(s: Seq<Seq<u8>>, p: Seq<u8>, i: int)
    requires
        0 <= i < remove_peer(s, p).len(),
    ensures
        exists|j: int| 0 <= j < s.len() && s[j] == remove_peer(s, p)[i],
    decreases s.len(),
{
    if s.len() > 0 {
        if s[0] == p {
            assert(s[i + 1] == remove_peer(s, p)[i]);
        } else {
            if i == 0 {
                assert(s[0] == remove_peer(s, p)[0]);
            } else {
                lemma_remove_peer_member(s.drop_first(), p, i - 1);
                let j = choose|j: int|
                    0 <= j < s.drop_first().len() && s.drop_first()[j] == remove_peer(
                        s.drop_first(),
                        p,
                    )[i - 1];
                assert(s[j + 1] == remove_peer(s, p)[i]);
            }
        }
    }
}

/// The first send request for a peer that is neither connected nor being
/// dialed starts exactly one dial for it.
pub proof fn lemma_first_send_dials(s: DispatchState, p: Seq<u8>, m: MessageModel)
    requires
        s.queue.len() > 0,
        s.queue[0] == (p, m),
        !has_peer(s.connected, p),
        !has_key(s.dialing, p),
    ensures
        route(s).0 == Some(RoutedAction::DialPeer { peer: p }),
        has_key(route(s).1.dialing, p),
{
    let rest = DispatchState { queue: s.queue.drop_first(), ..s };
    let d = rest.dialing.push((p, seq![m]));
    assert(d[d.len() - 1].0 == p);
}

/// While a dial for a peer is in flight, routing never starts another dial
/// for it, and the dial stays in flight: a queued message for a peer being
/// dialed is stashed behind the existing dial.  Together with `poll`'s
/// contract this shows that at most one dial per peer is ever outstanding.
pub proof fn lemma_single_dial(s: DispatchState, p: Seq<u8>)
    requires
        has_key(s.dialing, p),
    ensures
        route(s).0 != Some(RoutedAction::DialPeer { peer: p }),
        has_key(route(s).1.dialing, p),
    decreases s.queue.len(),
{
    if s.queue.len() == 0 {
    } else {
        let peer = s.queue[0].0;
        let m = s.queue[0].1;
        let rest = DispatchState { queue: s.queue.drop_first(), ..s };
        if has_peer(s.connected, peer) {
        } else if has_key(s.dialing, peer) {
            let st = DispatchState { dialing: stash(s.dialing, peer, m), ..rest };
            assert(has_key(st.dialing, p)) by {
                let w = choose|i: int| 0 <= i < s.dialing.len() && s.dialing[i].0 == p;
                assert(st.dialing[w].0 == p);
            }
            lemma_single_dial(st, p);
        } else {
            assert(peer != p);
            assert(has_key(route(s).1.dialing, p)) by {
                let w = choose|i: int| 0 <= i < s.dialing.len() && s.dialing[i].0 == p;
                assert(route(s).1.dialing[w].0 == p);
            }
        }
    }
}

} // verus!
