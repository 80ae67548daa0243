//! Peer discovery handling: de-duplicating discovery reports and deciding
//! which side dials when two peers find each other at once.

use vstd::prelude::*;

use crate::dispatcher::has_peer;
use crate::event::{Event, EventModel};
use crate::peer::{lex_lt, PeerId};

verus! {

/// When two peers discover each other simultaneously, only the peer with
/// the lexicographically smaller identifier initiates the dial; the other
/// waits to be dialed.
pub fn should_initiate(local: &PeerId, remote: &PeerId) -> (r: bool)
    ensures
        r == lex_lt(local@, remote@),
{
    local.lt(remote)
}

/// First occurrence of each identifier, in order of first appearance.
pub open spec fn dedup(s: Seq<Seq<u8>>) -> Seq<Seq<u8>>
    decreases s.len(),
{
    if s.len() == 0 {
        s
    } else if has_peer(s.drop_last(), s.last()) {
        dedup(s.drop_last())
    } else {
        dedup(s.drop_last()).push(s.last())
    }
}

/// The discovery (or expiry) event for one peer.
pub open spec fn discovery_event(peer: Seq<u8>, gone: bool) -> EventModel {
    if gone {
        EventModel::PeerGone { peer_id: peer }
    } else {
        EventModel::PeerDiscovered { peer_id: peer }
    }
}

/// A batch of discovered (or, with `gone`, expired) addresses can name the
/// same peer several times; each distinct peer yields exactly one event, in
/// order of first appearance.
pub fn discovery_events(peers: &Vec<PeerId>, gone: bool) -> (r: Vec<Event>)
    ensures
        r@.map_values(|e: Event| e@) == dedup(peers@.map_values(|p: PeerId| p@)).map_values(
            |p: Seq<u8>| discovery_event(p, gone),
        ),
{
    let ghost all = peers@.map_values(|p: PeerId| p@);
    let mut out: Vec<Event> = Vec::new();
    let mut seen: Vec<PeerId> = Vec::new();
    let mut i: usize = 0;
    while i < peers.len()
        invariant
            i <= peers.len(),
            all == peers@.map_values(|p: PeerId| p@),
            seen@.map_values(|p: PeerId| p@) == dedup(all.take(i as int)),
            out@.map_values(|e: Event| e@) == dedup(all.take(i as int)).map_values(
                |p: Seq<u8>| discovery_event(p, gone),
            ),
        decreases peers.len() - i,
    {
        let p = &peers[i];
        let ghost pre_seen = seen@.map_values(|q: PeerId| q@);
        let mut found = false;
        let mut k: usize = 0;
        while k < seen.len()
            invariant
                k <= seen.len(),
                pre_seen == seen@.map_values(|q: PeerId| q@),
                found <==> exists|j: int| 0 <= j < k && pre_seen[j] == p@,
            decreases seen.len() - k,
        {
            if seen[k].equals(p) {
                proof {
                    assert(pre_seen[k as int] == p@);
                }
                found = true;
            }
            k = k + 1;
        }
        proof {
            assert(found == has_peer(pre_seen, p@));
            lemma_dedup_membership(all.take(i as int), p@);
            assert(all.take(i + 1).drop_last() =~= all.take(i as int));
            assert(all.take(i + 1).last() == all[i as int]);
            assert(all[i as int] == p@);
        }
        if !found {
            let ev = if gone {
                Event::PeerGone { peer_id: p.clone() }
            } else {
                Event::PeerDiscovered { peer_id: p.clone() }
            };
            let ghost evm = ev@;
            let ghost pre_out = out@;
            let ghost pre_dd = dedup(all.take(i as int));
            out.push(ev);
            seen.push(p.clone());
            proof {
                assert(evm == discovery_event(p@, gone));
                assert(!has_peer(all.take(i as int), p@));
                assert(dedup(all.take(i + 1)) == pre_dd.push(p@));
                assert(seen@.map_values(|q: PeerId| q@) =~= dedup(all.take(i + 1)));
                let outm = out@.map_values(|e: Event| e@);
                let target = dedup(all.take(i + 1)).map_values(
                    |q: Seq<u8>| discovery_event(q, gone),
                );
                assert(pre_out.len() == pre_dd.len()) by {
                    assert(pre_out.map_values(|e: Event| e@).len() == pre_dd.map_values(
                        |q: Seq<u8>| discovery_event(q, gone),
                    ).len());
                }
                assert(outm.len() == target.len());
                assert forall|k: int| 0 <= k < outm.len() implies outm[k] == target[k] by {
                    assert(outm[k] == out@[k]@);
                    assert(target[k] == discovery_event(dedup(all.take(i + 1))[k], gone));
                    if k < pre_out.len() {
                        assert(out@[k] == pre_out[k]);
                        assert(pre_out.map_values(|e: Event| e@)[k] == pre_out[k]@);
                        assert(pre_dd.map_values(|q: Seq<u8>| discovery_event(q, gone))[k]
                            == discovery_event(pre_dd[k], gone));
                        assert(dedup(all.take(i + 1))[k] == pre_dd[k]);
                    } else {
                        assert(out@[k]@ == evm);
                        assert(dedup(all.take(i + 1))[k] == p@);
                    }
                }
                assert(outm =~= target);
            }
        } else {
            proof {
                assert(has_peer(all.take(i as int), p@));
                assert(dedup(all.take(i + 1)) == dedup(all.take(i as int)));
            }
        }
        i = i + 1;
    }
    proof {
        assert(all.take(all.len() as int) =~= all);
    }
    out
}

/// The de-duplicated list holds exactly the identifiers of the input.
proof fn lemma_dedup_membership(s: Seq<Seq<u8>>, p: Seq<u8>)
    ensures
        has_peer(dedup(s), p) == has_peer(s, p),
    decreases s.len(),
{
    if s.len() > 0 {
        lemma_dedup_membership(s.drop_last(), p);
        assert(has_peer(s, p) == (has_peer(s.drop_last(), p) || s.last() == p)) by {
            if has_peer(s, p) {
                let w = choose|i: int| 0 <= i < s.len() && s[i] == p;
                if w < s.len() - 1 {
                    assert(s.drop_last()[w] == p);
                }
            }
            if has_peer(s.drop_last(), p) {
                let w = choose|i: int| 0 <= i < s.drop_last().len() && s.drop_last()[i] == p;
                assert(s[w] == p);
            }
            if s.last() == p {
                assert(s[s.len() - 1] == p);
            }
        }
        if !has_peer(s.drop_last(), s.last()) {
            let d = dedup(s.drop_last()).push(s.last());
            assert(has_peer(d, p) == (has_peer(dedup(s.drop_last()), p) || s.last() == p)) by {
                if has_peer(d, p) {
                    let w = choose|i: int| 0 <= i < d.len() && d[i] == p;
                    if w < d.len() - 1 {
                        assert(dedup(s.drop_last())[w] == p);
                    }
                }
                if has_peer(dedup(s.drop_last()), p) {
                    let w = choose|i: int|
                        0 <= i < dedup(s.drop_last()).len() && dedup(s.drop_last())[i] == p;
                    assert(d[w] == p);
                }
                if s.last() == p {
                    assert(d[d.len() - 1] == p);
                }
            }
        }
    }
}

/// The de-duplicated list names each peer at most once, so a batch yields
/// exactly one event per distinct peer.
pub proof fn lemma_dedup_distinct(s: Seq<Seq<u8>>)
    ensures
        forall|i: int, j: int|
            0 <= i < j < dedup(s).len() ==> dedup(s)[i] != dedup(s)[j],
    decreases s.len(),
{
    if s.len() > 0 {
        lemma_dedup_distinct(s.drop_last());
        if !has_peer(s.drop_last(), s.last()) {
            let prev = dedup(s.drop_last());
            let d = prev.push(s.last());
            assert forall|i: int, j: int| 0 <= i < j < d.len() implies d[i] != d[j] by {
                if j == d.len() - 1 {
                    assert(d[i] == prev[i]);
                    if d[i] == s.last() {
                        assert(has_peer(prev, s.last()));
                        lemma_dedup_membership(s.drop_last(), s.last());
                    }
                } else {
                    assert(d[i] == prev[i]);
                    assert(d[j] == prev[j]);
                }
            }
        }
    }
}

/// Network behaviour that reacts to newly discovered peers by dialing those
/// the tie-break assigns to this side.
pub struct MetadataBehaviour {
    pending_peers: Vec<PeerId>,
}

impl MetadataBehaviour {
    /// Identifiers of peers discovered and not yet decided on.
    pub closed spec fn pending(&self) -> Seq<Seq<u8>> {
        self.pending_peers@.map_values(|p: PeerId| p@)
    }

    pub fn new() -> (r: Self)
        ensures
            r.pending() == Seq::<Seq<u8>>::empty(),
    {
        let r = MetadataBehaviour { pending_peers: Vec::new() };
        proof {
            assert(r.pending() =~= Seq::<Seq<u8>>::empty());
        }
        r
    }

    /// A discovered peer awaits the dial decision.
    pub fn add_peer(&mut self, peer: PeerId)
        ensures
            final(self).pending() == old(self).pending().push(peer@),
    {
        let ghost pv = peer@;
        self.pending_peers.push(peer);
        proof {
            assert(self.pending() =~= old(self).pending().push(pv));
        }
    }

    /// Take the most recently discovered pending peer and decide: dial it
    /// when the local identifier is the smaller one, otherwise wait for the
    /// peer to dial us.
    pub fn poll(&mut self, local: &PeerId) -> (r: Option<PeerId>)
        ensures
            old(self).pending().len() == 0 ==> r is None && final(self).pending() == old(
                self,
            ).pending(),
            old(self).pending().len() > 0 ==> {
                &&& final(self).pending() == old(self).pending().drop_last()
                &&& match r {
                    Some(p) => {
                        &&& p@ == old(self).pending().last()
                        &&& lex_lt(local@, p@)
                    },
                    None => !lex_lt(local@, old(self).pending().last()),
                }
            },
    {
        match self.pending_peers.pop() {
            Some(peer) => {
                proof {
                    assert(self.pending() =~= old(self).pending().drop_last());
                    assert(old(self).pending().last() == peer@);
                }
                if local.lt(&peer) {
                    Some(peer)
                } else {
                    None
                }
            },
            None => {
                proof {
                    assert(self.pending() =~= old(self).pending());
                }
                None
            },
        }
    }
}

} // verus!
