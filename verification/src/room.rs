//! A room: one host's membership roster, mapping each peer's online id to a
//! room-local numeric id and holding the peer's outbound delivery channel.
//!
//! The host always holds numeric id 1; joiners receive strictly increasing
//! numeric ids starting at 2, and a numeric id is never assigned twice within
//! a room, even after peers leave.

use crate::packet::{spec_peer_list_packet, PacketBuilder};
use vstd::prelude::*;

verus! {

/// The outbound channel type of tokio's unbounded mpsc queue, declared so
/// that values of it can be stored and passed through; nothing of what it
/// holds is visible here.
#[verifier::external_type_specification]
#[verifier::external_body]
#[verifier::reject_recursive_types(T)]
pub struct ExUnboundedSender<T>(tokio::sync::mpsc::UnboundedSender<T>);

/// Relies on `tokio::sync::mpsc::UnboundedSender::send`: it queues the message
/// for the receiving half without waiting and reports whether that half is
/// still open. Nothing is stated of the outcome: a dead receiver loses the
/// message and that must not disturb the caller.
#[verifier::external_body]
pub(crate) fn channel_send(
    sender: &tokio::sync::mpsc::UnboundedSender<Vec<u8>>,
    message: Vec<u8>,
) -> (delivered: bool) {
    sender.send(message).is_ok()
}

/// Relies on `tokio::sync::mpsc::UnboundedSender::clone`: the clone is another
/// handle onto the same queue.
#[verifier::external_body]
pub(crate) fn clone_sender(
    sender: &tokio::sync::mpsc::UnboundedSender<Vec<u8>>,
) -> tokio::sync::mpsc::UnboundedSender<Vec<u8>> {
    sender.clone()
}

/// One roster entry: a peer's online id, its room-local numeric id, and the
/// channel its outbound packets are pushed onto.
pub struct PeerEntry {
    pub online_id: String,
    pub numeric_id: u32,
    pub sender: tokio::sync::mpsc::UnboundedSender<Vec<u8>>,
}

/// The visible part of a roster: each peer's online id and numeric id, in
/// arrival order.
pub type RosterSeq = Seq<(Seq<char>, u32)>;

/// The index of `id` in a roster, meaningful when the roster holds it.
pub open spec fn roster_index_of(roster: RosterSeq, id: Seq<char>) -> int {
    choose|i: int| 0 <= i < roster.len() && roster[i].0 == id
}

/// Whether a roster holds an entry for `id`.
pub open spec fn roster_has(roster: RosterSeq, id: Seq<char>) -> bool {
    exists|i: int| 0 <= i < roster.len() && roster[i].0 == id
}

/// The numeric id a roster assigns to `id`, meaningful when it holds one.
pub open spec fn roster_numeric_id(roster: RosterSeq, id: Seq<char>) -> u32 {
    roster[roster_index_of(roster, id)].1
}

/// A roster without its entry for `id`; the roster unchanged if it has none.
pub open spec fn roster_without(roster: RosterSeq, id: Seq<char>) -> RosterSeq {
    if roster_has(roster, id) {
        roster.remove(roster_index_of(roster, id))
    } else {
        roster
    }
}

/// In a roster with unique online ids, removing `id` removes exactly its
/// entry: every other id keeps its membership and its numeric id.
pub proof fn lemma_roster_without_membership(roster: RosterSeq, id: Seq<char>, q: Seq<char>)
    requires
        forall|i: int, j: int| 0 <= i < j < roster.len() ==> roster[i].0 != roster[j].0,
    ensures
        roster_has(roster_without(roster, id), q) <==> (roster_has(roster, q) && q != id),
        roster_has(roster_without(roster, id), q) ==> roster_numeric_id(
            roster_without(roster, id),
            q,
        ) == roster_numeric_id(roster, q),
{
    if roster_has(roster, id) {
        let k = roster_index_of(roster, id);
        let rw = roster_without(roster, id);
        assert forall|j: int| 0 <= j < rw.len() implies rw[j] == (if j < k {
            roster[j]
        } else {
            roster[j + 1]
        }) by {}
        if roster_has(rw, q) {
            let m = roster_index_of(rw, q);
            if m < k {
                lemma_roster_index_unique(roster, q, m);
            } else {
                lemma_roster_index_unique(roster, q, m + 1);
            }
            let n = roster_index_of(roster, q);
            assert(rw[m].1 == roster[n].1);
            lemma_roster_index_unique(rw, q, m);
        }
        if roster_has(roster, q) && q != id {
            let n = roster_index_of(roster, q);
            if n < k {
                assert(rw[n].0 == q);
            } else {
                assert(n != k);
                assert(rw[n - 1].0 == q);
            }
        }
    }
}

/// In a roster with unique online ids, any index holding `id` is the index
/// `roster_index_of` picks.
pub proof fn lemma_roster_index_unique(roster: RosterSeq, id: Seq<char>, i: int)
    requires
        forall|k: int, j: int| 0 <= k < j < roster.len() ==> roster[k].0 != roster[j].0,
        0 <= i < roster.len(),
        roster[i].0 == id,
    ensures
        roster_has(roster, id),
        roster_index_of(roster, id) == i,
        roster_numeric_id(roster, id) == roster[i].1,
{
    let m = roster_index_of(roster, id);
    assert(0 <= m < roster.len() && roster[m].0 == id);
}

pub struct Room {
    host_online_id: String,
    peers: Vec<PeerEntry>,
    next_numeric_id: u32,
}

impl Room {
    /// The online id of the room's host, which also keys the room.
    pub closed spec fn host_id(self) -> Seq<char> {
        self.host_online_id@
    }

    /// The current roster: online id and numeric id of every peer, in arrival
    /// order.
    pub closed spec fn roster(self) -> RosterSeq {
        self.peers@.map_values(|p: PeerEntry| (p.online_id@, p.numeric_id))
    }

    /// The numeric id the next joiner will receive.
    pub closed spec fn next_id(self) -> u32 {
        self.next_numeric_id
    }

    /// The numeric ids of the current peers, in arrival order.
    pub open spec fn roster_ids(self) -> Seq<u32> {
        self.roster().map_values(|p: (Seq<char>, u32)| p.1)
    }

    /// How far the roster must stay below the counter: the host's 1 is not
    /// drawn from the counter, so an absent host leaves one more joiner slot
    /// spoken for.
    pub open spec fn host_gap(self) -> int {
        if roster_has(self.roster(), self.host_id()) {
            1
        } else {
            2
        }
    }

    /// Well-formedness: the joiner counter starts past the host's 1; online
    /// ids and numeric ids are unique; 1 marks exactly the host; every other
    /// numeric id lies between 2 and the counter; the roster stays below the
    /// counter, so it can always be counted in a packet.
    pub open spec fn wf(self) -> bool {
        &&& 2 <= self.next_id()
        &&& self.roster().len() + self.host_gap() <= self.next_id()
        &&& forall|i: int, j: int|
            0 <= i < j < self.roster().len() ==> self.roster()[i].0 != self.roster()[j].0
        &&& forall|i: int, j: int|
            0 <= i < j < self.roster().len() ==> self.roster()[i].1 != self.roster()[j].1
        &&& forall|i: int|
            0 <= i < self.roster().len() ==> ((#[trigger] self.roster()[i]).0 == self.host_id()
                <==> self.roster()[i].1 == 1)
        &&& forall|i: int|
            0 <= i < self.roster().len() ==> (#[trigger] self.roster()[i]).1 == 1 || (2
                <= self.roster()[i].1 < self.next_id())
    }

    /// An empty room for the given host; the first joiner will receive 2.
    pub fn new(host_online_id: String) -> (r: Room)
        ensures
            r.wf(),
            r.host_id() == host_online_id@,
            r.roster() =~= Seq::<(Seq<char>, u32)>::empty(),
            r.next_id() == 2,
    {
        Room { host_online_id, peers: Vec::new(), next_numeric_id: 2 }
    }

    /// Whether this room's host id is the given string.
    pub fn host_id_matches(&self, id: &str) -> (r: bool)
        ensures
            r == (self.host_id() == id@),
    {
        crate::str_eq(self.host_online_id.as_str(), id)
    }

    /// The numeric id the next joiner will receive.
    pub fn next_id_value(&self) -> (r: u32)
        ensures
            r == self.next_id(),
    {
        self.next_numeric_id
    }

    /// The index of the peer with this online id, if it is in the roster.
    fn find_peer(&self, online_id: &str) -> (r: Option<usize>)
        ensures
            match r {
                Some(i) => 0 <= i < self.roster().len() && self.roster()[i as int].0
                    == online_id@,
                None => !roster_has(self.roster(), online_id@),
            },
    {
        let mut i: usize = 0;
        while i < self.peers.len()
            invariant
                0 <= i <= self.peers@.len(),
                forall|j: int| 0 <= j < i ==> self.roster()[j].0 != online_id@,
            decreases self.peers@.len() - i,
        {
            if crate::str_eq(self.peers[i].online_id.as_str(), online_id) {
                return Some(i);
            }
            i = i + 1;
        }
        None
    }

    /// Whether the roster holds a peer with this online id.
    pub fn has_peer(&self, online_id: &str) -> (r: bool)
        ensures
            r == roster_has(self.roster(), online_id@),
    {
        let found = self.find_peer(online_id);
        proof {
            if found is Some {
                assert(roster_has(self.roster(), online_id@));
            }
        }
        found.is_some()
    }

    /// Add a peer and assign its numeric id: 1 for the host, the next counter
    /// value for a joiner. An entry the id already had is dropped first; a
    /// joiner's id is never one the room assigned before.
    pub fn add_peer(
        &mut self,
        online_id: String,
        sender: tokio::sync::mpsc::UnboundedSender<Vec<u8>>,
    ) -> (numeric_id: u32)
        requires
            old(self).wf(),
            old(self).next_id() < u32::MAX,
        ensures
            final(self).wf(),
            final(self).host_id() == old(self).host_id(),
            numeric_id == if online_id@ == old(self).host_id() {
                1u32
            } else {
                old(self).next_id()
            },
            final(self).next_id() == if online_id@ == old(self).host_id() {
                old(self).next_id()
            } else {
                (old(self).next_id() + 1) as u32
            },
            final(self).roster() == roster_without(old(self).roster(), online_id@).push(
                (online_id@, numeric_id),
            ),
            roster_has(final(self).roster(), online_id@),
            roster_numeric_id(final(self).roster(), online_id@) == numeric_id,
    {
        let ghost old_roster = self.roster();
        if let Some(i) = self.find_peer(online_id.as_str()) {
            proof {
                let k = roster_index_of(old_roster, online_id@);
                assert(old_roster[i as int].0 == online_id@);
                assert(0 <= k < old_roster.len() && old_roster[k].0 == online_id@);
                assert(k == i as int);
            }
            self.peers.remove(i);
            proof {
                assert(self.roster() =~= roster_without(old_roster, online_id@));
            }
        } else {
            proof {
                assert(self.roster() =~= roster_without(old_roster, online_id@));
            }
        }
        let is_host = crate::str_eq(online_id.as_str(), self.host_online_id.as_str());
        let numeric_id: u32 = if is_host {
            1
        } else {
            let id = self.next_numeric_id;
            self.next_numeric_id = self.next_numeric_id + 1;
            id
        };
        let ghost mid_roster = self.roster();
        let ghost oid = online_id@;
        self.peers.push(PeerEntry { online_id, numeric_id, sender });
        proof {
            assert(self.roster() =~= mid_roster.push((oid, numeric_id)));
            let rw = roster_without(old_roster, oid);
            if roster_has(old_roster, oid) {
                let k = roster_index_of(old_roster, oid);
                assert forall|j: int| 0 <= j < rw.len() implies rw[j].0 != oid by {
                    if j < k {
                        assert(rw[j] == old_roster[j]);
                    } else {
                        assert(rw[j] == old_roster[j + 1]);
                    }
                }
            }
            let fr = self.roster();
            assert(fr[fr.len() - 1].0 == oid);
            let m = roster_index_of(fr, oid);
            assert(0 <= m < fr.len() && fr[m].0 == oid);
            if m < fr.len() - 1 {
                assert(fr[m] == rw[m]);
                assert(false);
            }
            let h = old(self).host_id();
            lemma_roster_without_membership(old_roster, oid, h);
            if roster_has(rw, h) {
                let w = roster_index_of(rw, h);
                assert(fr[w].0 == h);
            }
            if !roster_has(rw, h) && h != oid {
                assert forall|j: int| 0 <= j < fr.len() implies fr[j].0 != h by {
                    if j < fr.len() - 1 {
                        assert(fr[j] == rw[j]);
                    }
                }
            }
        }
        numeric_id
    }

    /// Remove the peer with this online id; a no-op if the roster lacks it.
    /// Numeric ids already given out are not reused afterwards: the counter
    /// keeps its value.
    pub fn remove_peer(&mut self, online_id: &str)
        requires
            old(self).wf(),
        ensures
            final(self).wf(),
            final(self).host_id() == old(self).host_id(),
            final(self).next_id() == old(self).next_id(),
            final(self).roster() == roster_without(old(self).roster(), online_id@),
            !roster_has(final(self).roster(), online_id@),
    {
        let ghost old_roster = self.roster();
        if let Some(i) = self.find_peer(online_id) {
            proof {
                let k = roster_index_of(old_roster, online_id@);
                assert(old_roster[i as int].0 == online_id@);
                assert(0 <= k < old_roster.len() && old_roster[k].0 == online_id@);
                assert(k == i as int);
            }
            self.peers.remove(i);
            proof {
                assert(self.roster() =~= roster_without(old_roster, online_id@));
                assert forall|j: int| 0 <= j < self.roster().len() implies self.roster()[j].0
                    != online_id@ by {
                    if j < i as int {
                        assert(old_roster[j].0 != online_id@);
                    } else {
                        assert(old_roster[j + 1].0 != online_id@);
                    }
                }
            }
        }
    }

    /// The roster as pairs of online id and numeric id, in arrival order.
    pub fn get_peers(&self) -> (r: Vec<(String, u32)>)
        ensures
            r@.len() == self.roster().len(),
            forall|i: int|
                0 <= i < r@.len() ==> (#[trigger] r@[i]).0@ == self.roster()[i].0 && r@[i].1
                    == self.roster()[i].1,
    {
        let mut r: Vec<(String, u32)> = Vec::new();
        let mut i: usize = 0;
        while i < self.peers.len()
            invariant
                0 <= i <= self.peers@.len(),
                r@.len() == i,
                forall|j: int|
                    0 <= j < i ==> (#[trigger] r@[j]).0@ == self.roster()[j].0 && r@[j].1
                        == self.roster()[j].1,
            decreases self.peers@.len() - i,
        {
            r.push((self.peers[i].online_id.clone(), self.peers[i].numeric_id));
            i = i + 1;
        }
        r
    }

    /// The numeric ids of the current peers, in arrival order.
    pub fn peer_numeric_ids(&self) -> (r: Vec<u32>)
        ensures
            r@ == self.roster_ids(),
    {
        let mut r: Vec<u32> = Vec::new();
        let mut i: usize = 0;
        while i < self.peers.len()
            invariant
                0 <= i <= self.peers@.len(),
                r@ == self.roster_ids().subrange(0, i as int),
            decreases self.peers@.len() - i,
        {
            r.push(self.peers[i].numeric_id);
            proof {
                assert(r@ =~= self.roster_ids().subrange(0, i + 1 as int));
            }
            i = i + 1;
        }
        proof {
            assert(r@ =~= self.roster_ids());
        }
        r
    }

    /// Whether the roster holds no peers.
    pub fn is_empty(&self) -> (r: bool)
        ensures
            r == (self.roster().len() == 0),
    {
        self.peers.is_empty()
    }

    /// Build a PeerList packet from the current roster and push it onto every
    /// peer's outbound channel. A dead peer's channel swallows its copy
    /// without disturbing delivery to the others. Returns the packet that was
    /// broadcast.
    pub fn broadcast_peer_list(&self) -> (packet: Vec<u8>)
        requires
            self.wf(),
        ensures
            packet@ == spec_peer_list_packet(self.roster_ids()),
    {
        let ids = self.peer_numeric_ids();
        let packet = PacketBuilder::build_peer_list(&ids);
        let mut i: usize = 0;
        while i < self.peers.len()
            invariant
                0 <= i <= self.peers@.len(),
                ids@ == self.roster_ids(),
                ids@.len() <= u32::MAX,
                packet@ == spec_peer_list_packet(self.roster_ids()),
            decreases self.peers@.len() - i,
        {
            let copy = PacketBuilder::build_peer_list(&ids);
            let _ = channel_send(&self.peers[i].sender, copy);
            i = i + 1;
        }
        packet
    }
}

/// A removed peer leaves no trace in later broadcasts: in a well-formed room
/// its online id is gone from the roster, and its numeric id is gone from the
/// numeric ids a PeerList packet would carry.
pub proof fn lemma_removed_peer_absent(room: Room, removed: Room, id: Seq<char>)
    requires
        room.wf(),
        roster_has(room.roster(), id),
        removed.wf(),
        removed.roster() == roster_without(room.roster(), id),
    ensures
        !roster_has(removed.roster(), id),
        !removed.roster_ids().contains(roster_numeric_id(room.roster(), id)),
{
    let k = roster_index_of(room.roster(), id);
    let nid = roster_numeric_id(room.roster(), id);
    assert forall|j: int| 0 <= j < removed.roster().len() implies removed.roster()[j].0 != id
        && removed.roster()[j].1 != nid by {
        if j < k {
            assert(removed.roster()[j] == room.roster()[j]);
        } else {
            assert(removed.roster()[j] == room.roster()[j + 1]);
        }
    }
    assert forall|j: int| 0 <= j < removed.roster_ids().len() implies removed.roster_ids()[j]
        != nid by {
        assert(removed.roster_ids()[j] == removed.roster()[j].1);
    }
}

} // verus!
