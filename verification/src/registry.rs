//! The process-wide room registry: the mapping from a host's online id to its
//! room. At most one room exists per host id at any time; a room is created
//! only if its key is absent, and an empty room is evicted.

use crate::packet::spec_peer_list_packet;
use crate::room::{roster_without, Room};
use vstd::prelude::*;

verus! {

/// Why a room operation was refused.
#[derive(Clone, Copy, Debug, PartialEq, Eq, Structural)]
pub enum RegistryError {
    /// A Host command named an online id that already keys a room.
    AlreadyExists,
    /// A Join command named a host id with no room.
    RoomNotFound,
    /// The room's joiner counter is exhausted, so no id is left to assign.
    RoomFull,
}

pub struct RoomRegistry {
    rooms: Vec<Room>,
}

impl RoomRegistry {
    /// The rooms currently registered, in creation order.
    pub closed spec fn rooms_seq(self) -> Seq<Room> {
        self.rooms@
    }

    /// How many rooms are registered.
    pub open spec fn room_count(self) -> nat {
        self.rooms_seq().len()
    }

    /// Whether a room keyed by this host id exists.
    pub open spec fn has_room(self, host: Seq<char>) -> bool {
        exists|i: int| 0 <= i < self.rooms_seq().len() && self.rooms_seq()[i].host_id() == host
    }

    /// The index of the room keyed by this host id, meaningful when one
    /// exists.
    pub open spec fn room_index(self, host: Seq<char>) -> int {
        choose|i: int| 0 <= i < self.rooms_seq().len() && self.rooms_seq()[i].host_id() == host
    }

    /// The room keyed by this host id, meaningful when one exists.
    pub open spec fn room_of(self, host: Seq<char>) -> Room {
        self.rooms_seq()[self.room_index(host)]
    }

    /// Well-formedness: every room is well-formed and no two rooms share a
    /// host id.
    pub open spec fn wf(self) -> bool {
        &&& forall|i: int|
            0 <= i < self.rooms_seq().len() ==> (#[trigger] self.rooms_seq()[i]).wf()
        &&& forall|i: int, j: int|
            0 <= i < j < self.rooms_seq().len() ==> self.rooms_seq()[i].host_id()
                != self.rooms_seq()[j].host_id()
    }

    /// An empty registry.
    pub fn new() -> (r: RoomRegistry)
        ensures
            r.wf(),
            r.room_count() == 0,
            forall|h: Seq<char>| !r.has_room(h),
    {
        RoomRegistry { rooms: Vec::new() }
    }

    /// The index of the room keyed by this host id, if one exists.
    fn find_room(&self, host_id: &str) -> (r: Option<usize>)
        ensures
            match r {
                Some(i) => 0 <= i < self.rooms_seq().len() && self.rooms_seq()[i as int].host_id()
                    == host_id@,
                None => !self.has_room(host_id@),
            },
    {
        let mut i: usize = 0;
        while i < self.rooms.len()
            invariant
                0 <= i <= self.rooms@.len(),
                forall|j: int| 0 <= j < i ==> self.rooms@[j].host_id() != host_id@,
            decreases self.rooms@.len() - i,
        {
            if self.rooms[i].host_id_matches(host_id) {
                return Some(i);
            }
            i = i + 1;
        }
        None
    }

    /// Whether a room keyed by this host id exists.
    pub fn contains_room(&self, host_id: &str) -> (r: bool)
        ensures
            r == self.has_room(host_id@),
    {
        let found = self.find_room(host_id);
        proof {
            if found is Some {
                assert(self.has_room(host_id@));
            }
        }
        found.is_some()
    }

    /// Create an empty room keyed by `host_id`, only if none exists: the
    /// registry refuses to overwrite a room, so of two Host attempts for one
    /// id, exactly the first can succeed.
    pub fn create_if_absent(&mut self, host_id: &String) -> (r: Result<(), RegistryError>)
        requires
            old(self).wf(),
        ensures
            final(self).wf(),
            r is Ok <==> !old(self).has_room(host_id@),
            r is Err ==> r == Err::<(), RegistryError>(RegistryError::AlreadyExists) && *final(self)
                == *old(self),
            r is Ok ==> {
                &&& final(self).has_room(host_id@)
                &&& final(self).room_of(host_id@).host_id() == host_id@
                &&& final(self).room_of(host_id@).roster() =~= Seq::<(Seq<char>, u32)>::empty()
                &&& final(self).room_of(host_id@).next_id() == 2
                &&& final(self).room_count() == old(self).room_count() + 1
            },
            forall|h: Seq<char>|
                h != host_id@ ==> (#[trigger] final(self).has_room(h)) == old(self).has_room(h) && (
                old(self).has_room(h) ==> final(self).room_of(h) == old(self).room_of(h)),
    {
        if self.contains_room(host_id.as_str()) {
            return Err(RegistryError::AlreadyExists);
        }
        let ghost old_rooms = self.rooms@;
        let room = Room::new(host_id.clone());
        self.rooms.push(room);
        proof {
            let n = old_rooms.len() as int;
            assert forall|j: int| 0 <= j < n implies old_rooms[j].host_id() != host_id@ by {
                if old_rooms[j].host_id() == host_id@ {
                    assert(old(self).rooms_seq()[j].host_id() == host_id@);
                    assert(old(self).has_room(host_id@));
                }
            }
            assert(self.rooms@[n].host_id() == host_id@);
            assert forall|k: int| 0 <= k < self.rooms_seq().len() implies (
            #[trigger] self.rooms_seq()[k]).wf() by {
                if k < n {
                    assert(self.rooms_seq()[k] == old(self).rooms_seq()[k]);
                }
            }
            assert forall|k: int, j: int|
                0 <= k < j < self.rooms_seq().len() implies self.rooms_seq()[k].host_id()
                != self.rooms_seq()[j].host_id() by {
                if j < n {
                    assert(self.rooms_seq()[k] == old(self).rooms_seq()[k]);
                    assert(self.rooms_seq()[j] == old(self).rooms_seq()[j]);
                } else {
                    assert(self.rooms_seq()[k] == old_rooms[k]);
                    assert(old_rooms[k].host_id() != host_id@);
                }
            }
            self.lemma_room_index_unique(host_id@, n);
            assert forall|h: Seq<char>| h != host_id@ implies (#[trigger] self.has_room(h))
                == old(self).has_room(h) && (old(self).has_room(h) ==> self.room_of(h) == old(
                self,
            ).room_of(h)) by {
                if old(self).has_room(h) {
                    let w = old(self).room_index(h);
                    assert(self.rooms@[w].host_id() == h);
                    self.lemma_room_index_unique(h, w);
                }
                if self.has_room(h) {
                    let w = self.room_index(h);
                    assert(0 <= w < n);
                    assert(old_rooms[w].host_id() == h);
                }
            }
        }
        Ok(())
    }

    /// Add a peer to the room keyed by `host_id`: the host receives numeric
    /// id 1, a joiner the room's next counter value. Refused with
    /// `RoomNotFound` when no such room exists and with `RoomFull` when the
    /// counter is exhausted; either refusal leaves the registry unchanged.
    pub fn add_peer_to_room(
        &mut self,
        host_id: &str,
        online_id: &String,
        sender: tokio::sync::mpsc::UnboundedSender<Vec<u8>>,
    ) -> (r: Result<u32, RegistryError>)
        requires
            old(self).wf(),
        ensures
            final(self).wf(),
            !old(self).has_room(host_id@) ==> r == Err::<u32, RegistryError>(
                RegistryError::RoomNotFound,
            ) && final(self).rooms_seq() == old(self).rooms_seq(),
            old(self).has_room(host_id@) && old(self).room_of(host_id@).next_id() == u32::MAX
                ==> r == Err::<u32, RegistryError>(RegistryError::RoomFull)
                && final(self).rooms_seq() == old(self).rooms_seq(),
            old(self).has_room(host_id@) && old(self).room_of(host_id@).next_id() < u32::MAX ==> {
                &&& r == Ok::<u32, RegistryError>(
                    if online_id@ == host_id@ {
                        1u32
                    } else {
                        old(self).room_of(host_id@).next_id()
                    },
                )
                &&& final(self).has_room(host_id@)
                &&& final(self).room_of(host_id@).host_id() == host_id@
                &&& final(self).room_of(host_id@).roster() == roster_without(
                    old(self).room_of(host_id@).roster(),
                    online_id@,
                ).push((online_id@, r->Ok_0))
                &&& final(self).room_of(host_id@).next_id() == if online_id@ == host_id@ {
                    old(self).room_of(host_id@).next_id()
                } else {
                    (old(self).room_of(host_id@).next_id() + 1) as u32
                }
                &&& final(self).room_count() == old(self).room_count()
            },
            forall|h: Seq<char>| (#[trigger] final(self).has_room(h)) == old(self).has_room(h),
            forall|h: Seq<char>|
                h != host_id@ && old(self).has_room(h) ==> #[trigger] final(self).room_of(h) == old(
                    self,
                ).room_of(h),
    {
        let i = match self.find_room(host_id) {
            Some(i) => i,
            None => {
                return Err(RegistryError::RoomNotFound);
            },
        };
        proof {
            self.lemma_room_index_unique(host_id@, i as int);
        }
        let ghost old_rooms = self.rooms@;
        let mut room = self.rooms.remove(i);
        if room.next_id_value() == u32::MAX {
            self.rooms.insert(i, room);
            proof {
                assert(self.rooms@ =~= old_rooms);
            }
            return Err(RegistryError::RoomFull);
        }
        let numeric_id = room.add_peer(online_id.clone(), sender);
        proof {
            assert(room.host_id() == host_id@);
        }
        self.rooms.insert(i, room);
        proof {
            assert(self.rooms@ =~= old_rooms.update(i as int, room));
            self.lemma_room_index_unique(host_id@, i as int);
            assert forall|h: Seq<char>| (#[trigger] self.has_room(h)) == old(self).has_room(
                h,
            ) by {
                if old(self).has_room(h) {
                    let w = old(self).room_index(h);
                    assert(self.rooms@[w].host_id() == h);
                }
                if self.has_room(h) {
                    let w = self.room_index(h);
                    assert(old_rooms[w].host_id() == h);
                }
            }
            assert forall|h: Seq<char>| h != host_id@ && old(self).has_room(h) implies #[trigger]
            self.room_of(h) == old(self).room_of(h) by {
                let w = old(self).room_index(h);
                assert(old_rooms[w].host_id() == h);
                assert(w != i as int);
                assert(self.rooms@[w].host_id() == h);
                self.lemma_room_index_unique(h, w);
            }
        }
        Ok(numeric_id)
    }

    /// Remove a peer from the room keyed by `host_id`, and evict the room if
    /// it thereby becomes empty, so abandoned rooms do not accumulate. A
    /// missing room or peer leaves everything as it was.
    pub fn remove_peer_from_room(&mut self, host_id: &str, online_id: &str)
        requires
            old(self).wf(),
        ensures
            final(self).wf(),
            !old(self).has_room(host_id@) ==> final(self).rooms_seq() == old(self).rooms_seq(),
            old(self).has_room(host_id@) ==> {
                let remaining = roster_without(
                    old(self).room_of(host_id@).roster(),
                    online_id@,
                );
                if remaining.len() == 0 {
                    &&& !final(self).has_room(host_id@)
                    &&& final(self).room_count() == old(self).room_count() - 1
                } else {
                    &&& final(self).has_room(host_id@)
                    &&& final(self).room_of(host_id@).roster() == remaining
                    &&& final(self).room_of(host_id@).host_id() == host_id@
                    &&& final(self).room_of(host_id@).next_id() == old(self).room_of(
                        host_id@,
                    ).next_id()
                    &&& final(self).room_count() == old(self).room_count()
                }
            },
            forall|h: Seq<char>|
                h != host_id@ ==> (#[trigger] final(self).has_room(h)) == old(self).has_room(h) && (
                old(self).has_room(h) ==> final(self).room_of(h) == old(self).room_of(h)),
    {
        let i = match self.find_room(host_id) {
            Some(i) => i,
            None => {
                return;
            },
        };
        proof {
            self.lemma_room_index_unique(host_id@, i as int);
        }
        let ghost old_rooms = self.rooms@;
        let mut room = self.rooms.remove(i);
        room.remove_peer(online_id);
        if room.is_empty() {
            proof {
                assert forall|h: Seq<char>| h != host_id@ implies (#[trigger] self.has_room(h))
                    == old(self).has_room(h) && (old(self).has_room(h) ==> self.room_of(h) == old(
                    self,
                ).room_of(h)) by {
                    if old(self).has_room(h) {
                        let w = old(self).room_index(h);
                        assert(old_rooms[w].host_id() == h);
                        assert(w != i as int);
                        if w < i as int {
                            assert(self.rooms@[w].host_id() == h);
                            self.lemma_room_index_unique(h, w);
                        } else {
                            assert(self.rooms@[w - 1].host_id() == h);
                            self.lemma_room_index_unique(h, w - 1);
                        }
                    }
                    if self.has_room(h) {
                        let w = self.room_index(h);
                        if w < i as int {
                            assert(old_rooms[w].host_id() == h);
                        } else {
                            assert(old_rooms[w + 1].host_id() == h);
                        }
                    }
                }
                assert forall|j: int| 0 <= j < self.rooms@.len() implies self.rooms@[j].host_id()
                    != host_id@ by {
                    if j < i as int {
                        assert(old_rooms[j].host_id() != host_id@);
                    } else {
                        assert(old_rooms[j + 1].host_id() != host_id@);
                    }
                }
            }
        } else {
            self.rooms.insert(i, room);
            proof {
                assert(self.rooms@ =~= old_rooms.update(i as int, room));
                self.lemma_room_index_unique(host_id@, i as int);
                assert forall|h: Seq<char>| h != host_id@ implies (#[trigger] self.has_room(h))
                    == old(self).has_room(h) && (old(self).has_room(h) ==> self.room_of(h) == old(
                    self,
                ).room_of(h)) by {
                    if old(self).has_room(h) {
                        let w = old(self).room_index(h);
                        assert(old_rooms[w].host_id() == h);
                        assert(w != i as int);
                        assert(self.rooms@[w].host_id() == h);
                        self.lemma_room_index_unique(h, w);
                    }
                    if self.has_room(h) {
                        let w = self.room_index(h);
                        assert(old_rooms[w].host_id() == h);
                    }
                }
            }
        }
    }

    /// The roster of the room keyed by `host_id`, as pairs of online id and
    /// numeric id in arrival order; `None` when no such room exists.
    pub fn room_peers(&self, host_id: &str) -> (r: Option<Vec<(String, u32)>>)
        requires
            self.wf(),
        ensures
            match r {
                Some(peers) => {
                    &&& self.has_room(host_id@)
                    &&& peers@.len() == self.room_of(host_id@).roster().len()
                    &&& forall|i: int|
                        0 <= i < peers@.len() ==> (#[trigger] peers@[i]).0@ == self.room_of(
                            host_id@,
                        ).roster()[i].0 && peers@[i].1 == self.room_of(host_id@).roster()[i].1
                },
                None => !self.has_room(host_id@),
            },
    {
        let i = match self.find_room(host_id) {
            Some(i) => i,
            None => {
                return None;
            },
        };
        proof {
            self.lemma_room_index_unique(host_id@, i as int);
        }
        Some(self.rooms[i].get_peers())
    }

    /// Build the current PeerList packet of the room keyed by `host_id` and
    /// push it onto every peer's channel; `None` when no such room exists.
    pub fn broadcast_room(&self, host_id: &str) -> (r: Option<Vec<u8>>)
        requires
            self.wf(),
        ensures
            match r {
                Some(packet) => self.has_room(host_id@) && packet@ == spec_peer_list_packet(
                    self.room_of(host_id@).roster_ids(),
                ),
                None => !self.has_room(host_id@),
            },
    {
        let i = match self.find_room(host_id) {
            Some(i) => i,
            None => {
                return None;
            },
        };
        proof {
            self.lemma_room_index_unique(host_id@, i as int);
        }
        Some(self.rooms[i].broadcast_peer_list())
    }

    /// Any index holding a room for `h` is the index `room_index` picks.
    proof fn lemma_room_index_unique(self, h: Seq<char>, i: int)
        requires
            forall|k: int, j: int|
                0 <= k < j < self.rooms_seq().len() ==> self.rooms_seq()[k].host_id()
                    != self.rooms_seq()[j].host_id(),
            0 <= i < self.rooms_seq().len(),
            self.rooms_seq()[i].host_id() == h,
        ensures
            self.has_room(h),
            self.room_index(h) == i,
            self.room_of(h) == self.rooms_seq()[i],
    {
        let m = self.room_index(h);
        assert(0 <= m < self.rooms_seq().len() && self.rooms_seq()[m].host_id() == h);
    }
}

} // verus!
