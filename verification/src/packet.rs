//! The message kinds of the wire protocol and the byte layout of each packet.
//!
//! Every packet starts with a 4-byte big-endian message-type code; the rest of
//! the payload is specific to the kind. On the wire a packet is preceded by a
//! 4-byte big-endian length giving the size of the payload that follows.

use crate::codec::{be_bytes_of_u32, spec_pack_str, ByteUtils};
use vstd::prelude::*;

verus! {

/// The closed set of message kinds.
#[derive(Clone, Copy, Debug, PartialEq, Eq, Structural)]
pub enum PacketType {
    /// Carries an online id: issued by the server on a connection's first
    /// announcement.
    Connect,
    /// Asks the server to create a room keyed by the sender's online id.
    Host,
    /// Asks the server to add the sender to the room of the named host.
    Join,
    /// Tells a client the room-local numeric id it was assigned.
    ConnectedToRoom,
    /// Carries the numeric ids of every peer currently in a room.
    PeerList,
    /// Rejects a Host command whose online id already keys a room.
    HostRejected,
    /// Rejects a Join command that names a host with no room.
    RoomNotFound,
}

/// The wire code of each message kind.
pub open spec fn spec_packet_code(t: PacketType) -> u32 {
    match t {
        PacketType::Connect => 0,
        PacketType::Host => 1,
        PacketType::Join => 2,
        PacketType::ConnectedToRoom => 3,
        PacketType::PeerList => 4,
        PacketType::HostRejected => 5,
        PacketType::RoomNotFound => 6,
    }
}

/// The message kind a wire code names, if any.
pub open spec fn spec_packet_type_of(value: u32) -> Option<PacketType> {
    if value == 0 {
        Some(PacketType::Connect)
    } else if value == 1 {
        Some(PacketType::Host)
    } else if value == 2 {
        Some(PacketType::Join)
    } else if value == 3 {
        Some(PacketType::ConnectedToRoom)
    } else if value == 4 {
        Some(PacketType::PeerList)
    } else if value == 5 {
        Some(PacketType::HostRejected)
    } else if value == 6 {
        Some(PacketType::RoomNotFound)
    } else {
        None
    }
}

impl PacketType {
    /// The message kind a wire code names; `None` for an unrecognized code.
    pub fn from_u32(value: u32) -> (r: Option<PacketType>)
        ensures
            r == spec_packet_type_of(value),
    {
        match value {
            0 => Some(PacketType::Connect),
            1 => Some(PacketType::Host),
            2 => Some(PacketType::Join),
            3 => Some(PacketType::ConnectedToRoom),
            4 => Some(PacketType::PeerList),
            5 => Some(PacketType::HostRejected),
            6 => Some(PacketType::RoomNotFound),
            _ => None,
        }
    }

    /// The wire code of this message kind.
    pub fn code(self) -> (r: u32)
        ensures
            r == spec_packet_code(self),
    {
        match self {
            PacketType::Connect => 0,
            PacketType::Host => 1,
            PacketType::Join => 2,
            PacketType::ConnectedToRoom => 3,
            PacketType::PeerList => 4,
            PacketType::HostRejected => 5,
            PacketType::RoomNotFound => 6,
        }
    }
}

/// Reading back the code written for a message kind names that kind again.
pub proof fn lemma_packet_code_round_trip(t: PacketType)
    ensures
        spec_packet_type_of(spec_packet_code(t)) == Some(t),
{
}

/// The bytes of a Connect packet carrying an online id.
pub open spec fn spec_connect_packet(online_id: Seq<char>) -> Seq<u8> {
    be_bytes_of_u32(0) + spec_pack_str(online_id)
}

/// The bytes of a ConnectedToRoom packet carrying a numeric id.
pub open spec fn spec_connected_to_room_packet(numeric_id: u32) -> Seq<u8> {
    be_bytes_of_u32(3) + be_bytes_of_u32(numeric_id)
}

/// The encodings of a sequence of numeric ids, one after the other.
pub open spec fn be_concat_u32s(ids: Seq<u32>) -> Seq<u8>
    decreases ids.len(),
{
    if ids.len() == 0 {
        Seq::empty()
    } else {
        be_concat_u32s(ids.drop_last()) + be_bytes_of_u32(ids.last())
    }
}

/// The bytes of a PeerList packet: a count, then that many numeric ids.
pub open spec fn spec_peer_list_packet(ids: Seq<u32>) -> Seq<u8> {
    be_bytes_of_u32(4) + be_bytes_of_u32(ids.len() as u32) + be_concat_u32s(ids)
}

/// The bytes of a HostRejected packet; it has no payload beyond its code.
pub open spec fn spec_host_rejected_packet() -> Seq<u8> {
    be_bytes_of_u32(5)
}

/// The bytes of a RoomNotFound packet; it has no payload beyond its code.
pub open spec fn spec_room_not_found_packet() -> Seq<u8> {
    be_bytes_of_u32(6)
}

/// A packet preceded by its 4-byte big-endian length, as sent on the wire.
pub open spec fn spec_framed(packet: Seq<u8>) -> Seq<u8> {
    be_bytes_of_u32(packet.len() as u32) + packet
}

pub struct PacketBuilder;

impl PacketBuilder {
    /// Build a Connect packet carrying the given online id.
    pub fn build_connect(online_id: &String) -> (r: Vec<u8>)
        requires
            vstd::utf8::encode_utf8(online_id@).len() <= u32::MAX,
        ensures
            r@ == spec_connect_packet(online_id@),
    {
        let mut packet = ByteUtils::pack_u32(PacketType::Connect.code());
        let mut body = ByteUtils::pack_str(online_id.as_str());
        packet.append(&mut body);
        packet
    }

    /// Build a ConnectedToRoom packet carrying the given numeric id.
    pub fn build_connected_to_room(numeric_id: u32) -> (r: Vec<u8>)
        ensures
            r@ == spec_connected_to_room_packet(numeric_id),
    {
        let mut packet = ByteUtils::pack_u32(PacketType::ConnectedToRoom.code());
        let mut body = ByteUtils::pack_u32(numeric_id);
        packet.append(&mut body);
        packet
    }

    /// Build a PeerList packet from the numeric ids of a room's peers.
    pub fn build_peer_list(peers: &Vec<u32>) -> (r: Vec<u8>)
        requires
            peers@.len() <= u32::MAX,
        ensures
            r@ == spec_peer_list_packet(peers@),
    {
        let mut packet = ByteUtils::pack_u32(PacketType::PeerList.code());
        let mut count = ByteUtils::pack_u32(peers.len() as u32);
        packet.append(&mut count);
        let mut i: usize = 0;
        while i < peers.len()
            invariant
                0 <= i <= peers@.len(),
                peers@.len() <= u32::MAX,
                packet@ == be_bytes_of_u32(4) + be_bytes_of_u32(peers@.len() as u32)
                    + be_concat_u32s(peers@.subrange(0, i as int)),
            decreases peers@.len() - i,
        {
            let mut entry = ByteUtils::pack_u32(peers[i]);
            packet.append(&mut entry);
            proof {
                let prefix = peers@.subrange(0, i + 1 as int);
                assert(prefix.drop_last() =~= peers@.subrange(0, i as int));
                assert(prefix.last() == peers@[i as int]);
            }
            i = i + 1;
        }
        proof {
            assert(peers@.subrange(0, peers@.len() as int) =~= peers@);
        }
        packet
    }

    /// Build a HostRejected packet.
    pub fn build_host_rejected() -> (r: Vec<u8>)
        ensures
            r@ == spec_host_rejected_packet(),
    {
        ByteUtils::pack_u32(PacketType::HostRejected.code())
    }

    /// Build a RoomNotFound packet.
    pub fn build_room_not_found() -> (r: Vec<u8>)
        ensures
            r@ == spec_room_not_found_packet(),
    {
        ByteUtils::pack_u32(PacketType::RoomNotFound.code())
    }

    /// Prefix a packet with its 4-byte big-endian length for the wire.
    pub fn frame_packet(packet: &Vec<u8>) -> (r: Vec<u8>)
        requires
            packet@.len() <= u32::MAX,
        ensures
            r@ == spec_framed(packet@),
    {
        let mut framed = ByteUtils::pack_u32(packet.len() as u32);
        let mut body = Vec::new();
        body.extend_from_slice(packet.as_slice());
        framed.append(&mut body);
        proof {
            assert(framed@ =~= spec_framed(packet@));
        }
        framed
    }
}

} // verus!
