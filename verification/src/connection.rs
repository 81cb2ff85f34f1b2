//! The per-connection protocol state machine: what each arriving packet does
//! to the connection's state, to the shared room registry and id generator,
//! and which reply, if any, goes back on the connection.
//!
//! A connection moves Unidentified -> Identified -> (Hosting | Joined) and
//! never back; any state can end in Closed. Reading and writing the socket is
//! the caller's business: packets come in as bytes, replies go out as bytes.

use crate::codec::{spec_unpack_str, spec_unpack_u32, ByteUtils, CodecError};
use crate::id_gen::{is_online_id, IdGenerator};
use crate::packet::{
    spec_connect_packet, spec_connected_to_room_packet, spec_host_rejected_packet,
    spec_packet_type_of, spec_room_not_found_packet, PacketBuilder, PacketType,
};
use crate::registry::RoomRegistry;
use crate::room::{clone_sender, roster_without};
use vstd::prelude::*;

verus! {

/// Why a connection must be closed: these conditions mean the stream's
/// framing is no longer trustworthy, or the server cannot serve it.
#[derive(Clone, Copy, Debug, PartialEq, Eq, Structural)]
pub enum HandleError {
    /// A payload ended before the bytes its framing declared.
    TruncatedInput,
    /// Declared string bytes were not valid UTF-8.
    InvalidEncoding,
    /// The packet's code names no known message kind.
    UnknownPacketType,
    /// A Join arrived before the connection was identified.
    NotIdentified,
    /// The id generator could not draw a fresh id.
    IdSpaceExhausted,
}

/// The connection-fatal error a codec failure maps to.
pub open spec fn handle_error_of_codec(e: CodecError) -> HandleError {
    match e {
        CodecError::TruncatedInput => HandleError::TruncatedInput,
        CodecError::InvalidEncoding => HandleError::InvalidEncoding,
    }
}

/// Where a connection stands in the protocol.
pub enum ConnState {
    /// Nothing is known of the client yet.
    Unidentified,
    /// The client holds the online id the server issued to it.
    Identified { online_id: String },
    /// The client hosts the room keyed by its online id.
    Hosting { online_id: String, numeric_id: u32 },
    /// The client sits in the room keyed by `host_id`.
    Joined { online_id: String, numeric_id: u32, host_id: String },
    /// The socket is shut; nothing more happens on this connection.
    Closed,
}

/// Nothing observable changed in the registry.
pub open spec fn reg_unchanged(pre: RoomRegistry, post: RoomRegistry) -> bool {
    post.rooms_seq() == pre.rooms_seq()
}

/// Nothing changed in the id generator's record.
pub open spec fn gen_unchanged(pre: IdGenerator, post: IdGenerator) -> bool {
    post.issued() == pre.issued()
}

/// What a served Connect did: a fresh well-formed online id was issued and
/// recorded, the connection now carries it, and the reply announces it.
pub open spec fn connect_issued(
    gen_pre: IdGenerator,
    gen_post: IdGenerator,
    state: ConnState,
    reply: Seq<u8>,
) -> bool {
    state matches ConnState::Identified { online_id } && {
        &&& is_online_id(online_id@)
        &&& !gen_pre.issued().contains(online_id@)
        &&& gen_post.issued() == gen_pre.issued().push(online_id@)
        &&& reply == spec_connect_packet(online_id@)
    }
}

/// What a served Host did: no room was keyed by `oid` before, one is now,
/// holding only the host under numeric id 1, which the reply announces; no
/// other room was touched.
pub open spec fn host_accepted(
    reg_pre: RoomRegistry,
    reg_post: RoomRegistry,
    oid: Seq<char>,
    state: ConnState,
    reply: Seq<u8>,
) -> bool {
    &&& !reg_pre.has_room(oid)
    &&& state matches ConnState::Hosting { online_id, numeric_id } && online_id@ == oid
        && numeric_id == 1
    &&& reply == spec_connected_to_room_packet(1)
    &&& reg_post.has_room(oid)
    &&& reg_post.room_of(oid).host_id() == oid
    &&& reg_post.room_of(oid).roster() =~= seq![(oid, 1u32)]
    &&& reg_post.room_of(oid).next_id() == 2
    &&& reg_post.room_count() == reg_pre.room_count() + 1
    &&& forall|h: Seq<char>|
        h != oid ==> (#[trigger] reg_post.has_room(h)) == reg_pre.has_room(h) && (
        reg_pre.has_room(h) ==> reg_post.room_of(h) == reg_pre.room_of(h))
}

/// What a served Join did: the joiner entered the room keyed by `host` under
/// the room's next numeric id (1 only if it is the host itself), the reply
/// announces that id, and no other room was touched.
pub open spec fn join_accepted(
    reg_pre: RoomRegistry,
    reg_post: RoomRegistry,
    oid: Seq<char>,
    host: Seq<char>,
    state: ConnState,
    reply: Seq<u8>,
) -> bool {
    let nid = if oid == host {
        1u32
    } else {
        reg_pre.room_of(host).next_id()
    };
    &&& reg_pre.has_room(host)
    &&& reg_pre.room_of(host).next_id() < u32::MAX
    &&& state matches ConnState::Joined { online_id, numeric_id, host_id } && online_id@ == oid
        && numeric_id == nid && host_id@ == host
    &&& reply == spec_connected_to_room_packet(nid)
    &&& reg_post.has_room(host)
    &&& reg_post.room_of(host).host_id() == host
    &&& reg_post.room_of(host).roster() == roster_without(
        reg_pre.room_of(host).roster(),
        oid,
    ).push((oid, nid))
    &&& reg_post.room_of(host).next_id() == if oid == host {
        reg_pre.room_of(host).next_id()
    } else {
        (reg_pre.room_of(host).next_id() + 1) as u32
    }
    &&& reg_post.room_count() == reg_pre.room_count()
    &&& forall|h: Seq<char>| (#[trigger] reg_post.has_room(h)) == reg_pre.has_room(h)
    &&& forall|h: Seq<char>|
        h != host && reg_pre.has_room(h) ==> #[trigger] reg_post.room_of(h) == reg_pre.room_of(h)
}

/// The per-connection state; the socket itself lives with the caller.
pub struct ClientConnection {
    pub state: ConnState,
}

impl ClientConnection {
    /// A connection about which nothing is known yet.
    pub fn new() -> (r: ClientConnection)
        ensures
            r.state is Unidentified,
    {
        ClientConnection { state: ConnState::Unidentified }
    }

    /// The online id this connection was issued, empty while unidentified or
    /// closed.
    pub open spec fn online_id_spec(self) -> Seq<char> {
        match self.state {
            ConnState::Unidentified => Seq::empty(),
            ConnState::Identified { online_id } => online_id@,
            ConnState::Hosting { online_id, .. } => online_id@,
            ConnState::Joined { online_id, .. } => online_id@,
            ConnState::Closed => Seq::empty(),
        }
    }

    /// Serve a Connect: issue a fresh online id, move to Identified, and
    /// reply with a Connect packet carrying the id.
    pub fn handle_connect(&mut self, id_gen: &mut IdGenerator) -> (r: Result<
        Vec<u8>,
        HandleError,
    >)
        requires
            old(self).state is Unidentified,
            old(id_gen).wf(),
        ensures
            final(id_gen).wf(),
            match r {
                Ok(reply) => connect_issued(
                    *old(id_gen),
                    *final(id_gen),
                    final(self).state,
                    reply@,
                ),
                Err(e) => e == HandleError::IdSpaceExhausted && final(self).state == old(
                    self,
                ).state && gen_unchanged(*old(id_gen), *final(id_gen)),
            },
    {
        let id = match id_gen.generate() {
            Some(id) => id,
            None => {
                return Err(HandleError::IdSpaceExhausted);
            },
        };
        proof {
            assert forall|i: int| 0 <= i < id@.len() implies '\0' <= #[trigger] id@[i]
                <= '\u{7f}' by {
                assert(crate::id_gen::is_upper_alphanumeric_char(id@[i]));
                lemma_code_bound_ascii(id@[i]);
            }
            assert(vstd::utf8::is_ascii_chars(id@));
            vstd::utf8::is_ascii_chars_encode_utf8(id@);
        }
        let reply = PacketBuilder::build_connect(&id);
        self.state = ConnState::Identified { online_id: id };
        Ok(reply)
    }

    /// Serve a Host for an identified connection: create the room keyed by
    /// this connection's online id if none exists, enter it as its host with
    /// numeric id 1 and reply ConnectedToRoom(1); reply HostRejected, leaving
    /// everything as it was, when the room already exists.
    pub fn handle_host(
        &mut self,
        registry: &mut RoomRegistry,
        sender: &tokio::sync::mpsc::UnboundedSender<Vec<u8>>,
    ) -> (reply: Vec<u8>)
        requires
            old(self).state matches ConnState::Identified { .. },
            old(registry).wf(),
        ensures
            final(registry).wf(),
            old(registry).has_room(old(self).online_id_spec()) ==> {
                &&& reply@ == spec_host_rejected_packet()
                &&& final(self).state == old(self).state
                &&& reg_unchanged(*old(registry), *final(registry))
            },
            !old(registry).has_room(old(self).online_id_spec()) ==> host_accepted(
                *old(registry),
                *final(registry),
                old(self).online_id_spec(),
                final(self).state,
                reply@,
            ),
    {
        let online_id = match &self.state {
            ConnState::Identified { online_id } => online_id.clone(),
            _ => {
                proof {
                    assert(false);
                }
                String::new()
            },
        };
        match registry.create_if_absent(&online_id) {
            Err(_) => PacketBuilder::build_host_rejected(),
            Ok(()) => {
                let numeric_id = match registry.add_peer_to_room(
                    online_id.as_str(),
                    &online_id,
                    clone_sender(sender),
                ) {
                    Ok(n) => n,
                    Err(_) => {
                        proof {
                            assert(false);
                        }
                        0
                    },
                };
                proof {
                    assert(registry.room_of(online_id@).roster() =~= seq![(online_id@, 1u32)]);
                }
                self.state = ConnState::Hosting { online_id, numeric_id };
                PacketBuilder::build_connected_to_room(numeric_id)
            },
        }
    }

    /// Serve a Join for an identified connection: the payload names a host;
    /// enter that host's room under the next numeric id, reply
    /// ConnectedToRoom with it, and push the updated peer list onto every
    /// channel of the room. Reply RoomNotFound, leaving everything as it was,
    /// when no such room exists (or no numeric id is left in it). Fail,
    /// closing the connection, when the payload cannot be decoded.
    pub fn handle_join(
        &mut self,
        data: &[u8],
        registry: &mut RoomRegistry,
        sender: &tokio::sync::mpsc::UnboundedSender<Vec<u8>>,
    ) -> (r: Result<Vec<u8>, HandleError>)
        requires
            old(self).state matches ConnState::Identified { .. },
            old(registry).wf(),
        ensures
            final(registry).wf(),
            match spec_unpack_str(data@, 4) {
                Err(e) => {
                    &&& r == Err::<Vec<u8>, HandleError>(handle_error_of_codec(e))
                    &&& final(self).state == old(self).state
                    &&& reg_unchanged(*old(registry), *final(registry))
                },
                Ok(parsed) => {
                    let host = parsed.0;
                    if old(registry).has_room(host) && old(registry).room_of(host).next_id()
                        < u32::MAX {
                        r matches Ok(reply) && join_accepted(
                            *old(registry),
                            *final(registry),
                            old(self).online_id_spec(),
                            host,
                            final(self).state,
                            reply@,
                        )
                    } else {
                        r matches Ok(reply) && reply@ == spec_room_not_found_packet()
                            && final(self).state == old(self).state
                            && reg_unchanged(*old(registry), *final(registry))
                    }
                },
            },
    {
        let host_id = match ByteUtils::unpack_str(data, 4) {
            Ok((host_id, _)) => host_id,
            Err(CodecError::TruncatedInput) => {
                return Err(HandleError::TruncatedInput);
            },
            Err(CodecError::InvalidEncoding) => {
                return Err(HandleError::InvalidEncoding);
            },
        };
        let online_id = match &self.state {
            ConnState::Identified { online_id } => online_id.clone(),
            _ => {
                proof {
                    assert(false);
                }
                String::new()
            },
        };
        match registry.add_peer_to_room(host_id.as_str(), &online_id, clone_sender(sender)) {
            Ok(numeric_id) => {
                let reply = PacketBuilder::build_connected_to_room(numeric_id);
                let _ = registry.broadcast_room(host_id.as_str());
                self.state = ConnState::Joined { online_id, numeric_id, host_id };
                Ok(reply)
            },
            Err(_) => Ok(PacketBuilder::build_room_not_found()),
        }
    }

    /// Dispatch one arrived packet: decode its code and serve it as the
    /// transition table says. `Ok(Some(reply))` is written back, `Ok(None)`
    /// means the packet asked for nothing in this state, `Err` closes the
    /// connection. Kinds the server only sends, and commands that the state
    /// does not expect, change nothing.
    pub fn handle_packet(
        &mut self,
        data: &[u8],
        registry: &mut RoomRegistry,
        id_gen: &mut IdGenerator,
        sender: &tokio::sync::mpsc::UnboundedSender<Vec<u8>>,
    ) -> (r: Result<Option<Vec<u8>>, HandleError>)
        requires
            old(registry).wf(),
            old(id_gen).wf(),
        ensures
            final(registry).wf(),
            final(id_gen).wf(),
            match spec_unpack_u32(data@, 0) {
                Err(_) => r == Err::<Option<Vec<u8>>, HandleError>(HandleError::TruncatedInput)
                    && self_reg_gen_unchanged(
                    *old(self),
                    *final(self),
                    *old(registry),
                    *final(registry),
                    *old(id_gen),
                    *final(id_gen),
                ),
                Ok(code) => match spec_packet_type_of(code) {
                    None => r == Err::<Option<Vec<u8>>, HandleError>(HandleError::UnknownPacketType)
                        && self_reg_gen_unchanged(
                        *old(self),
                        *final(self),
                        *old(registry),
                        *final(registry),
                        *old(id_gen),
                        *final(id_gen),
                    ),
                    Some(kind) => match kind {
                        PacketType::Connect => handle_connect_post(
                            *old(self),
                            *final(self),
                            *old(registry),
                            *final(registry),
                            *old(id_gen),
                            *final(id_gen),
                            r,
                        ),
                        PacketType::Host => handle_host_post(
                            *old(self),
                            *final(self),
                            *old(registry),
                            *final(registry),
                            *old(id_gen),
                            *final(id_gen),
                            r,
                        ),
                        PacketType::Join => handle_join_post(
                            *old(self),
                            *final(self),
                            *old(registry),
                            *final(registry),
                            *old(id_gen),
                            *final(id_gen),
                            data@,
                            r,
                        ),
                        _ => r == Ok::<Option<Vec<u8>>, HandleError>(None)
                            && self_reg_gen_unchanged(
                            *old(self),
                            *final(self),
                            *old(registry),
                            *final(registry),
                            *old(id_gen),
                            *final(id_gen),
                        ),
                    },
                },
            },
    {
        let code = match ByteUtils::unpack_u32(data, 0) {
            Ok(code) => code,
            Err(_) => {
                return Err(HandleError::TruncatedInput);
            },
        };
        let kind = match PacketType::from_u32(code) {
            Some(kind) => kind,
            None => {
                return Err(HandleError::UnknownPacketType);
            },
        };
        match kind {
            PacketType::Connect => {
                if matches!(&self.state, ConnState::Unidentified) {
                    match self.handle_connect(id_gen) {
                        Ok(reply) => Ok(Some(reply)),
                        Err(e) => Err(e),
                    }
                } else {
                    Ok(None)
                }
            },
            PacketType::Host => match &self.state {
                ConnState::Identified { .. } => Ok(Some(self.handle_host(registry, sender))),
                ConnState::Hosting { .. } | ConnState::Joined { .. } => Ok(
                    Some(PacketBuilder::build_host_rejected()),
                ),
                _ => Ok(None),
            },
            PacketType::Join => match &self.state {
                ConnState::Identified { .. } => match self.handle_join(data, registry, sender) {
                    Ok(reply) => Ok(Some(reply)),
                    Err(e) => Err(e),
                },
                ConnState::Unidentified => Err(HandleError::NotIdentified),
                _ => Ok(None),
            },
            _ => Ok(None),
        }
    }

    /// Close this connection: if it sat in a room, drop it from the roster,
    /// evict the room if that left it empty, and push the updated peer list
    /// onto the channels of the peers that remain.
    pub fn handle_disconnect(&mut self, registry: &mut RoomRegistry)
        requires
            old(registry).wf(),
        ensures
            final(registry).wf(),
            final(self).state is Closed,
            match old(self).state {
                ConnState::Hosting { online_id, .. } => disconnect_cleanup(
                    *old(registry),
                    *final(registry),
                    online_id@,
                    online_id@,
                ),
                ConnState::Joined { online_id, host_id, .. } => disconnect_cleanup(
                    *old(registry),
                    *final(registry),
                    host_id@,
                    online_id@,
                ),
                _ => reg_unchanged(*old(registry), *final(registry)),
            },
    {
        match &self.state {
            ConnState::Hosting { online_id, .. } => {
                let host = online_id.clone();
                registry.remove_peer_from_room(host.as_str(), host.as_str());
                let _ = registry.broadcast_room(host.as_str());
            },
            ConnState::Joined { online_id, host_id, .. } => {
                let peer = online_id.clone();
                let host = host_id.clone();
                registry.remove_peer_from_room(host.as_str(), peer.as_str());
                let _ = registry.broadcast_room(host.as_str());
            },
            _ => {},
        }
        self.state = ConnState::Closed;
    }
}

/// A character whose code stays under the ASCII letters' end is an ASCII
/// character.
proof fn lemma_code_bound_ascii(c: char)
    requires
        c as u32 <= 90,
    ensures
        '\0' <= c <= '\u{7f}',
{
}

/// Connection state, registry and generator all kept as they were.
pub open spec fn self_reg_gen_unchanged(
    conn_pre: ClientConnection,
    conn_post: ClientConnection,
    reg_pre: RoomRegistry,
    reg_post: RoomRegistry,
    gen_pre: IdGenerator,
    gen_post: IdGenerator,
) -> bool {
    &&& conn_post.state == conn_pre.state
    &&& reg_unchanged(reg_pre, reg_post)
    &&& gen_unchanged(gen_pre, gen_post)
}

/// What dispatching a Connect packet does, state by state.
pub open spec fn handle_connect_post(
    conn_pre: ClientConnection,
    conn_post: ClientConnection,
    reg_pre: RoomRegistry,
    reg_post: RoomRegistry,
    gen_pre: IdGenerator,
    gen_post: IdGenerator,
    r: Result<Option<Vec<u8>>, HandleError>,
) -> bool {
    if conn_pre.state is Unidentified {
        &&& reg_unchanged(reg_pre, reg_post)
        &&& match r {
            Ok(reply) => reply matches Some(reply) && connect_issued(
                gen_pre,
                gen_post,
                conn_post.state,
                reply@,
            ),
            Err(e) => e == HandleError::IdSpaceExhausted && conn_post.state == conn_pre.state
                && gen_unchanged(gen_pre, gen_post),
        }
    } else {
        r == Ok::<Option<Vec<u8>>, HandleError>(None) && self_reg_gen_unchanged(
            conn_pre,
            conn_post,
            reg_pre,
            reg_post,
            gen_pre,
            gen_post,
        )
    }
}

/// What dispatching a Host packet does, state by state.
pub open spec fn handle_host_post(
    conn_pre: ClientConnection,
    conn_post: ClientConnection,
    reg_pre: RoomRegistry,
    reg_post: RoomRegistry,
    gen_pre: IdGenerator,
    gen_post: IdGenerator,
    r: Result<Option<Vec<u8>>, HandleError>,
) -> bool {
    &&& gen_unchanged(gen_pre, gen_post)
    &&& match conn_pre.state {
        ConnState::Identified { .. } => {
            let oid = conn_pre.online_id_spec();
            &&& r matches Ok(Some(reply))
            &&& if reg_pre.has_room(oid) {
                reply@ == spec_host_rejected_packet() && conn_post.state == conn_pre.state
                    && reg_unchanged(reg_pre, reg_post)
            } else {
                host_accepted(reg_pre, reg_post, oid, conn_post.state, reply@)
            }
        },
        ConnState::Hosting { .. } | ConnState::Joined { .. } => {
            &&& r matches Ok(Some(reply)) && reply@ == spec_host_rejected_packet()
            &&& conn_post.state == conn_pre.state
            &&& reg_unchanged(reg_pre, reg_post)
        },
        _ => r == Ok::<Option<Vec<u8>>, HandleError>(None) && self_reg_gen_unchanged(
            conn_pre,
            conn_post,
            reg_pre,
            reg_post,
            gen_pre,
            gen_post,
        ),
    }
}

/// What dispatching a Join packet does, state by state.
pub open spec fn handle_join_post(
    conn_pre: ClientConnection,
    conn_post: ClientConnection,
    reg_pre: RoomRegistry,
    reg_post: RoomRegistry,
    gen_pre: IdGenerator,
    gen_post: IdGenerator,
    data: Seq<u8>,
    r: Result<Option<Vec<u8>>, HandleError>,
) -> bool {
    &&& gen_unchanged(gen_pre, gen_post)
    &&& match conn_pre.state {
        ConnState::Identified { .. } => match spec_unpack_str(data, 4) {
            Err(e) => {
                &&& r == Err::<Option<Vec<u8>>, HandleError>(handle_error_of_codec(e))
                &&& conn_post.state == conn_pre.state
                &&& reg_unchanged(reg_pre, reg_post)
            },
            Ok(parsed) => {
                let host = parsed.0;
                if reg_pre.has_room(host) && reg_pre.room_of(host).next_id() < u32::MAX {
                    r matches Ok(Some(reply)) && join_accepted(
                        reg_pre,
                        reg_post,
                        conn_pre.online_id_spec(),
                        host,
                        conn_post.state,
                        reply@,
                    )
                } else {
                    r matches Ok(Some(reply)) && reply@ == spec_room_not_found_packet()
                        && conn_post.state == conn_pre.state && reg_unchanged(reg_pre, reg_post)
                }
            },
        },
        ConnState::Unidentified => r == Err::<Option<Vec<u8>>, HandleError>(
            HandleError::NotIdentified,
        ) && self_reg_gen_unchanged(conn_pre, conn_post, reg_pre, reg_post, gen_pre, gen_post),
        _ => r == Ok::<Option<Vec<u8>>, HandleError>(None) && self_reg_gen_unchanged(
            conn_pre,
            conn_post,
            reg_pre,
            reg_post,
            gen_pre,
            gen_post,
        ),
    }
}

/// What closing a connection that sat in `room_key`'s room does to the
/// registry: the peer's entry is gone; an emptied room is gone with it; no
/// other room is touched. A room the registry never had stays absent.
pub open spec fn disconnect_cleanup(
    reg_pre: RoomRegistry,
    reg_post: RoomRegistry,
    room_key: Seq<char>,
    peer: Seq<char>,
) -> bool {
    &&& if reg_pre.has_room(room_key) {
        let remaining = roster_without(reg_pre.room_of(room_key).roster(), peer);
        if remaining.len() == 0 {
            !reg_post.has_room(room_key) && reg_post.room_count() == reg_pre.room_count() - 1
        } else {
            &&& reg_post.has_room(room_key)
            &&& reg_post.room_of(room_key).roster() == remaining
            &&& reg_post.room_count() == reg_pre.room_count()
        }
    } else {
        reg_unchanged(reg_pre, reg_post)
    }
    &&& forall|h: Seq<char>|
        h != room_key ==> (#[trigger] reg_post.has_room(h)) == reg_pre.has_room(h) && (
        reg_pre.has_room(h) ==> reg_post.room_of(h) == reg_pre.room_of(h))
}

/// Two Host commands for one online id cannot both be accepted: serving the
/// first leaves the room keyed by the id present, and acceptance needs it
/// absent. The other command is answered with HostRejected and changes
/// nothing, whatever else happened to other rooms in between.
pub proof fn lemma_host_exclusive(
    reg0: RoomRegistry,
    reg1: RoomRegistry,
    reg2: RoomRegistry,
    oid: Seq<char>,
    s1: ConnState,
    s2: ConnState,
    r1: Seq<u8>,
    r2: Seq<u8>,
)
    requires
        host_accepted(reg0, reg1, oid, s1, r1),
    ensures
        reg1.has_room(oid),
        !host_accepted(reg1, reg2, oid, s2, r2),
{
}

/// Numeric ids are handed out in order: the host of a fresh room holds 1, the
/// first joiner served is assigned 2, the second 3 - however the three
/// commands interleave with traffic for other rooms, as long as this room's
/// registry serializes them.
pub proof fn lemma_sequential_numeric_ids(
    reg0: RoomRegistry,
    reg1: RoomRegistry,
    reg2: RoomRegistry,
    reg3: RoomRegistry,
    host: Seq<char>,
    a: Seq<char>,
    b: Seq<char>,
    s1: ConnState,
    s2: ConnState,
    s3: ConnState,
    r1: Seq<u8>,
    r2: Seq<u8>,
    r3: Seq<u8>,
)
    requires
        host_accepted(reg0, reg1, host, s1, r1),
        join_accepted(reg1, reg2, a, host, s2, r2),
        join_accepted(reg2, reg3, b, host, s3, r3),
        a != host,
        b != host,
        b != a,
    ensures
        crate::room::roster_numeric_id(reg1.room_of(host).roster(), host) == 1,
        crate::room::roster_numeric_id(reg2.room_of(host).roster(), a) == 2,
        crate::room::roster_numeric_id(reg3.room_of(host).roster(), b) == 3,
        reg3.room_of(host).roster() =~= seq![(host, 1u32), (a, 2u32), (b, 3u32)],
{
    let ro1 = reg1.room_of(host).roster();
    assert(ro1 =~= seq![(host, 1u32)]);
    crate::room::lemma_roster_index_unique(ro1, host, 0);
    assert(!crate::room::roster_has(ro1, a));
    let ro2 = reg2.room_of(host).roster();
    assert(ro2 =~= seq![(host, 1u32), (a, 2u32)]);
    crate::room::lemma_roster_index_unique(ro2, a, 1);
    assert(!crate::room::roster_has(ro2, b));
    let ro3 = reg3.room_of(host).roster();
    assert(ro3 =~= seq![(host, 1u32), (a, 2u32), (b, 3u32)]);
    crate::room::lemma_roster_index_unique(ro3, b, 2);
}

} // verus!
