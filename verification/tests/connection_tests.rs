use rendezvous::codec::ByteUtils;
use rendezvous::connection::{ClientConnection, ConnState, HandleError};
use rendezvous::id_gen::IdGenerator;
use rendezvous::registry::RoomRegistry;
use tokio::sync::mpsc::{unbounded_channel, UnboundedReceiver, UnboundedSender};

fn connect_packet() -> Vec<u8> {
    ByteUtils::pack_u32(0)
}

fn host_packet() -> Vec<u8> {
    ByteUtils::pack_u32(1)
}

fn join_packet(host_id: &str) -> Vec<u8> {
    let mut p = ByteUtils::pack_u32(2);
    p.extend_from_slice(&ByteUtils::pack_str(host_id));
    p
}

struct Client {
    conn: ClientConnection,
    sender: UnboundedSender<Vec<u8>>,
    receiver: UnboundedReceiver<Vec<u8>>,
}

fn client() -> Client {
    let (sender, receiver) = unbounded_channel();
    Client { conn: ClientConnection::new(), sender, receiver }
}

fn identify(c: &mut Client, reg: &mut RoomRegistry, gen: &mut IdGenerator) -> String {
    let reply = c
        .conn
        .handle_packet(&connect_packet(), reg, gen, &c.sender)
        .unwrap()
        .unwrap();
    assert_eq!(&reply[..4], &[0, 0, 0, 0], "Connect reply carries code 0");
    let (id, end) = ByteUtils::unpack_str(&reply, 4).unwrap();
    assert_eq!(end, reply.len());
    id
}

#[test]
fn connect_issues_fresh_id() {
    let mut reg = RoomRegistry::new();
    let mut gen = IdGenerator::new();
    let mut a = client();
    let id = identify(&mut a, &mut reg, &mut gen);
    assert_eq!(id.len(), 5);
    assert!(id.chars().all(|c| c.is_ascii_uppercase() || c.is_ascii_digit()));
    match &a.conn.state {
        ConnState::Identified { online_id } => assert_eq!(*online_id, id),
        _ => panic!("expected Identified"),
    }
    let mut b = client();
    let other = identify(&mut b, &mut reg, &mut gen);
    assert_ne!(id, other, "two connections never share an online id");
}

#[test]
fn host_creates_room_and_assigns_one() {
    let mut reg = RoomRegistry::new();
    let mut gen = IdGenerator::new();
    let mut a = client();
    let id = identify(&mut a, &mut reg, &mut gen);
    let reply = a
        .conn
        .handle_packet(&host_packet(), &mut reg, &mut gen, &a.sender)
        .unwrap()
        .unwrap();
    assert_eq!(reply, vec![0u8, 0, 0, 3, 0, 0, 0, 1], "ConnectedToRoom(1)");
    assert!(reg.contains_room(&id));
    assert_eq!(reg.room_peers(&id).unwrap(), vec![(id.clone(), 1)]);
    assert!(matches!(a.conn.state, ConnState::Hosting { .. }));
}

#[test]
fn join_assigns_two_and_broadcasts() {
    let mut reg = RoomRegistry::new();
    let mut gen = IdGenerator::new();
    let mut a = client();
    let host_id = identify(&mut a, &mut reg, &mut gen);
    a.conn
        .handle_packet(&host_packet(), &mut reg, &mut gen, &a.sender)
        .unwrap();

    let mut b = client();
    let joiner_id = identify(&mut b, &mut reg, &mut gen);
    let reply = b
        .conn
        .handle_packet(&join_packet(&host_id), &mut reg, &mut gen, &b.sender)
        .unwrap()
        .unwrap();
    assert_eq!(reply, vec![0u8, 0, 0, 3, 0, 0, 0, 2], "ConnectedToRoom(2)");
    assert_eq!(
        reg.room_peers(&host_id).unwrap(),
        vec![(host_id.clone(), 1), (joiner_id.clone(), 2)]
    );
    // both peers were pushed the updated peer list {1, 2}
    let expected = vec![0u8, 0, 0, 4, 0, 0, 0, 2, 0, 0, 0, 1, 0, 0, 0, 2];
    assert_eq!(a.receiver.try_recv().unwrap(), expected);
    assert_eq!(b.receiver.try_recv().unwrap(), expected);
    match &b.conn.state {
        ConnState::Joined { online_id, numeric_id, host_id: h } => {
            assert_eq!(*online_id, joiner_id);
            assert_eq!(*numeric_id, 2);
            assert_eq!(*h, host_id);
        },
        _ => panic!("expected Joined"),
    }
}

#[test]
fn second_host_rejected_roster_unchanged() {
    let mut reg = RoomRegistry::new();
    let mut gen = IdGenerator::new();
    let mut a = client();
    let id = identify(&mut a, &mut reg, &mut gen);
    a.conn
        .handle_packet(&host_packet(), &mut reg, &mut gen, &a.sender)
        .unwrap();
    let reply = a
        .conn
        .handle_packet(&host_packet(), &mut reg, &mut gen, &a.sender)
        .unwrap()
        .unwrap();
    assert_eq!(reply, vec![0u8, 0, 0, 5], "explicit HostRejected reply");
    assert_eq!(reg.room_peers(&id).unwrap(), vec![(id.clone(), 1)]);
    assert!(matches!(a.conn.state, ConnState::Hosting { .. }));
}

#[test]
fn join_unknown_room_rejected_connection_stays_usable() {
    let mut reg = RoomRegistry::new();
    let mut gen = IdGenerator::new();
    let mut d = client();
    identify(&mut d, &mut reg, &mut gen);
    let reply = d
        .conn
        .handle_packet(&join_packet("ZZZZZ"), &mut reg, &mut gen, &d.sender)
        .unwrap()
        .unwrap();
    assert_eq!(reply, vec![0u8, 0, 0, 6], "explicit RoomNotFound reply");
    assert!(!reg.contains_room("ZZZZZ"));
    assert!(matches!(d.conn.state, ConnState::Identified { .. }));
    // the same connection can still host afterwards
    let reply = d
        .conn
        .handle_packet(&host_packet(), &mut reg, &mut gen, &d.sender)
        .unwrap()
        .unwrap();
    assert_eq!(reply, vec![0u8, 0, 0, 3, 0, 0, 0, 1]);
}

#[test]
fn disconnect_removes_peer_and_rebroadcasts() {
    let mut reg = RoomRegistry::new();
    let mut gen = IdGenerator::new();
    let mut a = client();
    let host_id = identify(&mut a, &mut reg, &mut gen);
    a.conn
        .handle_packet(&host_packet(), &mut reg, &mut gen, &a.sender)
        .unwrap();
    let mut b = client();
    identify(&mut b, &mut reg, &mut gen);
    b.conn
        .handle_packet(&join_packet(&host_id), &mut reg, &mut gen, &b.sender)
        .unwrap();
    a.receiver.try_recv().unwrap(); // the join broadcast

    b.conn.handle_disconnect(&mut reg);
    assert!(matches!(b.conn.state, ConnState::Closed));
    assert_eq!(reg.room_peers(&host_id).unwrap(), vec![(host_id.clone(), 1)]);
    // the remaining peer sees a roster without the leaver
    assert_eq!(
        a.receiver.try_recv().unwrap(),
        vec![0u8, 0, 0, 4, 0, 0, 0, 1, 0, 0, 0, 1]
    );

    // the last peer leaves: the room is gone
    a.conn.handle_disconnect(&mut reg);
    assert!(!reg.contains_room(&host_id));
}

#[test]
fn malformed_and_unknown_packets_are_fatal() {
    let mut reg = RoomRegistry::new();
    let mut gen = IdGenerator::new();
    let mut a = client();
    assert_eq!(
        a.conn.handle_packet(&[0, 0], &mut reg, &mut gen, &a.sender),
        Err(HandleError::TruncatedInput)
    );
    assert_eq!(
        a.conn
            .handle_packet(&ByteUtils::pack_u32(99), &mut reg, &mut gen, &a.sender),
        Err(HandleError::UnknownPacketType)
    );
    // a Join before Connect has no identity to join with
    assert_eq!(
        a.conn
            .handle_packet(&join_packet("K3N7Q"), &mut reg, &mut gen, &a.sender),
        Err(HandleError::NotIdentified)
    );
    // a truncated Join payload is fatal
    identify(&mut a, &mut reg, &mut gen);
    let mut bad = ByteUtils::pack_u32(2);
    bad.extend_from_slice(&[0, 0, 0, 9, b'x']);
    assert_eq!(
        a.conn.handle_packet(&bad, &mut reg, &mut gen, &a.sender),
        Err(HandleError::TruncatedInput)
    );
}

#[test]
fn server_only_kinds_are_ignored() {
    let mut reg = RoomRegistry::new();
    let mut gen = IdGenerator::new();
    let mut a = client();
    for code in [3u32, 4, 5, 6] {
        let r = a
            .conn
            .handle_packet(&ByteUtils::pack_u32(code), &mut reg, &mut gen, &a.sender)
            .unwrap();
        assert!(r.is_none());
    }
    assert!(matches!(a.conn.state, ConnState::Unidentified));
    // Connect on an already identified connection changes nothing
    let id = identify(&mut a, &mut reg, &mut gen);
    let r = a
        .conn
        .handle_packet(&connect_packet(), &mut reg, &mut gen, &a.sender)
        .unwrap();
    assert!(r.is_none());
    match &a.conn.state {
        ConnState::Identified { online_id } => assert_eq!(*online_id, id),
        _ => panic!("expected Identified"),
    }
}
