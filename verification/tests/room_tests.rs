use rendezvous::id_gen::IdGenerator;
use rendezvous::registry::{RegistryError, RoomRegistry};
use rendezvous::room::Room;
use tokio::sync::mpsc::unbounded_channel;

#[test]
fn generated_ids_distinct_and_well_formed() {
    let mut gen = IdGenerator::new();
    let mut seen: Vec<String> = Vec::new();
    for _ in 0..200 {
        let id = gen.generate().expect("id space is nowhere near exhausted");
        assert_eq!(id.len(), 5);
        assert!(id
            .chars()
            .all(|c| c.is_ascii_uppercase() || c.is_ascii_digit()));
        assert!(!seen.contains(&id), "issued id repeated: {}", id);
        seen.push(id);
    }
}

#[test]
fn host_gets_one_joiners_count_up() {
    let mut room = Room::new(String::from("K3N7Q"));
    assert!(room.is_empty());
    let (tx, _rx1) = unbounded_channel();
    assert_eq!(room.add_peer(String::from("K3N7Q"), tx), 1);
    let (tx, _rx2) = unbounded_channel();
    assert_eq!(room.add_peer(String::from("P9X2L"), tx), 2);
    let (tx, _rx3) = unbounded_channel();
    assert_eq!(room.add_peer(String::from("A1B2C"), tx), 3);
    assert!(!room.is_empty());
    assert!(room.has_peer("P9X2L"));
    assert!(!room.has_peer("ZZZZZ"));
    let peers = room.get_peers();
    assert_eq!(
        peers,
        vec![
            (String::from("K3N7Q"), 1),
            (String::from("P9X2L"), 2),
            (String::from("A1B2C"), 3)
        ]
    );
    assert_eq!(room.peer_numeric_ids(), vec![1, 2, 3]);
}

#[test]
fn numeric_ids_never_reused_after_leave() {
    let mut room = Room::new(String::from("HOST1"));
    let (tx, _rx1) = unbounded_channel();
    room.add_peer(String::from("HOST1"), tx);
    let (tx, _rx2) = unbounded_channel();
    assert_eq!(room.add_peer(String::from("PEER1"), tx), 2);
    room.remove_peer("PEER1");
    assert!(!room.has_peer("PEER1"));
    let (tx, _rx3) = unbounded_channel();
    // the rejoining peer gets a fresh id, not 2 again
    assert_eq!(room.add_peer(String::from("PEER1"), tx), 3);
}

#[test]
fn remove_peer_leaves_others() {
    let mut room = Room::new(String::from("HOST1"));
    let (tx, _rx1) = unbounded_channel();
    room.add_peer(String::from("HOST1"), tx);
    let (tx, _rx2) = unbounded_channel();
    room.add_peer(String::from("PEER1"), tx);
    room.remove_peer("HOST1");
    assert!(!room.has_peer("HOST1"));
    assert!(room.has_peer("PEER1"));
    assert_eq!(room.get_peers(), vec![(String::from("PEER1"), 2)]);
    room.remove_peer("PEER1");
    assert!(room.is_empty());
}

#[test]
fn broadcast_delivers_roster_to_every_peer() {
    let mut room = Room::new(String::from("HOST1"));
    let (tx_a, mut rx_a) = unbounded_channel();
    room.add_peer(String::from("HOST1"), tx_a);
    let (tx_b, mut rx_b) = unbounded_channel();
    room.add_peer(String::from("PEER1"), tx_b);
    let packet = room.broadcast_peer_list();
    let expected = vec![0u8, 0, 0, 4, 0, 0, 0, 2, 0, 0, 0, 1, 0, 0, 0, 2];
    assert_eq!(packet, expected);
    assert_eq!(rx_a.try_recv().unwrap(), expected);
    assert_eq!(rx_b.try_recv().unwrap(), expected);
    assert!(rx_a.try_recv().is_err(), "exactly one packet per peer");
}

#[test]
fn broadcast_survives_dead_peer() {
    let mut room = Room::new(String::from("HOST1"));
    let (tx_a, rx_a) = unbounded_channel();
    room.add_peer(String::from("HOST1"), tx_a);
    let (tx_b, mut rx_b) = unbounded_channel();
    room.add_peer(String::from("PEER1"), tx_b);
    drop(rx_a); // the host's connection died
    let packet = room.broadcast_peer_list();
    assert_eq!(rx_b.try_recv().unwrap(), packet);
}

#[test]
fn registry_create_only_once() {
    let mut reg = RoomRegistry::new();
    let host = String::from("K3N7Q");
    assert_eq!(reg.create_if_absent(&host), Ok(()));
    assert!(reg.contains_room("K3N7Q"));
    // the second attempt is refused and the roster is untouched
    assert_eq!(reg.create_if_absent(&host), Err(RegistryError::AlreadyExists));
    let (tx, _rx) = unbounded_channel();
    assert_eq!(reg.add_peer_to_room("K3N7Q", &host, tx), Ok(1));
    assert_eq!(reg.create_if_absent(&host), Err(RegistryError::AlreadyExists));
    assert_eq!(
        reg.room_peers("K3N7Q").unwrap(),
        vec![(String::from("K3N7Q"), 1)]
    );
}

#[test]
fn registry_join_unknown_room_rejected() {
    let mut reg = RoomRegistry::new();
    let (tx, _rx) = unbounded_channel();
    assert_eq!(
        reg.add_peer_to_room("ZZZZZ", &String::from("P9X2L"), tx),
        Err(RegistryError::RoomNotFound)
    );
    assert!(!reg.contains_room("ZZZZZ"));
    assert!(reg.room_peers("ZZZZZ").is_none());
}

#[test]
fn registry_eviction_when_room_empties() {
    let mut reg = RoomRegistry::new();
    let host = String::from("K3N7Q");
    let peer = String::from("P9X2L");
    reg.create_if_absent(&host).unwrap();
    let (tx, _rx1) = unbounded_channel();
    reg.add_peer_to_room("K3N7Q", &host, tx).unwrap();
    let (tx, mut rx2) = unbounded_channel();
    assert_eq!(reg.add_peer_to_room("K3N7Q", &peer, tx), Ok(2));

    reg.remove_peer_from_room("K3N7Q", "K3N7Q");
    assert!(reg.contains_room("K3N7Q"));
    assert_eq!(
        reg.room_peers("K3N7Q").unwrap(),
        vec![(String::from("P9X2L"), 2)]
    );
    // the roster the remaining peer would be sent no longer carries the host
    let packet = reg.broadcast_room("K3N7Q").unwrap();
    assert_eq!(packet, vec![0u8, 0, 0, 4, 0, 0, 0, 1, 0, 0, 0, 2]);
    assert_eq!(rx2.try_recv().unwrap(), packet);

    // the last peer leaves: the room is evicted
    reg.remove_peer_from_room("K3N7Q", "P9X2L");
    assert!(!reg.contains_room("K3N7Q"));
    assert!(reg.broadcast_room("K3N7Q").is_none());
}
