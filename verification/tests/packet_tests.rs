use rendezvous::packet::{PacketBuilder, PacketType};

#[test]
fn from_u32_known_codes() {
    assert_eq!(PacketType::from_u32(0), Some(PacketType::Connect));
    assert_eq!(PacketType::from_u32(1), Some(PacketType::Host));
    assert_eq!(PacketType::from_u32(2), Some(PacketType::Join));
    assert_eq!(PacketType::from_u32(3), Some(PacketType::ConnectedToRoom));
    assert_eq!(PacketType::from_u32(4), Some(PacketType::PeerList));
    assert_eq!(PacketType::from_u32(5), Some(PacketType::HostRejected));
    assert_eq!(PacketType::from_u32(6), Some(PacketType::RoomNotFound));
}

#[test]
fn from_u32_unknown_codes() {
    assert_eq!(PacketType::from_u32(7), None);
    assert_eq!(PacketType::from_u32(100), None);
    assert_eq!(PacketType::from_u32(u32::MAX), None);
}

#[test]
fn code_round_trip() {
    for t in [
        PacketType::Connect,
        PacketType::Host,
        PacketType::Join,
        PacketType::ConnectedToRoom,
        PacketType::PeerList,
        PacketType::HostRejected,
        PacketType::RoomNotFound,
    ] {
        assert_eq!(PacketType::from_u32(t.code()), Some(t));
    }
}

#[test]
fn build_connect_layout() {
    let packet = PacketBuilder::build_connect(&String::from("K3N7Q"));
    let mut expected = vec![0u8, 0, 0, 0]; // code 0
    expected.extend_from_slice(&[0, 0, 0, 5]); // byte count
    expected.extend_from_slice(b"K3N7Q");
    assert_eq!(packet, expected);
}

#[test]
fn build_connected_to_room_layout() {
    let packet = PacketBuilder::build_connected_to_room(1);
    assert_eq!(packet, vec![0u8, 0, 0, 3, 0, 0, 0, 1]);
    let packet = PacketBuilder::build_connected_to_room(0x0A0B0C0D);
    assert_eq!(packet, vec![0u8, 0, 0, 3, 0x0A, 0x0B, 0x0C, 0x0D]);
}

#[test]
fn build_peer_list_layout() {
    let packet = PacketBuilder::build_peer_list(&vec![1, 2, 3]);
    let expected = vec![
        0u8, 0, 0, 4, // code 4
        0, 0, 0, 3, // count
        0, 0, 0, 1, 0, 0, 0, 2, 0, 0, 0, 3,
    ];
    assert_eq!(packet, expected);
    assert_eq!(PacketBuilder::build_peer_list(&vec![]), vec![0u8, 0, 0, 4, 0, 0, 0, 0]);
}

#[test]
fn rejection_packet_layouts() {
    assert_eq!(PacketBuilder::build_host_rejected(), vec![0u8, 0, 0, 5]);
    assert_eq!(PacketBuilder::build_room_not_found(), vec![0u8, 0, 0, 6]);
}

#[test]
fn frame_packet_prefixes_length() {
    let framed = PacketBuilder::frame_packet(&vec![9u8, 8, 7]);
    assert_eq!(framed, vec![0u8, 0, 0, 3, 9, 8, 7]);
    assert_eq!(PacketBuilder::frame_packet(&vec![]), vec![0u8, 0, 0, 0]);
}
