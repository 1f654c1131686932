use rsengine::js5::{
    fulfillable, handshake, new_connection, read_request, worldlist_response, ConnectionState, Js5Request,
    Js5RequestDecoder,
};
use rsengine::packet::Packet;
use rsengine::rsa::decrypt_rsa_block;

#[test]
fn handshake_accepts_current_client() {
    let mut inbound = Packet::from(vec![0, 0, 2, 18]);
    let mut outbound = Packet::new(1);
    assert_eq!(handshake(&mut inbound, &mut outbound), ConnectionState::Connected);
    assert_eq!(outbound.data, vec![0]);
}

#[test]
fn handshake_refuses_old_client() {
    let mut inbound = Packet::from(vec![0, 0, 2, 17]);
    let mut outbound = Packet::new(1);
    assert_eq!(handshake(&mut inbound, &mut outbound), ConnectionState::Closed);
    assert_eq!(outbound.data, vec![6]);
    let mut empty = Packet::new(0);
    let mut reply = Packet::new(1);
    assert_eq!(handshake(&mut empty, &mut reply), ConnectionState::Closed);
    assert_eq!(reply.data, vec![6]);
}

fn read(bytes: Vec<u8>) -> Js5Request {
    let mut packet = Packet::from(bytes);
    let request = read_request(&mut packet);
    assert_eq!(packet.position, 4);
    request
}

#[test]
fn requests_are_read() {
    assert_eq!(read(vec![1, 2, 0, 5]), Js5Request::Group { urgent: true, archive: 2, group: 5 });
    assert_eq!(read(vec![0, 3, 1, 0]), Js5Request::Group { urgent: false, archive: 3, group: 256 });
    assert_eq!(read(vec![4, 9, 0, 0]), Js5Request::Rekey { key: 9 });
    assert_eq!(read(vec![4, 9, 0, 1]), Js5Request::Invalid);
    assert_eq!(read(vec![2, 0, 0, 0]), Js5Request::LoggedIn);
    assert_eq!(read(vec![2, 0, 0, 1]), Js5Request::Invalid);
    assert_eq!(read(vec![3, 7, 7, 7]), Js5Request::LoggedOut);
    assert_eq!(read(vec![6, 0, 0, 3]), Js5Request::Connected);
    assert_eq!(read(vec![6, 0, 0, 4]), Js5Request::Invalid);
    assert_eq!(read(vec![7, 0, 0, 0]), Js5Request::Disconnect);
    assert_eq!(read(vec![9, 0, 0, 0]), Js5Request::Invalid);
}

#[test]
fn decoder_returns_last_request() {
    let mut packet = Packet::from(vec![1, 2, 0, 5, 4, 9, 0, 1]);
    assert_eq!(Js5RequestDecoder::decode(&mut packet), Js5Request::Rekey { key: 9 });
    let mut empty = Packet::new(0);
    assert_eq!(Js5RequestDecoder::decode(&mut empty), Js5Request::Invalid);
}

#[test]
fn small_group_response() {
    let data = [0u8, 0, 0, 0, 3, 9, 8, 7];
    let request = Js5Request::Group { urgent: false, archive: 2, group: 5 };
    let packet = Js5Request::fulfill_request(&request, &data).unwrap();
    assert_eq!(packet.data, vec![2, 0, 5, 0, 0, 0, 0, 3, 9, 8, 7]);
    assert_eq!(packet.position, packet.data.len());
    let urgent = Js5Request::Group { urgent: true, archive: 2, group: 5 };
    let packet = Js5Request::fulfill_request(&urgent, &data).unwrap();
    assert_eq!(packet.data[3], 0x80);
}

#[test]
fn compressed_group_sends_eight_more_bytes() {
    let data = [2u8, 0, 0, 0, 1, 0, 0, 0, 9, 42];
    let request = Js5Request::Group { urgent: false, archive: 1, group: 1 };
    let packet = Js5Request::fulfill_request(&request, &data).unwrap();
    assert_eq!(packet.data, vec![1, 0, 1, 2, 0, 0, 0, 1, 0, 0, 0, 9, 42]);
}

#[test]
fn large_group_is_split_into_blocks() {
    let mut data = vec![0u8, 0, 0, 2, 0x54];
    for i in 0..596u32 {
        data.push((i % 251) as u8);
    }
    let request = Js5Request::Group { urgent: false, archive: 4, group: 7 };
    let packet = Js5Request::fulfill_request(&request, &data).unwrap();
    assert_eq!(packet.data.len(), 4 + 508 + 1 + 92);
    assert_eq!(&packet.data[4..512], &data[1..509]);
    assert_eq!(packet.data[512], 0xFF);
    assert_eq!(&packet.data[513..], &data[509..]);
}

#[test]
fn index_response() {
    let request = Js5Request::Group { urgent: true, archive: 255, group: 255 };
    let packet = Js5Request::fulfill_request(&request, &[1, 2, 3]).unwrap();
    assert_eq!(packet.data, vec![255, 0, 255, 0, 0, 0, 0, 3, 1, 2, 3]);
}

#[test]
fn other_requests_are_refused() {
    let result = Js5Request::fulfill_request(&Js5Request::LoggedIn, &[]);
    assert_eq!(result.err(), Some("Invalid JS5 request".to_string()));
}

#[test]
fn worldlist_for_current_client() {
    let mut input = Packet::from(vec![0, 0, 0, 2]);
    let mut output = Packet::new(16);
    worldlist_response(&mut input, &mut output);
    assert_eq!(output.data, vec![0, 0, 8, 1, 1, 1, 128, 191, 0, 0, 1]);
}

#[test]
fn rsa_block_is_decrypted() {
    let packet = Packet::from(vec![9, 5]);
    let mut packet = packet;
    packet.position = 1;
    let plain = decrypt_rsa_block(packet, 1, &[3], &[7]);
    assert_eq!(plain.data, vec![6]);
    assert_eq!(plain.position, 0);
    let wide = decrypt_rsa_block(Packet::from(vec![2]), 1, &[10], &[3, 232]);
    assert_eq!(wide.data, vec![24]);
}

#[test]
fn new_connection_requests() {
    let mut open = Packet::from(vec![15, 0, 0, 2, 18]);
    let mut out = Packet::new(1);
    assert_eq!(new_connection(&mut open, &mut out), Some(ConnectionState::Connected));
    assert_eq!(out.data, vec![0]);
    let mut list = Packet::from(vec![23, 0, 0, 0, 2]);
    let mut out = Packet::new(16);
    assert_eq!(new_connection(&mut list, &mut out), Some(ConnectionState::Closed));
    assert_eq!(out.data, vec![0, 0, 8, 1, 1, 1, 128, 191, 0, 0, 1]);
    let mut other = Packet::from(vec![99]);
    let mut out = Packet::new(1);
    assert_eq!(new_connection(&mut other, &mut out), Some(ConnectionState::Closed));
    assert!(out.data.is_empty());
    let mut none = Packet::new(0);
    let mut out = Packet::new(1);
    assert_eq!(new_connection(&mut none, &mut out), None);
}

#[test]
fn fulfillable_checks_size_field() {
    let group = Js5Request::Group { urgent: false, archive: 2, group: 7 };
    assert!(fulfillable(&group, &[0, 0, 0, 0, 3, 1, 2, 3]));
    assert!(!fulfillable(&group, &[0, 0, 0, 0, 10, 1]));
    assert!(!fulfillable(&group, &[]));
    assert!(!fulfillable(&group, &[0, 0x80, 0, 0, 0, 1, 2, 3]));
    // A compressed group carries four more bytes of header.
    assert!(!fulfillable(&group, &[1, 0, 0, 0, 3, 1, 2, 3]));
    assert!(fulfillable(&group, &[1, 0, 0, 0, 3, 1, 2, 3, 4, 5, 6, 7]));
    let index = Js5Request::Group { urgent: true, archive: 255, group: 255 };
    assert!(fulfillable(&index, &[]));
    assert!(fulfillable(&Js5Request::LoggedIn, &[]));
}
