use rsengine::packet::Packet;

#[test]
fn test_packet_creation() {
    let packet = Packet::new(10);
    assert_eq!(packet.len(), 0);
    assert_eq!(packet.remaining(), 0);
}

#[test]
fn test_packet_from_vec() {
    let data = vec![1, 2, 3, 4];
    let packet = Packet::from(data.clone());
    assert_eq!(packet.data, data);
    assert_eq!(packet.len(), 4);
    assert_eq!(packet.remaining(), 4);
}

#[test]
fn test_p1() {
    let mut packet = Packet::new(10);
    packet.p1(255);
    assert_eq!(packet.data, vec![255]);
}

#[test]
fn test_p2() {
    let mut packet = Packet::new(10);
    packet.p2(513);
    assert_eq!(packet.data, vec![2, 1]);
}

#[test]
fn test_p4() {
    let mut packet = Packet::new(10);
    packet.p4(16909060);
    assert_eq!(packet.data, vec![1, 2, 3, 4]);
}

#[test]
fn test_g1() {
    let mut packet = Packet::from(vec![42]);
    assert_eq!(packet.g1(), 42);
}

#[test]
fn test_g2() {
    let mut packet = Packet::from(vec![0x12, 0x34]);
    assert_eq!(packet.g2(), 0x1234);
}

#[test]
fn test_g4() {
    let mut packet = Packet::from(vec![0x01, 0x02, 0x03, 0x04]);
    assert_eq!(packet.g4(), 0x01020304);
}

#[test]
fn p1_keeps_only_the_low_byte() {
    let mut packet = Packet::new(4);
    packet.p1(0x1ff);
    packet.p1(-1);
    assert_eq!(packet.data, vec![0xff, 0xff]);
    assert_eq!(packet.position, 2);
}

#[test]
fn writes_overwrite_inside_the_buffer() {
    let mut packet = Packet::from(vec![9, 9, 9, 9]);
    packet.position = 1;
    packet.p2(0x0102);
    assert_eq!(packet.data, vec![9, 1, 2, 9]);
    assert_eq!(packet.position, 3);
}

#[test]
fn byte_write_past_the_end_appends() {
    let mut packet = Packet::from(vec![7]);
    packet.position = 3;
    packet.p1(5);
    assert_eq!(packet.data, vec![7, 5]);
    assert_eq!(packet.position, 4);
}

#[test]
fn wide_write_past_the_end_pads_with_zeros() {
    let mut packet = Packet::from(vec![7]);
    packet.position = 3;
    packet.p2(0x0506);
    assert_eq!(packet.data, vec![7, 0, 0, 5, 6]);
}

#[test]
fn little_endian_and_wide_writes() {
    let mut packet = Packet::new(16);
    packet.ip2(0x0102);
    packet.p3(0x030405);
    packet.ip4(0x06070809);
    assert_eq!(packet.data, vec![2, 1, 3, 4, 5, 9, 8, 7, 6]);
    let mut wide = Packet::new(8);
    wide.p8(0x0102030405060708);
    assert_eq!(wide.data, vec![1, 2, 3, 4, 5, 6, 7, 8]);
}

#[test]
fn signed_reads() {
    let mut packet = Packet::from(vec![0xff, 0xff, 0xfe, 0x00, 0x80, 0xff, 0xff, 0xff, 0xff]);
    assert_eq!(packet.g1b(), -1);
    assert_eq!(packet.g2s(), -2);
    assert_eq!(packet.ig2s(), -32768);
    assert_eq!(packet.g4s(), -1);
    assert_eq!(packet.position, 9);
}

#[test]
fn three_and_eight_byte_reads() {
    let mut packet = Packet::from(vec![1, 2, 3, 0, 0, 0, 0, 0, 0, 1, 0]);
    assert_eq!(packet.g3(), 0x010203);
    assert_eq!(packet.g8s(), 256);
}

#[test]
fn little_endian_int_read() {
    let mut packet = Packet::from(vec![4, 3, 2, 1]);
    assert_eq!(packet.ig4s(), 0x01020304);
}

#[test]
fn p8_then_g8s_round_trips() {
    let mut packet = Packet::new(8);
    packet.p8(-123456789012345);
    packet.position = 0;
    assert_eq!(packet.g8s(), -123456789012345);
}

#[test]
fn string_round_trip() {
    let mut packet = Packet::new(16);
    packet.pjstr("hello", 10);
    assert_eq!(packet.data, vec![104, 101, 108, 108, 111, 10]);
    packet.position = 0;
    assert_eq!(packet.gjstr(10), "hello");
    assert_eq!(packet.position, 6);
}

#[test]
fn versioned_string_has_leading_zero() {
    let mut packet = Packet::new(8);
    packet.pjstr2("ab");
    assert_eq!(packet.data, vec![0, 97, 98, 0]);
}

#[test]
fn smart_round_trips() {
    let mut packet = Packet::new(8);
    packet.psmart(100);
    packet.psmart(1000);
    packet.psmarts(-5);
    packet.psmarts(5000);
    assert_eq!(packet.data, vec![100, 0x83, 0xe8, 59, 0xd3, 0x88]);
    packet.position = 0;
    assert_eq!(packet.gsmart(), 100);
    assert_eq!(packet.gsmart(), 1000);
    assert_eq!(packet.gsmarts(), -5);
    assert_eq!(packet.gsmarts(), 5000);
}

#[test]
fn byte_copies() {
    let mut packet = Packet::new(8);
    packet.pbytes(&[1, 2, 3, 4, 5], 1, 3);
    assert_eq!(packet.data, vec![2, 3, 4]);
    packet.position = 1;
    assert_eq!(packet.gbytes(2), vec![3, 4]);
    assert_eq!(packet.position, 3);
}

#[test]
fn bit_and_byte_positions() {
    let mut packet = Packet::from(vec![0; 4]);
    packet.position = 2;
    packet.bits();
    assert_eq!(packet.bit_position, 16);
    packet.bit_position = 17;
    packet.bytes();
    assert_eq!(packet.position, 3);
}

#[test]
fn empty_and_remaining() {
    let mut packet = Packet::from(vec![1, 2, 3]);
    assert!(!packet.is_empty());
    packet.g1();
    assert_eq!(packet.remaining(), 2);
    assert!(Packet::new(0).is_empty());
}
