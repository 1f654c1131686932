use rsengine::base37::{decode37, encode37};
use rsengine::bits::{bitcount, clear_bit_range, init_mask_array, set_bit_range};
use rsengine::config_text::param_keys;
use rsengine::config_type::ConfigType;
use rsengine::decode_checks::{loc_decodable, obj_decodable};
use rsengine::crc::CRC;
use rsengine::doubly_linklist::{DoublyLinkList, DoublyLinkable};
use rsengine::linklist::{LinkList, Linkable};
use rsengine::loc_type::LocType;
use rsengine::loc_writer::{loc_text_of, loc_writable};
use rsengine::obj_type::ObjType;
use rsengine::obj_writer::{obj_text_of, obj_writable};
use rsengine::packet::Packet;
use rsengine::param_helper::{decode_params, ParamValue};
use rsengine::server_messages::{
    ClientProtocol, InfoProtocol, Message_Game, Message_Game_Encoder, RebuildNormalEncoder,
    ServerProtocol,
};

#[test]
fn obj_decode_and_text() {
    let mut obj = ObjType::new(5);
    let mut packet = Packet::from(vec![1, 0, 12, 2, b'A', b'x', 10, 12, 0, 0, 0, 100, 11, 0]);
    let mut order = Vec::new();
    obj.decode_type(&mut packet, &mut order);
    assert_eq!(order, vec![1, 2, 12, 11, 0]);
    assert_eq!(obj.model, 12);
    assert_eq!(obj.name, Some("Ax".to_string()));
    assert_eq!(obj.cost, 100);
    assert!(obj.stackable);
    assert_eq!(obj.id(), 5);
    let text = obj_text_of(&obj, &order);
    assert_eq!(
        text,
        vec!["[obj_5]", "name=Ax", "desc=HIDDEN", "model=model_12_obj", "cost=100", "stackable=yes", ""]
    );
}

#[test]
fn obj_signed_offsets() {
    let mut obj = ObjType::new(1);
    let mut packet = Packet::from(vec![7, 0xff, 0xfe, 8, 0x00, 0x10, 0]);
    let mut order = Vec::new();
    obj.decode_type(&mut packet, &mut order);
    assert_eq!(obj.xof2d, -2);
    assert_eq!(obj.yof2d, 16);
}

#[test]
fn obj_debugname_heads_the_text() {
    let mut obj = ObjType::new(3);
    obj.set_debugname("[coins]".to_string());
    assert_eq!(obj.debugname(), Some(&"[coins]".to_string()));
    let text = obj_text_of(&obj, &[16, 0]);
    assert_eq!(text, vec!["[coins]", "members=yes", "tradeable=no", ""]);
}

#[test]
fn loc_decode_and_text() {
    let mut loc = LocType::new(9);
    let mut packet = Packet::from(vec![1, 1, 0, 7, 10, 2, b'O', b'k', 10, 14, 3, 0]);
    let mut order = Vec::new();
    loc.decode_type(&mut packet, &mut order);
    assert_eq!(order, vec![1, 2, 14, 0]);
    assert_eq!(loc.models, vec![7]);
    assert_eq!(loc.shapes, vec![10]);
    assert_eq!(loc.name, Some("Ok".to_string()));
    let text = loc_text_of(&loc, &order);
    assert_eq!(text, vec!["[loc_9]", "name=Ok", "desc=HIDDEN", "model1=model_7_loc", "width=3", ""]);
}

#[test]
fn params_are_decoded() {
    let mut packet = Packet::from(vec![2, 1, 0, 0, 5, b'h', b'i', 10, 0, 0, 1, 0, 0, 0, 0, 42]);
    let params = decode_params(&mut packet);
    assert_eq!(params.len(), 2);
    assert!(matches!(params.get(&5), Some(ParamValue::String(s)) if s == "hi"));
    assert!(matches!(params.get(&256), Some(ParamValue::Integer(42))));
    let mut keys = param_keys(&params);
    keys.sort();
    assert_eq!(keys, vec![5, 256]);
}

#[test]
fn base37_round_trip() {
    assert_eq!(encode37("ab"), Some(39));
    assert_eq!(decode37(39), "ab");
    assert_eq!(encode37("z9"), Some(26 * 37 + 36));
    assert_eq!(encode37(""), None);
    assert_eq!(encode37("a b"), None);
    assert_eq!(encode37("A"), None);
    assert_eq!(decode37(0), "_");
    let v = encode37("zezima").unwrap();
    assert_eq!(decode37(v as u64), "zezima");
}

#[test]
fn bit_helpers() {
    assert_eq!(bitcount(7), 3);
    assert_eq!(bitcount(-1), 32);
    assert_eq!(bitcount(0), 0);
    assert_eq!(bitcount(i32::MIN), 1);
    assert_eq!(bitcount(-2), 31);
    assert_eq!(bitcount(i32::MAX), 31);
    assert_eq!(set_bit_range(0, 4, 7), 0xF0);
    assert_eq!(clear_bit_range(0xFF, 0, 3), 0xF0);
    let mask = init_mask_array();
    assert_eq!(mask[0], 0);
    assert_eq!(mask[1], 1);
    assert_eq!(mask[3], 7);
    assert_eq!(mask[31], 0x7fff_ffff);
    assert_eq!(mask[32], -1);
}

#[test]
fn crc_values() {
    let crc = CRC::new();
    assert_eq!(crc.get_crc(&b"123456789".to_vec(), 0, 9), -49915);
    assert_eq!(crc.get_crc(&b"abc".to_vec(), 1, 3), -2087729608);
    assert_eq!(crc.get_crc(&Vec::new(), 0, 0), -1);
}

#[test]
fn link_list_order() {
    let mut list = LinkList::new();
    let a = list.create(Linkable::new());
    let b = list.create(Linkable::new());
    let c = list.create(Linkable::new());
    list.add_tail(a);
    list.add_tail(b);
    list.add_head(c);
    assert_eq!(list.head(), Some(c));
    assert_eq!(list.next(), Some(a));
    assert_eq!(list.next(), Some(b));
    assert_eq!(list.next(), None);
    assert_eq!(list.tail(), Some(b));
    assert_eq!(list.prev(), Some(a));
    assert_eq!(list.remove_head(), Some(c));
    list.unlink(a);
    assert_eq!(list.head(), Some(b));
    list.clear();
    assert_eq!(list.head(), None);
}

#[test]
fn doubly_link_list_is_first_in_first_out() {
    let mut list = DoublyLinkList::new();
    let a = list.create(DoublyLinkable::new());
    let b = list.create(DoublyLinkable::new());
    list.push(a);
    list.push(b);
    list.push(a);
    assert_eq!(list.pop(), Some(b));
    assert_eq!(list.pop(), Some(a));
    assert_eq!(list.pop(), None);
}

#[test]
fn protocols() {
    let p = ServerProtocol::new(3, 4);
    assert_eq!(p.id, 3);
    assert_eq!(p.length, 4);
    assert_eq!(RebuildNormalEncoder::new().protocol().id, 162);
    assert_eq!(ClientProtocol::by_id(93), Some(ClientProtocol::no_timeout()));
    assert_eq!(ClientProtocol::by_id(1), None);
    let info = InfoProtocol::new(7, -1);
    assert_eq!(info.id(), 7);
    assert_eq!(info.length(), -1);
}

#[test]
fn game_message_encoding() {
    let mut packet = Packet::new(8);
    let message = Message_Game::new("hi".to_string());
    Message_Game_Encoder::new().encode(&mut packet, &message);
    assert_eq!(packet.data, vec![3, b'h', b'i', 0]);
}

#[test]
fn obj_writable_needs_a_model_before_retexture() {
    let obj = ObjType::new(0);
    assert!(!obj_writable(&obj, &[41, 0]));
    assert!(!obj_writable(&obj, &[42, 0]));
    assert!(obj_writable(&obj, &[1, 41, 0]));
    assert!(obj_writable(&obj, &[1, 42, 0]));
    assert!(obj_writable(&obj, &[0, 41]));
    assert!(obj_writable(&obj, &[]));
}

#[test]
fn obj_writable_checks_action_slots() {
    let obj = ObjType::new(0);
    assert!(obj_writable(&obj, &[30, 34, 0]));
    let mut short = ObjType::new(0);
    short.op.clear();
    assert!(!obj_writable(&short, &[30, 0]));
}

#[test]
fn loc_writable_refuses_retexture() {
    let loc = LocType::new(0);
    assert!(!loc_writable(&loc, &[41, 0]));
    assert!(!loc_writable(&loc, &[1, 42, 0]));
    assert!(loc_writable(&loc, &[14, 0]));
    assert!(loc_writable(&loc, &[0, 41]));
}

#[test]
fn obj_decodable_checks_count_slots() {
    let obj = ObjType::new(0);
    assert!(!obj_decodable(&obj, &Packet::from(vec![105, 0, 1, 0, 2, 0])));
    assert!(obj_decodable(&obj, &Packet::from(vec![100, 0, 1, 0, 2, 0])));
    assert!(obj_decodable(&obj, &Packet::from(vec![100, 0, 1, 0, 2, 101, 0, 3, 0, 4, 0])));
    assert!(obj_decodable(&obj, &Packet::from(vec![0])));
}

#[test]
fn decodable_then_decoded_objs_and_locs() {
    let mut obj = ObjType::new(0);
    let mut packet = Packet::from(vec![100, 0, 1, 0, 2, 0]);
    assert!(obj_decodable(&obj, &packet));
    let mut order = Vec::new();
    obj.decode_type(&mut packet, &mut order);
    assert_eq!(order, vec![100, 0]);

    let loc = LocType::new(0);
    assert!(loc_decodable(&loc, &Packet::from(vec![31, b'A', 10, 0])));
    let mut short = LocType::new(0);
    short.op.clear();
    assert!(!loc_decodable(&short, &Packet::from(vec![31, b'A', 10, 0])));
    assert!(loc_decodable(&short, &Packet::from(vec![30, b'A', 10, 0])));
}
