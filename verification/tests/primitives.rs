use cuber::Decodable;
use cuber::DecodeError;
use cuber::Encodable;
use cuber::ReceivedPacket;
use cuber::primitive::BoolConditional;
use cuber::primitive::Chat;
use cuber::primitive::Identifier;
use cuber::primitive::F32Bits;
use cuber::primitive::Position;
use cuber::primitive::Uuid;
use cuber::primitive::VarInt;

#[test]
fn encode_decode_test() {
    let x: u8 = 3;
    let y: i8 = -5;
    let test: i32 = 50;
    let var = VarInt(-100);
    let s = String::from("helloworld");

    let mut buf: Vec<u8> = Vec::new();
    x.encode(&mut buf);
    y.encode(&mut buf);
    test.encode(&mut buf);
    var.encode(&mut buf);
    s.encode(&mut buf);

    let mut frame = ReceivedPacket::new(buf);
    assert_eq!(u8::decode(&mut frame).unwrap(), x);
    assert_eq!(i8::decode(&mut frame).unwrap(), y);
    assert_eq!(i32::decode(&mut frame).unwrap(), test);
    assert_eq!(VarInt::decode(&mut frame).unwrap(), var);
    assert_eq!(String::decode(&mut frame).unwrap(), s);
    assert_eq!(frame.remaining(), 0);
}

#[test]
fn f32_encode() {
    let mut buf: Vec<u8> = Vec::new();
    F32Bits { bits: 0.1_f32.to_bits() }.encode(&mut buf);

    // 0.1 = 0x3dcccccd
    assert_eq!(buf, vec![0x3d, 0xcc, 0xcc, 0xcd]);
}

#[test]
fn f32_decode() {
    let mut buf = ReceivedPacket::new(vec![0x3d, 0xcc, 0xcc, 0xcd]);
    let decoded = F32Bits::decode(&mut buf).unwrap();
    assert_eq!(f32::from_bits(decoded.bits), 0.1_f32);
}

#[test]
fn bool_encode() {
    let mut buf: Vec<u8> = Vec::new();
    true.encode(&mut buf);
    false.encode(&mut buf);

    assert_eq!(buf, vec![1, 0]);
}

#[test]
fn bool_decode() {
    let mut buf = ReceivedPacket::new(vec![1, 0, 10]);
    assert_eq!(bool::decode(&mut buf).unwrap(), true);
    assert_eq!(bool::decode(&mut buf).unwrap(), false);
    bool::decode(&mut buf).unwrap_err();
}

#[test]
fn string_encode() {
    let mut buf: Vec<u8> = Vec::new();
    String::from("hello").encode(&mut buf);

    assert_eq!(buf, vec![5, 104, 101, 108, 108, 111]);
}

#[test]
fn string_decode() {
    let mut buf = ReceivedPacket::new(vec![5, 104, 101, 108, 108, 111]);
    assert_eq!(String::decode(&mut buf).unwrap(), String::from("hello"));
}

#[test]
fn bool_condition_encode() {
    let mut buf: Vec<u8> = Vec::new();
    BoolConditional::<u8>(Some(5_u8)).encode(&mut buf);
    BoolConditional::<u8>(None).encode(&mut buf);

    assert_eq!(buf, vec![1, 5, 0]);
}

#[test]
fn bool_condition_decode() {
    let mut buf = ReceivedPacket::new(vec![1, 5, 0]);
    assert_eq!(
        BoolConditional::<u8>::decode(&mut buf).unwrap(),
        BoolConditional(Some(5_u8))
    );
    assert_eq!(
        BoolConditional::<u8>::decode(&mut buf).unwrap(),
        BoolConditional(None)
    );
}

#[test]
fn bool_condition_decode_bad_flag() {
    let mut buf = ReceivedPacket::new(vec![2]);
    assert_eq!(
        BoolConditional::<u8>::decode(&mut buf),
        Err(DecodeError::InvalidBool(2))
    );
}

#[test]
fn position_unpack() {
    let raw = 0b01000110000001110110001100_10110000010101101101001000_001100111111;
    let p = Position::unpack(raw).unwrap();

    assert_eq!(p.x(), 18357644);
    assert_eq!(p.y(), 831);
    assert_eq!(p.z(), -20882616);
}

#[test]
fn position_pack() {
    let pos = Position::new(18357644, 831, -20882616).unwrap();
    assert_eq!(
        pos.pack(),
        0b01000110000001110110001100_10110000010101101101001000_001100111111
    );
}

#[test]
fn position_rejects_out_of_range() {
    assert_eq!(Position::new(1 << 25, 0, 0), Err(DecodeError::InvalidPosition));
    assert_eq!(Position::new(0, 2048, 0), Err(DecodeError::InvalidPosition));
    assert!(Position::new(-(1 << 25), -2048, -(1 << 25)).is_ok());
}

#[test]
fn uuid_big_endian_and_round_trip() {
    let v = Uuid { value: 0x0011223344556677_8899aabbccddeeff_u128 };
    let mut buf: Vec<u8> = Vec::new();
    v.encode(&mut buf);
    assert_eq!(
        buf,
        vec![
            0x00, 0x11, 0x22, 0x33, 0x44, 0x55, 0x66, 0x77, 0x88, 0x99, 0xaa, 0xbb, 0xcc, 0xdd,
            0xee, 0xff
        ]
    );
    let mut frame = ReceivedPacket::new(buf);
    assert_eq!(Uuid::decode(&mut frame).unwrap(), v);
}

#[test]
fn integer_big_endian_bytes() {
    let mut buf: Vec<u8> = Vec::new();
    0x1234_u16.encode(&mut buf);
    0x01020304_u32.encode(&mut buf);
    (-2_i16).encode(&mut buf);
    assert_eq!(buf, vec![0x12, 0x34, 0x01, 0x02, 0x03, 0x04, 0xff, 0xfe]);

    let mut frame = ReceivedPacket::new(buf);
    assert_eq!(u16::decode(&mut frame).unwrap(), 0x1234);
    assert_eq!(u32::decode(&mut frame).unwrap(), 0x01020304);
    assert_eq!(i16::decode(&mut frame).unwrap(), -2);
}

#[test]
fn long_round_trip() {
    let v: i64 = -123456789012345;
    let mut buf: Vec<u8> = Vec::new();
    v.encode(&mut buf);
    assert_eq!(buf.len(), 8);
    let mut frame = ReceivedPacket::new(buf);
    assert_eq!(i64::decode(&mut frame).unwrap(), v);
}

#[test]
fn string_decode_rejects_invalid_utf8() {
    let mut frame = ReceivedPacket::new(vec![2, 0xc3, 0x28]);
    assert_eq!(String::decode(&mut frame), Err(DecodeError::InvalidUtf8));
}

#[test]
fn string_decode_rejects_negative_length() {
    let mut frame = ReceivedPacket::new(vec![0xff, 0xff, 0xff, 0xff, 0x0f]);
    assert_eq!(String::decode(&mut frame), Err(DecodeError::InvalidLength(-1)));
}

#[test]
fn position_setters_replace_coordinates() {
    let mut p = Position::new(1, 2, 3).unwrap();
    p.set_x(-4);
    p.set_y(-5);
    p.set_z(-6);
    assert_eq!((p.x(), p.y(), p.z()), (-4, -5, -6));
}

#[test]
fn position_codec_round_trip() {
    let p = Position::new(-1, -1, -1).unwrap();
    let mut buf: Vec<u8> = Vec::new();
    p.encode(&mut buf);
    assert_eq!(buf.len(), 8);
    let mut frame = ReceivedPacket::new(buf);
    assert_eq!(Position::decode(&mut frame).unwrap(), p);
}

#[test]
fn identifier_and_chat_round_trip() {
    let mut buf: Vec<u8> = Vec::new();
    Identifier::new(String::from("minecraft:brand")).encode(&mut buf);
    Chat::new(String::from("{\"text\":\"hi\"}")).encode(&mut buf);
    let mut frame = ReceivedPacket::new(buf);
    let ident = Identifier::decode(&mut frame).unwrap();
    assert_eq!(ident.into_string(), String::from("minecraft:brand"));
    let chat = Chat::decode(&mut frame).unwrap();
    assert_eq!(chat.into_string(), String::from("{\"text\":\"hi\"}"));
}

#[test]
fn u128_round_trip() {
    let v: u128 = 0xfedcba9876543210_0123456789abcdef;
    let mut buf: Vec<u8> = Vec::new();
    v.encode(&mut buf);
    assert_eq!(buf.len(), 16);
    let mut frame = ReceivedPacket::new(buf);
    assert_eq!(u128::decode(&mut frame).unwrap(), v);
}
