use cuber::Decodable;
use cuber::DecodeError;
use cuber::Encodable;
use cuber::ReceivedPacket;
use cuber::primitive::array::Array;
use cuber::primitive::array::FixedLength;
use cuber::primitive::array::PacketInferredInBytes;
use cuber::primitive::array::VarIntLength;
use cuber::primitive::array::VarIntLengthInBytes;

#[test]
fn array_varint_encode() {
    let mut buf: Vec<u8> = Vec::new();
    Array::<VarIntLength, u8>::from_vec(vec![1, 2, 3, 4, 5]).encode(&mut buf);

    assert_eq!(buf, vec![5, 1, 2, 3, 4, 5]);
}

#[test]
fn array_varint_decode() {
    let mut buf = ReceivedPacket::new(vec![5, 1, 2, 3, 4, 5]);
    let decoded = Array::<VarIntLength, u8>::decode(&mut buf).unwrap();

    assert_eq!(decoded.inner, vec![1, 2, 3, 4, 5]);
}

#[test]
fn array_varint_decode_short_input_fails() {
    let mut buf = ReceivedPacket::new(vec![5, 1, 2, 3, 4]);
    assert_eq!(
        Array::<VarIntLength, u8>::decode(&mut buf),
        Err(DecodeError::UnexpectedEnd)
    );
}

#[test]
fn array_varint_inbytes_encode() {
    // Two 16-bit elements: the prefix counts their four payload bytes.
    let mut buf: Vec<u8> = Vec::new();
    Array::<VarIntLengthInBytes, u16>::from_vec(vec![0x0102, 0x0304]).encode(&mut buf);

    assert_eq!(buf, vec![4, 1, 2, 3, 4]);
}

#[test]
fn array_varint_inbytes_decode() {
    let mut buf = ReceivedPacket::new(vec![4, 1, 2, 3, 4]);
    let decoded = Array::<VarIntLengthInBytes, u16>::decode(&mut buf).unwrap();

    assert_eq!(decoded.inner, vec![0x0102, 0x0304]);
}

#[test]
fn array_varint_inbytes_decode_crossing_boundary_fails() {
    // A three-byte budget cannot be met by two-byte elements.
    let mut buf = ReceivedPacket::new(vec![3, 1, 2, 3, 4]);
    assert_eq!(
        Array::<VarIntLengthInBytes, u16>::decode(&mut buf),
        Err(DecodeError::LengthMismatch)
    );
}

#[test]
fn array_fixed_encode() {
    let mut buf: Vec<u8> = Vec::new();
    Array::<FixedLength<5>, u8>::from_vec(vec![1, 2, 3, 4, 5]).encode(&mut buf);

    assert_eq!(buf, vec![1, 2, 3, 4, 5]);
}

#[test]
fn array_fixed_decode() {
    let mut buf = ReceivedPacket::new(vec![1, 2, 3, 4, 5]);
    let decoded = Array::<FixedLength<5>, u8>::decode(&mut buf).unwrap();

    assert_eq!(decoded.inner, vec![1, 2, 3, 4, 5]);
}

#[test]
fn array_fixed_decode_short_input_fails() {
    let mut buf = ReceivedPacket::new(vec![1, 2, 3, 4]);
    assert_eq!(
        Array::<FixedLength<5>, u8>::decode(&mut buf),
        Err(DecodeError::UnexpectedEnd)
    );
}

#[test]
fn array_packet_inferred_encode() {
    let mut buf: Vec<u8> = Vec::new();
    Array::<PacketInferredInBytes, u8>::from_vec(vec![1, 2, 3, 4, 5]).encode(&mut buf);

    assert_eq!(buf, vec![1, 2, 3, 4, 5]);
}

#[test]
fn array_packet_inferred_decode() {
    let mut buf = ReceivedPacket::new(vec![1, 2, 3, 4, 5]);
    let decoded = Array::<PacketInferredInBytes, u8>::decode(&mut buf).unwrap();

    assert_eq!(decoded.inner, vec![1, 2, 3, 4, 5]);
}

#[test]
fn array_varint_negative_count_fails() {
    let mut buf = ReceivedPacket::new(vec![0xff, 0xff, 0xff, 0xff, 0x0f]);
    assert_eq!(
        Array::<VarIntLength, u8>::decode(&mut buf),
        Err(DecodeError::InvalidLength(-1))
    );
}

#[test]
fn array_from_fixed_len() {
    let a = Array::<VarIntLength, u8>::from_fixed([7u8, 8, 9]);
    assert_eq!(a.inner, vec![7, 8, 9]);
}

#[test]
fn array_iter_exposes_elements() {
    let a = Array::<VarIntLength, u8>::from_vec(vec![1, 2, 3]);
    assert_eq!(a.iter().len(), 3);
    assert_eq!(a.iter()[0], 1);
}

#[test]
fn array_iter_mut_allows_updates() {
    let mut a = Array::<VarIntLength, u8>::from_vec(vec![1, 2, 3]);
    a.iter_mut()[0] = 9;
    assert_eq!(a.inner, vec![9, 2, 3]);
}
