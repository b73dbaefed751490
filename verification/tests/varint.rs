use cuber::ReceivedPacket;
use cuber::primitive::leb128::build_var_int;
use cuber::primitive::leb128::read_var_int;
use cuber::primitive::leb128::{VarIntAccum, VarIntStep};
use cuber::DecodeError;

#[test]
fn test_build_var_int_zero() {
    let value = 0;
    let result = build_var_int(value);
    assert_eq!(result, vec![0]);
}

#[test]
fn test_build_var_int_positive_value() {
    let value = 150;
    let result = build_var_int(value);
    assert_eq!(result, vec![0x96, 0x01]);
}

fn check_build(value: i32, bytes: Vec<u8>) {
    assert_eq!(build_var_int(value), bytes);
}

fn check_read(bytes: Vec<u8>, value: i32) {
    let len = bytes.len();
    let mut frame = ReceivedPacket::new(bytes);
    let (n, v) = read_var_int(&mut frame).unwrap();
    assert_eq!(v, value);
    assert_eq!(n, len);
}

#[test]
fn build_var_int_table() {
    check_build(0, vec![0x00]);
    check_build(1, vec![0x01]);
    check_build(2, vec![0x02]);
    check_build(127, vec![0x7f]);
    check_build(128, vec![0x80, 0x01]);
    check_build(255, vec![0xff, 0x01]);
    check_build(25565, vec![0xdd, 0xc7, 0x01]);
    check_build(2097151, vec![0xff, 0xff, 0x7f]);
    check_build(2147483647, vec![0xff, 0xff, 0xff, 0xff, 0x07]);
    check_build(-1, vec![0xff, 0xff, 0xff, 0xff, 0x0f]);
    check_build(-2147483648, vec![0x80, 0x80, 0x80, 0x80, 0x08]);
}

#[test]
fn read_var_int_table() {
    check_read(vec![0x00], 0);
    check_read(vec![0x01], 1);
    check_read(vec![0x02], 2);
    check_read(vec![0x7f], 127);
    check_read(vec![0x80, 0x01], 128);
    check_read(vec![0xff, 0x01], 255);
    check_read(vec![0xdd, 0xc7, 0x01], 25565);
    check_read(vec![0xff, 0xff, 0x7f], 2097151);
    check_read(vec![0xff, 0xff, 0xff, 0xff, 0x07], 2147483647);
    check_read(vec![0xff, 0xff, 0xff, 0xff, 0x0f], -1);
    check_read(vec![0x80, 0x80, 0x80, 0x80, 0x08], -2147483648);
}

#[test]
fn read_var_int_too_big() {
    let mut frame = ReceivedPacket::new(vec![0x80, 0x80, 0x80, 0x80, 0x80, 0x01]);
    assert_eq!(read_var_int(&mut frame), Err(DecodeError::VarIntTooBig));
}

#[test]
fn read_var_int_truncated() {
    let mut frame = ReceivedPacket::new(vec![0x80, 0x80]);
    assert_eq!(read_var_int(&mut frame), Err(DecodeError::UnexpectedEnd));
}

#[test]
fn var_int_accum_stepwise() {
    let bytes = [0xddu8, 0xc7, 0x01];
    let mut state = VarIntAccum::new();
    let mut done = None;
    for b in bytes {
        match state.step(b).unwrap() {
            VarIntStep::More(next) => {
                state = next;
            }
            VarIntStep::Done(n, v) => {
                done = Some((n, v));
                break;
            }
        }
    }
    assert_eq!(done, Some((3, 25565)));
}

#[test]
fn var_int_accum_rejects_sixth_byte() {
    let mut state = VarIntAccum::new();
    for _ in 0..4 {
        match state.step(0x80).unwrap() {
            VarIntStep::More(next) => state = next,
            VarIntStep::Done(_, _) => panic!("finished early"),
        }
    }
    assert_eq!(state.step(0x80), Err(DecodeError::VarIntTooBig));
}
