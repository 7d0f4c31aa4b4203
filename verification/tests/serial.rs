use steel_core::serial::{ByteCursor, ReadError, ReadFrom};
use glam::{IVec2, IVec3};
use uuid::Uuid;

#[test]
fn big_endian_integers() {
    let data = [0x01u8, 0x02, 0x03, 0x04, 0x05, 0x06, 0x07, 0x08];
    let mut c = ByteCursor::new(&data);
    assert_eq!(u16::read(&mut c), Ok(0x0102));
    assert_eq!(c.position(), 2);
    assert_eq!(u8::read(&mut c), Ok(3));
    assert_eq!(c.position(), 3);
    assert_eq!(u32::read(&mut c), Ok(0x04050607));
    assert_eq!(c.position(), 7);
    assert_eq!(u16::read(&mut c), Err(ReadError::UnexpectedEof));
    assert_eq!(c.position(), 8);
    let mut c = ByteCursor::new(&data);
    assert_eq!(u64::read(&mut c), Ok(0x0102030405060708));
}

#[test]
fn signed_integers() {
    let data = [0xffu8, 0xfe, 0xff, 0xff, 0xff, 0xfd, 0x80, 0x00, 0x00, 0x00, 0x00, 0x00, 0x00, 0x00];
    let mut c = ByteCursor::new(&data);
    assert_eq!(i8::read(&mut c), Ok(-1));
    assert_eq!(i8::read(&mut c), Ok(-2));
    assert_eq!(i32::read(&mut c), Ok(-3));
    assert_eq!(i64::read(&mut c), Ok(i64::MIN));
    let data = [0x7fu8, 0xff];
    assert_eq!(i16::read(&mut ByteCursor::new(&data)), Ok(i16::MAX));
    let data = [0x80u8, 0x00];
    assert_eq!(i16::read(&mut ByteCursor::new(&data)), Ok(i16::MIN));
}

#[test]
fn booleans_and_options() {
    let data = [0x00u8, 0x02, 0x01, 0x00, 0x2a, 0x00];
    let mut c = ByteCursor::new(&data);
    assert_eq!(bool::read(&mut c), Ok(false));
    assert_eq!(bool::read(&mut c), Ok(true));
    assert_eq!(Option::<u16>::read(&mut c), Ok(Some(42)));
    assert_eq!(Option::<u16>::read(&mut c), Ok(None));
    assert_eq!(bool::read(&mut c), Err(ReadError::UnexpectedEof));
    let data = [0x01u8, 0x05];
    let mut c = ByteCursor::new(&data);
    assert_eq!(Option::<u16>::read(&mut c), Err(ReadError::UnexpectedEof));
    assert_eq!(c.position(), 2);
}

#[test]
fn arrays() {
    let data = [0x00u8, 0x01, 0x00, 0x02, 0x00, 0x03, 0x09];
    let mut c = ByteCursor::new(&data);
    assert_eq!(<[u16; 3]>::read(&mut c), Ok([1, 2, 3]));
    assert_eq!(c.position(), 6);
    assert_eq!(<[u8; 0]>::read(&mut c), Ok([]));
    assert_eq!(<[u8; 2]>::read(&mut c), Err(ReadError::UnexpectedEof));
    assert_eq!(c.position(), 7);
}

#[test]
fn uuids() {
    let mut data = Vec::new();
    data.extend_from_slice(&0x0011223344556677u64.to_be_bytes());
    data.extend_from_slice(&0x8899aabbccddeeffu64.to_be_bytes());
    let mut c = ByteCursor::new(&data);
    let u = Uuid::read(&mut c).unwrap();
    assert_eq!(u.as_u64_pair(), (0x0011223344556677, 0x8899aabbccddeeff));
    assert_eq!(u.to_string(), "00112233-4455-6677-8899-aabbccddeeff");
    assert_eq!(c.position(), 16);
    let short = [0u8; 15];
    let mut c = ByteCursor::new(&short);
    assert!(Uuid::read(&mut c).is_err());
    assert_eq!(c.position(), 15);
}

#[test]
fn read_exact_takes_bytes() {
    let data = [1u8, 2, 3];
    let mut c = ByteCursor::new(&data);
    assert_eq!(c.read_exact(2), Ok(&data[0..2]));
    assert_eq!(c.read_exact(0), Ok(&data[2..2]));
    assert_eq!(c.read_exact(2), Err(ReadError::UnexpectedEof));
    assert_eq!(c.position(), 3);
}

#[test]
fn integer_vectors() {
    let mut data = Vec::new();
    data.extend_from_slice(&7i32.to_be_bytes());
    data.extend_from_slice(&(-2i32).to_be_bytes());
    data.extend_from_slice(&i32::MIN.to_be_bytes());
    data.extend_from_slice(&1i32.to_be_bytes());
    data.extend_from_slice(&i32::MAX.to_be_bytes());
    let mut c = ByteCursor::new(&data);
    assert_eq!(IVec2::read(&mut c), Ok(IVec2::new(7, -2)));
    assert_eq!(c.position(), 8);
    assert_eq!(IVec3::read(&mut c), Ok(IVec3::new(i32::MIN, 1, i32::MAX)));
    assert_eq!(c.position(), 20);
    let mut c = ByteCursor::new(&data[..6]);
    assert_eq!(IVec2::read(&mut c), Err(ReadError::UnexpectedEof));
    assert_eq!(c.position(), 6);
    let mut c = ByteCursor::new(&data[..11]);
    assert_eq!(IVec3::read(&mut c), Err(ReadError::UnexpectedEof));
    assert_eq!(c.position(), 11);
}
