use syfala::sample::{SampleFromBytes, SampleSize, SampleToBytes, SampleTypeSilence};

fn roundtrip<T: SampleToBytes + SampleFromBytes + Copy + PartialEq + std::fmt::Debug>(v: T) -> Vec<u8> {
    let mut buf = vec![0u8; T::size() as usize];
    v.to_bytes(&mut buf);
    assert_eq!(T::from_bytes(&buf), v);
    buf
}

#[test]
fn sample_sizes() {
    assert_eq!(<u8 as SampleSize>::size(), 1);
    assert_eq!(<i16 as SampleSize>::size(), 2);
    assert_eq!(<u32 as SampleSize>::size(), 4);
    assert_eq!(<i64 as SampleSize>::size(), 8);
}

#[test]
fn unsigned_samples_are_little_endian() {
    assert_eq!(roundtrip(0xABu8), vec![0xAB]);
    assert_eq!(roundtrip(0x1234u16), vec![0x34, 0x12]);
    assert_eq!(roundtrip(0xDEADBEEFu32), 0xDEADBEEFu32.to_le_bytes().to_vec());
    assert_eq!(roundtrip(0x0102030405060708u64), 0x0102030405060708u64.to_le_bytes().to_vec());
}

#[test]
fn signed_samples_are_twos_complement() {
    assert_eq!(roundtrip(-1i8), vec![0xFF]);
    assert_eq!(roundtrip(-2i16), vec![0xFE, 0xFF]);
    assert_eq!(roundtrip(i32::MIN), i32::MIN.to_le_bytes().to_vec());
    assert_eq!(roundtrip(-123456789i64), (-123456789i64).to_le_bytes().to_vec());
    assert_eq!(i16::from_bytes(&[0x00, 0x80]), i16::MIN);
    assert_eq!(i64::from_bytes(&[0xFF; 8]), -1);
}

#[test]
fn silence_is_the_middle_value() {
    assert_eq!(<u8 as SampleTypeSilence>::silence(), 128);
    assert_eq!(<u16 as SampleTypeSilence>::silence(), 0x8000);
    assert_eq!(<u64 as SampleTypeSilence>::silence(), 1u64 << 63);
    assert_eq!(<i8 as SampleTypeSilence>::silence(), 0);
    assert_eq!(<i32 as SampleTypeSilence>::silence(), 0);
}
