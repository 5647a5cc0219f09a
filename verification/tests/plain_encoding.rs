use tinyolap::encoding::plain::{decode, encode};
use tinyolap::encoding::{EncodingError, Primitive};

fn encode_typed<T: Primitive>(src: &[T]) -> Vec<u8> {
    let mut out = Vec::new();
    for &value in src {
        value.encode_le(&mut out);
    }
    out
}

fn decode_typed<T: Primitive>(src: &[u8]) -> Vec<T> {
    src.chunks_exact(T::WIDTH).map(T::decode_le).collect()
}

#[test]
fn roundtrip_i32_basic() {
    let xs = vec![100_i32, 105, 103, 200, 199];
    let raw = encode_typed(&xs);
    let mut bytes = Vec::new();
    encode(&raw, i32::WIDTH, &mut bytes);
    let mut out = Vec::new();
    decode(&bytes, i32::WIDTH, &mut out).unwrap();
    let out: Vec<i32> = decode_typed(&out);
    assert_eq!(xs, out);
}

#[test]
fn roundtrip_empty() {
    let xs: Vec<i32> = vec![];
    let raw = encode_typed(&xs);
    let mut bytes = Vec::new();
    encode(&raw, i32::WIDTH, &mut bytes);
    assert!(bytes.is_empty());
    let mut out = Vec::new();
    decode(&bytes, i32::WIDTH, &mut out).unwrap();
    let out: Vec<i32> = decode_typed(&out);
    assert_eq!(xs, out);
}

#[test]
fn roundtrip_u64_basic() {
    let xs = vec![0_u64, 1, u64::MAX, 42, u64::MAX / 2];
    let raw = encode_typed(&xs);
    let mut bytes = Vec::new();
    encode(&raw, u64::WIDTH, &mut bytes);
    assert_eq!(bytes.len(), xs.len() * std::mem::size_of::<u64>());
    let mut out = Vec::new();
    decode(&bytes, u64::WIDTH, &mut out).unwrap();
    let out: Vec<u64> = decode_typed(&out);
    assert_eq!(xs, out);
}

#[test]
fn roundtrip_i8_extremes() {
    let xs = vec![i8::MIN, -1, 0, 1, i8::MAX];
    let raw = encode_typed(&xs);
    let mut bytes = Vec::new();
    encode(&raw, i8::WIDTH, &mut bytes);
    let mut out = Vec::new();
    decode(&bytes, i8::WIDTH, &mut out).unwrap();
    let out: Vec<i8> = decode_typed(&out);
    assert_eq!(xs, out);
}

#[test]
fn format_u32() {
    let xs = vec![10_u32, 12, 15];
    let raw = encode_typed(&xs);
    let mut bytes = Vec::new();
    encode(&raw, u32::WIDTH, &mut bytes);

    let expected = vec![
        10, 0, 0, 0,
        12, 0, 0, 0,
        15, 0, 0, 0,
    ];

    assert_eq!(bytes, expected);
}

#[test]
fn decode_rejects_truncated_input() {
    let src = vec![1_u8, 2, 3];
    let mut out = Vec::new();
    let err = decode(&src, 2, &mut out).unwrap_err();
    assert_eq!(err, EncodingError::Truncated);
}

#[test]
fn decode_rejects_zero_stride() {
    let src = vec![1_u8, 2];
    let mut out = vec![9_u8];
    let err = decode(&src, 0, &mut out).unwrap_err();
    assert_eq!(err, EncodingError::UnsupportedStride(0));
    assert_eq!(out, vec![9]);
}

#[test]
fn signed_values_use_twos_complement() {
    let mut out = Vec::new();
    (-2_i16).encode_le(&mut out);
    (-1_i64).encode_le(&mut out);
    assert_eq!(out, vec![0xfe, 0xff, 0xff, 0xff, 0xff, 0xff, 0xff, 0xff, 0xff, 0xff]);
    assert_eq!(i16::decode_le(&[0xfe, 0xff]), -2);
    assert_eq!(i16::width(), 2);
    assert_eq!(u16::decode_le(&[0x34, 0x12]), 0x1234);
}
