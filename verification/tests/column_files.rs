use tinyolap::catalog::schema::DataType;
use tinyolap::encoding::Codec;
use tinyolap::storage::column_chunk::ColumnChunk;
use tinyolap::storage::column_reader::{read_chunk, read_column};
use tinyolap::storage::column_writer::{encode_column, encode_marks, write_column};
use tinyolap::storage::string_column::{read_string_column, write_string_column};
use tinyolap::storage::zone_map::{F32Order, F64Order, IntegerOrder};

fn frame_len(bin: &[u8], at: usize) -> usize {
    u32::from_le_bytes([bin[at + 1], bin[at + 2], bin[at + 3], bin[at + 4]]) as usize
}

#[test]
fn small_column_is_one_block_with_one_mark() {
    let values: Vec<i32> = vec![7, -1, 42];
    let (f, _) = write_column::<_, IntegerOrder>(&values, Codec::Plain);
    assert_eq!(f.marks.len(), 1);
    assert_eq!(f.marks[0].block_offset, 0);
    assert_eq!(f.marks[0].decompressed_offset, 0);
    assert_eq!(f.bin[0], 0);
    let n = frame_len(&f.bin, 0);
    assert_eq!(f.bin.len(), 5 + n);
    // The compressed block starts with the uncompressed size: 3 values of 4 bytes.
    assert_eq!(&f.bin[5..9], &12u32.to_le_bytes());
    let payload = &f.bin[5..];
    assert_eq!(lz4_flex::decompress_size_prepended(payload).unwrap(), values.iter().flat_map(|v| v.to_le_bytes()).collect::<Vec<u8>>());
}

#[test]
fn empty_column_has_no_blocks() {
    let values: Vec<u64> = vec![];
    let (f, _) = write_column::<_, IntegerOrder>(&values, Codec::Plain);
    assert!(f.bin.is_empty());
    assert!(f.marks.is_empty());
    assert_eq!(read_column::<u64>(&f.bin), Some(vec![]));
}

#[test]
fn u64_blocks_close_after_two_granules() {
    // 8-byte values: a block holds 2 granules of 512 rows = 8192 bytes.
    let values: Vec<u64> = (0..2500u64).collect();
    let (f, _) = write_column::<_, IntegerOrder>(&values, Codec::Plain);
    // 2500 rows = 5 granules (the last partial) in 3 blocks.
    assert_eq!(f.marks.len(), 5);
    let offsets: Vec<u64> = f.marks.iter().map(|m| m.block_offset).collect();
    assert_eq!(offsets[0], 0);
    assert_eq!(offsets[0], offsets[1]);
    assert!(offsets[2] > offsets[1]);
    assert_eq!(offsets[2], offsets[3]);
    assert!(offsets[4] > offsets[3]);
    let within: Vec<u64> = f.marks.iter().map(|m| m.decompressed_offset).collect();
    assert_eq!(within, vec![0, 4096, 0, 4096, 0]);
    // The second block's frame starts right after the first.
    let first = 5 + frame_len(&f.bin, 0);
    assert_eq!(offsets[2] as usize, first);
    assert_eq!(read_column::<u64>(&f.bin), Some(values));
}

#[test]
fn u8_blocks_hold_sixteen_granules() {
    let values: Vec<u8> = (0..20000u32).map(|i| (i % 251) as u8).collect();
    let (f, _) = write_column::<_, IntegerOrder>(&values, Codec::Plain);
    assert_eq!(f.marks.len(), 40);
    assert_eq!(f.marks[15].block_offset, 0);
    assert!(f.marks[16].block_offset > 0);
    assert_eq!(f.marks[16].decompressed_offset, 0);
    assert_eq!(f.marks[17].decompressed_offset, 512);
    assert_eq!(read_column::<u8>(&f.bin), Some(values));
}

#[test]
fn signed_values_read_back() {
    let values: Vec<i16> = vec![i16::MIN, -1, 0, 1, i16::MAX];
    let (f, _) = write_column::<_, IntegerOrder>(&values, Codec::Plain);
    assert_eq!(read_column::<i16>(&f.bin), Some(values));
}

#[test]
fn damaged_file_is_refused() {
    let values: Vec<i64> = vec![1, 2, 3];
    let (f, _) = write_column::<_, IntegerOrder>(&values, Codec::Plain);
    let mut cut = f.bin.clone();
    cut.pop();
    assert_eq!(read_column::<i64>(&cut), None);
    let mut bad_tag = f.bin.clone();
    bad_tag[0] = 9;
    assert_eq!(read_column::<i64>(&bad_tag), None);
    assert_eq!(read_column::<i64>(&[0, 1]), None);
}

#[test]
fn marks_are_two_little_endian_offsets() {
    let values: Vec<u64> = (0..1100u64).collect();
    let (f, _) = write_column::<_, IntegerOrder>(&values, Codec::Plain);
    let bytes = encode_marks(&f.marks);
    assert_eq!(bytes.len(), 16 * f.marks.len());
    assert_eq!(&bytes[16 + 8..32], &4096u64.to_le_bytes());
    assert_eq!(&bytes[32..40], &f.marks[2].block_offset.to_le_bytes());
}

#[test]
fn chunks_read_back_by_type() {
    let chunk = ColumnChunk::Bool(vec![true, false, true, true]);
    let f = encode_column(&chunk, Codec::Plain).unwrap();
    match read_chunk(&f.bin, DataType::Bool) {
        Some(ColumnChunk::Bool(v)) => assert_eq!(v, vec![true, false, true, true]),
        _ => panic!("expected a bool column"),
    }
    let floats = ColumnChunk::F64(vec![1.5f64.to_bits(), (-0.0f64).to_bits()]);
    let f = encode_column(&floats, Codec::Plain).unwrap();
    match read_chunk(&f.bin, DataType::F64) {
        Some(ColumnChunk::F64(v)) => assert_eq!(v, vec![1.5f64.to_bits(), (-0.0f64).to_bits()]),
        _ => panic!("expected an f64 column"),
    }
    assert!(encode_column(&ColumnChunk::Str(vec!["a".to_string()]), Codec::Plain).is_none());
}

#[test]
fn string_columns_read_back() {
    let values = vec!["login".to_string(), String::new(), "größe".to_string()];
    let bin = write_string_column(&values);
    assert_eq!(bin[0], 0);
    match read_chunk(&bin, DataType::Str) {
        Some(ColumnChunk::Str(v)) => assert_eq!(v, values),
        _ => panic!("expected a string column"),
    }
    assert_eq!(read_string_column(&[]), Some(vec![]));
    assert!(write_string_column(&vec![]).is_empty());
    let mut cut = bin.clone();
    cut.pop();
    assert_eq!(read_string_column(&cut), None);
}

#[test]
fn write_column_gives_the_bounds() {
    let values: Vec<i32> = vec![7, -1, 42, 3];
    let (_, zone) = write_column::<_, IntegerOrder>(&values, Codec::Plain);
    let z = zone.unwrap();
    assert_eq!((z.min, z.max), (-1, 42));
    let empty: Vec<u16> = vec![];
    let (f, zone) = write_column::<_, IntegerOrder>(&empty, Codec::Plain);
    assert!(zone.is_none());
    assert!(f.bin.is_empty());
    let floats: Vec<u64> = vec![2.5f64.to_bits(), (-3.0f64).to_bits(), 10.0f64.to_bits()];
    let (_, zone) = write_column::<_, F64Order>(&floats, Codec::Plain);
    let z = zone.unwrap();
    assert_eq!((f64::from_bits(z.min), f64::from_bits(z.max)), (-3.0, 10.0));
    // As u64 integers, the bit pattern of -3.0 is the largest.
    let (_, zone) = write_column::<_, IntegerOrder>(&floats, Codec::Plain);
    assert_eq!(zone.unwrap().max, (-3.0f64).to_bits());
    let small: Vec<u32> = vec![1.0f32.to_bits(), (-2.0f32).to_bits()];
    let (_, zone) = write_column::<_, F32Order>(&small, Codec::Plain);
    let z = zone.unwrap();
    assert_eq!((f32::from_bits(z.min), f32::from_bits(z.max)), (-2.0, 1.0));
}
