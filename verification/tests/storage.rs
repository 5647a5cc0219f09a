use tinyolap::catalog::schema::{ColumnSchema, DataType, TableSchema};
use tinyolap::parser::ast::{CmpOp, Literal, Predicate};
use tinyolap::processors::batch::Batch;
use tinyolap::processors::zone_map_scan::{can_skip, entry_excludes, ZoneMapScan};
use tinyolap::storage::column_chunk::ColumnChunk;
use tinyolap::storage::table_writer::{
    column_bounds, discover_part_ids, next_part_id, parse_part_id, tmp_part_name, validate_chunks, widen_signed,
    widen_unsigned, zone_entry_for,
};
use tinyolap::storage::zone_map::{EncodedZoneMapEntry, ZoneColumn, ZoneEntry, ZoneMap};
use tinyolap::storage::zone_map_format::{decode_zone_map, encode_zone_map};

fn cmp(col: &str, op: CmpOp, value: Literal) -> Predicate {
    Predicate::Cmp { col: col.to_string(), op, value }
}

fn int_zone(name: &str, tag: u8, min: i64, max: i64) -> ZoneColumn {
    ZoneColumn {
        name: name.to_string(),
        type_tag: tag,
        entries: vec![ZoneEntry { min_bytes: min.to_le_bytes(), max_bytes: max.to_le_bytes() }],
    }
}

fn float_zone(name: &str, min: f64, max: f64) -> ZoneColumn {
    ZoneColumn {
        name: name.to_string(),
        type_tag: 10,
        entries: vec![ZoneEntry { min_bytes: min.to_bits().to_le_bytes(), max_bytes: max.to_bits().to_le_bytes() }],
    }
}

fn entry(name: &str, tag: u8, min: u64, max: u64) -> EncodedZoneMapEntry {
    EncodedZoneMapEntry { col_name: name.to_string(), type_tag: tag, min_bytes: min.to_le_bytes(), max_bytes: max.to_le_bytes() }
}

#[test]
fn zone_map_bytes_follow_the_layout() {
    let bytes = encode_zone_map(&vec![entry("ab", 4, 1, 2)]);
    let mut expected: Vec<u8> = vec![1, 1, 0, 2, 0, b'a', b'b', 4, 1, 0, 0, 0];
    // header: 3 + (2 + 2 + 1 + 4 + 8) = 20
    expected.extend_from_slice(&20u64.to_le_bytes());
    expected.extend_from_slice(&1u64.to_le_bytes());
    expected.extend_from_slice(&2u64.to_le_bytes());
    assert_eq!(bytes, expected);
}

#[test]
fn zone_map_roundtrip() {
    let entries = vec![entry("ts", 4, 10, 99), entry("prix_é", 10, 7, 8), entry("uid", 8, 0, u64::MAX)];
    let bytes = encode_zone_map(&entries);
    let zone = decode_zone_map(&bytes).expect("a zone map");
    assert_eq!(zone.columns.len(), 3);
    for (c, e) in zone.columns.iter().zip(entries.iter()) {
        assert_eq!(c.name, e.col_name);
        assert_eq!(c.type_tag, e.type_tag);
        assert_eq!(c.entries.len(), 1);
        assert_eq!(c.entries[0].min_bytes, e.min_bytes);
        assert_eq!(c.entries[0].max_bytes, e.max_bytes);
    }
}

#[test]
fn zone_map_decode_rejects_bad_input() {
    assert!(decode_zone_map(&[]).is_none());
    assert!(decode_zone_map(&[2, 0, 0]).is_none());
    let mut bytes = encode_zone_map(&vec![entry("x", 4, 1, 2)]);
    bytes.pop();
    assert!(decode_zone_map(&bytes).is_none());
    let empty = decode_zone_map(&[1, 0, 0]).expect("an empty zone map");
    assert!(empty.columns.is_empty());
}

#[test]
fn can_skip_integer_and_float_columns() {
    let zone = ZoneMap { columns: vec![int_zone("age", 3, 20, 40), float_zone("score", 1.5, 2.5)] };
    assert!(can_skip(&zone, &cmp("age", CmpOp::Gt, Literal::Int(40))));
    assert!(!can_skip(&zone, &cmp("age", CmpOp::Ge, Literal::Int(40))));
    assert!(can_skip(&zone, &cmp("age", CmpOp::Eq, Literal::Int(19))));
    assert!(!can_skip(&zone, &cmp("age", CmpOp::Ne, Literal::Int(19))));
    assert!(!can_skip(&zone, &cmp("missing", CmpOp::Eq, Literal::Int(1))));
    assert!(can_skip(&zone, &cmp("score", CmpOp::Lt, Literal::Float(1.5f64.to_bits()))));
    assert!(can_skip(&zone, &cmp("score", CmpOp::Gt, Literal::Int(2))) == false);
    assert!(can_skip(&zone, &cmp("score", CmpOp::Gt, Literal::Int(3))));
    assert!(!can_skip(&zone, &cmp("score", CmpOp::Eq, Literal::Float(f64::NAN.to_bits()))));
    let and = Predicate::And(
        Box::new(cmp("age", CmpOp::Lt, Literal::Int(10))),
        Box::new(cmp("score", CmpOp::Gt, Literal::Int(0))),
    );
    assert!(can_skip(&zone, &and));
    let or = Predicate::Or(
        Box::new(cmp("age", CmpOp::Lt, Literal::Int(10))),
        Box::new(cmp("score", CmpOp::Gt, Literal::Int(0))),
    );
    assert!(!can_skip(&zone, &or));
    assert!(!can_skip(&zone, &Predicate::Not(Box::new(cmp("age", CmpOp::Lt, Literal::Int(10))))));
}

#[test]
fn float_bounds_compare_as_floats() {
    let e = ZoneEntry { min_bytes: (-2.0f64).to_bits().to_le_bytes(), max_bytes: (-0.0f64).to_bits().to_le_bytes() };
    assert!(entry_excludes(10, &e, &CmpOp::Gt, &Literal::Float(0.0f64.to_bits())));
    assert!(!entry_excludes(10, &e, &CmpOp::Ge, &Literal::Float(0.0f64.to_bits())));
    assert!(entry_excludes(10, &e, &CmpOp::Lt, &Literal::Int(-2)));
    assert!(!entry_excludes(10, &e, &CmpOp::Le, &Literal::Int(-2)));
    assert!(!entry_excludes(11, &e, &CmpOp::Eq, &Literal::Bool(true)));
}

#[test]
fn zone_map_scan_skips_ruled_out_parts() {
    let pred = cmp("age", CmpOp::Gt, Literal::Int(50));
    let mut scan = ZoneMapScan::new("data/t".to_string(), vec![], pred, vec![3, 7, 9]);
    let low = ZoneMap { columns: vec![int_zone("age", 3, 0, 10)] };
    let high = ZoneMap { columns: vec![int_zone("age", 3, 40, 90)] };
    assert_eq!(scan.next_part(), Some(3));
    assert!(scan.skip_part(Some(&low)));
    assert_eq!(scan.next_part(), Some(7));
    assert!(!scan.skip_part(Some(&high)));
    assert_eq!(scan.next_part(), Some(9));
    assert!(!scan.skip_part(None));
    assert_eq!(scan.next_part(), None);
    assert_eq!(scan.parts_skipped(), 1);
    assert!(!scan.skip_part(Some(&low)));
    assert_eq!(scan.parts_skipped(), 1);
}

#[test]
fn zone_map_scan_counts_undecided_parts_as_read() {
    let pred = cmp("age", CmpOp::Gt, Literal::Int(50));
    let mut scan = ZoneMapScan::new("data/t".to_string(), vec![], pred, vec![1, 2, 3]);
    let low = ZoneMap { columns: vec![int_zone("age", 3, 0, 10)] };
    assert_eq!(scan.parts_skipped(), 0);
    assert_eq!(scan.next_part(), Some(1));
    assert_eq!(scan.next_part(), Some(2));
    assert!(scan.skip_part(Some(&low)));
    assert_eq!(scan.next_part(), Some(3));
    assert!(scan.skip_part(Some(&low)));
    assert_eq!(scan.next_part(), None);
    assert_eq!(scan.parts_skipped(), 2);
}

#[test]
fn validate_chunks_reports_the_first_problem() {
    let schema = TableSchema {
        name: "t".to_string(),
        columns: vec![
            ColumnSchema { name: "a".to_string(), data_type: DataType::I32 },
            ColumnSchema { name: "b".to_string(), data_type: DataType::Str },
        ],
        sort_key: vec![0],
    };
    let ok = vec![ColumnChunk::I32(vec![1, 2]), ColumnChunk::Str(vec!["x".to_string(), "y".to_string()])];
    assert_eq!(validate_chunks(&ok, &schema), Ok(2));
    assert_eq!(validate_chunks(&vec![ColumnChunk::I32(vec![1])], &schema), Err("expected 2 chunks, got 1".to_string()));
    let short = vec![ColumnChunk::I32(vec![1, 2]), ColumnChunk::Str(vec!["x".to_string()])];
    assert_eq!(validate_chunks(&short, &schema), Err("column 1: row count mismatch".to_string()));
    let wrong = vec![ColumnChunk::I64(vec![1, 2]), ColumnChunk::Str(vec!["x".to_string(), "y".to_string()])];
    assert_eq!(
        validate_chunks(&wrong, &schema),
        Err("column 'a': chunk type does not match schema type I32".to_string())
    );
}

#[test]
fn bounds_and_widening() {
    let z = column_bounds(&vec![5i16, -3, 12, 0]).unwrap();
    assert_eq!((z.min, z.max), (-3, 12));
    assert!(column_bounds::<u8>(&vec![]).is_none());
    let (lo, hi) = widen_signed(z);
    assert_eq!(lo, (-3i64).to_le_bytes());
    assert_eq!(hi, 12i64.to_le_bytes());
    let (lo, hi) = widen_unsigned(column_bounds(&vec![200u8, 7]).unwrap());
    assert_eq!(lo, 7u64.to_le_bytes());
    assert_eq!(hi, 200u64.to_le_bytes());
}

#[test]
fn zone_entries_per_column_type() {
    let col = |t: DataType| ColumnSchema { name: "c".to_string(), data_type: t };
    let e = zone_entry_for(&col(DataType::F32), &ColumnChunk::F32(vec![2.5f32.to_bits(), (-1.0f32).to_bits()])).unwrap();
    assert_eq!(e.type_tag, 9);
    assert_eq!(e.min_bytes, (-1.0f64).to_bits().to_le_bytes());
    assert_eq!(e.max_bytes, 2.5f64.to_bits().to_le_bytes());
    let e = zone_entry_for(&col(DataType::F64), &ColumnChunk::F64(vec![3.0f64.to_bits(), f64::NAN.to_bits(), 1.0f64.to_bits()])).unwrap();
    assert_eq!(e.min_bytes, 1.0f64.to_bits().to_le_bytes());
    assert_eq!(e.max_bytes, 3.0f64.to_bits().to_le_bytes());
    assert!(zone_entry_for(&col(DataType::Bool), &ColumnChunk::Bool(vec![true])).is_none());
    assert!(zone_entry_for(&col(DataType::I64), &ColumnChunk::I64(vec![])).is_none());
}

#[test]
fn part_names_and_ids() {
    assert_eq!(tmp_part_name(42), "tmp_part_00042");
    assert_eq!(TableSchema::part_dir("data/t", 7), "data/t/part_00007");
    assert_eq!(parse_part_id("part_00012"), Some(12));
    assert_eq!(parse_part_id("part_x"), None);
    assert_eq!(parse_part_id("tmp_part_00001"), None);
    let names: Vec<String> = vec!["part_00003", "schema.json", "part_00001", "part_00003", "tmp_part_00009"]
        .into_iter()
        .map(|s| s.to_string())
        .collect();
    assert_eq!(next_part_id(&names), 4);
    assert_eq!(next_part_id(&vec![]), 0);
    assert_eq!(next_part_id(&vec!["part_4294967295".to_string()]), 0);
    assert_eq!(discover_part_ids(&names), vec![1, 3]);
}

#[test]
fn batch_filter_keeps_masked_rows() {
    let batch = Batch {
        schema: vec![
            ColumnSchema { name: "a".to_string(), data_type: DataType::I32 },
            ColumnSchema { name: "b".to_string(), data_type: DataType::Str },
        ],
        columns: vec![ColumnChunk::I32(vec![1, 2, 3]), ColumnChunk::Str(vec!["x".into(), "y".into(), "z".into()])],
    };
    let out = batch.filter(&vec![true, false, true]);
    assert_eq!(out.schema.len(), 2);
    match (&out.columns[0], &out.columns[1]) {
        (ColumnChunk::I32(a), ColumnChunk::Str(b)) => {
            assert_eq!(a, &vec![1, 3]);
            assert_eq!(b, &vec!["x".to_string(), "z".to_string()]);
        }
        _ => panic!("expected the same column types"),
    }
}
