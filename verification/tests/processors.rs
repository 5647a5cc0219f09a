use tinyolap::aggregator::min::MinAgg;
use tinyolap::aggregator::sum::IntegerSums;
use tinyolap::catalog::schema::{ColumnSchema, DataType};
use tinyolap::execution::max::MaxAccumulator;
use tinyolap::execution::sum_accumulator::SumAccumulator;
use tinyolap::parser::ast::{CmpOp, Literal, Predicate};
use tinyolap::processors::batch::Batch;
use tinyolap::processors::evaluate::evaluate;
use tinyolap::processors::group_by::GroupKeys;
use tinyolap::processors::processor::ExecutionError;
use tinyolap::processors::scalar_value::{HashableF64, ScalarValue};
use tinyolap::processors::zone_map_scan::can_skip;
use tinyolap::storage::column_chunk::ColumnChunk;
use tinyolap::storage::table_writer::part_zone_entries;
use tinyolap::storage::zone_map::{ZoneColumn, ZoneEntry, ZoneMap};
use tinyolap::storage::zone_map_format::{decode_zone_map, encode_zone_map, zone_map_fits};

fn schema(name: &str, t: DataType) -> ColumnSchema {
    ColumnSchema { name: name.to_string(), data_type: t }
}

fn batch() -> Batch {
    Batch {
        schema: vec![
            schema("id", DataType::I64),
            schema("price", DataType::F64),
            schema("city", DataType::Str),
            schema("paid", DataType::Bool),
            schema("qty", DataType::U8),
        ],
        columns: vec![
            ColumnChunk::I64(vec![1, 2, 3, 4]),
            ColumnChunk::F64(vec![1.5f64.to_bits(), f64::NAN.to_bits(), 10.0f64.to_bits(), (-2.0f64).to_bits()]),
            ColumnChunk::Str(vec!["oslo".to_string(), "rome".to_string(), "oslo".to_string(), "lima".to_string()]),
            ColumnChunk::Bool(vec![true, false, true, false]),
            ColumnChunk::U8(vec![3, 3, 7, 3]),
        ],
    }
}

fn cmp(col: &str, op: CmpOp, value: Literal) -> Predicate {
    Predicate::Cmp { col: col.to_string(), op, value }
}

fn invalid(r: Result<Vec<bool>, ExecutionError>) -> bool {
    matches!(r, Err(ExecutionError::InvalidData(_)))
}

#[test]
fn evaluate_integer_comparisons() {
    let b = batch();
    assert_eq!(evaluate(&cmp("id", CmpOp::Gt, Literal::Int(2)), &b).unwrap(), vec![false, false, true, true]);
    assert_eq!(evaluate(&cmp("id", CmpOp::Le, Literal::UInt(1)), &b).unwrap(), vec![true, false, false, false]);
    assert_eq!(evaluate(&cmp("qty", CmpOp::Ne, Literal::Int(3)), &b).unwrap(), vec![false, false, true, false]);
}

#[test]
fn evaluate_float_comparisons_follow_ieee() {
    let b = batch();
    // NaN fails every comparison but `!=`.
    assert_eq!(
        evaluate(&cmp("price", CmpOp::Lt, Literal::Float(5.0f64.to_bits())), &b).unwrap(),
        vec![true, false, false, true]
    );
    assert_eq!(
        evaluate(&cmp("price", CmpOp::Ne, Literal::Float(10.0f64.to_bits())), &b).unwrap(),
        vec![true, true, false, true]
    );
    // An integer literal compares with a float column by value.
    assert_eq!(evaluate(&cmp("price", CmpOp::Ge, Literal::Int(10)), &b).unwrap(), vec![false, false, true, false]);
}

#[test]
fn evaluate_strings_and_booleans() {
    let b = batch();
    assert_eq!(
        evaluate(&cmp("city", CmpOp::Eq, Literal::Str("oslo".to_string())), &b).unwrap(),
        vec![true, false, true, false]
    );
    assert_eq!(
        evaluate(&cmp("city", CmpOp::Lt, Literal::Str("oslo".to_string())), &b).unwrap(),
        vec![false, false, false, true]
    );
    assert_eq!(evaluate(&cmp("paid", CmpOp::Eq, Literal::Bool(true)), &b).unwrap(), vec![true, false, true, false]);
}

#[test]
fn evaluate_combines_with_and_or_not() {
    let b = batch();
    let p = Predicate::And(
        Box::new(cmp("id", CmpOp::Ge, Literal::Int(2))),
        Box::new(Predicate::Not(Box::new(cmp("city", CmpOp::Eq, Literal::Str("oslo".to_string()))))),
    );
    assert_eq!(evaluate(&p, &b).unwrap(), vec![false, true, false, true]);
    let p = Predicate::Or(Box::new(cmp("id", CmpOp::Eq, Literal::Int(1))), Box::new(cmp("qty", CmpOp::Eq, Literal::Int(7))));
    assert_eq!(evaluate(&p, &b).unwrap(), vec![true, false, true, false]);
}

#[test]
fn evaluate_rejects_what_it_cannot_compare() {
    let b = batch();
    assert!(invalid(evaluate(&cmp("nope", CmpOp::Eq, Literal::Int(1)), &b)));
    assert!(invalid(evaluate(&cmp("id", CmpOp::Eq, Literal::Null), &b)));
    assert!(invalid(evaluate(&cmp("city", CmpOp::Eq, Literal::Int(1)), &b)));
    // An error anywhere in the tree is an error of the whole predicate.
    let p = Predicate::Or(Box::new(cmp("id", CmpOp::Eq, Literal::Int(1))), Box::new(cmp("paid", CmpOp::Eq, Literal::Int(1))));
    assert!(invalid(evaluate(&p, &b)));
}

fn le8(v: u64) -> [u8; 8] {
    v.to_le_bytes()
}

#[test]
fn skipped_part_has_no_matching_rows() {
    // The zone map of the batch's columns: id in 1..=4, price in -2.0..=10.0.
    let zone = ZoneMap {
        columns: vec![
            ZoneColumn {
                name: "id".to_string(),
                type_tag: 4,
                entries: vec![ZoneEntry { min_bytes: le8(1), max_bytes: le8(4) }],
            },
            ZoneColumn {
                name: "price".to_string(),
                type_tag: 10,
                entries: vec![ZoneEntry {
                    min_bytes: le8((-2.0f64).to_bits()),
                    max_bytes: le8(10.0f64.to_bits()),
                }],
            },
        ],
    };
    let b = batch();
    let skipped = cmp("id", CmpOp::Gt, Literal::Int(4));
    assert!(can_skip(&zone, &skipped));
    assert_eq!(evaluate(&skipped, &b).unwrap(), vec![false; 4]);
    let skipped = cmp("price", CmpOp::Gt, Literal::Float(10.5f64.to_bits()));
    assert!(can_skip(&zone, &skipped));
    assert_eq!(evaluate(&skipped, &b).unwrap(), vec![false; 4]);
    let kept = cmp("id", CmpOp::Ge, Literal::Int(4));
    assert!(!can_skip(&zone, &kept));
    assert_eq!(evaluate(&kept, &b).unwrap(), vec![false, false, false, true]);
}

#[test]
fn select_columns_keeps_named_columns_in_batch_order() {
    let b = batch();
    let r = b.select_columns(&vec!["qty".to_string(), "id".to_string(), "missing".to_string()]);
    let names: Vec<&str> = r.schema.iter().map(|c| c.name.as_str()).collect();
    assert_eq!(names, vec!["id", "qty"]);
    match (&r.columns[0], &r.columns[1]) {
        (ColumnChunk::I64(a), ColumnChunk::U8(q)) => {
            assert_eq!(a, &vec![1, 2, 3, 4]);
            assert_eq!(q, &vec![3, 3, 7, 3]);
        },
        _ => panic!("unexpected column types"),
    }
    assert_eq!(b.select_columns(&vec![]).columns.len(), 0);
}

#[test]
fn group_keys_number_groups_in_order_of_first_appearance() {
    let b = batch();
    let mut keys = GroupKeys::new(vec![DataType::Str, DataType::U8]);
    let ids = keys.assign(&b, &vec![2, 4]);
    assert_eq!(ids, vec![0, 1, 2, 3]);
    let mut by_city = GroupKeys::new(vec![DataType::Str]);
    assert_eq!(by_city.assign(&b, &vec![2]), vec![0, 1, 0, 2]);
    assert_eq!(by_city.len(), 3);
    // A second batch reuses the groups already seen.
    assert_eq!(by_city.assign(&b, &vec![2]), vec![0, 1, 0, 2]);
    assert_eq!(by_city.len(), 3);
    match &by_city.key_columns()[0] {
        ColumnChunk::Str(v) => assert_eq!(v, &vec!["oslo".to_string(), "rome".to_string(), "lima".to_string()]),
        _ => panic!("expected a string column"),
    }
}

#[test]
fn group_keys_over_numbers() {
    let b = batch();
    let mut by_qty = GroupKeys::new(vec![DataType::U8]);
    assert_eq!(by_qty.assign(&b, &vec![4]), vec![0, 0, 1, 0]);
    match &by_qty.key_columns()[0] {
        ColumnChunk::U8(v) => assert_eq!(v, &vec![3, 7]),
        _ => panic!("expected a u8 column"),
    }
}

#[test]
fn scalar_values_round_trip_through_columns() {
    let b = batch();
    let v = ScalarValue::from_chunk(&b.columns[1], 2);
    assert!(matches!(v, ScalarValue::F64(HashableF64(bits)) if bits == 10.0f64.to_bits()));
    let col = ScalarValue::build_column(vec![ScalarValue::I64(7), ScalarValue::I64(-1)]);
    match col {
        ColumnChunk::I64(v) => assert_eq!(v, vec![7, -1]),
        _ => panic!("expected an i64 column"),
    }
    assert!(ScalarValue::from_chunk(&b.columns[2], 0).same(&ScalarValue::Str("oslo".to_string())));
    assert!(!ScalarValue::from_chunk(&b.columns[2], 0).same(&ScalarValue::Str("rome".to_string())));
}

fn sales() -> Batch {
    Batch {
        schema: vec![schema("amount", DataType::I32), schema("max(amount)", DataType::I32)],
        columns: vec![ColumnChunk::I32(vec![5, -3, 8, 2]), ColumnChunk::I32(vec![9, 1])],
    }
}

#[test]
fn max_accumulator_single_group_takes_column_maximum() {
    let mut acc: MaxAccumulator<i32> = MaxAccumulator::new("amount".to_string());
    acc.update(&sales(), &[], 1).unwrap();
    acc.update(&sales(), &[], 1).unwrap();
    assert_eq!(acc.materialize(), vec![8]);
}

#[test]
fn max_accumulator_groups_rows_by_id() {
    let mut acc: MaxAccumulator<i32> = MaxAccumulator::new("amount".to_string());
    acc.update(&sales(), &[0, 1, 0, 1], 3).unwrap();
    // Group 2 saw no value: it reads as zero.
    assert_eq!(acc.materialize(), vec![8, 2, 0]);
}

#[test]
fn max_accumulator_merges_partial_maxima() {
    let mut acc: MaxAccumulator<i32> = MaxAccumulator::new("amount".to_string());
    acc.update(&sales(), &[0, 1, 0, 1], 2).unwrap();
    acc.merge(&sales(), &[1, 0], 2).unwrap();
    assert_eq!(acc.materialize(), vec![8, 9]);
    let f = MaxAccumulator::<i32>::new("amount".to_string()).output_field();
    assert_eq!(f.name, "max(amount)");
    assert_eq!(f.data_type, DataType::I32);
}

#[test]
fn max_accumulator_reports_missing_column() {
    let mut acc: MaxAccumulator<i32> = MaxAccumulator::new("price".to_string());
    match acc.update(&sales(), &[0], 1) {
        Err(ExecutionError::InvalidData(m)) => assert_eq!(m, "MaxAccumulator: column 'price' not found in batch"),
        _ => panic!("expected an error"),
    }
    match acc.merge(&sales(), &[0], 1) {
        Err(ExecutionError::InvalidData(m)) => assert_eq!(m, "max(price)"),
        _ => panic!("expected an error"),
    }
    // The states were still grown to one group, with no value.
    assert_eq!(acc.materialize(), vec![0]);
}

fn written_zone_map(b: &Batch) -> ZoneMap {
    let entries = part_zone_entries(&b.schema, &b.columns);
    assert!(zone_map_fits(&entries));
    decode_zone_map(&encode_zone_map(&entries)).expect("a written zone map reads back")
}

#[test]
fn written_zone_map_prunes_only_parts_without_matches() {
    let b = batch();
    let zone = written_zone_map(&b);
    // Only the numeric columns with rows get an entry.
    let names: Vec<&str> = zone.columns.iter().map(|c| c.name.as_str()).collect();
    assert_eq!(names, vec!["id", "price", "qty"]);
    let cases = vec![
        cmp("id", CmpOp::Gt, Literal::Int(4)),
        cmp("id", CmpOp::Lt, Literal::Int(1)),
        cmp("id", CmpOp::Eq, Literal::Int(3)),
        cmp("qty", CmpOp::Ge, Literal::UInt(8)),
        cmp("qty", CmpOp::Le, Literal::Int(3)),
        cmp("price", CmpOp::Gt, Literal::Float(10.0f64.to_bits())),
        cmp("price", CmpOp::Lt, Literal::Float((-2.0f64).to_bits())),
        cmp("price", CmpOp::Ge, Literal::Float(10.0f64.to_bits())),
    ];
    let mut skipped = 0;
    for p in &cases {
        if can_skip(&zone, p) {
            skipped += 1;
            assert!(evaluate(p, &b).unwrap().iter().all(|&keep| !keep));
        }
    }
    assert_eq!(skipped, 5);
}

#[test]
fn float_column_starting_with_nan_is_never_pruned() {
    let b = Batch {
        schema: vec![schema("x", DataType::F64)],
        columns: vec![ColumnChunk::F64(vec![f64::NAN.to_bits(), 1.0f64.to_bits(), 5.0f64.to_bits()])],
    };
    let zone = written_zone_map(&b);
    for op in [CmpOp::Eq, CmpOp::Lt, CmpOp::Le, CmpOp::Gt, CmpOp::Ge] {
        assert!(!can_skip(&zone, &cmp("x", op, Literal::Float(100.0f64.to_bits()))));
    }
    assert_eq!(
        evaluate(&cmp("x", CmpOp::Gt, Literal::Float(2.0f64.to_bits())), &b).unwrap(),
        vec![false, false, true]
    );
}

#[test]
fn sum_accumulator_single_group_wraps_in_column_type() {
    let b = Batch {
        schema: vec![schema("v", DataType::I8)],
        columns: vec![ColumnChunk::I8(vec![100, 100, -1])],
    };
    let mut acc: SumAccumulator<i8> = SumAccumulator::new("v".to_string());
    // 100 + 100 wraps to -56 in i8, then -1: the partial sum is -57.
    acc.update(&b, &[], 1).unwrap();
    acc.update(&b, &[], 1).unwrap();
    match acc.finalize() {
        ColumnChunk::I64(v) => assert_eq!(v, vec![-114]),
        _ => panic!("expected an i64 column"),
    }
}

#[test]
fn sum_accumulator_groups_in_wide_type() {
    let b = Batch {
        schema: vec![schema("v", DataType::U8)],
        columns: vec![ColumnChunk::U8(vec![200, 200, 7, 1])],
    };
    let mut acc: SumAccumulator<u8> = SumAccumulator::new("v".to_string());
    acc.update(&b, &[0, 0, 1, 0], 3).unwrap();
    let f = acc.output_field();
    assert_eq!(f.name, "sum(v)");
    assert_eq!(f.data_type, DataType::U64);
    match acc.finalize() {
        ColumnChunk::U64(v) => assert_eq!(v, vec![401, 7, 0]),
        _ => panic!("expected a u64 column"),
    }
}

#[test]
fn sum_accumulator_reports_missing_column() {
    let mut acc: SumAccumulator<i32> = SumAccumulator::new("price".to_string());
    match acc.update(&sales(), &[0], 2) {
        Err(ExecutionError::InvalidData(m)) => assert_eq!(m, "SumAccumulator: column 'price' not found in batch"),
        _ => panic!("expected an error"),
    }
    match acc.finalize() {
        ColumnChunk::I64(v) => assert_eq!(v, vec![0, 0]),
        _ => panic!("expected an i64 column"),
    }
}

#[test]
fn group_by_aggregates_each_group_over_its_own_rows() {
    let b = batch();
    let mut keys = GroupKeys::new(vec![DataType::Str]);
    let ids = keys.assign(&b, &vec![2]);
    let n = keys.len();
    let mut min = MinAgg::new(DataType::I64).unwrap();
    min.update(&b.columns[0], &ids, n).unwrap();
    let mut sum = IntegerSums::new(DataType::U8).unwrap();
    sum.update(&b.columns[4], &ids, n).unwrap();
    // oslo: rows 0 and 2; rome: row 1; lima: row 3.
    match min.finalize() {
        ColumnChunk::I64(v) => assert_eq!(v, vec![1, 2, 4]),
        _ => panic!("expected an i64 column"),
    }
    match sum.finalize() {
        ColumnChunk::U8(v) => assert_eq!(v, vec![10, 3, 3]),
        _ => panic!("expected a u8 column"),
    }
}
