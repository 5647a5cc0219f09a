use tinyolap::catalog::schema::{ColumnSchema, DataType};
use tinyolap::execution::filter::filter_mask;
use tinyolap::execution::sum::{sum_into, WideSum};
use tinyolap::physical_plan::physical_operators::{CmpOp, LiteralValue, LogicalOp, PhysicalExpr};
use tinyolap::processors::batch::Batch;
use tinyolap::processors::processor::ExecutionError;
use tinyolap::storage::column_chunk::ColumnChunk;

fn col(name: &str) -> Box<PhysicalExpr> {
    Box::new(PhysicalExpr::Column(name.to_string()))
}

fn lit(v: LiteralValue) -> Box<PhysicalExpr> {
    Box::new(PhysicalExpr::Literal(v))
}

fn batch() -> Batch {
    Batch {
        schema: vec![
            ColumnSchema { name: "age".to_string(), data_type: DataType::I32 },
            ColumnSchema { name: "price".to_string(), data_type: DataType::F64 },
            ColumnSchema { name: "tag".to_string(), data_type: DataType::Str },
            ColumnSchema { name: "ok".to_string(), data_type: DataType::Bool },
        ],
        columns: vec![
            ColumnChunk::I32(vec![25, 40, 31]),
            ColumnChunk::F64(vec![2.5f64.to_bits(), f64::NAN.to_bits(), (-1.0f64).to_bits()]),
            ColumnChunk::Str(vec!["b".to_string(), "a".to_string(), "ab".to_string()]),
            ColumnChunk::Bool(vec![true, false, true]),
        ],
    }
}

#[test]
fn integer_comparison_masks_rows() {
    let p = PhysicalExpr::Compare { left: col("age"), op: CmpOp::Gt, right: lit(LiteralValue::I32(30)) };
    assert_eq!(filter_mask(&p, &batch()).unwrap(), vec![false, true, true]);
    let p = PhysicalExpr::Compare { left: lit(LiteralValue::Int(31)), op: CmpOp::Eq, right: col("age") };
    assert_eq!(filter_mask(&p, &batch()).unwrap(), vec![false, false, true]);
}

#[test]
fn nan_fails_every_comparison_but_not_equal() {
    let lt = PhysicalExpr::Compare { left: col("price"), op: CmpOp::Lt, right: lit(LiteralValue::Float(10.0f64.to_bits())) };
    assert_eq!(filter_mask(&lt, &batch()).unwrap(), vec![true, false, true]);
    let ne = PhysicalExpr::Compare { left: col("price"), op: CmpOp::NotEq, right: lit(LiteralValue::Float(2.5f64.to_bits())) };
    assert_eq!(filter_mask(&ne, &batch()).unwrap(), vec![false, true, true]);
    // An integer compares with a float by value.
    let ge = PhysicalExpr::Compare { left: col("price"), op: CmpOp::GtEq, right: lit(LiteralValue::Int(2)) };
    assert_eq!(filter_mask(&ge, &batch()).unwrap(), vec![true, false, false]);
}

#[test]
fn strings_and_logic() {
    let p = PhysicalExpr::Logical {
        left: Box::new(PhysicalExpr::Compare { left: col("tag"), op: CmpOp::Lt, right: lit(LiteralValue::Str("b".to_string())) }),
        op: LogicalOp::Or,
        right: Box::new(PhysicalExpr::Compare { left: col("age"), op: CmpOp::LtEq, right: lit(LiteralValue::I32(25)) }),
    };
    assert_eq!(filter_mask(&p, &batch()).unwrap(), vec![true, true, true]);
    let q = PhysicalExpr::Logical { left: col("ok"), op: LogicalOp::And, right: Box::new(PhysicalExpr::Compare { left: col("tag"), op: CmpOp::GtEq, right: lit(LiteralValue::Str("ab".to_string())) }) };
    assert_eq!(filter_mask(&q, &batch()).unwrap(), vec![true, false, true]);
}

#[test]
fn ill_typed_predicates_are_refused() {
    let p = PhysicalExpr::Compare { left: col("tag"), op: CmpOp::Eq, right: lit(LiteralValue::I32(1)) };
    assert!(matches!(filter_mask(&p, &batch()), Err(ExecutionError::InvalidData(_))));
    let p = PhysicalExpr::Compare { left: col("nope"), op: CmpOp::Eq, right: lit(LiteralValue::I32(1)) };
    assert!(filter_mask(&p, &batch()).is_err());
    assert!(filter_mask(&PhysicalExpr::Column("age".to_string()), &batch()).is_err());
    let p = PhysicalExpr::Compare { left: col("age"), op: CmpOp::Eq, right: lit(LiteralValue::Null) };
    assert!(filter_mask(&p, &batch()).is_err());
}

#[test]
fn wide_sums_and_overflow() {
    let mut s = WideSum::for_type(DataType::I8).unwrap();
    sum_into(&mut s, &ColumnChunk::I8(vec![100, 100, 100])).unwrap();
    assert_eq!(s, WideSum::Signed(300));
    let mut u = WideSum::for_type(DataType::U64).unwrap();
    sum_into(&mut u, &ColumnChunk::U64(vec![u64::MAX, 0])).unwrap();
    assert!(sum_into(&mut u, &ColumnChunk::U64(vec![1])).is_err());
    assert_eq!(u, WideSum::Unsigned(u64::MAX));
    assert!(sum_into(&mut s, &ColumnChunk::U8(vec![1])).is_err());
    assert!(WideSum::for_type(DataType::F64).is_none());
}
