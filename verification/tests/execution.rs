use tinyolap::catalog::schema::{ColumnSchema, DataType, TableSchema};
use tinyolap::execution::builder::{check_sum_shape, resolve_scan_columns, sum_target};
use tinyolap::execution::count::CountAccumulator;
use tinyolap::execution::full_scan::{PartWorkSource, ScanWorkSource};
use tinyolap::execution::limit::{LimitDecision, LimitState};
use tinyolap::execution::project::{resolve_projection, ProjectError};
use tinyolap::float_bits::{f32_to_f64_bits, i64_to_f64_bits, u64_to_f64_bits};
use tinyolap::physical_plan::physical_operators::{AggFunc, AggSpec, LiteralValue, PhysicalExpr};

fn schema() -> TableSchema {
    TableSchema {
        name: "t".to_string(),
        columns: vec![
            ColumnSchema { name: "a".to_string(), data_type: DataType::I32 },
            ColumnSchema { name: "s".to_string(), data_type: DataType::Str },
        ],
        sort_key: vec![],
    }
}

#[test]
fn limit_passes_whole_batches_then_slices() {
    let mut l = LimitState::new(5);
    assert!(!l.is_done());
    assert_eq!(l.take_batch(3), LimitDecision::Pass);
    assert_eq!(l.take_batch(4), LimitDecision::Slice(2));
    assert!(l.is_done());
    let mut z = LimitState::new(0);
    assert!(z.is_done());
    let mut m = LimitState::new(4);
    assert_eq!(m.take_batch(4), LimitDecision::Pass);
    assert!(m.is_done());
    let _ = &mut z;
}

#[test]
fn projection_resolves_first_field_of_a_name() {
    let names = vec!["a".to_string(), "b".to_string(), "a".to_string()];
    let proj = vec![PhysicalExpr::Column("a".to_string()), PhysicalExpr::Column("b".to_string())];
    assert_eq!(resolve_projection(&proj, &names), Ok(vec![0, 1]));
    let bad = vec![PhysicalExpr::Column("zz".to_string())];
    assert_eq!(resolve_projection(&bad, &names), Err(ProjectError::UnknownField("zz".to_string())));
    let lit = vec![PhysicalExpr::Literal(LiteralValue::Int(1))];
    assert_eq!(resolve_projection(&lit, &names), Err(ProjectError::NotAColumn));
}

#[test]
fn builder_checks_the_aggregate() {
    let s = schema();
    let sum = |c: &str| AggSpec { func: AggFunc::Sum, arg: PhysicalExpr::Column(c.to_string()), output_name: "x".to_string() };
    assert_eq!(sum_target(&vec![], &vec![sum("a")], &s), Ok(("a".to_string(), DataType::I32)));
    assert_eq!(sum_target(&vec![], &vec![sum("q")], &s), Err("column 'q' not found in schema".to_string()));
    assert_eq!(sum_target(&vec![], &vec![sum("s")], &s), Err("SUM not supported on Str".to_string()));
    assert_eq!(
        sum_target(&vec![PhysicalExpr::Column("a".to_string())], &vec![sum("a")], &s),
        Err("Only SUM with no GROUP BY is supported".to_string())
    );
    let count = AggSpec { func: AggFunc::Count, arg: PhysicalExpr::Column("a".to_string()), output_name: "x".to_string() };
    assert_eq!(sum_target(&vec![], &vec![count], &s), Err("Only SUM with no GROUP BY is supported".to_string()));
    let lit = AggSpec { func: AggFunc::Sum, arg: PhysicalExpr::Literal(LiteralValue::Int(1)), output_name: "x".to_string() };
    assert_eq!(sum_target(&vec![], &vec![lit], &s), Err("SUM argument must be a column reference".to_string()));
    assert_eq!(check_sum_shape(&vec![], &vec![sum("q")]), Ok(()));
    assert_eq!(check_sum_shape(&vec![], &vec![]), Err("Only SUM with no GROUP BY is supported".to_string()));
}

#[test]
fn scan_columns_resolve_against_the_schema() {
    let s = schema();
    let cols = resolve_scan_columns(&vec!["s".to_string(), "a".to_string()], &s).unwrap();
    assert_eq!(cols.len(), 2);
    assert_eq!(cols[0].name, "s");
    assert_eq!(cols[1].data_type, DataType::I32);
    assert!(resolve_scan_columns(&vec!["a".to_string(), "b".to_string()], &s).is_err());
}

#[test]
fn count_accumulator_counts_rows() {
    let mut c = CountAccumulator::new("id".to_string());
    c.add_rows(3);
    c.add_rows(0);
    c.add_rows(4);
    assert_eq!(c.count(), 7);
    assert_eq!(c.output_name(), "count(id)");
}

#[test]
fn work_source_hands_out_each_part_once() {
    let src = PartWorkSource::new(vec!["p0".to_string(), "p1".to_string()]);
    assert_eq!(src.next_work(), Some("p0".to_string()));
    assert_eq!(src.next_work(), Some("p1".to_string()));
    assert_eq!(src.next_work(), None);
}

#[test]
fn integer_to_float_conversion_matches_as_f64() {
    let samples: Vec<i64> = vec![
        0, 1, -1, 2, 3, 7, 1 << 52, (1 << 53) - 1, 1 << 53, (1 << 53) + 1, (1 << 53) + 3, i64::MAX, i64::MIN,
        -(1 << 53) - 1, 123456789123456789, -987654321987654321,
    ];
    for v in samples {
        assert_eq!(i64_to_f64_bits(v), (v as f64).to_bits(), "{v}");
    }
    for u in [0u64, 1, u64::MAX, u64::MAX - 1024, (1 << 63) + 1025, 0x8000_0000_0000_0400] {
        assert_eq!(u64_to_f64_bits(u), (u as f64).to_bits(), "{u}");
    }
}

#[test]
fn float_widening_matches_as_f64() {
    let samples = [0.0f32, -0.0, 1.0, -2.5, f32::MIN_POSITIVE, 1.0e-45, 3.0e-40, f32::MAX, f32::INFINITY, f32::NEG_INFINITY];
    for x in samples {
        assert_eq!(f32_to_f64_bits(x.to_bits()), (x as f64).to_bits(), "{x}");
    }
    assert!(f64::from_bits(f32_to_f64_bits(f32::NAN.to_bits())).is_nan());
}
