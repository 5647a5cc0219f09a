use tinyolap::aggregator::factory::agg_output_type;
use tinyolap::parser::ast::AggFunc;
use tinyolap::aggregator::count::CountAgg;
use tinyolap::aggregator::max::{Max, MaxAgg, MaxFloat};
use tinyolap::aggregator::min::{Min, MinAgg};
use tinyolap::processors::processor::ExecutionError;
use tinyolap::aggregator::sum::{IntegerSums, Sum};
use tinyolap::catalog::schema::DataType;
use tinyolap::storage::column_chunk::ColumnChunk;

#[test]
fn max_i64_basic() {
    let mut s = Max::<i64>::init();
    Max::<i64>::update(&mut s, &[3, 1, 4, 1, 5, 9, 2, 6]);
    assert_eq!(Max::<i64>::finalize(s), Some(9));
}

#[test]
fn max_i32_negatives() {
    let mut s = Max::<i32>::init();
    Max::<i32>::update(&mut s, &[-10, -3, -7, -1, -50]);
    assert_eq!(Max::<i32>::finalize(s), Some(-1));
}

#[test]
fn max_u8() {
    let mut s = Max::<u8>::init();
    Max::<u8>::update(&mut s, &[10, 200, 50]);
    assert_eq!(Max::<u8>::finalize(s), Some(200));
}

#[test]
fn max_empty_is_none() {
    let mut s = Max::<i64>::init();
    Max::<i64>::update(&mut s, &[]);
    assert_eq!(Max::<i64>::finalize(s), None);
}

#[test]
fn max_merge_matches_full() {
    let data: Vec<i64> = vec![5, 3, 8, 1, 9, 2, 7, 4, 6, 0];

    let full = {
        let mut s = Max::<i64>::init();
        Max::<i64>::update(&mut s, &data);
        Max::<i64>::finalize(s)
    };

    for split in [0, 1, 5, 9, 10] {
        let mut left = Max::<i64>::init();
        Max::<i64>::update(&mut left, &data[..split]);
        let mut right = Max::<i64>::init();
        Max::<i64>::update(&mut right, &data[split..]);
        Max::<i64>::merge(&mut left, right);
        assert_eq!(Max::<i64>::finalize(left), full, "split {split}");
    }
}

#[test]
fn max_merge_with_empty_partial() {
    let mut left = Max::<i32>::init();
    Max::<i32>::update(&mut left, &[1, 2, 3]);
    let right = Max::<i32>::init();
    Max::<i32>::merge(&mut left, right);
    assert_eq!(Max::<i32>::finalize(left), Some(3));
}

#[test]
fn sum_i64_single_chunk() {
    let mut state = Sum::<i64>::init();
    Sum::<i64>::update(&mut state, &[1, 2, 3, 4]);
    assert_eq!(Sum::<i64>::finalize(state), 10);
}

#[test]
fn sum_i32_single_chunk() {
    let mut state = Sum::<i32>::init();
    Sum::<i32>::update(&mut state, &[1, 2, 3, 4]);
    assert_eq!(Sum::<i32>::finalize(state), 10);
}

#[test]
fn sum_empty_is_zero() {
    let mut state = Sum::<i64>::init();
    Sum::<i64>::update(&mut state, &[]);
    assert_eq!(Sum::<i64>::finalize(state), 0);
}

#[test]
fn sum_i64_merge_matches_full() {
    let data: Vec<i64> = (1..=100).collect();

    let full = {
        let mut s = Sum::<i64>::init();
        Sum::<i64>::update(&mut s, &data);
        Sum::<i64>::finalize(s)
    };

    for split in [0, 1, 50, 99, 100] {
        let mut left = Sum::<i64>::init();
        Sum::<i64>::update(&mut left, &data[..split]);
        let mut right = Sum::<i64>::init();
        Sum::<i64>::update(&mut right, &data[split..]);
        Sum::<i64>::merge(&mut left, right);
        assert_eq!(Sum::<i64>::finalize(left), full, "split {split}");
    }
}

#[test]
fn sum_i32_merge_matches_full() {
    let data: Vec<i32> = (1..=100).collect();

    let full = {
        let mut s = Sum::<i32>::init();
        Sum::<i32>::update(&mut s, &data);
        Sum::<i32>::finalize(s)
    };

    for split in [0, 1, 50, 99, 100] {
        let mut left = Sum::<i32>::init();
        Sum::<i32>::update(&mut left, &data[..split]);
        let mut right = Sum::<i32>::init();
        Sum::<i32>::update(&mut right, &data[split..]);
        Sum::<i32>::merge(&mut left, right);
        assert_eq!(Sum::<i32>::finalize(left), full, "split {split}");
    }
}

#[test]
fn min_merge_matches_full() {
    let data: Vec<i16> = vec![4, -2, 9, 0, -7, 3];
    let mut full = Min::<i16>::init();
    Min::<i16>::update(&mut full, &data);
    for split in 0..=data.len() {
        let mut left = Min::<i16>::init();
        Min::<i16>::update(&mut left, &data[..split]);
        let mut right = Min::<i16>::init();
        Min::<i16>::update(&mut right, &data[split..]);
        Min::<i16>::merge(&mut left, right);
        assert_eq!(Min::<i16>::finalize(left), Some(-7));
    }
    assert_eq!(Min::<i16>::finalize(full), Some(-7));
}

#[test]
fn max_partial_order_merge() {
    let mut s = MaxFloat::<i32>::init();
    MaxFloat::<i32>::update(&mut s, &[4, 11, -3]);
    let mut t = MaxFloat::<i32>::init();
    MaxFloat::<i32>::update(&mut t, &[7]);
    MaxFloat::<i32>::merge(&mut s, t);
    assert_eq!(MaxFloat::<i32>::finalize(s), Some(11));
}

#[test]
fn count_agg_counts_rows_per_group() {
    let mut c = CountAgg::new();
    let chunk = ColumnChunk::I32(vec![5, 6, 7, 8, 9]);
    assert!(c.update(&chunk, &[0, 1, 0, 2, 0], 3).is_ok());
    match c.finalize() {
        ColumnChunk::U64(v) => assert_eq!(v, vec![3, 1, 1]),
        _ => panic!("expected U64 counts"),
    }
    assert_eq!(c.output_type(), DataType::U64);
}

#[test]
fn min_agg_per_group() {
    let mut agg = MinAgg::new(DataType::I32).unwrap();
    assert_eq!(agg.output_type(), DataType::I32);
    agg.update(&ColumnChunk::I32(vec![5, -3, 8, 2]), &[0, 1, 0, 1], 3).unwrap();
    agg.update(&ColumnChunk::I32(vec![1]), &[0], 3).unwrap();
    match agg.finalize() {
        // group 2 saw no value and finalizes to zero
        ColumnChunk::I32(v) => assert_eq!(v, vec![1, -3, 0]),
        _ => panic!("expected an i32 column"),
    }
}

#[test]
fn max_agg_per_group() {
    let mut agg = MaxAgg::new(DataType::U16).unwrap();
    agg.update(&ColumnChunk::U16(vec![5, 300, 8]), &[1, 1, 0], 2).unwrap();
    match agg.finalize() {
        ColumnChunk::U16(v) => assert_eq!(v, vec![8, 300]),
        _ => panic!("expected a u16 column"),
    }
}

#[test]
fn float_min_max_skip_nan() {
    let nan = f64::NAN.to_bits();
    let vals = vec![2.5f64.to_bits(), nan, (-1.0f64).to_bits(), 7.0f64.to_bits()];
    let mut mn = MinAgg::new(DataType::F64).unwrap();
    let mut mx = MaxAgg::new(DataType::F64).unwrap();
    mn.update(&ColumnChunk::F64(vals.clone()), &[0, 0, 0, 0], 1).unwrap();
    mx.update(&ColumnChunk::F64(vals), &[0, 0, 0, 0], 1).unwrap();
    match mn.finalize() {
        ColumnChunk::F64(v) => assert_eq!(f64::from_bits(v[0]), -1.0),
        _ => panic!("expected an f64 column"),
    }
    match mx.finalize() {
        ColumnChunk::F64(v) => assert_eq!(f64::from_bits(v[0]), 7.0),
        _ => panic!("expected an f64 column"),
    }
    // A NaN seen first is skipped too.
    let mut first = MinAgg::new(DataType::F32).unwrap();
    first.update(&ColumnChunk::F32(vec![f32::NAN.to_bits(), 3.0f32.to_bits(), 1.0f32.to_bits()]), &[0, 0, 0], 1).unwrap();
    match first.finalize() {
        ColumnChunk::F32(v) => assert_eq!(f32::from_bits(v[0]), 1.0),
        _ => panic!("expected an f32 column"),
    }
    let mut lead = MaxAgg::new(DataType::F64).unwrap();
    lead.update(&ColumnChunk::F64(vec![nan, 1.0f64.to_bits(), 2.0f64.to_bits()]), &[0, 0, 0], 1).unwrap();
    match lead.finalize() {
        ColumnChunk::F64(v) => assert_eq!(f64::from_bits(v[0]), 2.0),
        _ => panic!("expected an f64 column"),
    }
    // A group that saw only NaNs finalizes to the default value.
    let mut only = MaxAgg::new(DataType::F64).unwrap();
    only.update(&ColumnChunk::F64(vec![nan]), &[0], 1).unwrap();
    match only.finalize() {
        ColumnChunk::F64(v) => assert_eq!(f64::from_bits(v[0]), 0.0),
        _ => panic!("expected an f64 column"),
    }
}

#[test]
fn min_max_refuse_unordered_types() {
    match MinAgg::new(DataType::Str) {
        Err(ExecutionError::InvalidData(m)) => assert_eq!(m, "MIN is not supported for type Str"),
        _ => panic!("expected an error"),
    }
    match MaxAgg::new(DataType::Bool) {
        Err(ExecutionError::InvalidData(m)) => assert_eq!(m, "MAX is not supported for type Bool"),
        _ => panic!("expected an error"),
    }
}

#[test]
fn min_agg_refuses_other_chunk_type() {
    let mut agg = MinAgg::new(DataType::I64).unwrap();
    match agg.update(&ColumnChunk::U8(vec![1]), &[0], 1) {
        Err(ExecutionError::InvalidData(m)) => assert_eq!(m, "MIN: state/chunk type mismatch (planner bug)"),
        _ => panic!("expected an error"),
    }
    match agg.finalize() {
        ColumnChunk::I64(v) => assert!(v.is_empty()),
        _ => panic!("expected an i64 column"),
    }
}

#[test]
fn integer_sums_per_group() {
    let mut s = IntegerSums::new(DataType::I16).unwrap();
    s.update(&ColumnChunk::I16(vec![10, -4, 7]), &[1, 0, 1], 2).unwrap();
    s.update(&ColumnChunk::I16(vec![1]), &[2], 3).unwrap();
    match s.finalize() {
        ColumnChunk::I16(v) => assert_eq!(v, vec![-4, 17, 1]),
        _ => panic!("expected an i16 column"),
    }
    assert!(IntegerSums::new(DataType::F64).is_none());
}

#[test]
fn integer_sums_refuse_overflow_and_keep_state() {
    let mut s = IntegerSums::new(DataType::U8).unwrap();
    s.update(&ColumnChunk::U8(vec![200]), &[0], 1).unwrap();
    match s.update(&ColumnChunk::U8(vec![50, 10]), &[0, 0], 1) {
        Err(ExecutionError::InvalidData(m)) => assert_eq!(m, "SUM: overflow"),
        _ => panic!("expected an overflow"),
    }
    match s.update(&ColumnChunk::I8(vec![1]), &[0], 1) {
        Err(ExecutionError::InvalidData(m)) => assert_eq!(m, "SUM: state/chunk type mismatch (planner bug)"),
        _ => panic!("expected a mismatch"),
    }
    match s.finalize() {
        ColumnChunk::U8(v) => assert_eq!(v, vec![200]),
        _ => panic!("expected a u8 column"),
    }
}

#[test]
fn aggregate_output_types_and_refusals() {
    assert_eq!(agg_output_type(AggFunc::Count, DataType::Str).unwrap(), DataType::U64);
    assert_eq!(agg_output_type(AggFunc::Avg, DataType::I32).unwrap(), DataType::F64);
    assert_eq!(agg_output_type(AggFunc::Sum, DataType::U16).unwrap(), DataType::U16);
    match agg_output_type(AggFunc::Sum, DataType::Bool) {
        Err(ExecutionError::InvalidData(m)) => assert_eq!(m, "SUM is not supported for this type"),
        _ => panic!("expected an error"),
    }
}
