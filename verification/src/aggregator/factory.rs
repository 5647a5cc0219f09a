//! Which aggregates apply to which column types, and what they produce.
use vstd::prelude::*;
use vstd::string::*;

use crate::catalog::schema::DataType;
use crate::parser::ast::AggFunc;
use crate::processors::processor::ExecutionError;

verus! {

/// The output type of aggregate `func` over a column of type `input`, or
/// `None` when the aggregate does not apply to that type. SUM, MIN and MAX keep
/// the input type, AVG gives F64, COUNT gives U64 for any column.
pub open spec fn agg_output_type_spec(func: AggFunc, input: DataType) -> Option<DataType> {
    if func is Count {
        Some(DataType::U64)
    } else if input is Bool || input is Str {
        None
    } else if func is Avg {
        Some(DataType::F64)
    } else {
        Some(input)
    }
}

/// The message of an aggregate that cannot run over a column's type.
pub open spec fn not_supported_message(func: AggFunc) -> Seq<char> {
    match func {
        AggFunc::Sum => "SUM is not supported for this type"@,
        AggFunc::Max => "MAX is not supported for this type"@,
        AggFunc::Min => "MIN is not supported for this type"@,
        AggFunc::Avg => "AVG is not supported for this type"@,
        AggFunc::Count => "COUNT is not supported for this type"@,
    }
}

fn not_supported(func: AggFunc) -> (r: ExecutionError)
    ensures
        r matches ExecutionError::InvalidData(m) && m@ == not_supported_message(func),
{
    proof {
        reveal_strlit("SUM is not supported for this type");
        reveal_strlit("MAX is not supported for this type");
        reveal_strlit("MIN is not supported for this type");
        reveal_strlit("AVG is not supported for this type");
        reveal_strlit("COUNT is not supported for this type");
    }
    match func {
        AggFunc::Sum => ExecutionError::InvalidData(String::from_str("SUM is not supported for this type")),
        AggFunc::Max => ExecutionError::InvalidData(String::from_str("MAX is not supported for this type")),
        AggFunc::Min => ExecutionError::InvalidData(String::from_str("MIN is not supported for this type")),
        AggFunc::Avg => ExecutionError::InvalidData(String::from_str("AVG is not supported for this type")),
        AggFunc::Count => ExecutionError::InvalidData(String::from_str("COUNT is not supported for this type")),
    }
}

/// The output type of an aggregate over a column, or the error that building
/// the aggregate gives.
pub fn agg_output_type(func: AggFunc, input: DataType) -> (r: Result<DataType, ExecutionError>)
    ensures
        match r {
            Ok(t) => agg_output_type_spec(func, input) == Some(t),
            Err(e) => agg_output_type_spec(func, input) is None && (e matches ExecutionError::InvalidData(m) && m@
                == not_supported_message(func)),
        },
{
    match func {
        AggFunc::Count => Ok(DataType::U64),
        _ => match input {
            DataType::Bool | DataType::Str => Err(not_supported(func)),
            _ => match func {
                AggFunc::Avg => Ok(DataType::F64),
                _ => Ok(input),
            },
        },
    }
}

} // verus!
