//! The checks the plan builder makes before it wires operators together.
use vstd::prelude::*;
use vstd::string::*;

use crate::catalog::schema::{find_column_spec, lemma_find_column, ColumnSchema, DataType, TableSchema};
use crate::frontend::analyzer::data_type_name_spec;
use crate::physical_plan::physical_operators::{AggFunc, AggSpec, PhysicalExpr};

verus! {

pub open spec fn column_of(schema: TableSchema, name: Seq<char>) -> Option<(Seq<char>, DataType)> {
    match find_column_spec(schema.cols(), name) {
        Some(i) => Some(schema.cols()[i]),
        None => None,
    }
}

pub open spec fn not_found_message(name: Seq<char>) -> Seq<char> {
    "column '"@ + name + "' not found in schema"@
}

/// What the aggregate of a plan reads: only a lone SUM without GROUP BY is
/// run, over a numeric column of the schema; the column's name and type.
pub open spec fn sum_target_spec(group_by: Seq<PhysicalExpr>, aggregates: Seq<AggSpec>, schema: TableSchema) -> Result<
    (Seq<char>, DataType),
    Seq<char>,
> {
    if group_by.len() != 0 || aggregates.len() != 1 || aggregates[0].func != AggFunc::Sum {
        Err("Only SUM with no GROUP BY is supported"@)
    } else {
        match aggregates[0].arg {
            PhysicalExpr::Column(n) => match column_of(schema, n@) {
                None => Err(not_found_message(n@)),
                Some((_, t)) => if t is Bool || t is Str {
                    Err("SUM not supported on "@ + data_type_name_spec(t))
                } else {
                    Ok((n@, t))
                },
            },
            _ => Err("SUM argument must be a column reference"@),
        }
    }
}

fn not_found(name: &String) -> (r: String)
    ensures
        r@ == not_found_message(name@),
{
    proof {
        reveal_strlit("column '");
        reveal_strlit("' not found in schema");
    }
    let mut s = String::from_str("column '");
    s.append(name.as_str());
    s.append("' not found in schema");
    s
}

/// Only a lone SUM without GROUP BY is run.
pub open spec fn sum_shape_ok(group_by: Seq<PhysicalExpr>, aggregates: Seq<AggSpec>) -> bool {
    group_by.len() == 0 && aggregates.len() == 1 && aggregates[0].func == AggFunc::Sum
}

/// Checks that the aggregate is a lone SUM without GROUP BY, the check the
/// plan builder makes before it builds the aggregate's input.
pub fn check_sum_shape(group_by: &Vec<PhysicalExpr>, aggregates: &Vec<AggSpec>) -> (r: Result<(), String>)
    ensures
        r is Ok <==> sum_shape_ok(group_by@, aggregates@),
        r matches Err(e) ==> e@ == "Only SUM with no GROUP BY is supported"@,
{
    if group_by.len() != 0 || aggregates.len() != 1 || aggregates[0].func != AggFunc::Sum {
        proof { reveal_strlit("Only SUM with no GROUP BY is supported"); }
        return Err(String::from_str("Only SUM with no GROUP BY is supported"));
    }
    Ok(())
}

/// Checks the aggregate of a plan and finds the column its SUM reads.
pub fn sum_target(group_by: &Vec<PhysicalExpr>, aggregates: &Vec<AggSpec>, schema: &TableSchema) -> (r: Result<
    (String, DataType),
    String,
>)
    ensures
        match (r, sum_target_spec(group_by@, aggregates@, *schema)) {
            (Ok((n, t)), Ok((m, u))) => n@ == m && t == u,
            (Err(e), Err(m)) => e@ == m,
            _ => false,
        },
{
    match check_sum_shape(group_by, aggregates) {
        Err(e) => return Err(e),
        Ok(()) => {},
    }
    let name = match &aggregates[0].arg {
        PhysicalExpr::Column(n) => n,
        _ => {
            proof { reveal_strlit("SUM argument must be a column reference"); }
            return Err(String::from_str("SUM argument must be a column reference"));
        },
    };
    proof {
        lemma_find_column(schema.cols(), name@);
    }
    let t = match schema.find_column(name) {
        Some(i) => schema.columns[i].data_type,
        None => return Err(not_found(name)),
    };
    match t {
        DataType::Bool => {
            proof { reveal_strlit("SUM not supported on "); reveal_strlit("Bool"); }
            let mut s = String::from_str("SUM not supported on ");
            s.append("Bool");
            Err(s)
        },
        DataType::Str => {
            proof { reveal_strlit("SUM not supported on "); reveal_strlit("Str"); }
            let mut s = String::from_str("SUM not supported on ");
            s.append("Str");
            Err(s)
        },
        _ => Ok((name.clone(), t)),
    }
}

/// The schema entry of each scanned column, in scan order; an error names
/// the first column the schema lacks.
pub fn resolve_scan_columns(names: &Vec<String>, schema: &TableSchema) -> (r: Result<Vec<ColumnSchema>, String>)
    ensures
        match r {
            Ok(cols) => cols@.len() == names@.len() && forall|k: int|
                0 <= k < names@.len() ==> column_of(*schema, #[trigger] names@[k]@) == Some(cols@[k]@),
            Err(e) => exists|k: int|
                0 <= k < names@.len() && column_of(*schema, #[trigger] names@[k]@) is None && e@ == not_found_message(
                    names@[k]@,
                ) && forall|j: int| 0 <= j < k ==> column_of(*schema, names@[j]@) is Some,
        },
{
    let mut out: Vec<ColumnSchema> = Vec::new();
    let mut k: usize = 0;
    while k < names.len()
        invariant
            k <= names@.len(),
            out@.len() == k,
            forall|m: int| 0 <= m < k ==> column_of(*schema, #[trigger] names@[m]@) == Some(out@[m]@),
        decreases names@.len() - k,
    {
        proof {
            lemma_find_column(schema.cols(), names@[k as int]@);
        }
        match schema.find_column(&names[k]) {
            Some(i) => {
                proof {
                    assert(schema.cols()[i as int] == schema.columns@[i as int]@);
                }
                out.push(schema.columns[i].clone());
            },
            None => {
                proof {
                    assert forall|j: int| 0 <= j < k implies column_of(*schema, names@[j]@) is Some by {
                        assert(column_of(*schema, names@[j]@) == Some(out@[j]@));
                    }
                }
                return Err(not_found(&names[k]));
            },
        }
        k = k + 1;
    }
    Ok(out)
}

} // verus!
