//! The decisions of a projection: which input column each output column is.
use vstd::prelude::*;

use crate::physical_plan::physical_operators::PhysicalExpr;
use crate::text::string_views;

verus! {

#[derive(Debug, PartialEq, Eq)]
pub enum ProjectError {
    /// A projection that is not a bare column reference.
    NotAColumn,
    /// No input column has this name.
    UnknownField(String),
}

/// Position of the first field named `name`.
pub fn index_of(names: &Vec<String>, name: &String) -> (r: Option<usize>)
    ensures
        match r {
            Some(i) => i < names@.len() && names@[i as int]@ == name@ && forall|j: int| 0 <= j < i ==> names@[j]@ != name@,
            None => forall|j: int| 0 <= j < names@.len() ==> names@[j]@ != name@,
        },
{
    let mut i: usize = 0;
    while i < names.len()
        invariant
            i <= names@.len(),
            forall|j: int| 0 <= j < i ==> names@[j]@ != name@,
        decreases names@.len() - i,
    {
        if names[i] == *name {
            return Some(i);
        }
        i = i + 1;
    }
    None
}

/// The input column of each projection: for a column reference, the first
/// input field of that name.
pub fn resolve_projection(projections: &Vec<PhysicalExpr>, names: &Vec<String>) -> (r: Result<
    Vec<usize>,
    ProjectError,
>)
    ensures
        match r {
            Ok(idx) => idx@.len() == projections@.len() && forall|k: int|
                0 <= k < projections@.len() ==> match #[trigger] projections@[k] {
                    PhysicalExpr::Column(c) => idx@[k] < names@.len() && names@[idx@[k] as int]@ == c@ && forall|j: int|
                        0 <= j < idx@[k] ==> names@[j]@ != c@,
                    _ => false,
                },
            Err(ProjectError::NotAColumn) => exists|k: int|
                0 <= k < projections@.len() && !(#[trigger] projections@[k] is Column) && forall|j: int|
                    0 <= j < k ==> projections@[j] is Column && string_views(names@).contains(projections@[j]->Column_0@),
            Err(ProjectError::UnknownField(n)) => exists|k: int|
                0 <= k < projections@.len() && #[trigger] projections@[k] == PhysicalExpr::Column(n) && !string_views(
                    names@,
                ).contains(n@) && forall|j: int|
                    0 <= j < k ==> projections@[j] is Column && string_views(names@).contains(projections@[j]->Column_0@),
        },
{
    let mut out: Vec<usize> = Vec::new();
    let mut k: usize = 0;
    while k < projections.len()
        invariant
            k <= projections@.len(),
            out@.len() == k,
            forall|m: int|
                0 <= m < k ==> match #[trigger] projections@[m] {
                    PhysicalExpr::Column(c) => out@[m] < names@.len() && names@[out@[m] as int]@ == c@ && forall|j: int|
                        0 <= j < out@[m] ==> names@[j]@ != c@,
                    _ => false,
                },
        decreases projections@.len() - k,
    {
        match &projections[k] {
            PhysicalExpr::Column(c) => match index_of(names, c) {
                Some(i) => out.push(i),
                None => {
                    proof {
                        assert forall|j: int| 0 <= j < k implies projections@[j] is Column && string_views(
                            names@,
                        ).contains(projections@[j]->Column_0@) by {
                            let c2 = projections@[j]->Column_0;
                            assert(string_views(names@)[out@[j] as int] == c2@);
                        }
                        if string_views(names@).contains(c@) {
                            let t = choose|t: int| 0 <= t < string_views(names@).len() && string_views(names@)[t] == c@;
                            assert(names@[t]@ == c@);
                        }
                    }
                    return Err(ProjectError::UnknownField(c.clone()));
                },
            },
            _ => {
                proof {
                    assert forall|j: int| 0 <= j < k implies projections@[j] is Column && string_views(names@).contains(
                        projections@[j]->Column_0@,
                    ) by {
                        let c2 = projections@[j]->Column_0;
                        assert(string_views(names@)[out@[j] as int] == c2@);
                    }
                }
                return Err(ProjectError::NotAColumn);
            },
        }
        k = k + 1;
    }
    Ok(out)
}

} // verus!
