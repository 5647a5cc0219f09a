//! The type system of tables: column types, column and table schemas, and
//! where a table keeps its parts.
use vstd::prelude::*;
use vstd::string::*;

use crate::text::{join_path, join_path_spec, padded_decimal, push_padded_decimal};

verus! {

#[derive(Clone, Copy, Debug, PartialEq, Eq, Structural)]
pub enum DataType {
    I8,
    I16,
    I32,
    I64,
    U8,
    U16,
    U32,
    U64,
    F32,
    F64,
    Bool,
    Str,
}

/// The stable on-disk tag of each type.
pub open spec fn type_tag_spec(t: DataType) -> u8 {
    match t {
        DataType::I8 => 1,
        DataType::I16 => 2,
        DataType::I32 => 3,
        DataType::I64 => 4,
        DataType::U8 => 5,
        DataType::U16 => 6,
        DataType::U32 => 7,
        DataType::U64 => 8,
        DataType::F32 => 9,
        DataType::F64 => 10,
        DataType::Bool => 11,
        DataType::Str => 12,
    }
}

/// Numeric types: the integers and the floats.
pub open spec fn is_numeric(t: DataType) -> bool {
    !(t is Bool) && !(t is Str)
}

impl DataType {
    /// Stable on-disk tag for this type, used in zone maps and other
    /// type-erased on-disk structures.
    pub fn type_tag(&self) -> (r: u8)
        ensures
            r == type_tag_spec(*self),
    {
        match self {
            DataType::I8 => 1,
            DataType::I16 => 2,
            DataType::I32 => 3,
            DataType::I64 => 4,
            DataType::U8 => 5,
            DataType::U16 => 6,
            DataType::U32 => 7,
            DataType::U64 => 8,
            DataType::F32 => 9,
            DataType::F64 => 10,
            DataType::Bool => 11,
            DataType::Str => 12,
        }
    }
}

pub proof fn lemma_type_tag_injective(a: DataType, b: DataType)
    ensures
        type_tag_spec(a) == type_tag_spec(b) ==> a == b,
{
}

pub struct ColumnSchema {
    pub name: String,
    pub data_type: DataType,
}

impl Clone for ColumnSchema {
    fn clone(&self) -> (r: Self)
        ensures
            r@ == self@,
    {
        ColumnSchema { name: self.name.clone(), data_type: self.data_type }
    }
}

impl View for ColumnSchema {
    type V = (Seq<char>, DataType);

    open spec fn view(&self) -> (Seq<char>, DataType) {
        (self.name@, self.data_type)
    }
}

pub struct TableSchema {
    pub name: String,
    pub columns: Vec<ColumnSchema>,
    pub sort_key: Vec<usize>,
}

/// Index of the first column named `name`, if any.
pub open spec fn find_column_spec(cols: Seq<(Seq<char>, DataType)>, name: Seq<char>) -> Option<int>
    decreases cols.len(),
{
    if cols.len() == 0 {
        None
    } else {
        match find_column_spec(cols.drop_last(), name) {
            Some(i) => Some(i),
            None => if cols.last().0 == name {
                Some(cols.len() - 1)
            } else {
                None
            },
        }
    }
}

pub proof fn lemma_find_column(cols: Seq<(Seq<char>, DataType)>, name: Seq<char>)
    ensures
        match find_column_spec(cols, name) {
            Some(i) => 0 <= i < cols.len() && cols[i].0 == name && forall|j: int|
                0 <= j < i ==> cols[j].0 != name,
            None => forall|j: int| 0 <= j < cols.len() ==> cols[j].0 != name,
        },
    decreases cols.len(),
{
    if cols.len() > 0 {
        let p = cols.drop_last();
        lemma_find_column(p, name);
        assert forall|j: int| 0 <= j < p.len() implies p[j] == cols[j] by {}
    }
}

/// The first match is at `i` when `i` matches and nothing before it does.
pub proof fn lemma_find_column_first(cols: Seq<(Seq<char>, DataType)>, name: Seq<char>, i: int)
    requires
        0 <= i < cols.len(),
        cols[i].0 == name,
        forall|j: int| 0 <= j < i ==> cols[j].0 != name,
    ensures
        find_column_spec(cols, name) == Some(i),
{
    lemma_find_column(cols, name);
    let f = find_column_spec(cols, name);
    assert(f is Some);
    let fi = f->0;
    if fi < i {
        assert(cols[fi].0 == name);
    }
    if fi > i {
        assert(cols[i].0 != name);
    }
}

/// No match when nothing matches.
pub proof fn lemma_find_column_none(cols: Seq<(Seq<char>, DataType)>, name: Seq<char>)
    requires
        forall|j: int| 0 <= j < cols.len() ==> cols[j].0 != name,
    ensures
        find_column_spec(cols, name) is None,
{
    lemma_find_column(cols, name);
    if find_column_spec(cols, name) is Some {
        let fi = find_column_spec(cols, name)->0;
        assert(cols[fi].0 == name);
    }
}

impl TableSchema {
    /// The schema's columns as (name, type) pairs.
    pub open spec fn cols(&self) -> Seq<(Seq<char>, DataType)> {
        self.columns@.map_values(|c: ColumnSchema| c@)
    }

    /// Position of the first column named `name`.
    pub fn find_column(&self, name: &String) -> (r: Option<usize>)
        ensures
            match r {
                Some(i) => find_column_spec(self.cols(), name@) == Some(i as int),
                None => find_column_spec(self.cols(), name@) is None,
            },
    {
        let n = self.columns.len();
        let mut i: usize = 0;
        while i < n
            invariant
                n == self.columns@.len(),
                i <= n,
                find_column_spec(self.cols().take(i as int), name@) is None,
            decreases n - i,
        {
            proof {
                assert(self.cols().take(i + 1).drop_last() =~= self.cols().take(i as int));
            }
            if self.columns[i].name == *name {
                proof {
                    lemma_find_column(self.cols(), name@);
                    lemma_find_column(self.cols().take(i + 1), name@);
                    lemma_find_prefix(self.cols(), name@, i + 1);
                }
                return Some(i);
            }
            i = i + 1;
        }
        proof {
            assert(self.cols().take(n as int) =~= self.cols());
        }
        None
    }

    /// Directory of part `part_id` inside `table_dir`: `part_` followed by the
    /// id in decimal, zero-padded to five digits.
    pub fn part_dir(table_dir: &str, part_id: u32) -> (r: String)
        ensures
            r@ == join_path_spec(table_dir@, seq!['p', 'a', 'r', 't', '_'] + padded_decimal(part_id as nat, 5)),
    {
        proof { reveal_strlit("part_"); }
        let mut name = String::from_str("part_");
        push_padded_decimal(&mut name, part_id as u64, 5);
        join_path(table_dir, name.as_str())
    }
}

/// When the first match lies within a prefix, the prefix finds it too, and conversely.
pub proof fn lemma_find_prefix(cols: Seq<(Seq<char>, DataType)>, name: Seq<char>, k: int)
    requires
        0 <= k <= cols.len(),
    ensures
        find_column_spec(cols.take(k), name) is Some ==> find_column_spec(cols.take(k), name)
            == find_column_spec(cols, name),
    decreases cols.len() - k,
{
    if k < cols.len() {
        lemma_find_prefix(cols, name, k + 1);
        assert(cols.take(k + 1).drop_last() =~= cols.take(k));
    } else {
        assert(cols.take(k) =~= cols);
    }
}

} // verus!
