//! COUNT over a stream of batches.
use vstd::prelude::*;
use vstd::string::*;

verus! {

/// Counts the rows of every batch it is given.
pub struct CountAccumulator {
    count: u64,
    column_name: String,
}

impl CountAccumulator {
    pub closed spec fn count_spec(&self) -> nat {
        self.count as nat
    }

    pub closed spec fn column_spec(&self) -> Seq<char> {
        self.column_name@
    }

    pub fn new(column_name: String) -> (r: Self)
        ensures
            r.count_spec() == 0,
            r.column_spec() == column_name@,
    {
        CountAccumulator { column_name, count: 0 }
    }

    /// Adds the rows of one batch.
    pub fn add_rows(&mut self, rows: u64)
        requires
            old(self).count_spec() + rows <= u64::MAX,
        ensures
            final(self).count_spec() == old(self).count_spec() + rows,
            final(self).column_spec() == old(self).column_spec(),
    {
        self.count = self.count + rows;
    }

    /// The rows counted so far.
    pub fn count(&self) -> (r: u64)
        ensures
            r == self.count_spec(),
    {
        self.count
    }

    /// The name of the output column: `count(column)`.
    pub fn output_name(&self) -> (r: String)
        ensures
            r@ == "count("@ + self.column_spec() + ")"@,
    {
        proof {
            reveal_strlit("count(");
            reveal_strlit(")");
        }
        let mut s = String::from_str("count(");
        s.append(self.column_name.as_str());
        s.append(")");
        s
    }
}

} // verus!
