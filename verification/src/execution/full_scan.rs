//! Work distribution for parallel scans: each worker takes the next part.
use vstd::prelude::*;

use crate::text::string_views;

verus! {

/// A source of part directories to scan.
pub trait ScanWorkSource {
    fn next_work(&self) -> Option<String>;
}

/// Hands out the parts of a table, each once, to however many workers ask.
pub struct PartWorkSource {
    parts: Vec<String>,
    next: std::sync::atomic::AtomicUsize,
}

impl PartWorkSource {
    pub closed spec fn parts(&self) -> Seq<String> {
        self.parts@
    }

    pub fn new(parts: Vec<String>) -> (r: Self)
        ensures
            r.parts() == parts@,
    {
        PartWorkSource { parts, next: std::sync::atomic::AtomicUsize::new(0) }
    }
}

/// The `i`-th part, if there is one.
fn part_at(parts: &Vec<String>, i: usize) -> (r: Option<String>)
    ensures
        i < parts@.len() ==> (r matches Some(p) && p@ == parts@[i as int]@),
        i >= parts@.len() ==> r is None,
        r is Some ==> string_views(parts@).contains(r->0@),
{
    if i < parts.len() {
        let p = parts[i].clone();
        proof {
            assert(string_views(parts@)[i as int] == p@);
        }
        Some(p)
    } else {
        None
    }
}

impl ScanWorkSource for PartWorkSource {
    /// The next part to scan, or `None` when all have been handed out. The
    /// counter is shared between workers, so which part comes back depends on
    /// the other calls; it is always one of the table's parts.
    fn next_work(&self) -> (r: Option<String>)
        ensures
            r is Some ==> string_views(self.parts()).contains(r->0@),
    {
        let i = self.next.fetch_add(1, std::sync::atomic::Ordering::Relaxed);
        part_at(&self.parts, i)
    }
}

} // verus!
