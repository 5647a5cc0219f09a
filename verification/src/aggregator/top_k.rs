//! Frequency estimation with a Count-Min sketch, and the most frequent
//! values it has seen.
//!
//! The sketch keeps `d` rows of `w` saturating counters. Each row has a hasher
//! of its own; adding a value bumps, in every row, the counter its hash picks,
//! and the estimate of a value is the least of its counters. Collisions only
//! ever add to a counter, so an estimate is never below the true count (until
//! a counter saturates at `u32::MAX`).
use vstd::prelude::*;

use core::hash::Hash;

use vstd::arithmetic::power2::pow2;
use vstd::std_specs::cmp::PartialEqSpec;

verus! {

#[verifier::external_type_specification]
#[verifier::external_body]
pub struct ExRandomState(ahash::RandomState);

/// Calls `ahash::RandomState::with_seeds`: a hasher whose keys are the four
/// seeds. Nothing is stated of it: the hashes it gives depend on the CPU's
/// features as well.
#[verifier::external_body]
fn hasher_with_seeds(k0: u64, k1: u64, k2: u64, k3: u64) -> (r: ahash::RandomState) {
    ahash::RandomState::with_seeds(k0, k1, k2, k3)
}

/// Calls `ahash::RandomState::hash_one`. Its result depends on the machine
/// (ahash uses AES instructions where the CPU has them), so nothing is stated
/// of it.
#[verifier::external_body]
fn hash_one<T: Hash + ?Sized>(state: &ahash::RandomState, x: &T) -> (r: u64) {
    state.hash_one(x)
}

/// Calls `rand::random::<u64>()`: a random number, of which nothing is stated.
#[verifier::external_body]
fn random_u64() -> (r: u64) {
    rand::random::<u64>()
}

/// The column of a row that hash `h` picks: its low bits under the mask `w - 1`.
pub open spec fn column_of(h: u64, w: nat) -> int {
    ((h as usize) & ((w - 1) as usize)) as int
}

/// The counter that row `i` of an item with row hashes `hs` uses.
pub open spec fn cell_of(w: nat, hs: Seq<u64>, i: int) -> int {
    i * w + column_of(hs[i], w)
}

/// One saturating increment of counter `j`.
pub open spec fn bump(c: Seq<u32>, j: int) -> Seq<u32> {
    c.update(
        j,
        if c[j] == u32::MAX {
            u32::MAX
        } else {
            (c[j] + 1) as u32
        },
    )
}

/// The counters after bumping the cells of the first `k` rows.
pub open spec fn added_rows(c: Seq<u32>, w: nat, hs: Seq<u64>, k: int) -> Seq<u32>
    decreases k,
{
    if k <= 0 {
        c
    } else {
        bump(added_rows(c, w, hs, k - 1), cell_of(w, hs, k - 1))
    }
}

/// The counters after adding an item whose row hashes are `hs`.
pub open spec fn added(c: Seq<u32>, w: nat, hs: Seq<u64>) -> Seq<u32> {
    added_rows(c, w, hs, hs.len() as int)
}

/// The least of the first `k` row counters of an item; `u32::MAX` for none.
pub open spec fn estimate_rows(c: Seq<u32>, w: nat, hs: Seq<u64>, k: int) -> u32
    decreases k,
{
    if k <= 0 {
        u32::MAX
    } else {
        let rest = estimate_rows(c, w, hs, k - 1);
        let v = c[cell_of(w, hs, k - 1)];
        if v < rest {
            v
        } else {
            rest
        }
    }
}

/// The estimate of an item whose row hashes are `hs`.
pub open spec fn estimate_of(c: Seq<u32>, w: nat, hs: Seq<u64>) -> u32 {
    estimate_rows(c, w, hs, hs.len() as int)
}

/// The estimate is the least of the item's row counters: at most the counter
/// of every row, and equal to one of them (`u32::MAX` when there are no rows).
pub proof fn lemma_estimate_is_least_counter(c: Seq<u32>, w: nat, hs: Seq<u64>)
    ensures
        forall|i: int| 0 <= i < hs.len() ==> estimate_of(c, w, hs) <= #[trigger] c[cell_of(w, hs, i)],
        hs.len() > 0 ==> exists|i: int| 0 <= i < hs.len() && estimate_of(c, w, hs) == #[trigger] c[cell_of(w, hs, i)],
        hs.len() == 0 ==> estimate_of(c, w, hs) == u32::MAX,
{
    lemma_estimate_rows_least(c, w, hs, hs.len() as int);
}

proof fn lemma_estimate_rows_least(c: Seq<u32>, w: nat, hs: Seq<u64>, k: int)
    requires
        0 <= k,
    ensures
        forall|i: int| 0 <= i < k ==> estimate_rows(c, w, hs, k) <= #[trigger] c[cell_of(w, hs, i)],
        k > 0 ==> exists|i: int| 0 <= i < k && estimate_rows(c, w, hs, k) == #[trigger] c[cell_of(w, hs, i)],
        k == 0 ==> estimate_rows(c, w, hs, k) == u32::MAX,
    decreases k,
{
    if k > 0 {
        lemma_estimate_rows_least(c, w, hs, k - 1);
        let v = c[cell_of(w, hs, k - 1)];
        if k - 1 > 0 {
            let j = choose|i: int| 0 <= i < k - 1 && estimate_rows(c, w, hs, k - 1) == #[trigger] c[cell_of(w, hs, i)];
            assert(c[cell_of(w, hs, j)] == estimate_rows(c, w, hs, k - 1));
        }
        assert(c[cell_of(w, hs, k - 1)] == v);
    }
}

/// The counters after adding the items of `adds` in order.
pub open spec fn added_all(c: Seq<u32>, w: nat, adds: Seq<Seq<u64>>) -> Seq<u32>
    decreases adds.len(),
{
    if adds.len() == 0 {
        c
    } else {
        added(added_all(c, w, adds.drop_last()), w, adds.last())
    }
}

/// How many of `adds` are the item with row hashes `hs`.
pub open spec fn times_added(adds: Seq<Seq<u64>>, hs: Seq<u64>) -> nat
    decreases adds.len(),
{
    if adds.len() == 0 {
        0
    } else {
        times_added(adds.drop_last(), hs) + if adds.last() == hs {
            1nat
        } else {
            0nat
        }
    }
}

pub open spec fn sat(n: int) -> int {
    if n < u32::MAX {
        n
    } else {
        u32::MAX as int
    }
}

pub proof fn lemma_column_in_row(h: u64, w: nat)
    requires
        0 < w <= usize::MAX,
    ensures
        0 <= column_of(h, w) < w,
{
    let x = h as usize;
    let m = (w - 1) as usize;
    assert((x & m) <= m) by (bit_vector);
}

/// Adding never lowers a counter.
proof fn lemma_added_rows_mono(c: Seq<u32>, w: nat, hs: Seq<u64>, k: int, j: int)
    requires
        0 <= j < c.len(),
        forall|i: int| 0 <= i < k ==> 0 <= #[trigger] cell_of(w, hs, i) < c.len(),
    ensures
        added_rows(c, w, hs, k).len() == c.len(),
        added_rows(c, w, hs, k)[j] >= c[j],
    decreases k,
{
    if k > 0 {
        lemma_added_rows_mono(c, w, hs, k - 1, j);
        assert(0 <= cell_of(w, hs, k - 1) < c.len());
    }
}

proof fn lemma_added_rows_len(c: Seq<u32>, w: nat, hs: Seq<u64>, k: int)
    requires
        forall|i: int| 0 <= i < k ==> 0 <= #[trigger] cell_of(w, hs, i) < c.len(),
    ensures
        added_rows(c, w, hs, k).len() == c.len(),
    decreases k,
{
    if k > 0 {
        lemma_added_rows_len(c, w, hs, k - 1);
    }
}

/// After the first `k` rows, the cell of each of those rows went up by one,
/// or stays at `u32::MAX`.
proof fn lemma_added_rows_cell(c: Seq<u32>, w: nat, hs: Seq<u64>, k: int, i: int)
    requires
        0 <= i < k,
        forall|r: int| 0 <= r < k ==> 0 <= #[trigger] cell_of(w, hs, r) < c.len(),
    ensures
        added_rows(c, w, hs, k)[cell_of(w, hs, i)] >= sat(c[cell_of(w, hs, i)] + 1),
    decreases k,
{
    let j = cell_of(w, hs, i);
    assert(0 <= j < c.len());
    assert(0 <= cell_of(w, hs, k - 1) < c.len());
    if i == k - 1 {
        lemma_added_rows_mono(c, w, hs, k - 1, j);
    } else {
        lemma_added_rows_cell(c, w, hs, k - 1, i);
        lemma_added_rows_mono(c, w, hs, k - 1, j);
    }
}

/// The estimate is at least `x` when every row counter of the item is.
proof fn lemma_estimate_at_least(c: Seq<u32>, w: nat, hs: Seq<u64>, k: int, x: int)
    requires
        x <= u32::MAX,
        forall|i: int| 0 <= i < k ==> c[#[trigger] cell_of(w, hs, i)] >= x,
    ensures
        estimate_rows(c, w, hs, k) >= x,
    decreases k,
{
    if k > 0 {
        lemma_estimate_at_least(c, w, hs, k - 1, x);
        assert(c[cell_of(w, hs, k - 1)] >= x);
    }
}

/// Cells of `d` rows of `w` counters lie within the `d * w` counters.
pub open spec fn hashes_fit(d: nat, w: nat, c: Seq<u32>, hs: Seq<u64>) -> bool {
    &&& hs.len() == d
    &&& 0 < w <= usize::MAX
    &&& c.len() == d * w
}

proof fn lemma_cells_fit(d: nat, w: nat, c: Seq<u32>, hs: Seq<u64>)
    requires
        hashes_fit(d, w, c, hs),
    ensures
        forall|i: int| 0 <= i < d ==> 0 <= #[trigger] cell_of(w, hs, i) < c.len(),
{
    assert forall|i: int| 0 <= i < d implies 0 <= #[trigger] cell_of(w, hs, i) < c.len() by {
        lemma_column_in_row(hs[i], w);
        assert(i * w + column_of(hs[i], w) < d * w) by (nonlinear_arith)
            requires
                0 <= i < d,
                0 <= column_of(hs[i], w) < w,
        ;
        assert(0 <= i * w) by (nonlinear_arith)
            requires
                0 <= i,
        ;
    }
}

/// After adding items to a sketch, the estimate of each item is at least the
/// number of times it was added, up to `u32::MAX`.
pub proof fn lemma_estimate_at_least_count(d: nat, w: nat, c: Seq<u32>, adds: Seq<Seq<u64>>, hs: Seq<u64>)
    requires
        hashes_fit(d, w, c, hs),
        forall|j: int| 0 <= j < adds.len() ==> (#[trigger] adds[j]).len() == d,
    ensures
        estimate_of(added_all(c, w, adds), w, hs) >= sat(times_added(adds, hs) as int),
    decreases adds.len(),
{
    lemma_counts_per_row(d, w, c, adds, hs);
    let f = added_all(c, w, adds);
    lemma_estimate_at_least(f, w, hs, d as int, sat(times_added(adds, hs) as int));
}

proof fn lemma_counts_per_row(d: nat, w: nat, c: Seq<u32>, adds: Seq<Seq<u64>>, hs: Seq<u64>)
    requires
        hashes_fit(d, w, c, hs),
        forall|j: int| 0 <= j < adds.len() ==> (#[trigger] adds[j]).len() == d,
    ensures
        added_all(c, w, adds).len() == c.len(),
        forall|i: int|
            0 <= i < d ==> added_all(c, w, adds)[#[trigger] cell_of(w, hs, i)] >= sat(times_added(adds, hs) as int),
    decreases adds.len(),
{
    lemma_cells_fit(d, w, c, hs);
    if adds.len() > 0 {
        let prev = adds.drop_last();
        assert forall|j: int| 0 <= j < prev.len() implies (#[trigger] prev[j]).len() == d by {
            assert(prev[j] == adds[j]);
        }
        lemma_counts_per_row(d, w, c, prev, hs);
        let p = added_all(c, w, prev);
        let a = adds.last();
        assert(adds[adds.len() - 1] == a);
        lemma_cells_fit(d, w, p, a);
        lemma_cells_fit(d, w, p, hs);
        assert forall|i: int| 0 <= i < d implies added_all(c, w, adds)[#[trigger] cell_of(w, hs, i)] >= sat(
            times_added(adds, hs) as int,
        ) by {
            let j = cell_of(w, hs, i);
            lemma_added_rows_mono(p, w, a, a.len() as int, j);
            if a == hs {
                lemma_added_rows_cell(p, w, a, a.len() as int, i);
            }
        }
        lemma_added_rows_len(p, w, a, a.len() as int);
    }
}

pub struct CountMinSketch {
    d: usize,
    w: usize,
    counters: Vec<u32>,
    hashers: Vec<ahash::RandomState>,
}

impl CountMinSketch {
    /// The number of rows.
    pub closed spec fn rows(&self) -> nat {
        self.d as nat
    }

    /// The number of counters per row.
    pub closed spec fn width(&self) -> nat {
        self.w as nat
    }

    /// All counters, row after row.
    pub closed spec fn cells(&self) -> Seq<u32> {
        self.counters@
    }

    pub closed spec fn wf(&self) -> bool {
        &&& self.d > 0
        &&& self.w > 0
        &&& self.d * self.w <= usize::MAX
        &&& self.counters@.len() == self.d * self.w
        &&& self.hashers@.len() == self.d
    }

    /// A sketch of `d` rows of `w` zero counters, whose row hashers are keyed
    /// by the seeds.
    pub fn with_seeds(d: usize, w: usize, seeds: Vec<[u64; 4]>) -> (r: Self)
        requires
            d > 0,
            w > 0,
            exists|k: nat| pow2(k) == w,
            seeds@.len() == d,
            d * w <= usize::MAX,
        ensures
            r.wf(),
            r.rows() == d,
            r.width() == w,
            r.cells() == Seq::new((d * w) as nat, |j: int| 0u32),
    {
        let mut hashers: Vec<ahash::RandomState> = Vec::new();
        let mut i: usize = 0;
        while i < seeds.len()
            invariant
                i <= seeds@.len(),
                hashers@.len() == i,
            decreases seeds@.len() - i,
        {
            let s = seeds[i];
            hashers.push(hasher_with_seeds(s[0], s[1], s[2], s[3]));
            i = i + 1;
        }
        let n = d * w;
        let mut counters: Vec<u32> = Vec::new();
        let mut j: usize = 0;
        while j < n
            invariant
                j <= n,
                counters@ == Seq::new(j as nat, |k: int| 0u32),
            decreases n - j,
        {
            counters.push(0);
            j = j + 1;
            assert(counters@ =~= Seq::new(j as nat, |k: int| 0u32));
        }
        CountMinSketch { d, w, counters, hashers }
    }

    /// A sketch whose row hashers are keyed by random seeds.
    pub fn new(d: usize, w: usize) -> (r: Self)
        requires
            d > 0,
            w > 0,
            exists|k: nat| pow2(k) == w,
            d * w <= usize::MAX,
        ensures
            r.wf(),
            r.rows() == d,
            r.width() == w,
            r.cells() == Seq::new((d * w) as nat, |j: int| 0u32),
    {
        let mut seeds: Vec<[u64; 4]> = Vec::new();
        let mut i: usize = 0;
        while i < d
            invariant
                i <= d,
                seeds@.len() == i,
            decreases d - i,
        {
            seeds.push([random_u64(), random_u64(), random_u64(), random_u64()]);
            i = i + 1;
        }
        Self::with_seeds(d, w, seeds)
    }

    /// Adds one occurrence of the item whose row hashes are `hashes`.
    pub fn add_hashes(&mut self, hashes: &[u64])
        requires
            old(self).wf(),
            hashes@.len() == old(self).rows(),
        ensures
            final(self).wf(),
            final(self).rows() == old(self).rows(),
            final(self).width() == old(self).width(),
            final(self).cells() == added(old(self).cells(), old(self).width(), hashes@),
    {
        proof {
            lemma_cells_fit(self.d as nat, self.w as nat, self.counters@, hashes@);
        }
        let ghost start = self.counters@;
        let mask = self.w - 1;
        let mut i: usize = 0;
        while i < self.d
            invariant
                self.wf(),
                hashes@.len() == self.d,
                mask == self.w - 1,
                start.len() == self.counters@.len(),
                i <= self.d,
                self.counters@ == added_rows(start, self.w as nat, hashes@, i as int),
                forall|r: int| 0 <= r < self.d ==> 0 <= #[trigger] cell_of(self.w as nat, hashes@, r) < start.len(),
            decreases self.d - i,
        {
            let col = (hashes[i] as usize) & mask;
            proof {
                assert(col as int == column_of(hashes@[i as int], self.w as nat));
                assert(0 <= cell_of(self.w as nat, hashes@, i as int) < self.counters@.len());
                assert(i * self.w <= i * self.w + col);
            }
            let cell = i * self.w + col;
            proof {
                assert(cell == cell_of(self.w as nat, hashes@, i as int));
                lemma_added_rows_len(start, self.w as nat, hashes@, i as int);
            }
            let cur = self.counters[cell];
            let next = if cur == u32::MAX {
                u32::MAX
            } else {
                cur + 1
            };
            self.counters.set(cell, next);
            i = i + 1;
        }
    }

    /// The estimate of the item whose row hashes are `hashes`: the least of
    /// its row counters.
    pub fn estimate_hashes(&self, hashes: &[u64]) -> (r: u32)
        requires
            self.wf(),
            hashes@.len() == self.rows(),
        ensures
            r == estimate_of(self.cells(), self.width(), hashes@),
    {
        proof {
            lemma_cells_fit(self.d as nat, self.w as nat, self.counters@, hashes@);
        }
        let mask = self.w - 1;
        let mut min: u32 = u32::MAX;
        let mut i: usize = 0;
        while i < self.d
            invariant
                self.wf(),
                hashes@.len() == self.d,
                mask == self.w - 1,
                i <= self.d,
                min == estimate_rows(self.counters@, self.w as nat, hashes@, i as int),
                forall|r: int|
                    0 <= r < self.d ==> 0 <= #[trigger] cell_of(self.w as nat, hashes@, r) < self.counters@.len(),
            decreases self.d - i,
        {
            let col = (hashes[i] as usize) & mask;
            proof {
                assert(col as int == column_of(hashes@[i as int], self.w as nat));
                assert(0 <= cell_of(self.w as nat, hashes@, i as int) < self.counters@.len());
                assert(i * self.w <= i * self.w + col);
            }
            let cell = i * self.w + col;
            proof {
                assert(cell == cell_of(self.w as nat, hashes@, i as int));
            }
            let v = self.counters[cell];
            if v < min {
                min = v;
            }
            i = i + 1;
        }
        min
    }

    fn row_hashes<T: Hash + ?Sized>(&self, x: &T) -> (r: Vec<u64>)
        requires
            self.wf(),
        ensures
            r@.len() == self.rows(),
    {
        let mut hs: Vec<u64> = Vec::new();
        let mut i: usize = 0;
        while i < self.d
            invariant
                self.wf(),
                i <= self.d,
                hs@.len() == i,
            decreases self.d - i,
        {
            hs.push(hash_one(&self.hashers[i], x));
            i = i + 1;
        }
        hs
    }

    /// Adds one occurrence of `x`: every row bumps the counter its hash of
    /// `x` picks.
    pub fn add<T: Hash + ?Sized>(&mut self, x: &T)
        requires
            old(self).wf(),
        ensures
            final(self).wf(),
            final(self).rows() == old(self).rows(),
            final(self).width() == old(self).width(),
            exists|hs: Seq<u64>|
                hs.len() == old(self).rows() && final(self).cells() == added(
                    old(self).cells(),
                    old(self).width(),
                    hs,
                ),
    {
        let hs = self.row_hashes(x);
        self.add_hashes(hs.as_slice());
    }

    /// The estimate of `x`: the least of the counters its row hashes pick.
    pub fn estimate<T: Hash + ?Sized>(&self, x: &T) -> (r: u32)
        requires
            self.wf(),
        ensures
            exists|hs: Seq<u64>| hs.len() == self.rows() && r == estimate_of(self.cells(), self.width(), hs),
    {
        let hs = self.row_hashes(x);
        self.estimate_hashes(hs.as_slice())
    }
}


/// `p` lists each index below `n` exactly once.
pub open spec fn is_permutation(p: Seq<int>, n: nat) -> bool {
    &&& p.len() == n
    &&& forall|i: int| 0 <= i < p.len() ==> 0 <= #[trigger] p[i] < n
    &&& forall|i: int, j: int| 0 <= i < j < p.len() ==> p[i] != p[j]
}

/// `r` holds the tracked values of `c` (each key a clone), ordered by count
/// from the highest down.
pub open spec fn ranked<T: Clone>(c: Seq<(T, u32)>, r: Seq<(T, u32)>) -> bool {
    &&& forall|i: int, j: int| 0 <= i < j < r.len() ==> r[i].1 >= r[j].1
    &&& exists|p: Seq<int>|
        #![trigger is_permutation(p, c.len())]
        is_permutation(p, c.len()) && forall|j: int|
            0 <= j < r.len() ==> #[trigger] r[j].1 == c[p[j]].1 && cloned(c[p[j]].0, r[j].0)
}

/// The first tracked position whose key equals `v`.
pub open spec fn position_of<T: PartialEq>(c: Seq<(T, u32)>, v: T) -> Option<int>
    decreases c.len(),
{
    if c.len() == 0 {
        None
    } else {
        match position_of(c.drop_last(), v) {
            Some(i) => Some(i),
            None => if c.last().0.eq_spec(&v) {
                Some(c.len() - 1)
            } else {
                None
            },
        }
    }
}

/// The first tracked position with the least count (`c` not empty).
pub open spec fn least_position<T>(c: Seq<(T, u32)>) -> int
    decreases c.len(),
{
    if c.len() <= 1 {
        0
    } else {
        let i = least_position(c.drop_last());
        if c.last().1 < c[i].1 {
            c.len() - 1
        } else {
            i
        }
    }
}

/// `r` is what the tracked values `c` (at most `k` of them) become when `v`
/// is seen with estimate `e`: a tracked value takes the new estimate; a new
/// value joins while fewer than `k` are tracked; otherwise it replaces the
/// first value with the least count when its estimate is higher.
pub open spec fn tracked_after<T: PartialEq + Clone>(c: Seq<(T, u32)>, k: nat, v: T, e: u32, r: Seq<(T, u32)>) -> bool {
    match position_of(c, v) {
        Some(i) => r == c.update(i, (c[i].0, e)),
        None => if c.len() < k {
            &&& r.len() == c.len() + 1
            &&& r.take(c.len() as int) == c
            &&& r.last().1 == e
            &&& cloned(v, r.last().0)
        } else if e > c[least_position(c)].1 {
            &&& r.len() == c.len()
            &&& r.take(c.len() - 1) == c.remove(least_position(c))
            &&& r.last().1 == e
            &&& cloned(v, r.last().0)
        } else {
            r == c
        },
    }
}

/// The values seen most often, as far as a Count-Min sketch can tell: at most
/// `k` values with their estimated counts.
pub struct TopK<T> {
    k: usize,
    sketch: CountMinSketch,
    keys: Vec<T>,
    counts: Vec<u32>,
}

impl<T> View for TopK<T> {
    type V = Seq<(T, u32)>;

    /// The tracked values and their counts.
    closed spec fn view(&self) -> Seq<(T, u32)> {
        Seq::new(self.keys@.len(), |i: int| (self.keys@[i], self.counts@[i]))
    }
}

impl<T: Hash + Eq + Clone> TopK<T> {
    /// How many values are tracked at most.
    pub closed spec fn limit(&self) -> nat {
        self.k as nat
    }

    /// The sketch that counts every value seen.
    pub closed spec fn sketch(&self) -> CountMinSketch {
        self.sketch
    }

    pub closed spec fn wf(&self) -> bool {
        &&& self.k > 0
        &&& self.keys@.len() == self.counts@.len()
        &&& self.keys@.len() <= self.k
        &&& self.sketch.wf()
    }

    /// Tracks at most `k` values, with a sketch of 5 rows of 2048 counters.
    pub fn new(k: usize) -> (r: Self)
        requires
            k > 0,
        ensures
            r.wf(),
            r.limit() == k,
            r@ == Seq::<(T, u32)>::empty(),
            r.sketch().rows() == 5,
            r.sketch().width() == 2048,
            r.sketch().cells() == Seq::new(5 * 2048, |j: int| 0u32),
    {
        proof {
            vstd::arithmetic::power2::lemma2_to64();
            assert(pow2(11) == 2048);
        }
        let sketch = CountMinSketch::new(5, 2048);
        let r = TopK { k, sketch, keys: Vec::new(), counts: Vec::new() };
        assert(r@ =~= Seq::<(T, u32)>::empty());
        r
    }

    fn find(&self, v: &T) -> (r: Option<usize>)
        requires
            self.wf(),
            T::obeys_eq_spec(),
        ensures
            match r {
                Some(i) => position_of(self@, *v) == Some(i as int),
                None => position_of(self@, *v) is None,
            },
    {
        let mut i: usize = 0;
        while i < self.keys.len()
            invariant
                self.wf(),
                T::obeys_eq_spec(),
                i <= self@.len(),
                position_of(self@.take(i as int), *v) is None,
            decreases self@.len() - i,
        {
            proof {
                assert(self@.take(i + 1).drop_last() =~= self@.take(i as int));
            }
            if self.keys[i] == *v {
                proof {
                    assert(self@.take(i + 1).last().0 == self.keys@[i as int]);
                    lemma_position_prefix(self@, *v, i + 1);
                }
                return Some(i);
            }
            i = i + 1;
        }
        proof {
            assert(self@.take(self@.len() as int) =~= self@);
        }
        None
    }

    fn least(&self) -> (r: usize)
        requires
            self.wf(),
            self@.len() > 0,
        ensures
            r == least_position(self@),
    {
        let mut best: usize = 0;
        let mut i: usize = 1;
        proof {
            assert(self@.take(1).len() == 1);
        }
        while i < self.counts.len()
            invariant
                self.wf(),
                1 <= i <= self@.len(),
                best == least_position(self@.take(i as int)),
                best < i,
            decreases self@.len() - i,
        {
            proof {
                assert(self@.take(i + 1).drop_last() =~= self@.take(i as int));
                assert(self@.take(i as int)[best as int] == self@[best as int]);
            }
            if self.counts[i] < self.counts[best] {
                best = i;
            }
            i = i + 1;
        }
        proof {
            assert(self@.take(self@.len() as int) =~= self@);
        }
        best
    }

    /// Counts one occurrence of `v` in the sketch and updates the tracked
    /// values with its new estimate. `v` is hashed once: the sketch is bumped
    /// and then read at the same row hashes.
    pub fn add(&mut self, v: &T)
        requires
            old(self).wf(),
            T::obeys_eq_spec(),
        ensures
            final(self).wf(),
            final(self).limit() == old(self).limit(),
            final(self).sketch().rows() == old(self).sketch().rows(),
            final(self).sketch().width() == old(self).sketch().width(),
            exists|hs: Seq<u64>|
                #![trigger added(old(self).sketch().cells(), old(self).sketch().width(), hs)]
                {
                    &&& hs.len() == old(self).sketch().rows()
                    &&& final(self).sketch().cells() == added(old(self).sketch().cells(), old(self).sketch().width(), hs)
                    &&& tracked_after(
                        old(self)@,
                        old(self).limit(),
                        *v,
                        estimate_of(final(self).sketch().cells(), final(self).sketch().width(), hs),
                        final(self)@,
                    )
                },
    {
        let ghost start = self@;
        let ghost sk0 = self.sketch;
        let hs = self.sketch.row_hashes(v);
        self.sketch.add_hashes(hs.as_slice());
        let estimate = self.sketch.estimate_hashes(hs.as_slice());
        let ghost sk = self.sketch;
        let found = self.find(v);
        proof {
            lemma_position_range(start, *v);
            if start.len() > 0 {
                lemma_least_range(start);
            }
        }
        match found {
            Some(i) => {
                self.counts.set(i, estimate);
                assert(self@ =~= start.update(i as int, (start[i as int].0, estimate)));
            },
            None => {
                if self.keys.len() < self.k {
                    let key = v.clone();
                    self.keys.push(key);
                    self.counts.push(estimate);
                    assert(self@.take(start.len() as int) =~= start);
                } else {
                    let m = self.least();
                    if estimate > self.counts[m] {
                        let _old_key = self.keys.remove(m);
                        let _old_count = self.counts.remove(m);
                        let key = v.clone();
                        self.keys.push(key);
                        self.counts.push(estimate);
                        assert(self@.take(start.len() - 1) =~= start.remove(m as int));
                    }
                }
            },
        }
        assert(tracked_after(start, self.k as nat, *v, estimate, self@));
        assert(self.sketch == sk);
        assert(start == old(self)@);
        assert(sk0 == old(self).sketch());
        assert(self.sketch().cells() == added(sk0.cells(), sk0.width(), hs@));
    }

    /// All tracked values with their counts, each once, the highest count
    /// first.
    pub fn top(&self) -> (r: Vec<(T, u32)>)
        requires
            self.wf(),
        ensures
            r@.len() == self@.len(),
            ranked(self@, r@),
    {
        let n = self.keys.len();
        let mut order: Vec<usize> = Vec::new();
        let mut i: usize = 0;
        while i < n
            invariant
                self.wf(),
                n == self@.len(),
                i <= n,
                order@.len() == i,
                forall|a: int| 0 <= a < order@.len() ==> (#[trigger] order@[a]) < i,
                forall|a: int, b: int| 0 <= a < b < order@.len() ==> order@[a] != order@[b],
                forall|a: int, b: int|
                    0 <= a < b < order@.len() ==> self.counts@[order@[a] as int] >= self.counts@[order@[b] as int],
            decreases n - i,
        {
            let c = self.counts[i];
            let mut pos: usize = 0;
            while pos < order.len() && self.counts[order[pos]] >= c
                invariant
                    self.wf(),
                    n == self@.len(),
                    i < n,
                    c == self.counts@[i as int],
                    pos <= order@.len(),
                    forall|a: int| 0 <= a < order@.len() ==> (#[trigger] order@[a]) < i,
                    forall|a: int| 0 <= a < pos ==> self.counts@[#[trigger] order@[a] as int] >= c,
                decreases order@.len() - pos,
            {
                pos = pos + 1;
            }
            let ghost before = order@;
            order.insert(pos, i);
            proof {
                assert(order@ == before.insert(pos as int, i));
                assert forall|a: int, b: int|
                    0 <= a < b < order@.len() implies self.counts@[order@[a] as int] >= self.counts@[order@[b] as int] by {
                    if pos < before.len() {
                        assert(self.counts@[before[pos as int] as int] < c);
                    }
                    if a < pos && b > pos && pos < before.len() {
                        assert(self.counts@[before[a] as int] >= self.counts@[before[b - 1] as int]);
                    }
                    if a == pos && b > pos {
                        assert(self.counts@[before[pos as int] as int] >= self.counts@[before[b - 1] as int] || b - 1 == pos);
                    }
                }
            }
            i = i + 1;
        }
        let mut r: Vec<(T, u32)> = Vec::new();
        let mut j: usize = 0;
        while j < n
            invariant
                self.wf(),
                n == self@.len(),
                order@.len() == n,
                j <= n,
                r@.len() == j,
                forall|a: int| 0 <= a < order@.len() ==> (#[trigger] order@[a]) < n,
                forall|a: int, b: int| 0 <= a < b < order@.len() ==> order@[a] != order@[b],
                forall|a: int, b: int|
                    0 <= a < b < order@.len() ==> self.counts@[order@[a] as int] >= self.counts@[order@[b] as int],
                forall|a: int|
                    0 <= a < j ==> #[trigger] r@[a].1 == self@[order@[a] as int].1 && cloned(
                        self@[order@[a] as int].0,
                        r@[a].0,
                    ),
            decreases n - j,
        {
            let idx = order[j];
            let key = self.keys[idx].clone();
            r.push((key, self.counts[idx]));
            j = j + 1;
        }
        proof {
            let p = Seq::new(n as nat, |a: int| order@[a] as int);
            assert(is_permutation(p, self@.len()));
            assert forall|a: int, b: int| 0 <= a < b < r@.len() implies r@[a].1 >= r@[b].1 by {
                assert(r@[a].1 == self.counts@[order@[a] as int]);
                assert(r@[b].1 == self.counts@[order@[b] as int]);
            }
            assert forall|a: int| 0 <= a < r@.len() implies #[trigger] r@[a].1 == self@[p[a]].1 && cloned(
                self@[p[a]].0,
                r@[a].0,
            ) by {}
            assert(exists|q: Seq<int>|
                #![trigger is_permutation(q, self@.len())]
                is_permutation(q, self@.len()) && forall|j: int|
                    0 <= j < r@.len() ==> #[trigger] r@[j].1 == self@[q[j]].1 && cloned(self@[q[j]].0, r@[j].0));
        }
        r
    }
}

proof fn lemma_position_range<T: PartialEq>(c: Seq<(T, u32)>, v: T)
    ensures
        position_of(c, v) matches Some(i) ==> 0 <= i < c.len(),
    decreases c.len(),
{
    if c.len() > 0 {
        lemma_position_range(c.drop_last(), v);
    }
}

proof fn lemma_least_range<T>(c: Seq<(T, u32)>)
    requires
        c.len() > 0,
    ensures
        0 <= least_position(c) < c.len(),
    decreases c.len(),
{
    if c.len() > 1 {
        lemma_least_range(c.drop_last());
    }
}

proof fn lemma_position_prefix<T: PartialEq>(c: Seq<(T, u32)>, v: T, k: int)
    requires
        0 < k <= c.len(),
        position_of(c.take(k - 1), v) is None,
        c[k - 1].0.eq_spec(&v),
    ensures
        position_of(c, v) == Some(k - 1),
    decreases c.len(),
{
    assert(c.take(k).drop_last() =~= c.take(k - 1));
    if k < c.len() {
        assert(c.drop_last().take(k - 1) =~= c.take(k - 1));
        lemma_position_prefix(c.drop_last(), v, k);
        assert(c.drop_last().take(k - 1) =~= c.take(k - 1));
        assert(c.drop_last().take(k) =~= c.take(k));
    } else {
        assert(c.take(k) =~= c);
    }
}

} // verus!
