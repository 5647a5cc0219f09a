//! Per-group accumulation: each row's value goes to the state of its group id.
//! These are the grouped forms of `Sum`, `Min` and `Max` that the column
//! aggregates run.
use vstd::prelude::*;

use crate::aggregator::{FloatBits, Integer};
use crate::aggregator::max::{max_merge, seq_max, Max};
use crate::aggregator::min::{min_merge, seq_min, Min};
use crate::aggregator::sum::seq_sum;

verus! {

/// `acc` grown to at least `n` entries, the new ones `fill`.
pub open spec fn padded<T>(acc: Seq<T>, n: nat, fill: T) -> Seq<T> {
    if acc.len() >= n {
        acc
    } else {
        acc + Seq::new((n - acc.len()) as nat, |i: int| fill)
    }
}

/// How many (value, group id) pairs a zip of the two sequences yields.
pub open spec fn zip_len(a: nat, b: nat) -> nat {
    if a <= b {
        a
    } else {
        b
    }
}

/// Sum of the values among the first `k` pairs whose group is `g`.
pub open spec fn group_sum<T: Integer>(vals: Seq<T>, gids: Seq<u32>, g: int, k: int) -> int
    decreases k,
{
    if k <= 0 {
        0
    } else {
        group_sum(vals, gids, g, k - 1) + if gids[k - 1] == g {
            vals[k - 1].int_value()
        } else {
            0
        }
    }
}

/// Minimum state of group `g` after the first `k` pairs, starting from `init`.
pub open spec fn group_min<T: Integer>(init: Option<T>, vals: Seq<T>, gids: Seq<u32>, g: int, k: int) -> Option<T>
    decreases k,
{
    if k <= 0 {
        init
    } else {
        let prev = group_min(init, vals, gids, g, k - 1);
        if gids[k - 1] == g {
            min_merge(prev, Some(vals[k - 1]))
        } else {
            prev
        }
    }
}

/// Maximum state of group `g` after the first `k` pairs, starting from `init`.
pub open spec fn group_max<T: Integer>(init: Option<T>, vals: Seq<T>, gids: Seq<u32>, g: int, k: int) -> Option<T>
    decreases k,
{
    if k <= 0 {
        init
    } else {
        let prev = group_max(init, vals, gids, g, k - 1);
        if gids[k - 1] == g {
            max_merge(prev, Some(vals[k - 1]))
        } else {
            prev
        }
    }
}

/// One step of the float minimum: a NaN is skipped; any other `v` is adopted
/// when nothing is held yet or when it compares less than what is held.
pub open spec fn fmin_step<T: FloatBits>(s: Option<T>, v: T) -> Option<T> {
    if v.float_is_nan() {
        s
    } else {
        match s {
            None => Some(v),
            Some(c) => if v.float_lt(&c) {
                Some(v)
            } else {
                s
            },
        }
    }
}

/// One step of the float maximum: a NaN is skipped; any other `v` is adopted
/// when nothing is held yet or when what is held compares less than it.
pub open spec fn fmax_step<T: FloatBits>(s: Option<T>, v: T) -> Option<T> {
    if v.float_is_nan() {
        s
    } else {
        match s {
            None => Some(v),
            Some(c) => if c.float_lt(&v) {
                Some(v)
            } else {
                s
            },
        }
    }
}

/// Float minimum state of group `g` after the first `k` pairs, from `init`.
pub open spec fn group_fmin<T: FloatBits>(init: Option<T>, vals: Seq<T>, gids: Seq<u32>, g: int, k: int) -> Option<T>
    decreases k,
{
    if k <= 0 {
        init
    } else {
        let prev = group_fmin(init, vals, gids, g, k - 1);
        if gids[k - 1] == g {
            fmin_step(prev, vals[k - 1])
        } else {
            prev
        }
    }
}

/// Float maximum state of group `g` after the first `k` pairs, from `init`.
pub open spec fn group_fmax<T: FloatBits>(init: Option<T>, vals: Seq<T>, gids: Seq<u32>, g: int, k: int) -> Option<T>
    decreases k,
{
    if k <= 0 {
        init
    } else {
        let prev = group_fmax(init, vals, gids, g, k - 1);
        if gids[k - 1] == g {
            fmax_step(prev, vals[k - 1])
        } else {
            prev
        }
    }
}

/// Each group id among the zipped (value, group id) pairs indexes the state
/// once it has grown to `n` entries.
pub open spec fn ids_fit(acc_len: nat, n_vals: nat, gids: Seq<u32>, n: nat) -> bool {
    forall|i: int|
        0 <= i < zip_len(n_vals, gids.len()) ==> (#[trigger] gids[i] as int) < (if acc_len >= n {
            acc_len
        } else {
            n
        })
}

/// Whether each group id among the zipped pairs indexes the state once it
/// has grown to `n` entries.
pub fn ids_would_fit(acc_len: usize, n_vals: usize, gids: &[u32], n: usize) -> (r: bool)
    ensures
        r == ids_fit(acc_len as nat, n_vals as nat, gids@, n as nat),
{
    let limit = if acc_len >= n {
        acc_len
    } else {
        n
    };
    let m = if n_vals <= gids.len() {
        n_vals
    } else {
        gids.len()
    };
    let mut i: usize = 0;
    while i < m
        invariant
            m == zip_len(n_vals as nat, gids@.len()),
            m <= gids@.len(),
            i <= m,
            limit == (if acc_len >= n { acc_len } else { n }),
            forall|k: int| 0 <= k < i ==> (#[trigger] gids@[k] as int) < limit,
        decreases m - i,
    {
        if gids[i] as usize >= limit {
            return false;
        }
        i = i + 1;
    }
    true
}

/// The per-group minima after folding the zipped pairs into `acc` grown to `n`.
pub open spec fn min_updated<T: Integer>(acc: Seq<Option<T>>, vals: Seq<T>, gids: Seq<u32>, n: nat) -> Seq<Option<T>> {
    let p = padded(acc, n, None);
    Seq::new(p.len(), |g: int| group_min(p[g], vals, gids, g, zip_len(vals.len(), gids.len()) as int))
}

/// The per-group maxima after folding the zipped pairs into `acc` grown to `n`.
pub open spec fn max_updated<T: Integer>(acc: Seq<Option<T>>, vals: Seq<T>, gids: Seq<u32>, n: nat) -> Seq<Option<T>> {
    let p = padded(acc, n, None);
    Seq::new(p.len(), |g: int| group_max(p[g], vals, gids, g, zip_len(vals.len(), gids.len()) as int))
}

/// The per-group float minima after folding the zipped pairs into `acc`.
pub open spec fn fmin_updated<T: FloatBits>(acc: Seq<Option<T>>, vals: Seq<T>, gids: Seq<u32>, n: nat) -> Seq<Option<T>> {
    let p = padded(acc, n, None);
    Seq::new(p.len(), |g: int| group_fmin(p[g], vals, gids, g, zip_len(vals.len(), gids.len()) as int))
}

/// The per-group float maxima after folding the zipped pairs into `acc`.
pub open spec fn fmax_updated<T: FloatBits>(acc: Seq<Option<T>>, vals: Seq<T>, gids: Seq<u32>, n: nat) -> Seq<Option<T>> {
    let p = padded(acc, n, None);
    Seq::new(p.len(), |g: int| group_fmax(p[g], vals, gids, g, zip_len(vals.len(), gids.len()) as int))
}

/// Number of occurrences of group `g` among the first `k` ids.
pub open spec fn group_count(gids: Seq<u32>, g: int, k: int) -> int
    decreases k,
{
    if k <= 0 {
        0
    } else {
        group_count(gids, g, k - 1) + if gids[k - 1] == g {
            1int
        } else {
            0
        }
    }
}

fn pad_to<T: Copy>(acc: &mut Vec<T>, n: usize, fill: T)
    ensures
        final(acc)@ == padded(old(acc)@, n as nat, fill),
{
    let ghost start = acc@;
    if acc.len() < n {
        while acc.len() < n
            invariant
                start.len() <= acc@.len() <= n,
                acc@ == start + Seq::new((acc@.len() - start.len()) as nat, |i: int| fill),
            decreases n - acc@.len(),
        {
            acc.push(fill);
            assert(acc@ =~= start + Seq::new((acc@.len() - start.len()) as nat, |i: int| fill));
        }
    }
}

/// Adds each value to the running sum of its group; the state first grows to
/// `n_groups` zeros.
pub fn grouped_sum_update<T: Integer>(acc: &mut Vec<T>, vals: &[T], group_ids: &[u32], n_groups: usize)
    requires
        forall|i: int| 0 <= i < zip_len(vals@.len(), group_ids@.len()) ==> (#[trigger] group_ids@[i] as int)
            < padded(old(acc)@, n_groups as nat, T::zero_spec()).len(),
        forall|g: int, k: int|
            0 <= g < padded(old(acc)@, n_groups as nat, T::zero_spec()).len() && 0 <= k <= zip_len(
                vals@.len(),
                group_ids@.len(),
            ) ==> T::min_int() <= #[trigger] padded(old(acc)@, n_groups as nat, T::zero_spec())[g].int_value()
                + #[trigger] group_sum(vals@, group_ids@, g, k) <= T::max_int(),
    ensures
        ({
            let p = padded(old(acc)@, n_groups as nat, T::zero_spec());
            &&& final(acc)@.len() == p.len()
            &&& forall|g: int|
                0 <= g < p.len() ==> #[trigger] final(acc)@[g].int_value() == p[g].int_value() + group_sum(
                    vals@,
                    group_ids@,
                    g,
                    zip_len(vals@.len(), group_ids@.len()) as int,
                )
        }),
{
    let z = T::zero();
    proof { T::lemma_zero_spec(z); }
    pad_to(acc, n_groups, z);
    let ghost p = acc@;
    let m = if vals.len() <= group_ids.len() {
        vals.len()
    } else {
        group_ids.len()
    };
    let mut i: usize = 0;
    while i < m
        invariant
            m == zip_len(vals@.len(), group_ids@.len()),
            m <= vals@.len(),
            m <= group_ids@.len(),
            i <= m,
            p == padded(old(acc)@, n_groups as nat, T::zero_spec()),
            acc@.len() == p.len(),
            forall|j: int| 0 <= j < m ==> (#[trigger] group_ids@[j] as int) < p.len(),
            forall|g: int, k: int|
                0 <= g < p.len() && 0 <= k <= m ==> T::min_int() <= #[trigger] p[g].int_value()
                    + #[trigger] group_sum(vals@, group_ids@, g, k) <= T::max_int(),
            forall|g: int| 0 <= g < p.len() ==> #[trigger] acc@[g].int_value() == p[g].int_value() + group_sum(vals@, group_ids@, g, i as int),
        decreases m - i,
    {
        let gid = group_ids[i] as usize;
        let v = vals[i];
        proof {
            assert(group_ids@[i as int] as int == gid);
            assert(p[gid as int].int_value() + group_sum(vals@, group_ids@, gid as int, i + 1) <= T::max_int());
            assert(T::min_int() <= p[gid as int].int_value() + group_sum(vals@, group_ids@, gid as int, i + 1));
        }
        let cur = acc[gid];
        let next = cur.add(&v);
        acc.set(gid, next);
        i = i + 1;
        proof {
            assert forall|g: int| 0 <= g < p.len() implies #[trigger] acc@[g].int_value() == p[g].int_value()
                + group_sum(vals@, group_ids@, g, i as int) by {
                assert(group_sum(vals@, group_ids@, g, i as int) == group_sum(vals@, group_ids@, g, i - 1)
                    + if group_ids@[i - 1] == g {
                    vals@[i - 1].int_value()
                } else {
                    0
                });
            }
        }
    }
}

/// Every running sum of every group, from its state in `p`, fits in `T`.
pub open spec fn sums_fit<T: Integer>(p: Seq<T>, vals: Seq<T>, gids: Seq<u32>) -> bool {
    forall|g: int, k: int|
        0 <= g < p.len() && 0 <= k <= zip_len(vals.len(), gids.len()) ==> T::min_int() <= #[trigger] p[g].int_value()
            + #[trigger] group_sum(vals, gids, g, k) <= T::max_int()
}

proof fn lemma_group_sum_step<T: Integer>(vals: Seq<T>, gids: Seq<u32>, g: int, k: int)
    requires
        k >= 0,
    ensures
        group_sum(vals, gids, g, k + 1) == group_sum(vals, gids, g, k) + if gids[k] == g {
            vals[k].int_value()
        } else {
            0
        },
{
}

/// Would adding the pairs to the sums of their groups stay within `T`?
pub fn sums_would_fit<T: Integer>(acc: &Vec<T>, vals: &[T], group_ids: &[u32], n_groups: usize) -> (r: bool)
    requires
        ids_fit(acc@.len(), vals@.len(), group_ids@, n_groups as nat),
        i64::MIN <= T::min_int(),
        T::max_int() <= u64::MAX,
    ensures
        r == sums_fit(padded(acc@, n_groups as nat, T::zero_spec()), vals@, group_ids@),
{
    let ghost p = padded(acc@, n_groups as nat, T::zero_spec());
    let (lo, hi) = T::bounds();
    let plen = if acc.len() >= n_groups {
        acc.len()
    } else {
        n_groups
    };
    let z = T::zero();
    proof {
        T::lemma_zero_spec(z);
    }
    let mut running: Vec<i128> = Vec::new();
    let mut j: usize = 0;
    while j < plen
        invariant
            j <= plen,
            plen == p.len(),
            p == padded(acc@, n_groups as nat, T::zero_spec()),
            z == T::zero_spec(),
            z.int_value() == 0,
            running@.len() == j,
            forall|g: int| 0 <= g < j ==> #[trigger] running@[g] == p[g].int_value(),
        decreases plen - j,
    {
        if j < acc.len() {
            running.push(acc[j].to_i128());
        } else {
            running.push(z.to_i128());
        }
        j = j + 1;
    }
    let m = if vals.len() <= group_ids.len() {
        vals.len()
    } else {
        group_ids.len()
    };
    let mut i: usize = 0;
    proof {
        assert forall|g: int, k: int|
            0 <= g < p.len() && 0 <= k <= 0 implies T::min_int() <= #[trigger] p[g].int_value() + #[trigger] group_sum(
            vals@,
            group_ids@,
            g,
            k,
        ) <= T::max_int() by {
            p[g].lemma_range();
        }
    }
    while i < m
        invariant
            m == zip_len(vals@.len(), group_ids@.len()),
            m <= vals@.len(),
            m <= group_ids@.len(),
            i <= m,
            p == padded(acc@, n_groups as nat, T::zero_spec()),
            lo == T::min_int(),
            hi == T::max_int(),
            i64::MIN <= lo,
            hi <= u64::MAX,
            running@.len() == p.len(),
            forall|k: int| 0 <= k < m ==> (#[trigger] group_ids@[k] as int) < p.len(),
            forall|g: int| 0 <= g < p.len() ==> #[trigger] running@[g] == p[g].int_value() + group_sum(vals@, group_ids@, g, i as int),
            forall|g: int, k: int|
                0 <= g < p.len() && 0 <= k <= i ==> T::min_int() <= #[trigger] p[g].int_value() + #[trigger] group_sum(
                    vals@,
                    group_ids@,
                    g,
                    k,
                ) <= T::max_int(),
        decreases m - i,
    {
        let g = group_ids[i] as usize;
        proof {
            vals@[i as int].lemma_range();
            assert(lo <= running@[g as int] <= hi) by {
                assert(running@[g as int] == p[g as int].int_value() + group_sum(vals@, group_ids@, g as int, i as int));
            }
        }
        let next = running[g] + vals[i].to_i128();
        proof {
            assert forall|h: int| 0 <= h < p.len() implies #[trigger] group_sum(vals@, group_ids@, h, i + 1)
                == group_sum(vals@, group_ids@, h, i as int) + if h == g {
                vals@[i as int].int_value()
            } else {
                0
            } by {
                lemma_group_sum_step(vals@, group_ids@, h, i as int);
            }
        }
        if next < lo || next > hi {
            proof {
                assert(p[g as int].int_value() + group_sum(vals@, group_ids@, g as int, i + 1) == next);
                assert(!sums_fit(p, vals@, group_ids@));
            }
            return false;
        }
        running.set(g, next);
        i = i + 1;
        proof {
            assert forall|h: int, k: int|
                0 <= h < p.len() && 0 <= k <= i implies T::min_int() <= #[trigger] p[h].int_value()
                + #[trigger] group_sum(vals@, group_ids@, h, k) <= T::max_int() by {
                if k == i {
                    assert(running@[h] == p[h].int_value() + group_sum(vals@, group_ids@, h, k));
                }
            }
        }
    }
    true
}

/// Folds each value into the minimum of its group; the state first grows to
/// `n_groups` empty states.
pub fn grouped_min_update<T: Integer>(acc: &mut Vec<Option<T>>, vals: &[T], group_ids: &[u32], n_groups: usize)
    requires
        ids_fit(old(acc)@.len(), vals@.len(), group_ids@, n_groups as nat),
    ensures
        final(acc)@ == min_updated(old(acc)@, vals@, group_ids@, n_groups as nat),
{
    pad_to(acc, n_groups, None);
    let ghost p = acc@;
    let m = if vals.len() <= group_ids.len() {
        vals.len()
    } else {
        group_ids.len()
    };
    let mut i: usize = 0;
    while i < m
        invariant
            m == zip_len(vals@.len(), group_ids@.len()),
            m <= vals@.len(),
            m <= group_ids@.len(),
            i <= m,
            p == padded(old(acc)@, n_groups as nat, None),
            acc@.len() == p.len(),
            forall|j: int| 0 <= j < m ==> (#[trigger] group_ids@[j] as int) < p.len(),
            forall|g: int| 0 <= g < p.len() ==> #[trigger] acc@[g] == group_min(p[g], vals@, group_ids@, g, i as int),
        decreases m - i,
    {
        let gid = group_ids[i] as usize;
        proof {
            assert(group_ids@[i as int] as int == gid);
        }
        let mut cur = acc[gid];
        Min::<T>::merge(&mut cur, Some(vals[i]));
        acc.set(gid, cur);
        i = i + 1;
    }
    assert(acc@ =~= min_updated(old(acc)@, vals@, group_ids@, n_groups as nat));
}

/// Folds each float value into the minimum of its group, as the float minimum does; the state first grows to
/// `n_groups` empty states.
pub fn grouped_fmin_update<T: FloatBits>(acc: &mut Vec<Option<T>>, vals: &[T], group_ids: &[u32], n_groups: usize)
    requires
        ids_fit(old(acc)@.len(), vals@.len(), group_ids@, n_groups as nat),
    ensures
        final(acc)@ == fmin_updated(old(acc)@, vals@, group_ids@, n_groups as nat),
{
    pad_to(acc, n_groups, None);
    let ghost p = acc@;
    let m = if vals.len() <= group_ids.len() {
        vals.len()
    } else {
        group_ids.len()
    };
    let mut i: usize = 0;
    while i < m
        invariant
            m == zip_len(vals@.len(), group_ids@.len()),
            m <= vals@.len(),
            m <= group_ids@.len(),
            i <= m,
            p == padded(old(acc)@, n_groups as nat, None),
            acc@.len() == p.len(),
            forall|j: int| 0 <= j < m ==> (#[trigger] group_ids@[j] as int) < p.len(),
            forall|g: int| 0 <= g < p.len() ==> #[trigger] acc@[g] == group_fmin(p[g], vals@, group_ids@, g, i as int),
        decreases m - i,
    {
        let gid = group_ids[i] as usize;
        proof {
            assert(group_ids@[i as int] as int == gid);
        }
        let v = vals[i];
        let mut cur = acc[gid];
        if !v.is_nan() {
            match cur {
                None => cur = Some(v),
                Some(c) => {
                    if v.less(&c) {
                        cur = Some(v);
                    }
                },
            }
        }
        acc.set(gid, cur);
        i = i + 1;
    }
    assert(acc@ =~= fmin_updated(old(acc)@, vals@, group_ids@, n_groups as nat));
}

/// Folds each float value into the maximum of its group, as the float maximum does; the state first grows to
/// `n_groups` empty states.
pub fn grouped_fmax_update<T: FloatBits>(acc: &mut Vec<Option<T>>, vals: &[T], group_ids: &[u32], n_groups: usize)
    requires
        ids_fit(old(acc)@.len(), vals@.len(), group_ids@, n_groups as nat),
    ensures
        final(acc)@ == fmax_updated(old(acc)@, vals@, group_ids@, n_groups as nat),
{
    pad_to(acc, n_groups, None);
    let ghost p = acc@;
    let m = if vals.len() <= group_ids.len() {
        vals.len()
    } else {
        group_ids.len()
    };
    let mut i: usize = 0;
    while i < m
        invariant
            m == zip_len(vals@.len(), group_ids@.len()),
            m <= vals@.len(),
            m <= group_ids@.len(),
            i <= m,
            p == padded(old(acc)@, n_groups as nat, None),
            acc@.len() == p.len(),
            forall|j: int| 0 <= j < m ==> (#[trigger] group_ids@[j] as int) < p.len(),
            forall|g: int| 0 <= g < p.len() ==> #[trigger] acc@[g] == group_fmax(p[g], vals@, group_ids@, g, i as int),
        decreases m - i,
    {
        let gid = group_ids[i] as usize;
        proof {
            assert(group_ids@[i as int] as int == gid);
        }
        let v = vals[i];
        let mut cur = acc[gid];
        if !v.is_nan() {
            match cur {
                None => cur = Some(v),
                Some(c) => {
                    if c.less(&v) {
                        cur = Some(v);
                    }
                },
            }
        }
        acc.set(gid, cur);
        i = i + 1;
    }
    assert(acc@ =~= fmax_updated(old(acc)@, vals@, group_ids@, n_groups as nat));
}

/// Folds each value into the maximum of its group; the state first grows to
/// `n_groups` empty states.
pub fn grouped_max_update<T: Integer>(acc: &mut Vec<Option<T>>, vals: &[T], group_ids: &[u32], n_groups: usize)
    requires
        ids_fit(old(acc)@.len(), vals@.len(), group_ids@, n_groups as nat),
    ensures
        final(acc)@ == max_updated(old(acc)@, vals@, group_ids@, n_groups as nat),
{
    pad_to(acc, n_groups, None);
    let ghost p = acc@;
    let m = if vals.len() <= group_ids.len() {
        vals.len()
    } else {
        group_ids.len()
    };
    let mut i: usize = 0;
    while i < m
        invariant
            m == zip_len(vals@.len(), group_ids@.len()),
            m <= vals@.len(),
            m <= group_ids@.len(),
            i <= m,
            p == padded(old(acc)@, n_groups as nat, None),
            acc@.len() == p.len(),
            forall|j: int| 0 <= j < m ==> (#[trigger] group_ids@[j] as int) < p.len(),
            forall|g: int| 0 <= g < p.len() ==> #[trigger] acc@[g] == group_max(p[g], vals@, group_ids@, g, i as int),
        decreases m - i,
    {
        let gid = group_ids[i] as usize;
        proof {
            assert(group_ids@[i as int] as int == gid);
        }
        let mut cur = acc[gid];
        Max::<T>::merge(&mut cur, Some(vals[i]));
        acc.set(gid, cur);
        i = i + 1;
    }
    assert(acc@ =~= max_updated(old(acc)@, vals@, group_ids@, n_groups as nat));
}

/// Counts each row toward its group; the counts first grow to `n_groups` zeros.
pub fn grouped_count_update(acc: &mut Vec<u64>, group_ids: &[u32], n_groups: usize)
    requires
        forall|i: int| 0 <= i < group_ids@.len() ==> (#[trigger] group_ids@[i] as int) < padded(
            old(acc)@,
            n_groups as nat,
            0u64,
        ).len(),
        forall|g: int|
            0 <= g < padded(old(acc)@, n_groups as nat, 0u64).len() ==> #[trigger] padded(
                old(acc)@,
                n_groups as nat,
                0u64,
            )[g] + group_count(group_ids@, g, group_ids@.len() as int) <= u64::MAX,
    ensures
        ({
            let p = padded(old(acc)@, n_groups as nat, 0u64);
            &&& final(acc)@.len() == p.len()
            &&& forall|g: int|
                0 <= g < p.len() ==> #[trigger] final(acc)@[g] == p[g] + group_count(
                    group_ids@,
                    g,
                    group_ids@.len() as int,
                )
        }),
{
    pad_to(acc, n_groups, 0u64);
    let ghost p = acc@;
    let m = group_ids.len();
    let mut i: usize = 0;
    while i < m
        invariant
            m == group_ids@.len(),
            i <= m,
            p == padded(old(acc)@, n_groups as nat, 0u64),
            acc@.len() == p.len(),
            forall|j: int| 0 <= j < m ==> (#[trigger] group_ids@[j] as int) < p.len(),
            forall|g: int| 0 <= g < p.len() ==> #[trigger] p[g] + group_count(group_ids@, g, m as int) <= u64::MAX,
            forall|g: int| 0 <= g < p.len() ==> #[trigger] acc@[g] == p[g] + group_count(group_ids@, g, i as int),
        decreases m - i,
    {
        let gid = group_ids[i] as usize;
        proof {
            assert(group_ids@[i as int] as int == gid);
            lemma_group_count_mono(group_ids@, gid as int, i + 1, m as int);
        }
        let cur = acc[gid];
        acc.set(gid, cur + 1);
        i = i + 1;
    }
}

pub proof fn lemma_group_count_mono(gids: Seq<u32>, g: int, k1: int, k2: int)
    requires
        0 <= k1 <= k2,
    ensures
        group_count(gids, g, k1) <= group_count(gids, g, k2),
    decreases k2,
{
    if k2 > k1 {
        lemma_group_count_mono(gids, g, k1, k2 - 1);
    }
}

/// The values, in order, of the first `k` pairs whose group is `g`.
pub open spec fn group_values<T>(vals: Seq<T>, gids: Seq<u32>, g: int, k: int) -> Seq<T>
    decreases k,
{
    if k <= 0 {
        Seq::empty()
    } else if gids[k - 1] == g {
        group_values(vals, gids, g, k - 1).push(vals[k - 1])
    } else {
        group_values(vals, gids, g, k - 1)
    }
}

/// Each group's aggregate is the aggregate of its own rows: the grouped
/// SUM, MIN, MAX and COUNT of group `g`, started empty, are the SUM, MIN,
/// MAX and number of the values whose group id is `g`.
pub proof fn lemma_group_aggregates_are_of_its_rows<T: Integer>(vals: Seq<T>, gids: Seq<u32>, g: int, k: int)
    requires
        0 <= k <= vals.len(),
        k <= gids.len(),
    ensures
        group_sum(vals, gids, g, k) == seq_sum(group_values(vals, gids, g, k)),
        group_min(None, vals, gids, g, k) == seq_min(group_values(vals, gids, g, k)),
        group_max(None, vals, gids, g, k) == seq_max(group_values(vals, gids, g, k)),
        group_count(gids, g, k) == group_values(vals, gids, g, k).len(),
    decreases k,
{
    if k > 0 {
        lemma_group_aggregates_are_of_its_rows(vals, gids, g, k - 1);
        let s = group_values(vals, gids, g, k - 1);
        if gids[k - 1] == g {
            assert(s.push(vals[k - 1]).drop_last() =~= s);
        }
    }
}

} // verus!
