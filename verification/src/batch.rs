//! The batch decoder.  A frame's stroke input arrives flattened: parallel
//! per-point arrays partitioned by surface through a points-per-surface count
//! array, and parallel per-splatter arrays partitioned by point through a
//! splatters-per-point count array indexed over the global point array.  This
//! module computes, for one surface, the half-open point range and the nested
//! splatter range, by prefix-summing the two count arrays.

use vstd::prelude::*;

verus! {

/// Sum of a sequence of counts.
pub open spec fn sum_counts(s: Seq<usize>) -> int
    decreases s.len(),
{
    if s.len() == 0 {
        0
    } else {
        sum_counts(s.drop_last()) + s.last()
    }
}

/// Start of surface `k`'s point range: points of the surfaces before it.
pub open spec fn point_lo(pc: Seq<usize>, k: int) -> int {
    sum_counts(pc.take(k))
}

/// End of surface `k`'s point range.
pub open spec fn point_hi(pc: Seq<usize>, k: int) -> int {
    sum_counts(pc.take(k + 1))
}

/// Start of surface `k`'s splatter range: splatters of all points before the
/// surface's point range.
pub open spec fn splatter_lo(pc: Seq<usize>, sc: Seq<usize>, k: int) -> int {
    sum_counts(sc.take(point_lo(pc, k)))
}

/// End of surface `k`'s splatter range.
pub open spec fn splatter_hi(pc: Seq<usize>, sc: Seq<usize>, k: int) -> int {
    sum_counts(sc.take(point_hi(pc, k)))
}

/// The combined batch is well formed when the per-surface point counts cover
/// the global point array exactly and the per-point splatter counts cover the
/// splatter arrays exactly.
pub open spec fn batch_wf(pc: Seq<usize>, sc: Seq<usize>, splatter_total: int) -> bool {
    &&& pc.len() == 5
    &&& sum_counts(pc) == sc.len()
    &&& sum_counts(sc) == splatter_total
}

/// The four half-open bounds of one surface's slice of the combined batch:
/// its points within the global point arrays, and its splatters within the
/// global splatter arrays.
#[derive(Clone, Copy, PartialEq, Eq, Structural, Debug)]
pub struct Ranges {
    pub point_start: usize,
    pub point_end: usize,
    pub splatter_start: usize,
    pub splatter_end: usize,
}

/// `r` holds exactly the bounds of surface `k`'s slice.
pub open spec fn ranges_for(pc: Seq<usize>, sc: Seq<usize>, k: int, r: Ranges) -> bool {
    &&& r.point_start == point_lo(pc, k)
    &&& r.point_end == point_hi(pc, k)
    &&& r.splatter_start == splatter_lo(pc, sc, k)
    &&& r.splatter_end == splatter_hi(pc, sc, k)
}

proof fn lemma_sum_take_succ(s: Seq<usize>, i: int)
    requires
        0 <= i < s.len(),
    ensures
        sum_counts(s.take(i + 1)) == sum_counts(s.take(i)) + s[i],
{
    assert(s.take(i + 1).drop_last() =~= s.take(i));
    assert(s.take(i + 1).last() == s[i]);
}

proof fn lemma_sum_nonneg(s: Seq<usize>)
    ensures
        sum_counts(s) >= 0,
    decreases s.len(),
{
    if s.len() > 0 {
        lemma_sum_nonneg(s.drop_last());
    }
}

/// A prefix of the counts sums to no more than a longer prefix.
proof fn lemma_sum_take_monotone(s: Seq<usize>, i: int, j: int)
    requires
        0 <= i <= j <= s.len(),
    ensures
        sum_counts(s.take(i)) <= sum_counts(s.take(j)),
    decreases j - i,
{
    if i < j {
        lemma_sum_take_monotone(s, i, j - 1);
        lemma_sum_take_succ(s, j - 1);
    }
}

proof fn lemma_sum_take_all(s: Seq<usize>)
    ensures
        sum_counts(s.take(s.len() as int)) == sum_counts(s),
{
    assert(s.take(s.len() as int) =~= s);
}

/// Compute the sum of a count array, reporting overflow instead of wrapping.
pub fn checked_sum(counts: &Vec<usize>) -> (r: Option<usize>)
    ensures
        match r {
            Some(t) => t == sum_counts(counts@),
            None => sum_counts(counts@) > usize::MAX,
        },
{
    let mut total: usize = 0;
    let mut idx: usize = 0;
    proof {
        assert(counts@.take(0) =~= Seq::<usize>::empty());
    }
    while idx < counts.len()
        invariant
            0 <= idx <= counts@.len(),
            total == sum_counts(counts@.take(idx as int)),
        decreases counts@.len() - idx,
    {
        proof {
            lemma_sum_take_succ(counts@, idx as int);
            lemma_sum_take_monotone(counts@, idx as int + 1, counts@.len() as int);
            lemma_sum_take_all(counts@);
        }
        match total.checked_add(counts[idx]) {
            Some(t) => {
                total = t;
            },
            None => {
                return None;
            },
        }
        idx = idx + 1;
    }
    proof {
        lemma_sum_take_all(counts@);
    }
    Some(total)
}

/// Check the two covering invariants of a combined batch: the point counts
/// sum to the length of the per-point arrays (given by `sc.len()`), and the
/// splatter counts sum to the length of the per-splatter arrays.
pub fn validate_batch(pc: &Vec<usize>, sc: &Vec<usize>, splatter_total: usize) -> (r: bool)
    ensures
        r == batch_wf(pc@, sc@, splatter_total as int),
{
    if pc.len() != 5 {
        return false;
    }
    let sc_len = sc.len();
    let psum = match checked_sum(pc) {
        Some(t) => t,
        None => {
            proof {
                assert(sc@.len() <= usize::MAX);
            }
            return false;
        },
    };
    if psum != sc.len() {
        return false;
    }
    let ssum = match checked_sum(sc) {
        Some(t) => t,
        None => {
            return false;
        },
    };
    ssum == splatter_total
}

/// Sum `counts[lo..hi]` when the partial sums are already known to fit, as
/// they do for prefixes of a well-formed batch's count arrays.
fn prefix_sum_segment(counts: &Vec<usize>, lo: usize, hi: usize, base: usize) -> (r: usize)
    requires
        lo <= hi <= counts@.len(),
        base == sum_counts(counts@.take(lo as int)),
        sum_counts(counts@) <= usize::MAX,
    ensures
        r == sum_counts(counts@.take(hi as int)),
{
    let mut total: usize = base;
    let mut idx: usize = lo;
    while idx < hi
        invariant
            lo <= idx <= hi <= counts@.len(),
            total == sum_counts(counts@.take(idx as int)),
            sum_counts(counts@) <= usize::MAX,
        decreases hi - idx,
    {
        proof {
            lemma_sum_take_succ(counts@, idx as int);
            lemma_sum_nonneg(counts@.take(idx as int));
            lemma_sum_take_monotone(counts@, idx as int + 1, counts@.len() as int);
            lemma_sum_take_all(counts@);
        }
        total = total + counts[idx];
        idx = idx + 1;
    }
    total
}

/// Decode surface `k`'s slice bounds from a well-formed combined batch: the
/// point range by prefix-summing the point counts up to and through `k`, and
/// the splatter range by prefix-summing the splatter counts up to the point
/// range's two ends.
pub fn surface_ranges(pc: &Vec<usize>, sc: &Vec<usize>, k: usize) -> (r: Ranges)
    requires
        k < pc@.len(),
        sum_counts(pc@) == sc@.len(),
        sum_counts(sc@) <= usize::MAX,
    ensures
        ranges_for(pc@, sc@, k as int, r),
        r.point_start <= r.point_end <= sc@.len(),
        r.splatter_start <= r.splatter_end <= sum_counts(sc@),
{
    let sc_len = sc.len();
    proof {
        assert(sum_counts(pc@) <= usize::MAX);
        assert(pc@.take(0) =~= Seq::<usize>::empty());
        lemma_sum_take_monotone(pc@, k as int, k as int + 1);
        lemma_sum_take_monotone(pc@, k as int + 1, pc@.len() as int);
        lemma_sum_take_all(pc@);
        lemma_sum_nonneg(pc@.take(k as int));
    }
    let point_start = prefix_sum_segment(pc, 0, k, 0);
    proof {
        lemma_sum_take_succ(pc@, k as int);
    }
    let point_end = point_start + pc[k];
    proof {
        assert(sc@.take(0) =~= Seq::<usize>::empty());
        lemma_sum_take_monotone(sc@, point_start as int, point_end as int);
        lemma_sum_take_monotone(sc@, point_end as int, sc@.len() as int);
        lemma_sum_take_all(sc@);
        lemma_sum_nonneg(sc@.take(point_start as int));
    }
    let splatter_start = prefix_sum_segment(sc, 0, point_start, 0);
    let splatter_end = prefix_sum_segment(sc, point_start, point_end, splatter_start);
    Ranges { point_start, point_end, splatter_start, splatter_end }
}

/// Slice partition law.  For a well-formed combined batch the five per-surface
/// point ranges are contiguous, pairwise disjoint, start at zero and together
/// cover the global point array exactly once; the five splatter ranges tile
/// the global splatter arrays in the same way, each nested under its surface's
/// point range.
pub proof fn lemma_slice_partition(pc: Seq<usize>, sc: Seq<usize>, splatter_total: int)
    requires
        batch_wf(pc, sc, splatter_total),
    ensures
        point_lo(pc, 0) == 0,
        splatter_lo(pc, sc, 0) == 0,
        forall|k: int| 0 <= k < 5 ==> #[trigger] point_lo(pc, k) <= point_hi(pc, k),
        forall|k: int| 0 <= k < 5 ==> #[trigger] splatter_lo(pc, sc, k) <= splatter_hi(pc, sc, k),
        forall|k: int| 0 <= k < 4 ==> #[trigger] point_hi(pc, k) == point_lo(pc, k + 1),
        forall|k: int| 0 <= k < 4 ==> #[trigger] splatter_hi(pc, sc, k) == splatter_lo(pc, sc, k + 1),
        point_hi(pc, 4) == sc.len(),
        splatter_hi(pc, sc, 4) == splatter_total,
{
    assert(pc.take(0) =~= Seq::<usize>::empty());
    assert(sc.take(0) =~= Seq::<usize>::empty());
    assert forall|k: int| 0 <= k < 5 implies #[trigger] point_lo(pc, k) <= point_hi(pc, k) by {
        lemma_sum_take_monotone(pc, k, k + 1);
    }
    assert forall|k: int| 0 <= k < 5 implies #[trigger] splatter_lo(pc, sc, k) <= splatter_hi(pc, sc,
        k,
    ) by {
        lemma_sum_take_monotone(pc, k, k + 1);
        lemma_sum_take_monotone(pc, k + 1, 5);
        lemma_sum_take_all(pc);
        lemma_sum_nonneg(pc.take(k));
        lemma_sum_take_monotone(sc, point_lo(pc, k), point_hi(pc, k));
    }
    lemma_sum_take_all(pc);
    assert(point_hi(pc, 4) == sc.len());
    lemma_sum_take_all(sc);
    assert(splatter_hi(pc, sc, 4) == splatter_total);
}

/// Degenerate surface law.  A surface whose point count is zero gets an empty
/// point range and, with it, an empty splatter range, whatever the rest of
/// the batch holds.
pub proof fn lemma_degenerate_surface(pc: Seq<usize>, sc: Seq<usize>, k: int)
    requires
        0 <= k < pc.len(),
        pc[k] == 0,
    ensures
        point_lo(pc, k) == point_hi(pc, k),
        splatter_lo(pc, sc, k) == splatter_hi(pc, sc, k),
{
    lemma_sum_take_succ(pc, k);
}

} // verus!
