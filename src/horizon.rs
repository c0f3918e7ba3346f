use vstd::prelude::*;
use std::collections::VecDeque;
use crate::image::{Plane, count_zeros, zeros};
use crate::tuning::HORIZON_WINDOW;

verus! {

/// The number of black (zero) pixels in row `y` of a plane `w` pixels wide.
pub open spec fn row_zeros(s: Seq<u8>, w: int, y: int) -> nat {
    zeros(s.subrange(y * w, y * w + w))
}

/// The window after a new estimate: the estimate first, then the older ones,
/// the oldest dropped past the window's size.
pub open spec fn window_push(q: Seq<usize>, row: usize) -> Seq<usize> {
    let p = seq![row] + q;
    if p.len() > HORIZON_WINDOW {
        p.subrange(0, HORIZON_WINDOW as int)
    } else {
        p
    }
}

/// The window after `k` pushes of the same estimate.
pub open spec fn window_push_n(q: Seq<usize>, row: usize, k: nat) -> Seq<usize>
    decreases k,
{
    if k == 0 {
        q
    } else {
        window_push(window_push_n(q, row, (k - 1) as nat), row)
    }
}

pub open spec fn seq_sum(q: Seq<usize>) -> int
    decreases q.len(),
{
    if q.len() == 0 {
        0
    } else {
        seq_sum(q.drop_last()) + q.last()
    }
}

/// The mean of a non-empty window, rounded down.
pub open spec fn window_mean(q: Seq<usize>) -> int {
    seq_sum(q) / (q.len() as int)
}

proof fn lemma_row_in_bounds(w: int, h: int, y: int)
    requires
        0 <= y < h,
        0 <= w,
    ensures
        0 <= y * w,
        y * w + w <= w * h,
{
    assert(0 <= y * w && y * w + w <= w * h) by (nonlinear_arith)
        requires
            0 <= y < h,
            0 <= w;
}

/// The number of black pixels in row `y`.
fn row_zero_count(mask: &Plane, y: usize) -> (r: usize)
    requires
        mask.wf(),
        y < mask.height,
    ensures
        r == row_zeros(mask.data@, mask.width as int, y as int),
{
    let len = mask.data.len();
    proof {
        lemma_row_in_bounds(mask.width as int, mask.height as int, y as int);
    }
    let start = y * mask.width;
    count_zeros(&mask.data, start, start + mask.width)
}

/// The row of the upper half of `mask` with the most black pixels; of equal
/// rows, the one nearest the vertical middle.
pub fn raw_horizon(mask: &Plane) -> (r: usize)
    requires
        mask.wf(),
        mask.height >= 2,
    ensures
        r < mask.height / 2,
        forall|y: int|
            0 <= y < mask.height / 2 ==> row_zeros(mask.data@, mask.width as int, y)
                <= row_zeros(mask.data@, mask.width as int, r as int),
        forall|y: int|
            r < y < mask.height / 2 ==> row_zeros(mask.data@, mask.width as int, y)
                < row_zeros(mask.data@, mask.width as int, r as int),
{
    let half = mask.height / 2;
    let mut best: usize = half - 1;
    let mut best_count = row_zero_count(mask, best);
    let mut y: usize = best;
    while y > 0
        invariant
            mask.wf(),
            half == mask.height / 2,
            y <= best < half,
            best_count == row_zeros(mask.data@, mask.width as int, best as int),
            forall|k: int|
                y <= k < half ==> row_zeros(mask.data@, mask.width as int, k) <= best_count,
            forall|k: int|
                best < k < half ==> row_zeros(mask.data@, mask.width as int, k) < best_count,
        decreases y,
    {
        y = y - 1;
        let c = row_zero_count(mask, y);
        if c > best_count {
            best = y;
            best_count = c;
        }
    }
    best
}

proof fn lemma_sum_below(q: Seq<usize>, b: int)
    requires
        forall|i: int| 0 <= i < q.len() ==> q[i] < b,
    ensures
        0 <= seq_sum(q) <= q.len() * (b - 1),
    decreases q.len(),
{
    if q.len() > 0 {
        let p = q.drop_last();
        lemma_sum_below(p, b);
        assert(seq_sum(q) <= q.len() * (b - 1)) by (nonlinear_arith)
            requires
                seq_sum(q) == seq_sum(p) + q.last(),
                seq_sum(p) <= p.len() * (b - 1),
                q.last() < b,
                q.len() == p.len() + 1;
    }
}

/// A non-empty window whose entries are all below `b` has its mean below `b`.
pub proof fn lemma_mean_below(q: Seq<usize>, b: int)
    requires
        q.len() > 0,
        forall|i: int| 0 <= i < q.len() ==> q[i] < b,
    ensures
        0 <= window_mean(q) < b,
{
    lemma_sum_below(q, b);
    let s = seq_sum(q);
    let n = q.len() as int;
    assert(0 <= s / n < b) by (nonlinear_arith)
        requires
            0 <= s <= n * (b - 1),
            n > 0;
}

/// Pushes a new estimate into the window and returns the window's mean.
pub fn push_horizon(horizons: &mut VecDeque<usize>, row: usize) -> (r: usize)
    requires
        old(horizons)@.len() <= HORIZON_WINDOW,
    ensures
        final(horizons)@ == window_push(old(horizons)@, row),
        final(horizons)@.len() <= HORIZON_WINDOW,
        r == window_mean(final(horizons)@),
{
    horizons.push_front(row);
    horizons.truncate(HORIZON_WINDOW);
    let n = horizons.len();
    let mut sum: u128 = 0;
    let mut i: usize = 0;
    while i < n
        invariant
            n == horizons@.len(),
            1 <= n <= HORIZON_WINDOW,
            i <= n,
            sum == seq_sum(horizons@.subrange(0, i as int)),
            sum <= i * (usize::MAX as int),
        decreases n - i,
    {
        proof {
            assert(horizons@.subrange(0, i + 1).drop_last() =~= horizons@.subrange(0, i as int));
        }
        let v = horizons[i];
        proof {
            assert(sum + v <= (i + 1) * (usize::MAX as int)) by (nonlinear_arith)
                requires
                    sum <= i * (usize::MAX as int),
                    v <= usize::MAX;
            assert((i + 1) * (usize::MAX as int) <= 60 * (usize::MAX as int)) by (nonlinear_arith)
                requires
                    i + 1 <= 60;
        }
        sum = sum + v as u128;
        i = i + 1;
    }
    proof {
        assert(horizons@.subrange(0, n as int) =~= horizons@);
        lemma_mean_below(horizons@, usize::MAX as int + 1);
    }
    (sum / (n as u128)) as usize
}

proof fn lemma_push_n_shape(q: Seq<usize>, row: usize, k: nat)
    requires
        q.len() <= HORIZON_WINDOW,
    ensures
        window_push_n(q, row, k).len() == if q.len() + k > 60 { 60 } else { q.len() + k },
        forall|i: int|
            0 <= i < k && i < window_push_n(q, row, k).len() ==> window_push_n(q, row, k)[i]
                == row,
    decreases k,
{
    if k > 0 {
        lemma_push_n_shape(q, row, (k - 1) as nat);
        let p = window_push_n(q, row, (k - 1) as nat);
        let n = window_push_n(q, row, k);
        assert forall|i: int| 0 <= i < k && i < n.len() implies n[i] == row by {
            if i > 0 {
                assert(n[i] == p[i - 1]);
            }
        }
    }
}

proof fn lemma_sum_constant(q: Seq<usize>, row: usize)
    requires
        forall|i: int| 0 <= i < q.len() ==> q[i] == row,
    ensures
        seq_sum(q) == q.len() * row,
    decreases q.len(),
{
    if q.len() > 0 {
        lemma_sum_constant(q.drop_last(), row);
        assert(seq_sum(q) == q.len() * row) by (nonlinear_arith)
            requires
                seq_sum(q) == seq_sum(q.drop_last()) + row,
                seq_sum(q.drop_last()) == (q.len() - 1) * row;
    }
}

/// Once the same estimate has been pushed for a whole window's worth of
/// frames, the smoothed horizon is exactly that estimate, whatever the window
/// held before.
pub proof fn lemma_horizon_settles(q: Seq<usize>, row: usize, k: nat)
    requires
        q.len() <= HORIZON_WINDOW,
        k >= HORIZON_WINDOW,
    ensures
        window_push_n(q, row, k).len() == HORIZON_WINDOW,
        window_mean(window_push_n(q, row, k)) == row,
{
    lemma_push_n_shape(q, row, k);
    let w = window_push_n(q, row, k);
    lemma_sum_constant(w, row);
    assert((60 * row) / 60 == row as int) by (nonlinear_arith);
}

} // verus!
