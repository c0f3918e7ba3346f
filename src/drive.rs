use vstd::prelude::*;
use crate::control::{CarState, Ratios, decay_spec, speed_spec, steer_spec};
use crate::horizon::{lemma_mean_below, push_horizon, raw_horizon, row_zeros, window_mean, window_push};
use crate::image::{Frame, Plane, count_nonzero, lemma_nonzeros_bounded, nonzeros, threshold_seq};
use crate::protocol::Command;
use crate::segmentation::{Segmentation, plane_seq, process_frame};
use crate::tuning::{SCALE, TURN_LIMIT, Tuning};

verus! {

/// Share, in millionths and rounded down, of the non-zero pixels of the rows
/// from `top` to the bottom of a plane `w` wide and `h` high.
pub open spec fn ratio_of(s: Seq<u8>, w: int, h: int, top: int) -> int {
    nonzeros(s.subrange(top * w, w * h)) * SCALE / ((h - top) * w)
}

/// `r` is the horizon row of a mask `w` wide and `h` high: the row of the
/// upper half with the most black pixels, of equal ones the lowest.
pub open spec fn is_horizon(s: Seq<u8>, w: int, h: int, r: int) -> bool {
    &&& 0 <= r < h / 2
    &&& forall|y: int| 0 <= y < h / 2 ==> row_zeros(s, w, y) <= row_zeros(s, w, r)
    &&& forall|y: int| r < y < h / 2 ==> row_zeros(s, w, y) < row_zeros(s, w, r)
}

/// The mask the horizon is read from: the red plane at the red cutoff.
pub open spec fn horizon_mask(f: &Frame, t: Tuning) -> Seq<u8> {
    threshold_seq(plane_seq(f, t, 2), t.red_cutoff)
}

/// The ratios of a segmented frame below row `top`: blue from the blue
/// plane's blue mask, green from the green plane's green mask, red from the
/// red plane's red mask.
pub open spec fn ratios_of(f: &Frame, t: Tuning, top: int) -> Ratios {
    let (w, h) = (f.width as int, f.height as int);
    Ratios {
        blue: ratio_of(threshold_seq(plane_seq(f, t, 0), t.blue_cutoff), w, h, top) as i64,
        green: ratio_of(threshold_seq(plane_seq(f, t, 1), t.green_cutoff), w, h, top) as i64,
        red: ratio_of(threshold_seq(plane_seq(f, t, 2), t.red_cutoff), w, h, top) as i64,
    }
}

/// Every horizon estimate in the state lies within a frame `height` high.
pub open spec fn fits_height(s: &CarState, height: int) -> bool {
    forall|i: int| 0 <= i < s.previous_horizons@.len() ==> s.previous_horizons@[i] < height
}

/// A ratio lies between none and all: for every mask and every row above its
/// bottom, the share of activated pixels below that row is in `[0, SCALE]`.
pub proof fn lemma_ratio_bounded(s: Seq<u8>, w: int, h: int, top: int)
    requires
        s.len() == w * h,
        w > 0,
        0 <= top < h,
    ensures
        0 <= ratio_of(s, w, h, top) <= SCALE,
{
    assert(0 <= top * w < w * h && w * h - top * w == (h - top) * w) by (nonlinear_arith)
        requires
            0 <= top < h,
            w > 0;
    let q = s.subrange(top * w, w * h);
    lemma_nonzeros_bounded(q);
    let (c, n) = (nonzeros(q) as int, (h - top) * w);
    assert(0 <= c * 1_000_000 / n <= 1_000_000) by (nonlinear_arith)
        requires
            0 <= c <= n,
            n > 0;
}

/// The share of non-zero pixels of `mask` from row `top` down, in millionths.
pub fn region_ratio(mask: &Plane, top: usize) -> (r: i64)
    requires
        mask.wf(),
        mask.width > 0,
        top < mask.height,
    ensures
        r == ratio_of(mask.data@, mask.width as int, mask.height as int, top as int),
        0 <= r <= SCALE,
{
    let len = mask.data.len();
    proof {
        let (w, h) = (mask.width as int, mask.height as int);
        assert(0 <= top * w < w * h && w * h - top * w == (h - top) * w) by (nonlinear_arith)
            requires
                0 <= top < h,
                w > 0;
    }
    let start = top * mask.width;
    let count = count_nonzero(&mask.data, start, len);
    let total = len - start;
    proof {
        lemma_nonzeros_bounded(mask.data@.subrange(start as int, len as int));
    }
    let c = count as u128;
    let n = total as u128;
    proof {
        let (ci, ni) = (c as int, n as int);
        assert(ci * 1_000_000 <= ni * 1_000_000 && (ci * 1_000_000) / ni <= 1_000_000)
            by (nonlinear_arith)
            requires
                0 <= ci <= ni,
                ni > 0;
    }
    (c * 1_000_000 / n) as i64
}

/// The three ratios of a segmented frame below row `top`.
fn measure(seg: &Segmentation, f: &Frame, t: Tuning, top: usize) -> (r: Ratios)
    requires
        f.wf(),
        f.width > 0,
        top < f.height,
        seg.of(f, t),
    ensures
        r == ratios_of(f, t, top as int),
        r.wf(),
{
    Ratios {
        blue: region_ratio(&seg.blue.blue_mask, top),
        green: region_ratio(&seg.green.green_mask, top),
        red: region_ratio(&seg.red.red_mask, top),
    }
}

impl CarState {
    /// Whether every horizon estimate held lies within a frame `height` high.
    pub fn fits(&self, height: usize) -> (r: bool)
        ensures
            r == fits_height(self, height as int),
    {
        let n = self.previous_horizons.len();
        let mut i: usize = 0;
        while i < n
            invariant
                n == self.previous_horizons@.len(),
                i <= n,
                forall|j: int| 0 <= j < i ==> self.previous_horizons@[j] < height,
            decreases n - i,
        {
            if self.previous_horizons[i] >= height {
                return false;
            }
            i = i + 1;
        }
        true
    }
}

/// Runs one frame through the pipeline: segmentation, the horizon of the red
/// mask pushed into the window, the ratios below the smoothed horizon, and
/// the control law. Returns the throttle and steering commands to send.
pub fn frame_update(frame: &Frame, state: &mut CarState, t: &Tuning) -> (cmds: (Command, Command))
    requires
        frame.wf(),
        frame.width > 0,
        frame.height >= 2,
        old(state).wf(),
        fits_height(old(state), frame.height as int),
        t.wf(),
    ensures
        final(state).wf(),
        fits_height(final(state), frame.height as int),
        final(state).previous_horizons@.len() > 0,
        is_horizon(
            horizon_mask(frame, *t),
            frame.width as int,
            frame.height as int,
            final(state).previous_horizons@[0] as int,
        ),
        final(state).previous_horizons@ == window_push(
            old(state).previous_horizons@,
            final(state).previous_horizons@[0],
        ),
        ({
            let top = window_mean(final(state).previous_horizons@);
            let r = ratios_of(frame, *t, top);
            let turn = steer_spec(old(state).wheels_turn as int, r, *t);
            &&& 0 <= top < frame.height
            &&& r.wf()
            &&& final(state).speed == speed_spec(turn, *t)
            &&& final(state).wheels_turn == decay_spec(turn, *t)
            &&& cmds.0 == (Command::Forward { value: final(state).speed })
            &&& cmds.1 matches Command::Turn { value } && value == turn
        }),
        t.min_speed <= final(state).speed <= t.max_speed,
        cmds.1 matches Command::Turn { value } && -TURN_LIMIT <= value <= TURN_LIMIT,
{
    let seg = process_frame(frame, *t);
    let raw = raw_horizon(&seg.red.red_mask);
    let top = push_horizon(&mut state.previous_horizons, raw);
    proof {
        let q = state.previous_horizons@;
        assert(q[0] == raw);
        assert forall|i: int| 0 <= i < q.len() implies q[i] < frame.height by {
            if i > 0 {
                assert(q[i] == old(state).previous_horizons@[i - 1]);
            }
        }
        lemma_mean_below(q, frame.height as int);
    }
    let ratios = measure(&seg, frame, *t, top);
    state.control_step(ratios, t)
}

} // verus!
