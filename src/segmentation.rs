use vstd::prelude::*;
use crate::image::{
    Frame, Plane, erode, erode_seq, gray_seq, grayscale, min_u8, threshold, threshold_seq,
};
use crate::tuning::Tuning;

verus! {

/// The least value of channel `c` over the first `n` pixels (255 if none).
pub open spec fn chan_min(f: Seq<u8>, c: int, n: nat) -> u8
    decreases n,
{
    if n == 0 {
        255
    } else {
        min_u8(chan_min(f, c, (n - 1) as nat), f[3 * (n - 1) + c])
    }
}

/// The greatest value of channel `c` over the first `n` pixels (0 if none).
pub open spec fn chan_max(f: Seq<u8>, c: int, n: nat) -> u8
    decreases n,
{
    if n == 0 {
        0
    } else {
        let m = chan_max(f, c, (n - 1) as nat);
        let v = f[3 * (n - 1) + c];
        if v >= m {
            v
        } else {
            m
        }
    }
}

/// Min-max normalisation of `v` from `[lo, hi]` onto `[0, 255]`, rounded to
/// nearest; a flat channel (`hi <= lo`) maps to 0.
pub open spec fn stretch(v: u8, lo: u8, hi: u8) -> u8 {
    if hi > lo {
        ((255 * (v - lo) + (hi - lo) / 2) / (hi - lo)) as u8
    } else {
        0
    }
}

/// Channel `c` of a frame, normalised over that channel, kept only where the
/// `blacks` mask is set and zero elsewhere.
pub open spec fn gated_seq(f: Seq<u8>, blacks: Seq<u8>, c: int) -> Seq<u8> {
    let lo = chan_min(f, c, blacks.len());
    let hi = chan_max(f, c, blacks.len());
    Seq::new(blacks.len(), |i: int| if blacks[i] != 0 { stretch(f[3 * i + c], lo, hi) } else { 0 })
}

/// The mask of pixels that are not near black, after erosion.
pub open spec fn blacks_seq(f: &Frame, t: Tuning) -> Seq<u8> {
    erode_seq(threshold_seq(gray_seq(f.data@, f.pixel_count()), t.gray_level), f.width as int)
}

/// Channel plane `c` after gating and erosion.
pub open spec fn plane_seq(f: &Frame, t: Tuning, c: int) -> Seq<u8> {
    erode_seq(gated_seq(f.data@, blacks_seq(f, t), c), f.width as int)
}

/// The masks derived from one channel plane.
pub struct ChannelMasks {
    /// The gated plane after erosion.
    pub eroded: Plane,
    /// `eroded` thresholded at the blue cutoff.
    pub blue_mask: Plane,
    /// `eroded` thresholded at the green cutoff.
    pub green_mask: Plane,
    /// `eroded` thresholded at the red cutoff.
    pub red_mask: Plane,
}

impl ChannelMasks {
    /// The four planes have the given size, and are derived from `plane`.
    pub open spec fn derived_from(&self, plane: Seq<u8>, width: usize, height: usize, t: Tuning) -> bool {
        &&& self.eroded.width == width && self.eroded.height == height && self.eroded.wf()
        &&& self.blue_mask.width == width && self.blue_mask.height == height && self.blue_mask.wf()
        &&& self.green_mask.width == width && self.green_mask.height == height
            && self.green_mask.wf()
        &&& self.red_mask.width == width && self.red_mask.height == height && self.red_mask.wf()
        &&& self.eroded.data@ == plane
        &&& self.blue_mask.data@ == threshold_seq(plane, t.blue_cutoff)
        &&& self.green_mask.data@ == threshold_seq(plane, t.green_cutoff)
        &&& self.red_mask.data@ == threshold_seq(plane, t.red_cutoff)
    }
}

/// Everything segmentation derives from one frame.
pub struct Segmentation {
    /// Pixels that are not near black.
    pub blacks: Plane,
    pub blue: ChannelMasks,
    pub green: ChannelMasks,
    pub red: ChannelMasks,
}

impl Segmentation {
    /// `self` is what segmentation makes of frame `f` under `t`.
    pub open spec fn of(&self, f: &Frame, t: Tuning) -> bool {
        &&& self.blacks.width == f.width && self.blacks.height == f.height && self.blacks.wf()
        &&& self.blacks.data@ == blacks_seq(f, t)
        &&& self.blue.derived_from(plane_seq(f, t, 0), f.width, f.height, t)
        &&& self.green.derived_from(plane_seq(f, t, 1), f.width, f.height, t)
        &&& self.red.derived_from(plane_seq(f, t, 2), f.width, f.height, t)
    }
}

proof fn lemma_chan_bounds(f: Seq<u8>, c: int, n: nat, i: int)
    requires
        0 <= i < n,
    ensures
        chan_min(f, c, n) <= f[3 * i + c] <= chan_max(f, c, n),
    decreases n,
{
    if i < n - 1 {
        lemma_chan_bounds(f, c, (n - 1) as nat, i);
    }
}

/// The least and greatest value of channel `c` over the frame's pixels.
pub fn channel_range(f: &Frame, c: usize) -> (r: (u8, u8))
    requires
        f.wf(),
        c < 3,
    ensures
        r.0 == chan_min(f.data@, c as int, f.pixel_count()),
        r.1 == chan_max(f.data@, c as int, f.pixel_count()),
{
    let len = f.data.len();
    let n = f.width * f.height;
    let mut lo: u8 = 255;
    let mut hi: u8 = 0;
    let mut i: usize = 0;
    while i < n
        invariant
            n == f.width * f.height,
            len == f.data@.len(),
            len == 3 * n,
            c < 3,
            i <= n,
            lo == chan_min(f.data@, c as int, i as nat),
            hi == chan_max(f.data@, c as int, i as nat),
        decreases n - i,
    {
        let v = f.data[3 * i + c];
        if v < lo {
            lo = v;
        }
        if v >= hi {
            hi = v;
        }
        i = i + 1;
    }
    (lo, hi)
}

/// Channel `c` of the frame, normalised to the full range and kept only where
/// `blacks` is set.
pub fn gated_channel(f: &Frame, blacks: &Plane, c: usize) -> (r: Plane)
    requires
        f.wf(),
        blacks.wf(),
        blacks.width == f.width,
        blacks.height == f.height,
        c < 3,
    ensures
        r.wf(),
        r.width == f.width,
        r.height == f.height,
        r.data@ == gated_seq(f.data@, blacks.data@, c as int),
{
    let len = f.data.len();
    let n = blacks.data.len();
    let (lo, hi) = channel_range(f, c);
    let mut out: Vec<u8> = Vec::with_capacity(n);
    let mut i: usize = 0;
    while i < n
        invariant
            n == blacks.data@.len(),
            n == f.width * f.height,
            len == f.data@.len(),
            len == 3 * n,
            c < 3,
            lo == chan_min(f.data@, c as int, n as nat),
            hi == chan_max(f.data@, c as int, n as nat),
            i <= n,
            out@.len() == i,
            forall|j: int| 0 <= j < i ==> out@[j] == gated_seq(f.data@, blacks.data@, c as int)[j],
        decreases n - i,
    {
        let v = f.data[3 * i + c];
        let mut o: u8 = 0;
        if blacks.data[i] != 0 && hi > lo {
            proof {
                lemma_chan_bounds(f.data@, c as int, n as nat, i as int);
            }
            let span = (hi - lo) as u32;
            let d = (v - lo) as u32;
            let num = 255 * d + span / 2;
            let s = num / span;
            proof {
                let (si, ni, pi, di) = (s as int, num as int, span as int, d as int);
                assert(si <= 255) by (nonlinear_arith)
                    requires
                        si == ni / pi,
                        ni == 255 * di + pi / 2,
                        di <= pi,
                        pi > 0;
            }
            o = s as u8;
        }
        out.push(o);
        i = i + 1;
    }
    assert(out@ =~= gated_seq(f.data@, blacks.data@, c as int));
    Plane { width: f.width, height: f.height, data: out }
}

/// The masks of one channel plane.
fn channel_masks(plane: &Plane, t: Tuning) -> (r: ChannelMasks)
    requires
        plane.wf(),
    ensures
        r.derived_from(erode_seq(plane.data@, plane.width as int), plane.width, plane.height, t),
{
    let eroded = erode(plane);
    let blue_mask = threshold(&eroded, t.blue_cutoff);
    let green_mask = threshold(&eroded, t.green_cutoff);
    let red_mask = threshold(&eroded, t.red_cutoff);
    ChannelMasks { eroded, blue_mask, green_mask, red_mask }
}

/// Segments a frame: the blacks mask, and for each of the blue, green and
/// red planes its eroded plane and its three thresholded masks.
pub fn process_frame(f: &Frame, t: Tuning) -> (r: Segmentation)
    requires
        f.wf(),
    ensures
        r.of(f, t),
{
    let gray = grayscale(f);
    let bright = threshold(&gray, t.gray_level);
    let blacks = erode(&bright);
    let blue = channel_masks(&gated_channel(f, &blacks, 0), t);
    let green = channel_masks(&gated_channel(f, &blacks, 1), t);
    let red = channel_masks(&gated_channel(f, &blacks, 2), t);
    Segmentation { blacks, blue, green, red }
}

/// Segmentation depends on the frame's contents alone: two results for
/// frames with the same size and bytes hold the same masks.
pub proof fn lemma_segment_deterministic(
    f1: &Frame,
    f2: &Frame,
    t: Tuning,
    s1: &Segmentation,
    s2: &Segmentation,
)
    requires
        f1.width == f2.width,
        f1.height == f2.height,
        f1.data@ == f2.data@,
        s1.of(f1, t),
        s2.of(f2, t),
    ensures
        s1.blacks.data@ == s2.blacks.data@,
        s1.blue.eroded.data@ == s2.blue.eroded.data@,
        s1.blue.blue_mask.data@ == s2.blue.blue_mask.data@,
        s1.blue.green_mask.data@ == s2.blue.green_mask.data@,
        s1.blue.red_mask.data@ == s2.blue.red_mask.data@,
        s1.green.eroded.data@ == s2.green.eroded.data@,
        s1.green.blue_mask.data@ == s2.green.blue_mask.data@,
        s1.green.green_mask.data@ == s2.green.green_mask.data@,
        s1.green.red_mask.data@ == s2.green.red_mask.data@,
        s1.red.eroded.data@ == s2.red.eroded.data@,
        s1.red.blue_mask.data@ == s2.red.blue_mask.data@,
        s1.red.green_mask.data@ == s2.red.green_mask.data@,
        s1.red.red_mask.data@ == s2.red.red_mask.data@,
{
}

} // verus!
