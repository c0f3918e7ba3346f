use vstd::prelude::*;

verus! {

/// A colour frame: `width * height` pixels, row by row, each pixel three
/// bytes in the order blue, green, red.
pub struct Frame {
    pub width: usize,
    pub height: usize,
    pub data: Vec<u8>,
}

/// A single-channel image: `width * height` bytes, row by row.
pub struct Plane {
    pub width: usize,
    pub height: usize,
    pub data: Vec<u8>,
}

impl Frame {
    pub open spec fn wf(&self) -> bool {
        self.data@.len() == 3 * (self.width * self.height)
    }

    pub open spec fn pixel_count(&self) -> nat {
        (self.width * self.height) as nat
    }

    /// A frame of the given size over `data`, or `None` where the length of
    /// `data` is not three bytes per pixel.
    pub fn from_bgr(width: usize, height: usize, data: Vec<u8>) -> (r: Option<Frame>)
        ensures
            r.is_some() <==> data@.len() == 3 * (width * height),
            r matches Some(f) ==> f.wf() && f.width == width && f.height == height
                && f.data@ == data@,
    {
        let len = data.len();
        let n = match width.checked_mul(height) {
            Some(n) => n,
            None => return None,
        };
        let bytes = match n.checked_mul(3) {
            Some(b) => b,
            None => return None,
        };
        if len != bytes {
            return None;
        }
        Some(Frame { width, height, data })
    }
}

impl Plane {
    pub open spec fn wf(&self) -> bool {
        self.data@.len() == self.width * self.height
    }
}

/// Luma of a blue, green, red pixel with the usual weights (0.114, 0.587,
/// 0.299) in 14-bit fixed point, rounded to nearest.
pub open spec fn luma(b: u8, g: u8, r: u8) -> int {
    (1868 * b + 9617 * g + 4899 * r + 8192) / 16384
}

/// The grayscale values of the first `n` pixels of a frame's bytes.
pub open spec fn gray_seq(f: Seq<u8>, n: nat) -> Seq<u8> {
    Seq::new(n, |i: int| luma(f[3 * i], f[3 * i + 1], f[3 * i + 2]) as u8)
}

/// One value after a binary threshold at `level`.
pub open spec fn binarize(v: u8, level: u8) -> u8 {
    if v >= level {
        255
    } else {
        0
    }
}

pub open spec fn threshold_seq(s: Seq<u8>, level: u8) -> Seq<u8> {
    Seq::new(s.len(), |i: int| binarize(s[i], level))
}

pub open spec fn min_u8(a: u8, b: u8) -> u8 {
    if a <= b {
        a
    } else {
        b
    }
}

/// Erosion at index `i` of a plane `width` bytes wide by a 2x2 square with
/// its anchor at the lower right: the least of the pixel and its left, upper
/// and upper-left neighbours, those outside the image left out.
pub open spec fn erode_at(s: Seq<u8>, width: int, i: int) -> u8 {
    let left = if i % width != 0 { s[i - 1] } else { 255u8 };
    let up = if i >= width { s[i - width] } else { 255u8 };
    let corner = if i % width != 0 && i >= width { s[i - width - 1] } else { 255u8 };
    min_u8(min_u8(s[i], left), min_u8(up, corner))
}

pub open spec fn erode_seq(s: Seq<u8>, width: int) -> Seq<u8> {
    Seq::new(s.len(), |i: int| erode_at(s, width, i))
}

/// The number of zero bytes in `s`.
pub open spec fn zeros(s: Seq<u8>) -> nat
    decreases s.len(),
{
    if s.len() == 0 {
        0
    } else {
        zeros(s.drop_last()) + if s.last() == 0 { 1nat } else { 0nat }
    }
}

/// The number of non-zero bytes in `s`.
pub open spec fn nonzeros(s: Seq<u8>) -> nat
    decreases s.len(),
{
    if s.len() == 0 {
        0
    } else {
        nonzeros(s.drop_last()) + if s.last() != 0 { 1nat } else { 0nat }
    }
}

pub proof fn lemma_nonzeros_bounded(s: Seq<u8>)
    ensures
        nonzeros(s) <= s.len(),
    decreases s.len(),
{
    if s.len() > 0 {
        lemma_nonzeros_bounded(s.drop_last());
    }
}

/// Converts a colour frame to grayscale.
pub fn grayscale(f: &Frame) -> (r: Plane)
    requires
        f.wf(),
    ensures
        r.wf(),
        r.width == f.width,
        r.height == f.height,
        r.data@ == gray_seq(f.data@, f.pixel_count()),
{
    let len = f.data.len();
    let n = f.width * f.height;
    let mut out: Vec<u8> = Vec::with_capacity(n);
    let mut i: usize = 0;
    while i < n
        invariant
            n == f.width * f.height,
            len == f.data@.len(),
            len == 3 * n,
            i <= n,
            out@.len() == i,
            forall|j: int| 0 <= j < i ==> out@[j] == gray_seq(f.data@, n as nat)[j],
        decreases n - i,
    {
        let b = f.data[3 * i] as u32;
        let g = f.data[3 * i + 1] as u32;
        let r = f.data[3 * i + 2] as u32;
        let y = (1868 * b + 9617 * g + 4899 * r + 8192) / 16384;
        out.push(y as u8);
        i = i + 1;
    }
    assert(out@ =~= gray_seq(f.data@, n as nat));
    Plane { width: f.width, height: f.height, data: out }
}

/// Binary threshold: each pixel at or above `level` becomes 255, the others 0.
pub fn threshold(p: &Plane, level: u8) -> (r: Plane)
    requires
        p.wf(),
    ensures
        r.wf(),
        r.width == p.width,
        r.height == p.height,
        r.data@ == threshold_seq(p.data@, level),
{
    let n = p.data.len();
    let mut out: Vec<u8> = Vec::with_capacity(n);
    let mut i: usize = 0;
    while i < n
        invariant
            n == p.data@.len(),
            i <= n,
            out@.len() == i,
            forall|j: int| 0 <= j < i ==> out@[j] == binarize(p.data@[j], level),
        decreases n - i,
    {
        let v = p.data[i];
        out.push(if v >= level { 255u8 } else { 0u8 });
        i = i + 1;
    }
    assert(out@ =~= threshold_seq(p.data@, level));
    Plane { width: p.width, height: p.height, data: out }
}

/// Erosion by a 2x2 square, one pass, pixels outside the image ignored.
pub fn erode(p: &Plane) -> (r: Plane)
    requires
        p.wf(),
    ensures
        r.wf(),
        r.width == p.width,
        r.height == p.height,
        r.data@ == erode_seq(p.data@, p.width as int),
{
    let n = p.data.len();
    let w = p.width;
    let mut out: Vec<u8> = Vec::with_capacity(n);
    if w == 0 {
        proof {
            assert(p.width * p.height == 0);
            assert(out@ =~= erode_seq(p.data@, p.width as int));
        }
        return Plane { width: p.width, height: p.height, data: out };
    }
    let mut i: usize = 0;
    while i < n
        invariant
            n == p.data@.len(),
            w == p.width,
            w > 0,
            i <= n,
            out@.len() == i,
            forall|j: int| 0 <= j < i ==> out@[j] == erode_at(p.data@, w as int, j),
        decreases n - i,
    {
        proof {
            if i == 0 {
                vstd::arithmetic::div_mod::lemma_small_mod(0, w as nat);
            }
            if i == w {
                vstd::arithmetic::div_mod::lemma_mod_self_0(w as int);
            }
        }
        let mut m = p.data[i];
        let at_left_edge = i % w == 0;
        if !at_left_edge && p.data[i - 1] < m {
            m = p.data[i - 1];
        }
        if i >= w && p.data[i - w] < m {
            m = p.data[i - w];
        }
        if !at_left_edge && i >= w && p.data[i - w - 1] < m {
            m = p.data[i - w - 1];
        }
        out.push(m);
        i = i + 1;
    }
    assert(out@ =~= erode_seq(p.data@, w as int));
    Plane { width: p.width, height: p.height, data: out }
}

/// Counts the zero bytes of `s[start..end]`.
pub fn count_zeros(s: &Vec<u8>, start: usize, end: usize) -> (r: usize)
    requires
        start <= end <= s@.len(),
    ensures
        r == zeros(s@.subrange(start as int, end as int)),
{
    let mut c: usize = 0;
    let mut i: usize = start;
    while i < end
        invariant
            start <= i <= end <= s@.len(),
            c == zeros(s@.subrange(start as int, i as int)),
            c <= i - start,
        decreases end - i,
    {
        proof {
            assert(s@.subrange(start as int, i + 1).drop_last() =~= s@.subrange(
                start as int,
                i as int,
            ));
        }
        if s[i] == 0 {
            c = c + 1;
        }
        i = i + 1;
    }
    c
}

/// Counts the non-zero bytes of `s[start..end]`.
pub fn count_nonzero(s: &Vec<u8>, start: usize, end: usize) -> (r: usize)
    requires
        start <= end <= s@.len(),
    ensures
        r == nonzeros(s@.subrange(start as int, end as int)),
{
    let mut c: usize = 0;
    let mut i: usize = start;
    while i < end
        invariant
            start <= i <= end <= s@.len(),
            c == nonzeros(s@.subrange(start as int, i as int)),
            c <= i - start,
        decreases end - i,
    {
        proof {
            assert(s@.subrange(start as int, i + 1).drop_last() =~= s@.subrange(
                start as int,
                i as int,
            ));
        }
        if s[i] != 0 {
            c = c + 1;
        }
        i = i + 1;
    }
    c
}

} // verus!
