//! Pixel-level transforms over plainly stored images.
//!
//! A color frame is a row-major run of three interleaved channels in
//! blue, green, red order; a processed frame has a single channel.
//! This module carries the preprocessor of the tracking pipeline —
//! luma-weighted grayscale conversion followed by histogram
//! equalization — and the two stand-alone pixel exercises, a
//! lookup-table intensity reduction and a sharpening mask.

use vstd::prelude::*;

verus! {

broadcast use vstd::seq_lib::group_filter_ensures;

/// A color frame: `rows * cols` pixels, three bytes each, interleaved
/// blue, green, red.
pub struct ColorImage {
    pub rows: usize,
    pub cols: usize,
    pub data: Vec<u8>,
}

/// A single-channel frame: `rows * cols` intensity bytes.
pub struct GrayImage {
    pub rows: usize,
    pub cols: usize,
    pub data: Vec<u8>,
}

impl ColorImage {
    /// The byte run holds exactly three channels per pixel.
    pub open spec fn well_formed(&self) -> bool {
        self.data@.len() == self.rows * self.cols * 3
    }

    /// Builds a color frame after checking that the byte run matches
    /// the claimed extent; rejects any mismatch.
    pub fn new(rows: usize, cols: usize, data: Vec<u8>) -> (r: Option<ColorImage>)
        ensures
            r matches Some(img) ==> {
                &&& img.well_formed()
                &&& img.rows == rows
                &&& img.cols == cols
                &&& img.data@ == data@
            },
            r is None <==> data@.len() != rows * cols * 3,
    {
        let n = data.len();
        let pixels = match rows.checked_mul(cols) {
            Some(p) => p,
            None => {
                proof {
                    assert((rows as int) * (cols as int) * 3 >= (rows as int) * (cols as int));
                    assert(n <= usize::MAX);
                }
                return None;
            },
        };
        let bytes = match pixels.checked_mul(3) {
            Some(b) => b,
            None => {
                proof {
                    assert(n <= usize::MAX);
                }
                return None;
            },
        };
        if n == bytes {
            Some(ColorImage { rows, cols, data })
        } else {
            None
        }
    }
}

impl GrayImage {
    /// The byte run holds exactly one channel per pixel.
    pub open spec fn well_formed(&self) -> bool {
        self.data@.len() == self.rows * self.cols
    }

    /// Builds a single-channel frame after checking that the byte run
    /// matches the claimed extent; rejects any mismatch.
    pub fn new(rows: usize, cols: usize, data: Vec<u8>) -> (r: Option<GrayImage>)
        ensures
            r matches Some(img) ==> {
                &&& img.well_formed()
                &&& img.rows == rows
                &&& img.cols == cols
                &&& img.data@ == data@
            },
            r is None <==> data@.len() != rows * cols,
    {
        let n = data.len();
        let pixels = match rows.checked_mul(cols) {
            Some(p) => p,
            None => {
                proof {
                    assert(n <= usize::MAX);
                }
                return None;
            },
        };
        if n == pixels {
            Some(GrayImage { rows, cols, data })
        } else {
            None
        }
    }
}

/// The luma of one blue, green, red triple: the fixed-point weighting
/// `(4899 r + 9617 g + 1868 b + 8192) / 16384`, whose weights sum to
/// exactly `16384`, so an equal-channel pixel keeps its value.
pub open spec fn gray_of(b: u8, g: u8, r: u8) -> int {
    (r * 4899 + g * 9617 + b * 1868 + 8192) / 16384
}

/// The single-channel view of a color frame: pixel by pixel, the luma
/// of its three channels.
pub open spec fn gray_seq(data: Seq<u8>, pixels: int) -> Seq<u8> {
    Seq::new(pixels as nat, |i: int| gray_of(data[3 * i], data[3 * i + 1], data[3 * i + 2]) as u8)
}

/// A quotient stays below `k` when the dividend stays below `k * den`.
proof fn lemma_div_below(num: int, den: int, k: int)
    requires
        0 <= num,
        0 < den,
        num < k * den,
    ensures
        0 <= num / den < k,
{
    assert(0 <= num / den < k) by (nonlinear_arith)
        requires
            0 <= num,
            0 < den,
            num < k * den;
}

/// The luma is itself a byte value.
pub proof fn lemma_gray_range(b: u8, g: u8, r: u8)
    ensures
        0 <= gray_of(b, g, r) <= 255,
{
    lemma_div_below(r * 4899 + g * 9617 + b * 1868 + 8192, 16384, 256);
}

/// A pixel with three equal channels keeps its value under the luma
/// weighting.
pub proof fn lemma_gray_constant(v: u8)
    ensures
        gray_of(v, v, v) == v,
{
    assert(v * 4899 + v * 9617 + v * 1868 + 8192 == v * 16384 + 8192) by (nonlinear_arith);
    assert((v * 16384 + 8192) / 16384 == v) by (nonlinear_arith);
}

/// The luma of one pixel, in executable form.
fn luma(b: u8, g: u8, r: u8) -> (y: u8)
    ensures
        y == gray_of(b, g, r),
{
    let t: u32 = r as u32 * 4899 + g as u32 * 9617 + b as u32 * 1868 + 8192;
    proof {
        lemma_gray_range(b, g, r);
    }
    (t / 16384) as u8
}

/// Converts a color frame to its single-channel luma view; the extent
/// is kept and every output pixel is the luma of its input triple.
pub fn to_gray(img: &ColorImage) -> (out: GrayImage)
    requires
        img.well_formed(),
    ensures
        out.well_formed(),
        out.rows == img.rows,
        out.cols == img.cols,
        out.data@ == gray_seq(img.data@, img.rows * img.cols),
{
    let ghost pixels = (img.rows * img.cols) as int;
    let n = img.data.len() / 3;
    proof {
        assert(n == pixels) by {
            assert(img.data@.len() == (img.rows * img.cols) * 3);
            assert((pixels * 3) / 3 == pixels) by (nonlinear_arith);
        }
    }
    let mut data: Vec<u8> = Vec::new();
    let mut i: usize = 0;
    while i < n
        invariant
            img.well_formed(),
            n == pixels,
            pixels == img.rows * img.cols,
            img.data@.len() == pixels * 3,
            img.data@.len() <= usize::MAX,
            i <= n,
            data@.len() == i,
            forall|j: int| 0 <= j < i ==> data@[j] == gray_seq(img.data@, pixels)[j],
        decreases n - i,
    {
        proof {
            assert(3 * (i as int) + 2 < pixels * 3) by (nonlinear_arith)
                requires
                    (i as int) < pixels;
        }
        let b = img.data[3 * i];
        let g = img.data[3 * i + 1];
        let r = img.data[3 * i + 2];
        data.push(luma(b, g, r));
        i = i + 1;
    }
    proof {
        assert(data@ =~= gray_seq(img.data@, pixels));
    }
    GrayImage { rows: img.rows, cols: img.cols, data }
}

/// Maps a byte run through a 256-entry lookup table: byte for byte,
/// the output is the table entry the input byte selects.
pub fn apply_table(data: &Vec<u8>, table: &Vec<u8>) -> (out: Vec<u8>)
    requires
        table@.len() == 256,
    ensures
        out@.len() == data@.len(),
        forall|i: int| 0 <= i < data@.len() ==> #[trigger] out@[i] == table@[data@[i] as int],
{
    let mut out: Vec<u8> = Vec::new();
    let mut i: usize = 0;
    while i < data.len()
        invariant
            table@.len() == 256,
            i <= data@.len(),
            out@.len() == i,
            forall|j: int| 0 <= j < i ==> #[trigger] out@[j] == table@[data@[j] as int],
        decreases data@.len() - i,
    {
        let c = data[i];
        out.push(table[c as usize]);
        i = i + 1;
    }
    out
}

/// Builds the intensity-reduction table for a divisor: entry `i` is
/// `d * (i / d)`, the value of `i` rounded down to a multiple of `d`.
pub fn reduce_table(d: u8) -> (table: Vec<u8>)
    requires
        d > 0,
    ensures
        table@.len() == 256,
        forall|i: int| 0 <= i < 256 ==> #[trigger] table@[i] == d * (i / (d as int)),
{
    let mut table: Vec<u8> = Vec::new();
    let mut i: usize = 0;
    while i < 256
        invariant
            d > 0,
            i <= 256,
            table@.len() == i,
            forall|j: int| 0 <= j < i ==> #[trigger] table@[j] == d * (j / (d as int)),
        decreases 256 - i,
    {
        let v = i as u8;
        proof {
            assert((d as int) * ((i as int) / (d as int)) <= i as int) by (nonlinear_arith)
                requires
                    0 < (d as int),
                    0 <= (i as int),
                    (i as int) < 256;
            assert(0 <= (d as int) * ((i as int) / (d as int))) by (nonlinear_arith)
                requires
                    0 < (d as int),
                    0 <= (i as int);
            assert((v as int) / (d as int) == (i as int) / (d as int));
        }
        table.push(d * (v / d));
        i = i + 1;
    }
    table
}

/// Selects the bytes equal to `v`.
pub open spec fn eq_pred(v: u8) -> spec_fn(u8) -> bool {
    |x: u8| x == v
}

/// Selects the bytes at most `v`.
pub open spec fn le_pred(v: int) -> spec_fn(u8) -> bool {
    |x: u8| x as int <= v
}

/// How often the byte `v` occurs in the run.
pub open spec fn count_of(s: Seq<u8>, v: u8) -> int {
    s.filter(eq_pred(v)).len() as int
}

/// How many bytes of the run are at most `v` — the cumulative
/// histogram.
pub open spec fn cdf_of(s: Seq<u8>, v: int) -> int {
    if v < 0 {
        0
    } else {
        s.filter(le_pred(v)).len() as int
    }
}

/// The smallest byte value at or above `v` that occurs in the run,
/// or 256 when none does.
pub open spec fn low_from(s: Seq<u8>, v: int) -> int
    decreases 256 - v,
{
    if v >= 256 {
        256
    } else if count_of(s, v as u8) > 0 {
        v
    } else {
        low_from(s, v + 1)
    }
}

/// The smallest byte value that occurs in the run, or 256 for the
/// empty run.
pub open spec fn lowest(s: Seq<u8>) -> int {
    low_from(s, 0)
}

/// How often the smallest occurring value occurs.
pub open spec fn flat_base(s: Seq<u8>) -> int {
    if lowest(s) < 256 {
        count_of(s, lowest(s) as u8)
    } else {
        0
    }
}

/// The denominator of the equalization scale: the count of bytes
/// above the smallest occurring value. Zero exactly when the run is
/// empty or holds a single value.
pub open spec fn eq_denom(s: Seq<u8>) -> int {
    s.len() - flat_base(s)
}

/// The equalization table: the smallest occurring value maps to 0,
/// the largest occurring value to 255, and every value in between to
/// its cumulative share of the range, rounded to the nearest step.
pub open spec fn lut_of(s: Seq<u8>, v: int) -> int {
    if v < lowest(s) {
        0
    } else {
        ((cdf_of(s, v) - flat_base(s)) * 255 + eq_denom(s) / 2) / eq_denom(s)
    }
}

/// A run after histogram equalization: a flat or empty run is its own
/// fixed point; any other run is mapped byte for byte through its
/// equalization table.
pub open spec fn equalized(s: Seq<u8>) -> Seq<u8> {
    if eq_denom(s) == 0 {
        s
    } else {
        Seq::new(s.len(), |i: int| lut_of(s, s[i] as int) as u8)
    }
}

/// Every byte of the run has the same value.
pub open spec fn is_flat(s: Seq<u8>) -> bool {
    forall|i: int, j: int| 0 <= i < s.len() && 0 <= j < s.len() ==> s[i] == s[j]
}

/// Appending a byte raises exactly the count of its own value.
proof fn lemma_count_push(s: Seq<u8>, c: u8, v: u8)
    ensures
        count_of(s.push(c), v) == count_of(s, v) + if c == v {
            1int
        } else {
            0int
        },
{
    s.lemma_filter_push(c, eq_pred(v));
}

/// Appending a byte raises the cumulative histogram at `v` exactly
/// when the byte is at most `v`.
proof fn lemma_cdf_push(s: Seq<u8>, c: u8, v: int)
    ensures
        cdf_of(s.push(c), v) == cdf_of(s, v) + if c as int <= v {
            1int
        } else {
            0int
        },
{
    if v >= 0 {
        s.lemma_filter_push(c, le_pred(v));
    }
}

/// A filter that rejects every byte of the run keeps nothing.
proof fn lemma_filter_none(s: Seq<u8>, p: spec_fn(u8) -> bool)
    requires
        forall|i: int| 0 <= i < s.len() ==> !p(#[trigger] s[i]),
    ensures
        s.filter(p).len() == 0,
    decreases s.len(),
{
    if s.len() > 0 {
        let prefix = s.drop_last();
        let c = s.last();
        lemma_filter_none(prefix, p);
        prefix.lemma_filter_push(c, p);
        assert(prefix.push(c) =~= s);
    }
}

/// A filter that accepts every byte of the run keeps the whole run.
proof fn lemma_filter_all(s: Seq<u8>, p: spec_fn(u8) -> bool)
    requires
        forall|i: int| 0 <= i < s.len() ==> p(#[trigger] s[i]),
    ensures
        s.filter(p) == s,
    decreases s.len(),
{
    if s.len() == 0 {
        assert(s.filter(p) =~= s);
    } else {
        let prefix = s.drop_last();
        let c = s.last();
        lemma_filter_all(prefix, p);
        prefix.lemma_filter_push(c, p);
        assert(prefix.push(c) =~= s);
    }
}

/// The cumulative histogram at `v` splits into the part below and the
/// count at `v`.
proof fn lemma_cdf_split(s: Seq<u8>, v: int)
    requires
        0 <= v <= 255,
    ensures
        cdf_of(s, v) == cdf_of(s, v - 1) + count_of(s, v as u8),
    decreases s.len(),
{
    if s.len() == 0 {
    } else {
        let prefix = s.drop_last();
        let c = s.last();
        lemma_cdf_split(prefix, v);
        lemma_cdf_push(prefix, c, v);
        lemma_cdf_push(prefix, c, v - 1);
        lemma_count_push(prefix, c, v as u8);
        assert(prefix.push(c) =~= s);
    }
}

/// Below the smallest occurring value the cumulative histogram is
/// zero.
proof fn lemma_cdf_zero(s: Seq<u8>, v: int)
    requires
        v <= 255,
        forall|u: int| 0 <= u <= v ==> #[trigger] count_of(s, u as u8) == 0,
    ensures
        cdf_of(s, v) == 0,
    decreases v + 1,
{
    if v >= 0 {
        lemma_cdf_split(s, v);
        lemma_cdf_zero(s, v - 1);
    }
}

/// The cumulative histogram never falls as `v` grows.
proof fn lemma_cdf_mono(s: Seq<u8>, u: int, v: int)
    requires
        0 <= u,
        u <= v <= 255,
    ensures
        cdf_of(s, u) <= cdf_of(s, v),
    decreases v - u,
{
    if u < v {
        lemma_cdf_split(s, v);
        lemma_cdf_mono(s, u, v - 1);
    }
}

/// The search for the smallest occurring value lands on the first
/// value whose count is positive.
proof fn lemma_low_from_found(s: Seq<u8>, v0: int, i0: int)
    requires
        0 <= v0 <= i0 <= 255,
        forall|u: int| v0 <= u < i0 ==> #[trigger] count_of(s, u as u8) == 0,
        count_of(s, i0 as u8) > 0,
    ensures
        low_from(s, v0) == i0,
    decreases i0 - v0,
{
    if v0 < i0 {
        lemma_low_from_found(s, v0 + 1, i0);
    }
}

/// Copies a byte run.
fn copy_bytes(src: &Vec<u8>) -> (out: Vec<u8>)
    ensures
        out@ == src@,
{
    let mut out: Vec<u8> = Vec::new();
    let mut i: usize = 0;
    while i < src.len()
        invariant
            i <= src@.len(),
            out@.len() == i,
            forall|j: int| 0 <= j < i ==> out@[j] == src@[j],
        decreases src@.len() - i,
    {
        out.push(src[i]);
        i = i + 1;
    }
    proof {
        assert(out@ =~= src@);
    }
    out
}

/// Counts every byte value of a run: entry `v` of the result is the
/// number of bytes equal to `v`.
pub fn histogram(data: &Vec<u8>) -> (h: Vec<usize>)
    ensures
        h@.len() == 256,
        forall|v: int| 0 <= v < 256 ==> h@[v] == count_of(data@, v as u8),
{
    let mut h: Vec<usize> = Vec::new();
    let mut k: usize = 0;
    while k < 256
        invariant
            k <= 256,
            h@.len() == k,
            forall|j: int| 0 <= j < k ==> h@[j] == 0,
        decreases 256 - k,
    {
        h.push(0);
        k = k + 1;
    }
    let mut i: usize = 0;
    proof {
        assert forall|v: int| 0 <= v < 256 implies h@[v] == count_of(
            data@.take(0int),
            v as u8,
        ) by {
            assert(data@.take(0int).filter(eq_pred(v as u8)).len() <= data@.take(0int).len());
        }
    }
    while i < data.len()
        invariant
            i <= data@.len(),
            h@.len() == 256,
            forall|v: int| 0 <= v < 256 ==> h@[v] == count_of(data@.take(i as int), v as u8),
        decreases data@.len() - i,
    {
        let c = data[i];
        let cur = h[c as usize];
        proof {
            assert(count_of(data@.take(i as int), c) <= data@.take(i as int).len()) by {
                assert(data@.take(i as int).filter(eq_pred(c)).len() <= data@.take(i as int).len());
            }
        }
        h.set(c as usize, cur + 1);
        proof {
            let prefix = data@.take(i as int);
            assert(prefix.push(c) =~= data@.take(i as int + 1));
            assert forall|v: int| 0 <= v < 256 implies h@[v] == count_of(
                data@.take(i as int + 1),
                v as u8,
            ) by {
                lemma_count_push(prefix, c, v as u8);
            }
        }
        i = i + 1;
    }
    proof {
        assert(data@.take(data@.len() as int) =~= data@);
    }
    h
}

/// Equalizes the histogram of a single-channel frame: the extent is
/// kept, and the bytes are remapped through the frame's own
/// equalization table — so a flat frame comes back unchanged.
pub fn equalize(g: &GrayImage) -> (out: GrayImage)
    requires
        g.well_formed(),
    ensures
        out.well_formed(),
        out.rows == g.rows,
        out.cols == g.cols,
        out.data@ == equalized(g.data@),
{
    let ghost s = g.data@;
    let n = g.data.len();
    let h = histogram(&g.data);
    if n == 0 {
        proof {
            if lowest(s) < 256 {
                assert(s.filter(eq_pred(lowest(s) as u8)).len() <= s.len());
            }
        }
        let data = copy_bytes(&g.data);
        return GrayImage { rows: g.rows, cols: g.cols, data };
    }
    let ghost v0 = s[0];
    proof {
        assert(eq_pred(v0)(s[0]));
        s.lemma_filter_contains(eq_pred(v0), 0);
        assert(count_of(s, v0) > 0);
    }
    let mut i0: usize = 0;
    while h[i0] == 0
        invariant
            h@.len() == 256,
            forall|v: int| 0 <= v < 256 ==> h@[v] == count_of(s, v as u8),
            count_of(s, v0) > 0,
            i0 as int <= v0 as int,
            forall|u: int| 0 <= u < i0 ==> #[trigger] count_of(s, u as u8) == 0,
        decreases 256 - i0,
    {
        i0 = i0 + 1;
    }
    proof {
        lemma_low_from_found(s, 0, i0 as int);
        lemma_cdf_zero(s, i0 as int - 1);
        lemma_cdf_split(s, i0 as int);
        assert(count_of(s, i0 as u8) <= s.len()) by {
            assert(s.filter(eq_pred(i0 as u8)).len() <= s.len());
        }
    }
    let base = h[i0];
    let denom = n - base;
    if denom == 0 {
        let data = copy_bytes(&g.data);
        return GrayImage { rows: g.rows, cols: g.cols, data };
    }
    let mut lut: Vec<u8> = Vec::new();
    let mut cum: usize = 0;
    let mut v: usize = 0;
    while v < 256
        invariant
            h@.len() == 256,
            forall|u: int| 0 <= u < 256 ==> h@[u] == count_of(s, u as u8),
            n == s.len(),
            v <= 256,
            lut@.len() == v,
            cum == cdf_of(s, v as int - 1),
            lowest(s) == i0 as int,
            i0 < 256,
            flat_base(s) == base as int,
            cdf_of(s, i0 as int) == base as int,
            eq_denom(s) == denom as int,
            denom > 0,
            base <= n,
            forall|w: int| 0 <= w < v ==> lut@[w] == lut_of(s, w),
        decreases 256 - v,
    {
        let hv = h[v];
        proof {
            lemma_cdf_split(s, v as int);
            assert(cdf_of(s, v as int) <= s.len()) by {
                assert(s.filter(le_pred(v as int)).len() <= s.len());
            }
            assert(cum <= s.len()) by {
                if v as int - 1 >= 0 {
                    assert(s.filter(le_pred(v as int - 1)).len() <= s.len());
                }
            }
        }
        let new_cum = cum + hv;
        let entry: u8;
        if v < i0 {
            entry = 0;
        } else {
            proof {
                lemma_cdf_mono(s, i0 as int, v as int);
                lemma_div_below(denom as int, 2, denom as int);
            }
            let num: u128 = (new_cum - base) as u128 * 255 + (denom as u128) / 2;
            proof {
                lemma_div_below(num as int, denom as int, 256);
            }
            let q = num / (denom as u128);
            entry = q as u8;
        }
        lut.push(entry);
        cum = new_cum;
        v = v + 1;
    }
    let data = apply_table(&g.data, &lut);
    proof {
        assert(data@ =~= equalized(s));
    }
    GrayImage { rows: g.rows, cols: g.cols, data }
}

/// The preprocessor of the pipeline: grayscale conversion followed by
/// histogram equalization. The output has a single channel and the
/// input's exact extent.
pub fn preprocess(img: &ColorImage) -> (out: GrayImage)
    requires
        img.well_formed(),
    ensures
        out.well_formed(),
        out.rows == img.rows,
        out.cols == img.cols,
        out.data@ == equalized(gray_seq(img.data@, img.rows * img.cols)),
{
    let gray = to_gray(img);
    equalize(&gray)
}

/// Equalization leaves a flat run untouched: a run of one repeated
/// byte value is its own equalization fixed point.
pub proof fn lemma_equalized_flat(s: Seq<u8>)
    requires
        is_flat(s),
    ensures
        equalized(s) == s,
{
    if s.len() == 0 {
        if lowest(s) < 256 {
            assert(s.filter(eq_pred(lowest(s) as u8)).len() <= s.len());
        }
    } else {
        let v0 = s[0];
        assert forall|i: int| 0 <= i < s.len() implies eq_pred(v0)(#[trigger] s[i]) by {
            assert(s[i] == s[0]);
        }
        lemma_filter_all(s, eq_pred(v0));
        assert(count_of(s, v0) == s.len());
        assert forall|u: int| 0 <= u < v0 as int implies #[trigger] count_of(s, u as u8) == 0 by {
            lemma_filter_none(s, eq_pred(u as u8));
        }
        lemma_low_from_found(s, 0, v0 as int);
        assert(flat_base(s) == s.len());
    }
}

/// Preprocessing is a fixed point on a flat frame: a color frame whose
/// bytes all hold one value `v` grays to a flat single-channel frame
/// of the same `v`, and equalizing that frame — or the result again —
/// changes nothing.
pub proof fn lemma_preprocess_flat(data: Seq<u8>, pixels: int)
    requires
        is_flat(data),
        0 <= pixels,
        data.len() == pixels * 3,
    ensures
        is_flat(gray_seq(data, pixels)),
        equalized(gray_seq(data, pixels)) == gray_seq(data, pixels),
        forall|i: int| 0 <= i < pixels ==> gray_seq(data, pixels)[i] == data[0],
{
    assert forall|i: int| 0 <= i < pixels implies gray_seq(data, pixels)[i] == data[0] by {
        assert(3 * i + 2 < pixels * 3) by (nonlinear_arith)
            requires
                0 <= i,
                i < pixels;
        assert(data[3 * i] == data[0]);
        assert(data[3 * i + 1] == data[0]);
        assert(data[3 * i + 2] == data[0]);
        lemma_gray_constant(data[0]);
    }
    lemma_equalized_flat(gray_seq(data, pixels));
}

/// The sharpening combination of five channel bytes, in wrapping
/// byte arithmetic: five times the center minus its four horizontal
/// neighbors, taken modulo 256 (the constant 1024 only lifts the
/// dividend above zero and is a multiple of 256).
pub open spec fn sharp_of(pp: u8, p: u8, c: u8, n: u8, nn: u8) -> int {
    (5 * c + 1024 - pp - p - n - nn) % 256
}

/// A color frame's byte run after the sharpening mask: every channel
/// of a pixel at least three pixels from either end is the sharpening
/// combination of that channel at offsets -3, -1, 0, +1 and +3
/// pixels; the three border pixels at each end stay zero.
pub open spec fn sharpened(s: Seq<u8>, pixels: int) -> Seq<u8> {
    Seq::new(
        s.len(),
        |k: int|
            if 3 <= k / 3 && k / 3 < pixels - 3 {
                sharp_of(s[k - 9], s[k - 3], s[k], s[k + 3], s[k + 9]) as u8
            } else {
                0u8
            },
    )
}

/// The sharpening combination of one channel, in executable form.
fn sharp_byte(pp: u8, p: u8, c: u8, n: u8, nn: u8) -> (r: u8)
    ensures
        r == sharp_of(pp, p, c, n, nn),
{
    let t: i32 = 5 * c as i32 + 1024 - pp as i32 - p as i32 - n as i32 - nn as i32;
    (t % 256) as u8
}

/// Applies the sharpening mask to a color frame: the extent is kept,
/// interior pixels get the wrapped five-point combination channel by
/// channel, and the three border pixels at each end stay zero.
pub fn sharpen(img: &ColorImage) -> (out: ColorImage)
    requires
        img.well_formed(),
    ensures
        out.well_formed(),
        out.rows == img.rows,
        out.cols == img.cols,
        out.data@ == sharpened(img.data@, img.rows * img.cols),
{
    let ghost s = img.data@;
    let ghost np = (img.rows * img.cols) as int;
    let n = img.data.len() / 3;
    proof {
        assert(n == np) by {
            assert(img.data@.len() == (img.rows * img.cols) * 3);
            assert((np * 3) / 3 == np) by (nonlinear_arith);
        }
    }
    let mut data: Vec<u8> = Vec::new();
    let mut i: usize = 0;
    while i < n
        invariant
            img.well_formed(),
            n == np,
            np == img.rows * img.cols,
            s == img.data@,
            s.len() == np * 3,
            s.len() <= usize::MAX,
            i <= n,
            data@.len() == 3 * i,
            forall|m: int| 0 <= m < 3 * i ==> data@[m] == sharpened(s, np)[m],
        decreases n - i,
    {
        proof {
            assert((3 * (i as int)) / 3 == i as int && (3 * (i as int) + 1) / 3 == i as int && (3
                * (i as int) + 2) / 3 == i as int) by (nonlinear_arith)
                requires
                    0 <= (i as int);
            assert(3 * (i as int) + 2 < np * 3) by (nonlinear_arith)
                requires
                    (i as int) < np;
        }
        if 3 <= i && i + 3 < n {
            proof {
                assert(3 * ((i as int) + 3) + 2 < np * 3) by (nonlinear_arith)
                    requires
                        (i as int) + 3 < np;
            }
            let mut j: usize = 0;
            let base = 3 * i;
            while j < 3
                invariant
                    img.well_formed(),
                    s == img.data@,
                    s.len() == np * 3,
                    s.len() <= usize::MAX,
                    3 <= i as int,
                    (i as int) + 3 < np,
                    base == 3 * i,
                    3 * (i as int) + 2 < np * 3,
                    3 * ((i as int) + 3) + 2 < np * 3,
                    (3 * (i as int)) / 3 == i as int && (3 * (i as int) + 1) / 3 == i as int && (3
                        * (i as int) + 2) / 3 == i as int,
                    j <= 3,
                    data@.len() == 3 * i + j,
                    forall|m: int| 0 <= m < 3 * i + j ==> data@[m] == sharpened(s, np)[m],
                decreases 3 - j,
            {
                let k = base + j;
                let pp = img.data[k - 9];
                let p = img.data[k - 3];
                let c = img.data[k];
                let nx = img.data[k + 3];
                let nn = img.data[k + 9];
                data.push(sharp_byte(pp, p, c, nx, nn));
                j = j + 1;
            }
        } else {
            data.push(0);
            data.push(0);
            data.push(0);
        }
        i = i + 1;
    }
    proof {
        assert(data@ =~= sharpened(s, np));
    }
    ColorImage { rows: img.rows, cols: img.cols, data }
}

/// Reduces a color frame's intensities to multiples of `divisor` by
/// mapping every channel byte through the reduction table.
pub fn reduce_colors(img: &ColorImage, divisor: u8) -> (out: ColorImage)
    requires
        img.well_formed(),
        divisor > 0,
    ensures
        out.well_formed(),
        out.rows == img.rows,
        out.cols == img.cols,
        out.data@.len() == img.data@.len(),
        forall|i: int|
            0 <= i < img.data@.len() ==> #[trigger] out.data@[i] == divisor * (img.data@[i] as int
                / divisor as int),
{
    let table = reduce_table(divisor);
    let data = apply_table(&img.data, &table);
    ColorImage { rows: img.rows, cols: img.cols, data }
}

} // verus!
