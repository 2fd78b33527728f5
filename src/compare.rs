use vstd::prelude::*;

use crate::bitmap::{Bitmap, byte_index, lemma_pixel_in_bounds};
use crate::session::SkipReason;
use crate::types::{CaptureError, CaptureErrorKind};

verus! {

/// A sampled mean absolute RGB difference: `total` sums |dR| + |dG| + |dB|
/// over `samples` pixels, so the mean per channel is `total / (3 * samples)`.
/// A score with no samples stands for "no comparison could be made".
#[derive(Debug, Clone, Copy, PartialEq, Eq, Structural)]
pub struct Score {
    pub total: u64,
    pub samples: u64,
}

/// Mean difference (in hundredths) at or above which two frames count as changed.
pub const CHANGE_THRESHOLD_CENTI: u32 = 180;

/// Mean seam difference (in hundredths) above which an overlap is rejected.
pub const MAX_MATCH_ERROR_CENTI: u32 = 4200;

/// Fewest rows an overlap candidate may share.
pub const MIN_OVERLAP: u32 = 24;

/// Fewest new rows a frame is expected to bring.
pub const MIN_NEW_CONTENT: u32 = 40;

/// The score reported when there is nothing to sample: 255 per channel.
pub open spec fn max_score() -> Score {
    Score { total: 765, samples: 1 }
}

/// Mean of `s` at or above `centi / 100`; a score without samples counts as maximal.
pub open spec fn spec_at_least(s: Score, centi: int) -> bool {
    100 * s.total >= 3 * centi * s.samples
}

/// Mean of `s` above `centi / 100`.
pub open spec fn spec_above(s: Score, centi: int) -> bool {
    100 * s.total > 3 * centi * s.samples
}

/// `a` has a strictly smaller mean than `b` (both with samples).
pub open spec fn spec_less(a: Score, b: Score) -> bool {
    a.total * b.samples < b.total * a.samples
}

pub open spec fn abs_diff(p: u8, q: u8) -> int {
    if p >= q {
        p - q
    } else {
        q - p
    }
}

/// |dR| + |dG| + |dB| between pixel (x, ay) of `a` and pixel (x, by) of `b`.
pub open spec fn pixel_diff(a: Bitmap, b: Bitmap, x: int, ay: int, by: int) -> int {
    let w = a.width as int;
    abs_diff(a.pixels@[byte_index(w, x, ay, 0)], b.pixels@[byte_index(w, x, by, 0)])
        + abs_diff(a.pixels@[byte_index(w, x, ay, 1)], b.pixels@[byte_index(w, x, by, 1)])
        + abs_diff(a.pixels@[byte_index(w, x, ay, 2)], b.pixels@[byte_index(w, x, by, 2)])
}

/// Positions `lo, lo + step, ...` below `hi`: how many there are.
pub open spec fn stride_count(lo: int, hi: int, step: int) -> int
    decreases (if lo < hi { hi - lo } else { 0 }),
{
    if step <= 0 || lo >= hi {
        0
    } else {
        1 + stride_count(lo + step, hi, step)
    }
}

/// Sampling stride for a run of `len` positions with about `k` samples.
pub open spec fn step_for(len: int, k: int) -> int {
    if len / k >= 1 {
        len / k
    } else {
        1
    }
}

/// Sum of `pixel_diff` along one row, at columns `x, x + step, ...` below `x_end`.
pub open spec fn row_total(a: Bitmap, b: Bitmap, ay: int, by: int, x: int, x_end: int, step: int) -> int
    decreases (if x < x_end { x_end - x } else { 0 }),
{
    if step <= 0 || x >= x_end {
        0
    } else {
        pixel_diff(a, b, x, ay, by) + row_total(a, b, ay, by, x + step, x_end, step)
    }
}

/// Sum over rows `r, r + rs, ...` below `n` of the row totals comparing row
/// `a_top + r` of `a` with row `r` of `b`, over columns `x0, x0 + cs, ...` below `x1`.
pub open spec fn band_total(
    a: Bitmap,
    b: Bitmap,
    a_top: int,
    r: int,
    n: int,
    rs: int,
    x0: int,
    x1: int,
    cs: int,
) -> int
    decreases (if r < n { n - r } else { 0 }),
{
    if rs <= 0 || r >= n {
        0
    } else {
        row_total(a, b, a_top + r, r, x0, x1, cs) + band_total(a, b, a_top, r + rs, n, rs, x0, x1, cs)
    }
}

/// The sampled score of a band.
pub open spec fn band_score(a: Bitmap, b: Bitmap, a_top: int, n: int, rs: int, x0: int, x1: int, cs: int) -> Score {
    Score {
        total: band_total(a, b, a_top, 0, n, rs, x0, x1, cs) as u64,
        samples: (stride_count(0, n, rs) * stride_count(x0, x1, cs)) as u64,
    }
}

/// Whole-frame difference: every `max(1, width / 80)`-th column of every
/// `max(1, height / 80)`-th row.
pub open spec fn spec_difference(a: Bitmap, b: Bitmap) -> Score {
    if a.width == 0 || a.height == 0 {
        max_score()
    } else {
        band_score(
            a,
            b,
            0,
            a.height as int,
            step_for(a.height as int, 80),
            0,
            a.width as int,
            step_for(a.width as int, 80),
        )
    }
}

pub open spec fn band_x0(w: int) -> int {
    w * 15 / 100
}

pub open spec fn band_x1(w: int) -> int {
    w * 85 / 100
}

/// Seam difference for an overlap of `o` rows: the bottom `o` rows of `a`
/// against the top `o` rows of `b`, in the central 15%..85% of the width.
pub open spec fn spec_overlap_error(a: Bitmap, b: Bitmap, o: int) -> Score {
    let h = a.height as int;
    let w = a.width as int;
    if o <= 0 || o > h {
        Score { total: 0, samples: 0 }
    } else {
        band_score(
            a,
            b,
            h - o,
            o,
            step_for(o, 80),
            band_x0(w),
            band_x1(w),
            step_for(band_x1(w) - band_x0(w), 70),
        )
    }
}

pub open spec fn min_overlap(h: int) -> int {
    let m = if h >= 1 {
        h - 1
    } else {
        0
    };
    if MIN_OVERLAP <= m {
        MIN_OVERLAP as int
    } else {
        m
    }
}

pub open spec fn max_overlap(h: int) -> int {
    let m = if h >= MIN_NEW_CONTENT {
        h - MIN_NEW_CONTENT
    } else {
        0
    };
    if m >= min_overlap(h) {
        m
    } else {
        min_overlap(h)
    }
}

/// `e` beats the best candidate so far: it has samples and a strictly smaller mean.
pub open spec fn improves(e: Score, best: Option<(u32, Score)>) -> bool {
    e.samples > 0 && match best {
        None => true,
        Some(p) => spec_less(e, p.1),
    }
}

/// The search over overlaps `o, o + 2, ...` up to `hi`, from `best`; the first
/// minimum wins.
pub open spec fn best_from(a: Bitmap, b: Bitmap, o: int, hi: int, best: Option<(u32, Score)>) -> Option<(u32, Score)>
    decreases hi + 2 - o,
{
    if o > hi {
        best
    } else {
        let e = spec_overlap_error(a, b, o);
        best_from(a, b, o + 2, hi, if improves(e, best) { Some((o as u32, e)) } else { best })
    }
}

/// The best overlap between `a` and `b` with its score, before the quality ceiling.
pub open spec fn spec_best_overlap(a: Bitmap, b: Bitmap) -> Option<(u32, Score)> {
    best_from(a, b, min_overlap(a.height as int), max_overlap(a.height as int), None)
}

/// What `find_best_overlap` returns.
pub open spec fn spec_find_best_overlap(a: Bitmap, b: Bitmap) -> Result<(u32, Score), ()> {
    match spec_best_overlap(a, b) {
        None => Err(()),
        Some(p) => if spec_above(p.1, MAX_MATCH_ERROR_CENTI as int) {
            Err(())
        } else {
            Ok(p)
        },
    }
}

// ---------------------------------------------------------------- lemmas

proof fn lemma_stride_count_mul(lo: int, hi: int, s: int)
    requires
        s >= 1,
        lo <= hi,
    ensures
        0 <= stride_count(lo, hi, s),
        stride_count(lo, hi, s) * s <= hi - lo + s - 1,
    decreases hi - lo,
{
    if lo < hi {
        let c = stride_count(lo + s, hi, s);
        if lo + s <= hi {
            lemma_stride_count_mul(lo + s, hi, s);
        } else {
            assert(c == 0);
        }
        assert(stride_count(lo, hi, s) == 1 + c);
        assert((1 + c) * s == s + c * s) by (nonlinear_arith);
        assert(c * s <= hi - lo - 1);
        assert(stride_count(lo, hi, s) * s == (1 + c) * s);
    } else {
        assert(stride_count(lo, hi, s) == 0);
        assert(0 * s == 0);
    }
}

proof fn lemma_stride_positive(lo: int, hi: int, s: int)
    requires
        s >= 1,
        lo < hi,
    ensures
        stride_count(lo, hi, s) >= 1,
{
    if lo + s <= hi {
        lemma_stride_count_mul(lo + s, hi, s);
    } else {
        assert(stride_count(lo + s, hi, s) == 0);
    }
    assert(stride_count(lo, hi, s) == 1 + stride_count(lo + s, hi, s));
}

/// A run sampled with stride `step_for(hi - lo, k)` has at most `2k` samples.
pub proof fn lemma_stride_bound(lo: int, hi: int, k: int)
    requires
        lo <= hi,
        k >= 1,
    ensures
        0 <= stride_count(lo, hi, step_for(hi - lo, k)) <= 2 * k,
{
    let len = hi - lo;
    let s = step_for(len, k);
    lemma_stride_count_mul(lo, hi, s);
    let c = stride_count(lo, hi, s);
    if len / k >= 1 {
        assert(len < k * (s + 1)) by (nonlinear_arith)
            requires
                s == len / k,
                k >= 1,
                len >= 0,
        ;
        assert(c <= 2 * k) by (nonlinear_arith)
            requires
                c * s <= len + s - 1,
                len < k * (s + 1),
                s >= 1,
                k >= 1,
                c >= 0,
        ;
    } else {
        assert(len < k) by (nonlinear_arith)
            requires
                len / k < 1,
                k >= 1,
                len >= 0,
        ;
    }
}

/// Each sampled pixel contributes at most 3 * 255.
proof fn lemma_row_total_bound(a: Bitmap, b: Bitmap, ay: int, by: int, x: int, x_end: int, step: int)
    requires
        step >= 1,
    ensures
        0 <= row_total(a, b, ay, by, x, x_end, step) <= 765 * stride_count(x, x_end, step),
    decreases (if x < x_end { x_end - x } else { 0 }),
{
    if x < x_end {
        lemma_row_total_bound(a, b, ay, by, x + step, x_end, step);
    }
}

/// Comparing a bitmap with itself row for row sums to zero.
proof fn lemma_row_total_self(a: Bitmap, y: int, x: int, x_end: int, step: int)
    ensures
        row_total(a, a, y, y, x, x_end, step) == 0,
    decreases (if x < x_end { x_end - x } else { 0 }),
{
    if step > 0 && x < x_end {
        lemma_row_total_self(a, y, x + step, x_end, step);
    }
}

proof fn lemma_band_total_self(a: Bitmap, r: int, n: int, rs: int, x0: int, x1: int, cs: int)
    ensures
        band_total(a, a, 0, r, n, rs, x0, x1, cs) == 0,
    decreases (if r < n { n - r } else { 0 }),
{
    if rs > 0 && r < n {
        lemma_row_total_self(a, r, x0, x1, cs);
        lemma_band_total_self(a, r + rs, n, rs, x0, x1, cs);
    }
}

/// Any bitmap compared with itself scores zero: no sampled channel differs.
pub proof fn lemma_difference_of_identical_is_zero(a: Bitmap)
    requires
        a.width > 0,
        a.height > 0,
    ensures
        spec_difference(a, a).total == 0,
        !spec_at_least(spec_difference(a, a), 1),
{
    let rows = stride_count(0, a.height as int, step_for(a.height as int, 80));
    let cols = stride_count(0, a.width as int, step_for(a.width as int, 80));
    lemma_stride_positive(0, a.height as int, step_for(a.height as int, 80));
    lemma_stride_positive(0, a.width as int, step_for(a.width as int, 80));
    lemma_stride_bound(0, a.height as int, 80);
    lemma_stride_bound(0, a.width as int, 80);
    assert(1 <= rows * cols <= 160 * 160) by (nonlinear_arith)
        requires
            1 <= rows <= 160,
            1 <= cols <= 160,
    ;
    lemma_band_total_self(
        a,
        0,
        a.height as int,
        step_for(a.height as int, 80),
        0,
        a.width as int,
        step_for(a.width as int, 80),
    );
    let d = spec_difference(a, a);
    assert(d.samples == (rows * cols) as u64);
    assert(d.samples >= 1);
    assert(d.total == 0);
    assert(100 * (d.total as int) < 3 * (d.samples as int));
}

/// An overlap that the search from `lo` visits: `lo`, `lo + 2`, ...
pub open spec fn is_candidate(lo: int, hi: int, c: int) -> bool {
    lo <= c <= hi && (c - lo) % 2 == 0
}

/// What holds of the best candidate `best` after the search visited the
/// candidates below `upto`.
pub open spec fn search_facts(a: Bitmap, b: Bitmap, lo: int, upto: int, best: Option<(u32, Score)>) -> bool {
    match best {
        None => forall|c: int| is_candidate(lo, upto - 1, c) ==> (#[trigger] spec_overlap_error(a, b, c)).samples == 0,
        Some(p) => {
            &&& is_candidate(lo, upto - 1, p.0 as int)
            &&& p.1 == spec_overlap_error(a, b, p.0 as int)
            &&& p.1.samples > 0
            &&& forall|c: int|
                is_candidate(lo, upto - 1, c) && (#[trigger] spec_overlap_error(a, b, c)).samples > 0
                    ==> !spec_less(spec_overlap_error(a, b, c), p.1)
            &&& forall|c: int|
                is_candidate(lo, p.0 - 1, c) && (#[trigger] spec_overlap_error(a, b, c)).samples > 0
                    ==> spec_less(p.1, spec_overlap_error(a, b, c))
        },
    }
}

/// With samples on both sides, `x < y <= z` gives `x < z`.
proof fn lemma_less_then_not_less(x: Score, y: Score, z: Score)
    requires
        x.samples > 0,
        y.samples > 0,
        z.samples > 0,
        spec_less(x, y),
        !spec_less(z, y),
    ensures
        spec_less(x, z),
{
    let (xt, xs, yt, ys, zt, zs) = (x.total as int, x.samples as int, y.total as int, y.samples as int, z.total as int, z.samples as int);
    assert(xt * ys < yt * xs);
    assert(yt * zs <= zt * ys);
    assert(xt * ys * zs < yt * xs * zs) by (nonlinear_arith)
        requires
            xt * ys < yt * xs,
            zs > 0,
    ;
    assert(yt * zs * xs <= zt * ys * xs) by (nonlinear_arith)
        requires
            yt * zs <= zt * ys,
            xs > 0,
    ;
    assert(xt * zs < zt * xs) by (nonlinear_arith)
        requires
            xt * ys * zs < yt * xs * zs,
            yt * zs * xs <= zt * ys * xs,
            ys > 0,
    ;
}

proof fn lemma_best_from_facts(a: Bitmap, b: Bitmap, lo: int, o: int, hi: int, best: Option<(u32, Score)>)
    requires
        lo <= o,
        (o - lo) % 2 == 0,
        hi <= u32::MAX,
        search_facts(a, b, lo, o, best),
    ensures
        search_facts(a, b, lo, if o > hi { o } else { hi + 1 }, best_from(a, b, o, hi, best)),
    decreases hi + 2 - o,
{
    if o <= hi {
        let e = spec_overlap_error(a, b, o);
        let next = if improves(e, best) {
            Some((o as u32, e))
        } else {
            best
        };
        assert(search_facts(a, b, lo, o + 2, next)) by {
            if improves(e, best) {
                assert forall|c: int|
                    is_candidate(lo, o + 1, c) && (#[trigger] spec_overlap_error(a, b, c)).samples > 0 implies !spec_less(
                    spec_overlap_error(a, b, c),
                    e,
                ) by {
                    if c < o {
                        let p = best.unwrap();
                        lemma_less_then_not_less(e, p.1, spec_overlap_error(a, b, c));
                    }
                }
                assert forall|c: int|
                    is_candidate(lo, o - 1, c) && (#[trigger] spec_overlap_error(a, b, c)).samples > 0 implies spec_less(
                    e,
                    spec_overlap_error(a, b, c),
                ) by {
                    let p = best.unwrap();
                    lemma_less_then_not_less(e, p.1, spec_overlap_error(a, b, c));
                }
            } else {
                match best {
                    None => {
                        assert forall|c: int| is_candidate(lo, o + 1, c) implies (#[trigger] spec_overlap_error(a, b, c)).samples == 0 by {
                            if c < o {
                                assert(is_candidate(lo, o - 1, c));
                            }
                        }
                    },
                    Some(p) => {
                        assert forall|c: int|
                            is_candidate(lo, o + 1, c) && (#[trigger] spec_overlap_error(a, b, c)).samples > 0 implies !spec_less(
                            spec_overlap_error(a, b, c),
                            p.1,
                        ) by {
                            if c < o {
                                assert(is_candidate(lo, o - 1, c));
                            }
                        }
                    },
                }
            }
        }
        lemma_best_from_facts(a, b, lo, o + 2, hi, next);
    }
}

/// The overlap search keeps the first minimum: the overlap it settles on is
/// one of its candidates, with samples; no candidate scores strictly lower;
/// and every earlier candidate with samples scores strictly higher.
pub proof fn lemma_best_overlap_is_first_minimum(a: Bitmap, b: Bitmap)
    requires
        spec_best_overlap(a, b) is Some,
    ensures
        ({
            let lo = min_overlap(a.height as int);
            let hi = max_overlap(a.height as int);
            let p = spec_best_overlap(a, b).unwrap();
            &&& is_candidate(lo, hi, p.0 as int)
            &&& p.1 == spec_overlap_error(a, b, p.0 as int)
            &&& p.1.samples > 0
            &&& forall|c: int|
                is_candidate(lo, hi, c) && (#[trigger] spec_overlap_error(a, b, c)).samples > 0
                    ==> !spec_less(spec_overlap_error(a, b, c), p.1)
            &&& forall|c: int|
                is_candidate(lo, p.0 - 1, c) && (#[trigger] spec_overlap_error(a, b, c)).samples > 0
                    ==> spec_less(p.1, spec_overlap_error(a, b, c))
        }),
{
    let lo = min_overlap(a.height as int);
    let hi = max_overlap(a.height as int);
    lemma_best_from_facts(a, b, lo, lo, hi, None);
}

// ---------------------------------------------------------------- exec

/// |dR| + |dG| + |dB| between pixel (x, ay) of `a` and pixel (x, by) of `b`.
fn pixel_abs_diff(a: &Bitmap, b: &Bitmap, x: usize, ay: usize, by: usize) -> (d: u64)
    requires
        a.wf(),
        b.wf(),
        a.width == b.width,
        x < a.width,
        ay < a.height,
        by < b.height,
    ensures
        d == pixel_diff(*a, *b, x as int, ay as int, by as int),
        d <= 765,
{
    let w = a.width as usize;
    let _ = a.pixels.len();
    let _ = b.pixels.len();
    proof {
        lemma_pixel_in_bounds(a.width as int, a.height as int, x as int, ay as int, 3);
        lemma_pixel_in_bounds(b.width as int, b.height as int, x as int, by as int, 3);
    }
    let ia = (ay * w + x) * 4;
    let ib = (by * w + x) * 4;
    let d0 = byte_abs_diff(a.pixels[ia], b.pixels[ib]);
    let d1 = byte_abs_diff(a.pixels[ia + 1], b.pixels[ib + 1]);
    let d2 = byte_abs_diff(a.pixels[ia + 2], b.pixels[ib + 2]);
    d0 as u64 + d1 as u64 + d2 as u64
}

fn byte_abs_diff(p: u8, q: u8) -> (r: u8)
    ensures
        r == abs_diff(p, q),
{
    if p >= q {
        p - q
    } else {
        q - p
    }
}

/// The band sampler behind both `difference` and the overlap error.
fn sample_band(
    a: &Bitmap,
    b: &Bitmap,
    a_top: u32,
    n: u32,
    rs: u32,
    x0: u32,
    x1: u32,
    cs: u32,
) -> (s: Score)
    requires
        a.wf(),
        b.wf(),
        a.width == b.width,
        a_top + n <= a.height,
        n <= b.height,
        x0 <= x1 <= a.width,
        rs >= 1,
        cs >= 1,
        stride_count(0, n as int, rs as int) <= 160,
        stride_count(x0 as int, x1 as int, cs as int) <= 160,
    ensures
        s == band_score(*a, *b, a_top as int, n as int, rs as int, x0 as int, x1 as int, cs as int),
        s.total <= 765 * s.samples,
{
    let ghost cols = stride_count(x0 as int, x1 as int, cs as int);
    let ghost rows = stride_count(0, n as int, rs as int);
    let ghost whole = band_total(*a, *b, a_top as int, 0, n as int, rs as int, x0 as int, x1 as int, cs as int);
    proof {
        lemma_stride_count_mul(x0 as int, x1 as int, cs as int);
        lemma_stride_count_mul(0, n as int, rs as int);
        assert(rows * cols <= 160 * 160) by (nonlinear_arith)
            requires
                0 <= rows <= 160,
                0 <= cols <= 160,
        ;
    }
    let mut total: u64 = 0;
    let mut samples: u64 = 0;
    let mut r: u64 = 0;
    while r < n as u64
        invariant
            a.wf(),
            b.wf(),
            a.width == b.width,
            a_top + n <= a.height,
            n <= b.height,
            x0 <= x1 <= a.width,
            rs >= 1,
            cs >= 1,
            0 <= cols <= 160,
            0 <= rows <= 160,
            rows * cols <= 160 * 160,
            cols == stride_count(x0 as int, x1 as int, cs as int),
            rows == stride_count(0, n as int, rs as int),
            whole == band_total(*a, *b, a_top as int, 0, n as int, rs as int, x0 as int, x1 as int, cs as int),
            r <= n + rs,
            r <= n || stride_count(r as int, n as int, rs as int) == 0,
            0 <= stride_count(r as int, n as int, rs as int),
            total + band_total(*a, *b, a_top as int, r as int, n as int, rs as int, x0 as int, x1 as int, cs as int) == whole,
            samples + stride_count(r as int, n as int, rs as int) * cols == rows * cols,
            total <= 765 * samples,
        decreases n + rs - r,
    {
        let ay = (a_top as u64 + r) as usize;
        let by = r as usize;
        let ghost rt = row_total(*a, *b, ay as int, by as int, x0 as int, x1 as int, cs as int);
        let mut row: u64 = 0;
        let mut count: u64 = 0;
        let mut x: u64 = x0 as u64;
        while x < x1 as u64
            invariant
                a.wf(),
                b.wf(),
                a.width == b.width,
                ay < a.height,
                by < b.height,
                x0 <= x1 <= a.width,
                cs >= 1,
                x >= x0,
                cols == stride_count(x0 as int, x1 as int, cs as int),
                0 <= cols <= 160,
                rt == row_total(*a, *b, ay as int, by as int, x0 as int, x1 as int, cs as int),
                row + row_total(*a, *b, ay as int, by as int, x as int, x1 as int, cs as int) == rt,
                count + stride_count(x as int, x1 as int, cs as int) == cols,
                0 <= stride_count(x as int, x1 as int, cs as int),
                row <= 765 * count,
            decreases x1 + cs - x,
        {
            proof {
                if x + cs < x1 {
                    lemma_stride_count_mul(x + cs, x1 as int, cs as int);
                }
            }
            let d = pixel_abs_diff(a, b, x as usize, ay, by);
            row = row + d;
            count = count + 1;
            x = x + cs as u64;
        }
        assert(count == cols);
        proof {
            lemma_row_total_bound(*a, *b, ay as int, by as int, x0 as int, x1 as int, cs as int);
            let k = stride_count(r as int + rs, n as int, rs as int);
            if r + rs < n {
                lemma_stride_count_mul(r as int + rs, n as int, rs as int);
            }
            assert((1 + k) * cols == cols + k * cols) by (nonlinear_arith);
            assert(0 <= k * cols) by (nonlinear_arith)
                requires
                    0 <= k,
                    0 <= cols,
            ;
            assert(samples + cols <= rows * cols);
            assert(samples + count <= 160 * 160);
            assert(total + row <= 765 * (samples + count));
        }
        total = total + row;
        samples = samples + count;
        r = r + rs as u64;
    }
    Score { total, samples }
}

/// Whole-frame difference score. Frames of different sizes are refused; an
/// empty frame scores the maximum, 255 per channel.
pub fn difference(prev: &Bitmap, current: &Bitmap) -> (r: Result<Score, CaptureError>)
    requires
        prev.wf(),
        current.wf(),
    ensures
        (prev.width != current.width || prev.height != current.height) <==> r is Err,
        r matches Err(e) ==> e.kind == CaptureErrorKind::ValidationFailed,
        r matches Ok(s) ==> s == spec_difference(*prev, *current) && s.samples > 0,
{
    if prev.width != current.width || prev.height != current.height {
        return Err(CaptureError::new(CaptureErrorKind::ValidationFailed, "frames have different dimensions"));
    }
    let w = prev.width;
    let h = prev.height;
    if w == 0 || h == 0 {
        return Ok(Score { total: 765, samples: 1 });
    }
    let cs = if w / 80 >= 1 { w / 80 } else { 1 };
    let rs = if h / 80 >= 1 { h / 80 } else { 1 };
    proof {
        lemma_stride_bound(0, w as int, 80);
        lemma_stride_bound(0, h as int, 80);
        lemma_stride_positive(0, w as int, cs as int);
        lemma_stride_positive(0, h as int, rs as int);
        let rows = stride_count(0, h as int, rs as int);
        let cols = stride_count(0, w as int, cs as int);
        assert(1 <= rows * cols <= 160 * 160) by (nonlinear_arith)
            requires
                1 <= rows <= 160,
                1 <= cols <= 160,
        ;
    }
    Ok(sample_band(prev, current, 0, h, rs, 0, w, cs))
}

/// `a` has a strictly smaller mean than `b`, compared exactly.
pub fn score_less(a: Score, b: Score) -> (r: bool)
    ensures
        r == spec_less(a, b),
{
    proof {
        lemma_u64_product(a.total as int, b.samples as int);
        lemma_u64_product(b.total as int, a.samples as int);
    }
    (a.total as u128) * (b.samples as u128) < (b.total as u128) * (a.samples as u128)
}

/// The mean of `s` is at least `centi / 100`.
pub fn score_at_least(s: Score, centi: u32) -> (r: bool)
    ensures
        r == spec_at_least(s, centi as int),
{
    proof {
        lemma_u64_product(3 * centi as int, s.samples as int);
    }
    100 * (s.total as u128) >= (3 * centi as u128) * (s.samples as u128)
}

/// The mean of `s` is above `centi / 100`.
pub fn score_above(s: Score, centi: u32) -> (r: bool)
    ensures
        r == spec_above(s, centi as int),
{
    proof {
        lemma_u64_product(3 * centi as int, s.samples as int);
    }
    100 * (s.total as u128) > (3 * centi as u128) * (s.samples as u128)
}

proof fn lemma_u64_product(p: int, q: int)
    requires
        0 <= p <= u64::MAX,
        0 <= q <= u64::MAX,
    ensures
        0 <= p * q <= u128::MAX,
{
    assert(0 <= p * q <= u64::MAX * u64::MAX) by (nonlinear_arith)
        requires
            0 <= p <= u64::MAX,
            0 <= q <= u64::MAX,
    ;
}

/// Seam score for an overlap of `overlap` rows; a score without samples
/// when `overlap` is 0, larger than the frame, or the band has no columns.
pub fn overlap_error(prev: &Bitmap, current: &Bitmap, overlap: u32) -> (r: Score)
    requires
        prev.wf(),
        current.wf(),
        prev.width == current.width,
        prev.height == current.height,
    ensures
        r == spec_overlap_error(*prev, *current, overlap as int),
{
    let h = prev.height;
    let w = prev.width;
    if overlap == 0 || overlap > h {
        return Score { total: 0, samples: 0 };
    }
    let x0 = ((w as u64) * 15 / 100) as u32;
    let x1 = ((w as u64) * 85 / 100) as u32;
    let span = x1 - x0;
    let cs = if span / 70 >= 1 { span / 70 } else { 1 };
    let rs = if overlap / 80 >= 1 { overlap / 80 } else { 1 };
    proof {
        lemma_stride_bound(x0 as int, x1 as int, 70);
        lemma_stride_bound(0, overlap as int, 80);
    }
    sample_band(prev, current, h - overlap, overlap, rs, x0, x1, cs)
}

/// Searches overlaps from `min(24, height - 1)` up to
/// `max(that, height - 40)` in steps of 2 for the smallest seam score; the
/// first minimum wins. Fails when no candidate could be scored or the best
/// mean exceeds 42.
pub fn find_best_overlap(prev: &Bitmap, current: &Bitmap) -> (r: Result<(u32, Score), SkipReason>)
    requires
        prev.wf(),
        current.wf(),
        prev.width == current.width,
        prev.height == current.height,
    ensures
        r is Ok <==> spec_find_best_overlap(*prev, *current) is Ok,
        r matches Ok(p) ==> spec_find_best_overlap(*prev, *current) == Ok::<(u32, Score), ()>(p),
        r matches Err(e) ==> e == SkipReason::MatchFailed,
{
    let h = prev.height;
    let lo: u32 = if h >= 1 && MIN_OVERLAP > h - 1 {
        h - 1
    } else if h >= 1 {
        MIN_OVERLAP
    } else {
        0
    };
    let hi: u32 = if h >= MIN_NEW_CONTENT && h - MIN_NEW_CONTENT >= lo {
        h - MIN_NEW_CONTENT
    } else {
        lo
    };
    let ghost whole = best_from(*prev, *current, lo as int, hi as int, None);
    let mut best: Option<(u32, Score)> = None;
    let mut o: u64 = lo as u64;
    while o <= hi as u64
        invariant
            prev.wf(),
            current.wf(),
            prev.width == current.width,
            prev.height == current.height,
            hi <= h,
            o <= hi + 2,
            best_from(*prev, *current, o as int, hi as int, best) == whole,
        decreases hi + 2 - o,
    {
        let e = overlap_error(prev, current, o as u32);
        let take = e.samples > 0 && match best {
            None => true,
            Some(p) => score_less(e, p.1),
        };
        if take {
            best = Some((o as u32, e));
        }
        o = o + 2;
    }
    match best {
        None => Err(SkipReason::MatchFailed),
        Some(p) => {
            if score_above(p.1, MAX_MATCH_ERROR_CENTI) {
                Err(SkipReason::MatchFailed)
            } else {
                Ok(p)
            }
        },
    }
}

} // verus!
