use vstd::prelude::*;

use crate::bitmap::{Bitmap, append_bytes, lemma_row_offsets};
use crate::compare::{
    CHANGE_THRESHOLD_CENTI, difference, find_best_overlap, score_at_least, spec_at_least,
    spec_difference, spec_find_best_overlap,
};
use crate::session::SkipReason;
use crate::types::{CaptureError, CaptureErrorKind};

verus! {

/// Most frames a full stitch takes by default.
pub const MAX_SCROLL_FRAMES: usize = 80;

/// Frames narrower or shorter than this are refused.
pub const MIN_FRAME_SIDE: u32 = 20;

/// Slices with fewer new rows than this are dropped.
pub const MIN_SLICE_HEIGHT: u32 = 10;

/// Strict stitching fails on too few usable frames; lenient stitching (a
/// preview) keeps the most recent frames and falls back to the last one.
#[derive(Debug, Clone, Copy, PartialEq, Eq, Structural)]
pub enum StitchMode {
    Strict,
    Lenient,
}

/// Counts that describe one stitch.
#[derive(Debug, Clone, Copy, PartialEq, Eq, Structural)]
pub struct StitchResult {
    pub total_frames: usize,
    pub used_frames: usize,
    pub skipped_frames: usize,
    pub final_height: u32,
}

/// What happens to one frame measured against the running reference.
#[derive(Debug, Clone, Copy, PartialEq, Eq, Structural)]
pub enum FrameVerdict {
    Skip(SkipReason),
    /// Keep rows `[overlap, height)` of the frame.
    Slice(u32),
}

pub open spec fn spec_verdict(reference: Bitmap, frame: Bitmap) -> FrameVerdict {
    if !spec_at_least(spec_difference(reference, frame), CHANGE_THRESHOLD_CENTI as int) {
        FrameVerdict::Skip(SkipReason::Duplicate)
    } else {
        match spec_find_best_overlap(reference, frame) {
            Err(_) => FrameVerdict::Skip(SkipReason::MatchFailed),
            Ok(p) => if frame.height - p.0 < MIN_SLICE_HEIGHT {
                FrameVerdict::Skip(SkipReason::TooSmallDelta)
            } else {
                FrameVerdict::Slice(p.0)
            },
        }
    }
}

/// After frames `[0, n)`: the index of the reference frame and the slices
/// kept so far, as (frame index, overlap). Frame 0 is always kept whole and
/// is the first reference; a kept frame becomes the reference, uncropped.
pub open spec fn scan(fs: Seq<Bitmap>, n: int) -> (int, Seq<(usize, u32)>)
    decreases n,
{
    if n <= 1 {
        (0, Seq::empty())
    } else {
        let prev = scan(fs, n - 1);
        match spec_verdict(fs[prev.0], fs[n - 1]) {
            FrameVerdict::Slice(o) => (n - 1, prev.1.push(((n - 1) as usize, o))),
            FrameVerdict::Skip(_) => prev,
        }
    }
}

pub open spec fn spec_slices(fs: Seq<Bitmap>) -> Seq<(usize, u32)> {
    scan(fs, fs.len() as int).1
}

/// The bytes that the slices add below frame 0, in order.
pub open spec fn slice_bytes(fs: Seq<Bitmap>, sl: Seq<(usize, u32)>) -> Seq<u8>
    decreases sl.len(),
{
    if sl.len() == 0 {
        Seq::empty()
    } else {
        let last = sl.last();
        let f = fs[last.0 as int];
        slice_bytes(fs, sl.drop_last()) + f.rows(last.1 as int, f.height as int)
    }
}

/// The rows that the slices add below frame 0.
pub open spec fn slices_height(fs: Seq<Bitmap>, sl: Seq<(usize, u32)>) -> int
    decreases sl.len(),
{
    if sl.len() == 0 {
        0
    } else {
        let last = sl.last();
        slices_height(fs, sl.drop_last()) + fs[last.0 as int].height - last.1
    }
}

/// The frames a stitch works on: in lenient mode the most recent `cap`.
pub open spec fn capped(frames: Seq<Bitmap>, mode: StitchMode, cap: int) -> Seq<Bitmap> {
    if mode == StitchMode::Lenient && frames.len() > cap {
        frames.subrange(frames.len() - cap, frames.len() as int)
    } else {
        frames
    }
}

/// The failure that the number of frames alone decides.
pub open spec fn count_error(frames: Seq<Bitmap>, mode: StitchMode, cap: int) -> Option<CaptureErrorKind> {
    if mode == StitchMode::Strict {
        if frames.len() < 2 {
            Some(CaptureErrorKind::StitchFailed)
        } else if frames.len() > cap {
            Some(CaptureErrorKind::ValidationFailed)
        } else {
            None
        }
    } else if capped(frames, mode, cap).len() == 0 {
        Some(CaptureErrorKind::StitchFailed)
    } else {
        None
    }
}

/// All frames share the size of the first, which is at least 20 x 20.
pub open spec fn shape_ok(fs: Seq<Bitmap>) -> bool {
    &&& fs[0].width >= MIN_FRAME_SIDE
    &&& fs[0].height >= MIN_FRAME_SIDE
    &&& forall|i: int| 0 <= i < fs.len() ==> #[trigger] fs[i].width == fs[0].width && fs[i].height == fs[0].height
}

/// Classifies `frame` against the running reference.
pub fn frame_verdict(reference: &Bitmap, frame: &Bitmap) -> (r: FrameVerdict)
    requires
        reference.wf(),
        frame.wf(),
        reference.width == frame.width,
        reference.height == frame.height,
    ensures
        r == spec_verdict(*reference, *frame),
{
    let d = difference(reference, frame);
    let changed = match d {
        Ok(s) => score_at_least(s, CHANGE_THRESHOLD_CENTI),
        Err(_) => true,
    };
    if !changed {
        return FrameVerdict::Skip(SkipReason::Duplicate);
    }
    match find_best_overlap(reference, frame) {
        Err(_) => FrameVerdict::Skip(SkipReason::MatchFailed),
        Ok(p) => {
            if p.0 > frame.height || frame.height - p.0 < MIN_SLICE_HEIGHT {
                FrameVerdict::Skip(SkipReason::TooSmallDelta)
            } else {
                FrameVerdict::Slice(p.0)
            }
        },
    }
}

/// Checks that frames `[start, len)` all have the size of frame `start`,
/// at least 20 x 20.
fn check_shape(frames: &Vec<Bitmap>, start: usize) -> (r: Result<(), CaptureError>)
    requires
        start < frames@.len(),
    ensures
        r is Ok <==> shape_ok(frames@.subrange(start as int, frames@.len() as int)),
        r matches Err(e) ==> e.kind == CaptureErrorKind::ValidationFailed,
{
    let len = frames.len();
    let ghost fs = frames@.subrange(start as int, len as int);
    let w = frames[start].width;
    let h = frames[start].height;
    if w < MIN_FRAME_SIDE || h < MIN_FRAME_SIDE {
        return Err(CaptureError::new(CaptureErrorKind::ValidationFailed, "captured frame is too small"));
    }
    let mut i = start + 1;
    while i < len
        invariant
            start < i <= len,
            len == frames@.len(),
            fs == frames@.subrange(start as int, len as int),
            w == fs[0].width,
            h == fs[0].height,
            forall|k: int| 0 <= k < i - start ==> #[trigger] fs[k].width == w && fs[k].height == h,
        decreases len - i,
    {
        if frames[i].width != w || frames[i].height != h {
            assert(fs[i - start].width != fs[0].width || fs[i - start].height != fs[0].height);
            return Err(CaptureError::new(CaptureErrorKind::ValidationFailed, "frames have different dimensions"));
        }
        i = i + 1;
    }
    Ok(())
}

/// Runs the scan over frames `[start, len)`; returns the kept slices.
fn scan_frames(frames: &Vec<Bitmap>, start: usize) -> (slices: Vec<(usize, u32)>)
    requires
        start < frames@.len(),
        shape_ok(frames@.subrange(start as int, frames@.len() as int)),
        forall|j: int| 0 <= j < frames@.len() ==> #[trigger] frames@[j].wf(),
    ensures
        slices@ == spec_slices(frames@.subrange(start as int, frames@.len() as int)),
        slices@.len() < frames@.len() - start,
        forall|j: int| 0 <= j < slices@.len() ==> (#[trigger] slices@[j]).0 < frames@.len() - start
            && slices@[j].1 + MIN_SLICE_HEIGHT <= frames@[start as int].height,
{
    let len = frames.len();
    let n = len - start;
    let ghost fs = frames@.subrange(start as int, len as int);
    let h = frames[start].height;
    let mut slices: Vec<(usize, u32)> = Vec::new();
    let mut reference: usize = 0;
    let mut k: usize = 1;
    while k < n
        invariant
            1 <= k <= n,
            n == len - start,
            len == frames@.len(),
            fs == frames@.subrange(start as int, len as int),
            shape_ok(fs),
            h == fs[0].height,
            forall|j: int| 0 <= j < frames@.len() ==> #[trigger] frames@[j].wf(),
            reference < k,
            scan(fs, k as int) == (reference as int, slices@),
            slices@.len() <= k - 1,
            forall|j: int| 0 <= j < slices@.len() ==> (#[trigger] slices@[j]).0 < k && slices@[j].1 + MIN_SLICE_HEIGHT <= h,
        decreases n - k,
    {
        proof {
            assert(fs[reference as int].width == fs[0].width);
            assert(fs[k as int].width == fs[0].width);
            assert(frames@[start + reference] == fs[reference as int]);
            assert(frames@[start + k] == fs[k as int]);
        }
        let v = frame_verdict(&frames[start + reference], &frames[start + k]);
        match v {
            FrameVerdict::Slice(o) => {
                slices.push((k, o));
                reference = k;
            },
            FrameVerdict::Skip(_) => {},
        }
        k = k + 1;
    }
    slices
}

/// Frame `start` followed by the given slices, stacked.
fn compose(frames: &Vec<Bitmap>, start: usize, slices: &Vec<(usize, u32)>) -> (image: Bitmap)
    requires
        start < frames@.len(),
        shape_ok(frames@.subrange(start as int, frames@.len() as int)),
        forall|j: int| 0 <= j < frames@.len() ==> #[trigger] frames@[j].wf(),
        frames@[start as int].height * (frames@.len() - start) <= u32::MAX,
        slices@.len() < frames@.len() - start,
        forall|j: int| 0 <= j < slices@.len() ==> (#[trigger] slices@[j]).0 < frames@.len() - start
            && slices@[j].1 + MIN_SLICE_HEIGHT <= frames@[start as int].height,
    ensures
        ({
            let fs = frames@.subrange(start as int, frames@.len() as int);
            &&& image.wf()
            &&& image.width == fs[0].width
            &&& image.height == fs[0].height + slices_height(fs, slices@)
            &&& image.pixels@ == fs[0].pixels@ + slice_bytes(fs, slices@)
        }),
{
    let len = frames.len();
    let n = len - start;
    let ghost fs = frames@.subrange(start as int, len as int);
    let first = &frames[start];
    let w = first.width;
    let h = first.height;
    let mut out: Vec<u8> = Vec::new();
    append_bytes(&mut out, &first.pixels, 0, first.pixels.len());
    assert(frames@[start as int].wf());
    assert(fs[0] == frames@[start as int]);
    assert(out@ =~= first.pixels@ + slice_bytes(fs, slices@.subrange(0, 0)));
    let mut height: u64 = h as u64;
    let mut j: usize = 0;
    while j < slices.len()
        invariant
            j <= slices@.len() < n,
            n == len - start,
            len == frames@.len(),
            fs == frames@.subrange(start as int, len as int),
            shape_ok(fs),
            w == fs[0].width,
            h == fs[0].height,
            h * n <= u32::MAX,
            forall|t: int| 0 <= t < frames@.len() ==> #[trigger] frames@[t].wf(),
            forall|t: int| 0 <= t < slices@.len() ==> (#[trigger] slices@[t]).0 < n && slices@[t].1 + MIN_SLICE_HEIGHT <= h,
            out@ == fs[0].pixels@ + slice_bytes(fs, slices@.subrange(0, j as int)),
            height == h + slices_height(fs, slices@.subrange(0, j as int)),
            height <= h * (j + 1),
            out@.len() == w * height * 4,
        decreases slices@.len() - j,
    {
        let (idx, o) = slices[j];
        assert(slices@[j as int] == (idx, o));
        let f = &frames[start + idx];
        proof {
            assert(idx < n);
            assert(0 <= idx < fs.len());
            assert(frames@[start + idx].wf());
            assert(frames@[start + idx] == fs[idx as int]);
            assert(fs[idx as int].width == w && fs[idx as int].height == h);
            lemma_row_offsets(w as int, o as int, h as int);
            assert(f.pixels@.len() == w * h * 4);
        }
        let flen = f.pixels.len();
        let from = o as usize * w as usize * 4;
        append_bytes(&mut out, &f.pixels, from, flen);
        proof {
            let prefix = slices@.subrange(0, j as int + 1);
            assert(prefix.drop_last() =~= slices@.subrange(0, j as int));
            assert(prefix.last() == (idx, o));
            assert(h * w * 4 == w * h * 4) by (nonlinear_arith);
            assert(f.rows(o as int, h as int) == f.pixels@.subrange(from as int, flen as int));
            assert(out@ =~= fs[0].pixels@ + slice_bytes(fs, prefix));
            assert(w * height * 4 + (w * h * 4 - o * w * 4) == w * (height + h - o) * 4) by (nonlinear_arith);
            assert(h * (j + 1) + h == h * (j + 2)) by (nonlinear_arith);
            assert(h * (j + 2) <= h * n) by (nonlinear_arith)
                requires
                    j + 2 <= n,
                    h >= 0,
            ;
        }
        height = height + (h - o) as u64;
        j = j + 1;
    }
    assert(slices@.subrange(0, slices@.len() as int) =~= slices@);
    assert(h * (j + 1) <= h * n) by (nonlinear_arith)
        requires
            j + 1 <= n,
            h >= 0,
    ;
    Bitmap { width: w, height: height as u32, pixels: out }
}

/// A copy of a bitmap.
fn copy_bitmap(b: &Bitmap) -> (r: Bitmap)
    ensures
        r.width == b.width,
        r.height == b.height,
        r.pixels@ == b.pixels@,
{
    let mut out: Vec<u8> = Vec::new();
    append_bytes(&mut out, &b.pixels, 0, b.pixels.len());
    assert(out@ =~= b.pixels@);
    Bitmap { width: b.width, height: b.height, pixels: out }
}

/// Assembles one tall image from overlapping frames, in order.
///
/// Frame 0 is kept whole. Each later frame is measured against the running
/// reference: too similar, unmatched, or with fewer than 10 new rows, it is
/// skipped; otherwise its rows below the overlap are appended and it becomes
/// the reference. Every frame's height times the number of frames must fit
/// in a `u32`, which bounds the composite's height.
pub fn stitch(frames: &Vec<Bitmap>, mode: StitchMode, frame_cap: usize) -> (r: Result<(Bitmap, StitchResult), CaptureError>)
    requires
        forall|i: int| 0 <= i < frames@.len() ==> #[trigger] frames@[i].wf(),
        forall|i: int| 0 <= i < frames@.len() ==> #[trigger] frames@[i].height * frames@.len() <= u32::MAX,
    ensures
        count_error(frames@, mode, frame_cap as int) matches Some(k) ==> (r matches Err(e) && e.kind == k),
        count_error(frames@, mode, frame_cap as int) is None ==> {
            let fs = capped(frames@, mode, frame_cap as int);
            let n = fs.len();
            let sl = spec_slices(fs);
            let h = fs[0].height;
            &&& !shape_ok(fs) ==> (r matches Err(e) && e.kind == CaptureErrorKind::ValidationFailed)
            &&& shape_ok(fs) && sl.len() == 0 && mode == StitchMode::Strict ==> (r matches Err(e)
                && e.kind == CaptureErrorKind::StitchFailed)
            &&& shape_ok(fs) && sl.len() == 0 && mode == StitchMode::Lenient ==> (r matches Ok(p)
                && p.0.wf() && p.0.width == fs.last().width && p.0.height == h && p.0.pixels@
                == fs.last().pixels@ && p.1 == (StitchResult {
                total_frames: n as usize,
                used_frames: 1,
                skipped_frames: (n - 1) as usize,
                final_height: h,
            }))
            &&& shape_ok(fs) && sl.len() > 0 ==> (r matches Ok(p) && p.0.wf() && p.0.width
                == fs[0].width && p.0.height == h + slices_height(fs, sl) && p.0.pixels@ == fs[0].pixels@
                + slice_bytes(fs, sl) && p.1 == (StitchResult {
                total_frames: n as usize,
                used_frames: (sl.len() + 1) as usize,
                skipped_frames: (n - 1 - sl.len()) as usize,
                final_height: p.0.height,
            }))
        },
{
    let len = frames.len();
    if mode == StitchMode::Strict {
        if len < 2 {
            return Err(CaptureError::new(CaptureErrorKind::StitchFailed, "at least two frames are required to stitch"));
        }
        if len > frame_cap {
            return Err(CaptureError::new(CaptureErrorKind::ValidationFailed, "too many frames"));
        }
    }
    let start: usize = if mode == StitchMode::Lenient && len > frame_cap {
        len - frame_cap
    } else {
        0
    };
    if start >= len {
        return Err(CaptureError::new(CaptureErrorKind::StitchFailed, "no frames available"));
    }
    let ghost fs = capped(frames@, mode, frame_cap as int);
    assert(fs == frames@.subrange(start as int, len as int));
    let n = len - start;
    check_shape(frames, start)?;
    let slices = scan_frames(frames, start);
    let h = frames[start].height;
    if slices.len() == 0 {
        if mode == StitchMode::Strict {
            return Err(CaptureError::new(CaptureErrorKind::StitchFailed, "not enough unique frames after filtering"));
        }
        let image = copy_bitmap(&frames[len - 1]);
        proof {
            assert(fs.last() == frames@[len - 1]);
            assert(frames@[len - 1].wf());
            assert(fs.last().width == fs[0].width && fs.last().height == fs[0].height);
        }
        let summary = StitchResult { total_frames: n, used_frames: 1, skipped_frames: n - 1, final_height: h };
        return Ok((image, summary));
    }
    proof {
        assert(frames@[start as int].height * frames@.len() <= u32::MAX);
        assert(frames@[start as int].height * n <= frames@[start as int].height * frames@.len()) by (nonlinear_arith)
            requires
                n <= frames@.len(),
        ;
    }
    let image = compose(frames, start, &slices);
    let summary = StitchResult {
        total_frames: n,
        used_frames: slices.len() + 1,
        skipped_frames: n - 1 - slices.len(),
        final_height: image.height,
    };
    Ok((image, summary))
}

} // verus!
