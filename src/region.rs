use vstd::prelude::*;

use crate::bitmap::{Bitmap, append_bytes, byte_index};
use crate::types::{CaptureError, CaptureErrorKind, CaptureRect};

verus! {

/// Smallest side, in logical units, of a rectangle worth capturing.
pub const MIN_CAPTURE_SIDE: u32 = 10;

/// A rectangle of pixels inside an image.
#[derive(Debug, Clone, Copy, PartialEq, Eq, Structural)]
pub struct CropRegion {
    pub x: u32,
    pub y: u32,
    pub width: u32,
    pub height: u32,
}

pub open spec fn min_u32(a: u32, b: u32) -> u32 {
    if a <= b {
        a
    } else {
        b
    }
}

pub open spec fn sat_sub(a: u32, b: u32) -> u32 {
    if a >= b {
        (a - b) as u32
    } else {
        0
    }
}

impl CropRegion {
    /// The region cut down to an image of `img_width` x `img_height`: the
    /// origin moves onto the last column or row if it lies beyond, and the
    /// size shrinks to what is left of the image from there.
    pub fn clamped(x: u32, y: u32, width: u32, height: u32, img_width: u32, img_height: u32) -> (r: Self)
        ensures
            r.x == min_u32(x, sat_sub(img_width, 1)),
            r.y == min_u32(y, sat_sub(img_height, 1)),
            r.width == min_u32(width, sat_sub(img_width, r.x)),
            r.height == min_u32(height, sat_sub(img_height, r.y)),
    {
        let crop_x = min(x, img_width.saturating_sub(1));
        let crop_y = min(y, img_height.saturating_sub(1));
        let crop_width = min(width, img_width.saturating_sub(crop_x));
        let crop_height = min(height, img_height.saturating_sub(crop_y));
        CropRegion { x: crop_x, y: crop_y, width: crop_width, height: crop_height }
    }

    /// Both sides are non-zero.
    pub fn is_valid(&self) -> (r: bool)
        ensures
            r == (self.width > 0 && self.height > 0),
    {
        self.width > 0 && self.height > 0
    }

    /// The region lies inside an image of `w` x `h`.
    pub open spec fn fits(&self, w: int, h: int) -> bool {
        self.x + self.width <= w && self.y + self.height <= h
    }
}

fn min(a: u32, b: u32) -> (r: u32)
    ensures
        r == min_u32(a, b),
{
    if a <= b {
        a
    } else {
        b
    }
}

/// A rectangle is worth capturing when both sides are at least 10.
pub fn validate_rect(rect: &CaptureRect) -> (r: Result<(), CaptureError>)
    ensures
        r is Ok <==> rect.width >= MIN_CAPTURE_SIDE && rect.height >= MIN_CAPTURE_SIDE,
        r matches Err(e) ==> e.kind == CaptureErrorKind::ValidationFailed,
{
    if rect.width < MIN_CAPTURE_SIDE || rect.height < MIN_CAPTURE_SIDE {
        return Err(CaptureError::new(CaptureErrorKind::ValidationFailed, "Capture area is too small"));
    }
    Ok(())
}

/// The bytes of the first `k` rows of `region` in `b`, row after row.
pub open spec fn region_bytes(b: Bitmap, region: CropRegion, k: int) -> Seq<u8>
    decreases k,
{
    if k <= 0 {
        Seq::empty()
    } else {
        let w = b.width as int;
        let y = region.y + k - 1;
        region_bytes(b, region, k - 1) + b.pixels@.subrange(
            byte_index(w, region.x as int, y, 0),
            byte_index(w, region.x + region.width, y, 0),
        )
    }
}

/// Copies the pixels of `region` out of `b`.
pub fn crop_bitmap(b: &Bitmap, region: CropRegion) -> (r: Bitmap)
    requires
        b.wf(),
        region.fits(b.width as int, b.height as int),
    ensures
        r.wf(),
        r.width == region.width,
        r.height == region.height,
        r.pixels@ == region_bytes(*b, region, region.height as int),
{
    let w = b.width as usize;
    let len = b.pixels.len();
    let mut out: Vec<u8> = Vec::new();
    let mut k: u32 = 0;
    while k < region.height
        invariant
            b.wf(),
            w == b.width,
            len == b.pixels@.len(),
            region.fits(b.width as int, b.height as int),
            k <= region.height,
            out@ == region_bytes(*b, region, k as int),
            out@.len() == k * region.width * 4,
        decreases region.height - k,
    {
        let y = (region.y + k) as usize;
        let ghost x0 = region.x as int;
        let ghost x1 = region.x + region.width;
        proof {
            assert(byte_index(w as int, x1, y as int, 0) <= w * b.height * 4) by (nonlinear_arith)
                requires
                    x1 <= w,
                    y < b.height,
                    w >= 0,
            ;
            assert(0 <= y * w) by (nonlinear_arith)
                requires
                    y >= 0,
                    w >= 0,
            ;
            assert(byte_index(w as int, x0, y as int, 0) <= byte_index(w as int, x1, y as int, 0));
        }
        let from = (y * w + region.x as usize) * 4;
        let to = (y * w + region.x as usize + region.width as usize) * 4;
        append_bytes(&mut out, &b.pixels, from, to);
        proof {
            assert(k * region.width * 4 + region.width * 4 == (k + 1) * region.width * 4) by (nonlinear_arith);
        }
        k = k + 1;
    }
    assert(region.height * region.width * 4 == region.width * region.height * 4) by (nonlinear_arith);
    Bitmap { width: region.width, height: region.height, pixels: out }
}

/// Crops `image` to `region`, first cut down to the image's bounds; a
/// region with nothing left is refused.
pub fn crop_image(image: &Bitmap, region: CropRegion) -> (r: Result<Bitmap, CaptureError>)
    requires
        image.wf(),
    ensures
        ({
            let c = CropRegion::clamped_spec(region, image.width, image.height);
            &&& r is Ok <==> c.width > 0 && c.height > 0
            &&& r matches Err(e) ==> e.kind == CaptureErrorKind::ValidationFailed
            &&& r matches Ok(out) ==> out.wf() && out.width == c.width && out.height == c.height
                && out.pixels@ == region_bytes(*image, c, c.height as int)
        }),
{
    let c = CropRegion::clamped(region.x, region.y, region.width, region.height, image.width, image.height);
    if !c.is_valid() {
        return Err(CaptureError::new(CaptureErrorKind::ValidationFailed, "Invalid crop region"));
    }
    Ok(crop_bitmap(image, c))
}

impl CropRegion {
    /// What `clamped` returns for `region` on an image of `w` x `h`.
    pub open spec fn clamped_spec(region: CropRegion, w: u32, h: u32) -> CropRegion {
        let x = min_u32(region.x, sat_sub(w, 1));
        let y = min_u32(region.y, sat_sub(h, 1));
        CropRegion {
            x,
            y,
            width: min_u32(region.width, sat_sub(w, x)),
            height: min_u32(region.height, sat_sub(h, y)),
        }
    }
}

} // verus!
