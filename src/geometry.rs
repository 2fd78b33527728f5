use vstd::prelude::*;

use crate::region::{CropRegion, MIN_CAPTURE_SIDE};
use crate::types::{CaptureError, CaptureErrorKind, CaptureRect};

verus! {

/// A monitor in physical pixels of the desktop, with its scale factor in
/// thousandths (2000 means two pixels per logical unit). Its logical bounds
/// are the physical ones divided by the scale, kept exact.
#[derive(Debug, Clone, Copy, PartialEq, Eq, Structural)]
pub struct MonitorGeometry {
    pub id: u32,
    pub x: i32,
    pub y: i32,
    pub width: u32,
    pub height: u32,
    pub scale_milli: u32,
}

/// The logical centre `c2 / 2` lies in the logical interval
/// `[origin, origin + len) * 1000 / scale_milli`.
pub open spec fn center_in(c2: int, origin: int, len: int, scale_milli: int) -> bool {
    2000 * origin <= c2 * scale_milli < 2000 * (origin + len)
}

/// The centre of `rect` lies in the logical bounds of `m`, on half-open
/// intervals. A monitor without a scale holds nothing.
pub open spec fn contains_center(m: MonitorGeometry, rect: CaptureRect) -> bool {
    &&& m.scale_milli > 0
    &&& center_in(2 * rect.x + rect.width, m.x as int, m.width as int, m.scale_milli as int)
    &&& center_in(2 * rect.y + rect.height, m.y as int, m.height as int, m.scale_milli as int)
}

/// `len` logical units in pixels, rounded to the nearest (halves up).
pub open spec fn scaled(len: int, scale_milli: int) -> int {
    (len * scale_milli + 500) / 1000
}

/// Pixel offset, on a monitor whose physical origin is `origin`, of the
/// logical coordinate `logical`, rounded to the nearest (halves up);
/// offsets before the origin map to 0.
pub open spec fn pixel_offset(logical: int, origin: int, scale_milli: int) -> int {
    let v = logical * scale_milli - 1000 * origin;
    if v <= 0 {
        0
    } else {
        (v + 500) / 1000
    }
}

/// Pixel length of a logical length; at least one pixel.
pub open spec fn pixel_length(len: int, scale_milli: int) -> int {
    if scaled(len, scale_milli) >= 1 {
        scaled(len, scale_milli)
    } else {
        1
    }
}

/// The pixel crop of `rect` on monitor `m` whose image is `iw` x `ih`, if
/// its origin lies inside the image and at least 10 pixels remain on each side.
pub open spec fn spec_pixel_crop(rect: CaptureRect, m: MonitorGeometry, iw: int, ih: int) -> Option<CropRegion> {
    let x = pixel_offset(rect.x as int, m.x as int, m.scale_milli as int);
    let y = pixel_offset(rect.y as int, m.y as int, m.scale_milli as int);
    let w = pixel_length(rect.width as int, m.scale_milli as int);
    let h = pixel_length(rect.height as int, m.scale_milli as int);
    let fw = if w <= iw - x { w } else { iw - x };
    let fh = if h <= ih - y { h } else { ih - y };
    if x >= iw || y >= ih || fw < MIN_CAPTURE_SIDE || fh < MIN_CAPTURE_SIDE {
        None
    } else {
        Some(CropRegion { x: x as u32, y: y as u32, width: fw as u32, height: fh as u32 })
    }
}

/// The first monitor, in order, whose bounds hold the centre of `rect`.
pub fn resolve_target_monitor(rect: CaptureRect, monitors: &Vec<MonitorGeometry>) -> (r: Option<MonitorGeometry>)
    ensures
        r is None <==> forall|i: int| 0 <= i < monitors@.len() ==> !contains_center(#[trigger] monitors@[i], rect),
        r matches Some(m) ==> exists|i: int|
            0 <= i < monitors@.len() && monitors@[i] == m && contains_center(m, rect) && forall|j: int|
                0 <= j < i ==> !contains_center(#[trigger] monitors@[j], rect),
{
    let mut i: usize = 0;
    while i < monitors.len()
        invariant
            i <= monitors@.len(),
            forall|j: int| 0 <= j < i ==> !contains_center(#[trigger] monitors@[j], rect),
        decreases monitors@.len() - i,
    {
        let m = monitors[i];
        if m.scale_milli > 0 && centre_within(rect.x, rect.width, m.x, m.width, m.scale_milli)
            && centre_within(rect.y, rect.height, m.y, m.height, m.scale_milli) {
            return Some(m);
        }
        i = i + 1;
    }
    None
}

/// Whether the logical centre of `[start, start + len)` lies in the logical
/// interval of a monitor side at physical `origin` with `size` pixels.
fn centre_within(start: i32, len: u32, origin: i32, size: u32, scale_milli: u32) -> (r: bool)
    ensures
        r == center_in(2 * start + len, origin as int, size as int, scale_milli as int),
{
    let c2 = 2 * (start as i128) + len as i128;
    proof {
        assert(-(2 * u32::MAX as int) * u32::MAX <= c2 * scale_milli <= (4 * u32::MAX as int) * u32::MAX) by (nonlinear_arith)
            requires
                -(2 * u32::MAX as int) <= c2 <= 4 * u32::MAX as int,
                0 <= scale_milli <= u32::MAX,
        ;
    }
    let scaled_centre = c2 * (scale_milli as i128);
    2000 * (origin as i128) <= scaled_centre && scaled_centre < 2000 * (origin as i128 + size as i128)
}

/// Milli-pixels from a physical origin to the scaled logical coordinate.
fn milli_offset(logical: i32, origin: i32, scale_milli: u32) -> (r: i128)
    ensures
        r == logical * scale_milli - 1000 * origin,
        -(u64::MAX as int) * 2 <= r <= u64::MAX as int * 2,
{
    proof {
        assert(-(u32::MAX as int) * u32::MAX <= logical * scale_milli <= (u32::MAX as int) * u32::MAX) by (nonlinear_arith)
            requires
                -(u32::MAX as int) <= logical <= u32::MAX as int,
                0 <= scale_milli <= u32::MAX,
        ;
    }
    (logical as i128) * (scale_milli as i128) - 1000 * (origin as i128)
}

/// Rounds `v * scale_milli / 1000` to the nearest integer, halves up.
fn scale_len(v: u64, scale_milli: u32) -> (r: u128)
    requires
        v <= u32::MAX as u64 * 2,
    ensures
        r == scaled(v as int, scale_milli as int),
{
    proof {
        assert(v * scale_milli <= (u32::MAX as int * 2) * u32::MAX) by (nonlinear_arith)
            requires
                v <= u32::MAX as int * 2,
                scale_milli <= u32::MAX,
        ;
    }
    ((v as u128) * (scale_milli as u128) + 500) / 1000
}

/// Maps `rect` onto the pixels of monitor `m`, whose captured image is
/// `image_width` x `image_height`: relative to the monitor, scaled, rounded,
/// then clamped to the image. Fails when the origin lies outside the image
/// or fewer than 10 pixels remain on a side.
pub fn monitor_pixel_crop(rect: CaptureRect, m: MonitorGeometry, image_width: u32, image_height: u32) -> (r: Result<CropRegion, CaptureError>)
    ensures
        ({
            let x = pixel_offset(rect.x as int, m.x as int, m.scale_milli as int);
            let y = pixel_offset(rect.y as int, m.y as int, m.scale_milli as int);
            let w = pixel_length(rect.width as int, m.scale_milli as int);
            let h = pixel_length(rect.height as int, m.scale_milli as int);
            let fw = if w <= image_width - x { w } else { image_width - x };
            let fh = if h <= image_height - y { h } else { image_height - y };
            &&& r matches Err(e) ==> e.kind == CaptureErrorKind::CaptureFailed
            &&& (x >= image_width || y >= image_height || fw < MIN_CAPTURE_SIDE || fh < MIN_CAPTURE_SIDE)
                <==> r is Err
            &&& r matches Ok(c) ==> c.x == x && c.y == y && c.width == fw && c.height == fh
            &&& r matches Ok(c) ==> spec_pixel_crop(rect, m, image_width as int, image_height as int) == Some(c)
            &&& r is Err ==> spec_pixel_crop(rect, m, image_width as int, image_height as int) is None
        }),
{
    let s = m.scale_milli;
    let vx = milli_offset(rect.x, m.x, s);
    let vy = milli_offset(rect.y, m.y, s);
    let x: u128 = if vx <= 0 { 0 } else { ((vx + 500) / 1000) as u128 };
    let y: u128 = if vy <= 0 { 0 } else { ((vy + 500) / 1000) as u128 };
    let sw = scale_len(rect.width as u64, s);
    let sh = scale_len(rect.height as u64, s);
    let w: u128 = if sw >= 1 { sw } else { 1 };
    let h: u128 = if sh >= 1 { sh } else { 1 };
    if x >= image_width as u128 || y >= image_height as u128 {
        return Err(CaptureError::new(CaptureErrorKind::CaptureFailed, "Selected area is outside monitor bounds"));
    }
    let max_w = image_width as u128 - x;
    let max_h = image_height as u128 - y;
    let fw = if w <= max_w { w } else { max_w };
    let fh = if h <= max_h { h } else { max_h };
    if fw < MIN_CAPTURE_SIDE as u128 || fh < MIN_CAPTURE_SIDE as u128 {
        return Err(CaptureError::new(CaptureErrorKind::CaptureFailed, "Selected area is too small"));
    }
    Ok(CropRegion { x: x as u32, y: y as u32, width: fw as u32, height: fh as u32 })
}

/// Finds the monitor for `rect` and maps `rect` onto its pixels; the
/// monitor's captured image is `image_width` x `image_height`.
pub fn resolve(rect: CaptureRect, monitors: &Vec<MonitorGeometry>, image_width: u32, image_height: u32) -> (r: Result<(u32, CropRegion), CaptureError>)
    ensures
        r matches Err(e) ==> e.kind == CaptureErrorKind::CaptureFailed,
        (forall|i: int| 0 <= i < monitors@.len() ==> !contains_center(#[trigger] monitors@[i], rect)) ==> r is Err,
        (exists|i: int|
            0 <= i < monitors@.len() && contains_center(monitors@[i], rect) && spec_pixel_crop(
                rect,
                monitors@[i],
                image_width as int,
                image_height as int,
            ) is Some && forall|j: int| 0 <= j < i ==> !contains_center(#[trigger] monitors@[j], rect))
            <==> r is Ok,
        r matches Ok(p) ==> exists|i: int|
            0 <= i < monitors@.len() && monitors@[i].id == p.0 && contains_center(monitors@[i], rect)
                && Some(p.1) == spec_pixel_crop(rect, monitors@[i], image_width as int, image_height as int)
                && forall|j: int| 0 <= j < i ==> !contains_center(#[trigger] monitors@[j], rect),
{
    match resolve_target_monitor(rect, monitors) {
        None => Err(CaptureError::new(CaptureErrorKind::CaptureFailed, "Selected area is outside available monitors")),
        Some(m) => {
            let crop = monitor_pixel_crop(rect, m, image_width, image_height)?;
            Ok((m.id, crop))
        },
    }
}

} // verus!
