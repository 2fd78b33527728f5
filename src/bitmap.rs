use vstd::prelude::*;

verus! {

/// An RGBA8 image: `pixels` holds `width * height` pixels row after row,
/// four bytes each.
#[derive(Debug, Clone)]
pub struct Bitmap {
    pub width: u32,
    pub height: u32,
    pub pixels: Vec<u8>,
}

/// Byte offset of channel `c` of pixel (x, y) in an image `width` wide.
pub open spec fn byte_index(width: int, x: int, y: int, c: int) -> int {
    (y * width + x) * 4 + c
}

impl Bitmap {
    pub open spec fn wf(&self) -> bool {
        self.pixels@.len() == self.width * self.height * 4
    }

    /// The bytes of rows `[y0, y1)`.
    pub open spec fn rows(&self, y0: int, y1: int) -> Seq<u8> {
        self.pixels@.subrange(y0 * self.width * 4, y1 * self.width * 4)
    }

    /// Wraps a buffer when its length is `width * height * 4`.
    pub fn from_rgba(width: u32, height: u32, pixels: Vec<u8>) -> (r: Option<Bitmap>)
        ensures
            r is Some <==> pixels@.len() == width * height * 4,
            r matches Some(b) ==> b.wf() && b.width == width && b.height == height && b.pixels@
                == pixels@,
    {
        let w = width as u128;
        let h = height as u128;
        proof {
            lemma_u32_product_fits(width as int, height as int);
        }
        let want = w * h * 4;
        if (pixels.len() as u128) == want {
            Some(Bitmap { width, height, pixels })
        } else {
            None
        }
    }
}

/// Appends `src[from..to)` to `out`.
pub fn append_bytes(out: &mut Vec<u8>, src: &Vec<u8>, from: usize, to: usize)
    requires
        from <= to <= src@.len(),
    ensures
        final(out)@ == old(out)@ + src@.subrange(from as int, to as int),
{
    let ghost start = out@;
    let mut i = from;
    while i < to
        invariant
            from <= i <= to <= src@.len(),
            out@ == start + src@.subrange(from as int, i as int),
        decreases to - i,
    {
        out.push(src[i]);
        i = i + 1;
        proof {
            assert(out@ =~= start + src@.subrange(from as int, i as int));
        }
    }
}

pub proof fn lemma_u32_product_fits(w: int, h: int)
    requires
        0 <= w <= u32::MAX,
        0 <= h <= u32::MAX,
    ensures
        w * h * 4 <= u128::MAX,
{
    assert(w * h <= u32::MAX * u32::MAX) by (nonlinear_arith)
        requires
            0 <= w <= u32::MAX,
            0 <= h <= u32::MAX,
    ;
}

/// Row offsets of a well-formed bitmap stay within its buffer.
pub proof fn lemma_row_offsets(w: int, y: int, h: int)
    requires
        0 <= w,
        0 <= y <= h,
    ensures
        0 <= y * w * 4 <= h * w * 4,
        h * w * 4 == w * h * 4,
{
    assert(y * w <= h * w) by (nonlinear_arith)
        requires
            0 <= w,
            0 <= y <= h,
    ;
    assert(h * w == w * h) by (nonlinear_arith);
    assert(0 <= y * w) by (nonlinear_arith)
        requires
            0 <= w,
            0 <= y,
    ;
}

/// Every channel of every pixel of a well-formed bitmap is inside its buffer.
pub proof fn lemma_pixel_in_bounds(w: int, h: int, x: int, y: int, c: int)
    requires
        0 <= x < w,
        0 <= y < h,
        0 <= c < 4,
    ensures
        0 <= byte_index(w, x, y, c) < w * h * 4,
{
    assert(y * w + x < w * h) by (nonlinear_arith)
        requires
            0 <= x < w,
            0 <= y < h,
    ;
    assert(0 <= y * w) by (nonlinear_arith)
        requires
            0 <= y,
            0 <= w,
    ;
}

} // verus!
