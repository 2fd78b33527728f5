use vstd::prelude::*;

use rand::Rng;

use crate::bitmap::Bitmap;
use crate::permission::{has_prefix, starts_with_str};

verus! {

pub const WHITE: [u8; 4] = [255, 255, 255, 255];

/// Value of a hexadecimal digit, either case.
pub open spec fn hex_value(c: char) -> Option<int> {
    if '0' <= c && c <= '9' {
        Some(c as int - '0' as int)
    } else if 'a' <= c && c <= 'f' {
        Some(c as int - 'a' as int + 10)
    } else if 'A' <= c && c <= 'F' {
        Some(c as int - 'A' as int + 10)
    } else {
        None
    }
}

/// A two-character channel as `u8::from_str_radix(_, 16)` reads it: two
/// hex digits, or '+' and one hex digit.
pub open spec fn spec_channel(c0: char, c1: char) -> Option<u8> {
    if c0 == '+' {
        match hex_value(c1) {
            Some(v) => Some(v as u8),
            None => None,
        }
    } else {
        match (hex_value(c0), hex_value(c1)) {
            (Some(h), Some(l)) => Some((h * 16 + l) as u8),
            _ => None,
        }
    }
}

/// Number of leading '#' characters from `i` on.
pub open spec fn hashes_from(s: Seq<char>, i: int) -> int
    decreases s.len() - i,
{
    if i < 0 || i >= s.len() || s[i] != '#' {
        i
    } else {
        hashes_from(s, i + 1)
    }
}

/// The colour "#rrggbb" (any number of leading '#') as opaque RGBA.
pub open spec fn spec_hex_to_rgba(s: Seq<char>) -> Option<Seq<u8>> {
    let k = hashes_from(s, 0);
    let t = s.subrange(k, s.len() as int);
    if t.len() != 6 {
        None
    } else {
        match (spec_channel(t[0], t[1]), spec_channel(t[2], t[3]), spec_channel(t[4], t[5])) {
            (Some(r), Some(g), Some(b)) => Some(seq![r, g, b, 255u8]),
            _ => None,
        }
    }
}

fn hex_digit(c: char) -> (r: Option<u8>)
    ensures
        r matches Some(v) ==> hex_value(c) == Some(v as int),
        r is None ==> hex_value(c) is None,
{
    if '0' <= c && c <= '9' {
        Some((c as u32 - '0' as u32) as u8)
    } else if 'a' <= c && c <= 'f' {
        Some((c as u32 - 'a' as u32 + 10) as u8)
    } else if 'A' <= c && c <= 'F' {
        Some((c as u32 - 'A' as u32 + 10) as u8)
    } else {
        None
    }
}

fn channel(c0: char, c1: char) -> (r: Option<u8>)
    ensures
        r == spec_channel(c0, c1),
{
    if c0 == '+' {
        return hex_digit(c1);
    }
    match (hex_digit(c0), hex_digit(c1)) {
        (Some(h), Some(l)) => Some(h * 16 + l),
        _ => None,
    }
}

/// Parses "#rrggbb" into opaque RGBA.
pub fn hex_to_rgba(hex: &str) -> (r: Option<[u8; 4]>)
    ensures
        r matches Some(c) ==> spec_hex_to_rgba(hex@) == Some(c@),
        r is None ==> spec_hex_to_rgba(hex@) is None,
{
    let n = hex.unicode_len();
    let ghost s = hex@;
    let mut k: usize = 0;
    while k < n && hex.get_char(k) == '#'
        invariant
            n == s.len(),
            s == hex@,
            k <= n,
            hashes_from(s, k as int) == hashes_from(s, 0),
        decreases n - k,
    {
        k = k + 1;
    }
    if n - k != 6 {
        return None;
    }
    let r = channel(hex.get_char(k), hex.get_char(k + 1));
    let g = channel(hex.get_char(k + 2), hex.get_char(k + 3));
    let b = channel(hex.get_char(k + 4), hex.get_char(k + 5));
    match (r, g, b) {
        (Some(r), Some(g), Some(b)) => {
            let c = [r, g, b, 255u8];
            assert(c@ =~= seq![r, g, b, 255u8]);
            Some(c)
        },
        _ => None,
    }
}

/// `a` and `b` hold the same characters.
fn same_text(a: &str, b: &str) -> (r: bool)
    ensures
        r == (a@ == b@),
{
    if a.unicode_len() != b.unicode_len() {
        assert(a@.len() != b@.len());
        return false;
    }
    let r = starts_with_str(a, b);
    proof {
        assert(a@ =~= a@.subrange(0, b@.len() as int));
        if a@ == b@ {
            assert(has_prefix(a@, b@));
        }
    }
    r
}

/// The fill colour of a background kind; unknown kinds, and a custom
/// colour that does not parse, are white.
pub open spec fn spec_background_color(kind: Seq<char>, custom: Seq<char>) -> Seq<u8> {
    if kind == "transparent"@ {
        seq![0u8, 0, 0, 0]
    } else if kind == "black"@ {
        seq![0u8, 0, 0, 255]
    } else if kind == "gray"@ {
        seq![245u8, 245, 245, 255]
    } else if kind == "custom"@ && spec_hex_to_rgba(custom) is Some {
        spec_hex_to_rgba(custom).unwrap()
    } else {
        WHITE@
    }
}

pub fn background_color(kind: &str, custom: &str) -> (r: [u8; 4])
    ensures
        r@ == spec_background_color(kind@, custom@),
{
    if same_text(kind, "transparent") {
        [0, 0, 0, 0]
    } else if same_text(kind, "black") {
        [0, 0, 0, 255]
    } else if same_text(kind, "gray") {
        [245, 245, 245, 255]
    } else if same_text(kind, "custom") {
        match hex_to_rgba(custom) {
            Some(c) => c,
            None => WHITE,
        }
    } else {
        proof {
            reveal_strlit("transparent");
            reveal_strlit("black");
            reveal_strlit("gray");
            reveal_strlit("custom");
        }
        WHITE
    }
}

/// A `width` x `height` bitmap filled with the colour of a background kind.
pub fn create_background(width: u32, height: u32, background_type: &str, custom_color: &str) -> (r: Bitmap)
    requires
        width * height * 4 <= usize::MAX,
    ensures
        r.wf(),
        r.width == width,
        r.height == height,
        forall|i: int| 0 <= i < r.pixels@.len() ==> #[trigger] r.pixels@[i] == spec_background_color(
            background_type@,
            custom_color@,
        )[i % 4],
{
    let color = background_color(background_type, custom_color);
    let total = width as usize * height as usize * 4;
    let mut pixels: Vec<u8> = Vec::with_capacity(total);
    let mut i: usize = 0;
    while i < total
        invariant
            i <= total,
            total == width * height * 4,
            pixels@.len() == i,
            forall|j: int| 0 <= j < i ==> #[trigger] pixels@[j] == color@[j % 4],
        decreases total - i,
    {
        pixels.push(color[i % 4]);
        i = i + 1;
    }
    Bitmap { width, height, pixels }
}

pub open spec fn clamp_channel(v: int) -> int {
    if v < 0 {
        0
    } else if v > 255 {
        255
    } else {
        v
    }
}

/// Relies on `rand::Rng::gen_range` over an inclusive range of the thread
/// generator: a value in the range.
#[verifier::external_body]
fn random_in(lo: i32, hi: i32) -> (r: i32)
    requires
        lo <= hi,
    ensures
        lo <= r <= hi,
{
    rand::thread_rng().gen_range(lo..=hi)
}

/// Pixel `p` of `after` is pixel `p` of `before` with `n` added to R, G
/// and B, each clamped to 0..=255; alpha is kept.
pub open spec fn pixel_noised_by(before: Seq<u8>, after: Seq<u8>, p: int, n: int) -> bool {
    &&& after[4 * p] == clamp_channel(before[4 * p] + n)
    &&& after[4 * p + 1] == clamp_channel(before[4 * p + 1] + n)
    &&& after[4 * p + 2] == clamp_channel(before[4 * p + 2] + n)
    &&& after[4 * p + 3] == before[4 * p + 3]
}

/// Pixel `p` got one offset in `[-intensity, intensity]`.
pub open spec fn noised_pixel(before: Seq<u8>, after: Seq<u8>, p: int, intensity: int) -> bool {
    exists|n: int| -intensity <= n <= intensity && #[trigger] pixel_noised_by(before, after, p, n)
}

fn add_clamped(v: u8, n: i32) -> (r: u8)
    ensures
        r == clamp_channel(v + n),
{
    let s = v as i64 + n as i64;
    if s < 0 {
        0
    } else if s > 255 {
        255
    } else {
        s as u8
    }
}

/// Adds `offsets[p]` to R, G and B of pixel `p`, each clamped to 0..=255;
/// alpha is kept.
pub fn apply_noise_offsets(img: &mut Bitmap, offsets: &Vec<i32>)
    requires
        old(img).wf(),
        offsets@.len() == old(img).width * old(img).height,
    ensures
        final(img).wf(),
        final(img).width == old(img).width,
        final(img).height == old(img).height,
        forall|p: int|
            0 <= p < offsets@.len() ==> #[trigger] pixel_noised_by(
                old(img).pixels@,
                final(img).pixels@,
                p,
                offsets@[p] as int,
            ),
{
    let ghost before = img.pixels@;
    let ghost w = img.width;
    let ghost h = img.height;
    let len = img.pixels.len();
    let mut i: usize = 0;
    let mut k: usize = 0;
    while i < len
        invariant
            img.width == w,
            img.height == h,
            len == img.pixels@.len(),
            len == before.len(),
            len == w * h * 4,
            offsets@.len() == w * h,
            i == 4 * k,
            i <= len,
            forall|p: int| 0 <= p < k ==> #[trigger] pixel_noised_by(before, img.pixels@, p, offsets@[p] as int),
            forall|j: int| i <= j < len ==> img.pixels@[j] == before[j],
        decreases len - i,
    {
        assert(i + 4 <= len && k < offsets@.len()) by {
            assert(len % 4 == 0) by (nonlinear_arith)
                requires
                    len == w * h * 4,
            ;
        }
        let n = offsets[k];
        let ghost prev = img.pixels@;
        let r = add_clamped(img.pixels[i], n);
        let g = add_clamped(img.pixels[i + 1], n);
        let b = add_clamped(img.pixels[i + 2], n);
        img.pixels.set(i, r);
        img.pixels.set(i + 1, g);
        img.pixels.set(i + 2, b);
        proof {
            assert(pixel_noised_by(before, img.pixels@, k as int, n as int));
            assert forall|p: int| 0 <= p < k + 1 implies #[trigger] pixel_noised_by(before, img.pixels@, p, offsets@[p] as int) by {
                if p < k {
                    assert(pixel_noised_by(before, prev, p, offsets@[p] as int));
                    assert(4 * p + 3 < i);
                } else {
                    assert(n == offsets@[p]);
                }
            }
        }
        i = i + 4;
        k = k + 1;
    }
}

/// Adds random noise of up to `intensity` to every pixel of `img`: one
/// offset drawn per pixel.
pub fn apply_noise(img: &mut Bitmap, intensity: u16)
    requires
        old(img).wf(),
    ensures
        final(img).wf(),
        final(img).width == old(img).width,
        final(img).height == old(img).height,
        forall|p: int|
            0 <= p < old(img).width * old(img).height ==> #[trigger] noised_pixel(
                old(img).pixels@,
                final(img).pixels@,
                p,
                intensity as int,
            ),
{
    let count = img.pixels.len() / 4;
    proof {
        assert(count == img.width * img.height);
    }
    let lim = intensity as i32;
    let mut offsets: Vec<i32> = Vec::with_capacity(count);
    while offsets.len() < count
        invariant
            lim == intensity,
            offsets@.len() <= count,
            forall|p: int| 0 <= p < offsets@.len() ==> -lim <= #[trigger] offsets@[p] <= lim,
        decreases count - offsets@.len(),
    {
        offsets.push(random_in(-lim, lim));
    }
    let ghost before = img.pixels@;
    apply_noise_offsets(img, &offsets);
    proof {
        assert forall|p: int| 0 <= p < img.width * img.height implies #[trigger] noised_pixel(before, img.pixels@, p, intensity as int) by {
            assert(-lim <= offsets@[p] <= lim);
            assert(pixel_noised_by(before, img.pixels@, p, offsets@[p] as int));
        }
    }
}

} // verus!
