use vstd::prelude::*;

verus! {

/// How scroll frames are captured.
#[derive(Debug, Clone, Copy, PartialEq, Eq, Structural)]
pub enum ScrollCaptureBackend {
    ScreenCaptureKit,
    ScreencaptureCli,
}

/// A capture rectangle handed to a backend, in logical coordinates.
#[derive(Debug, Clone, Copy, PartialEq, Eq, Structural)]
pub struct CaptureRectInput {
    pub x: i32,
    pub y: i32,
    pub width: u32,
    pub height: u32,
}

/// First macOS major version whose capture framework takes region frames.
pub const SCREEN_CAPTURE_KIT_MAJOR: u32 = 14;

/// The backend for a macOS major version; with no known version (another
/// system, or the version could not be read) the command-line tool.
pub fn preferred_scroll_capture_backend(macos_major: Option<u32>) -> (r: ScrollCaptureBackend)
    ensures
        r == (if macos_major matches Some(m) && m >= SCREEN_CAPTURE_KIT_MAJOR {
            ScrollCaptureBackend::ScreenCaptureKit
        } else {
            ScrollCaptureBackend::ScreencaptureCli
        }),
{
    match macos_major {
        Some(major) => {
            if major >= SCREEN_CAPTURE_KIT_MAJOR {
                ScrollCaptureBackend::ScreenCaptureKit
            } else {
                ScrollCaptureBackend::ScreencaptureCli
            }
        },
        None => ScrollCaptureBackend::ScreencaptureCli,
    }
}

/// A string with its leading and trailing whitespace removed, as `str::trim` does.
pub uninterp spec fn trim_of(s: Seq<char>) -> Seq<char>;

/// Relies on `str::trim`: the result depends on the characters alone.
#[verifier::external_body]
fn trim(s: &str) -> (r: &str)
    ensures
        r@ == trim_of(s@),
{
    s.trim()
}

/// Index of the first '.' at or after `i`, or the length.
pub open spec fn dot_from(s: Seq<char>, i: int) -> int
    decreases s.len() - i,
{
    if i < 0 || i >= s.len() {
        s.len() as int
    } else if s[i] == '.' {
        i
    } else {
        dot_from(s, i + 1)
    }
}

pub open spec fn is_digit(c: char) -> bool {
    '0' <= c && c <= '9'
}

/// Decimal value of the digits `s[lo..k)`.
pub open spec fn dec_value(s: Seq<char>, lo: int, k: int) -> int
    decreases k - lo,
{
    if k <= lo {
        0
    } else {
        dec_value(s, lo, k - 1) * 10 + (s[k - 1] as int - '0' as int)
    }
}

/// `s[lo..hi)` is an unsigned decimal number as `u32::from_str` reads it:
/// an optional '+' and at least one digit, no larger than `u32::MAX`.
pub open spec fn spec_parse_u32(s: Seq<char>, lo: int, hi: int) -> Option<u32> {
    let start = if lo < hi && s[lo] == '+' {
        lo + 1
    } else {
        lo
    };
    if start < hi && (forall|j: int| start <= j < hi ==> is_digit(#[trigger] s[j])) && dec_value(s, start, hi)
        <= u32::MAX {
        Some(dec_value(s, start, hi) as u32)
    } else {
        None
    }
}

/// The major version in a version string such as "14.2.1": the number
/// before the first '.', after surrounding whitespace is removed.
pub open spec fn spec_major_version(trimmed: Seq<char>) -> Option<u32> {
    spec_parse_u32(trimmed, 0, dot_from(trimmed, 0))
}

proof fn lemma_dec_value_grows(s: Seq<char>, lo: int, k: int, hi: int)
    requires
        lo <= k <= hi,
        forall|j: int| lo <= j < hi ==> is_digit(#[trigger] s[j]),
    ensures
        dec_value(s, lo, k) <= dec_value(s, lo, hi),
        0 <= dec_value(s, lo, k),
    decreases hi - k,
{
    if k < hi {
        lemma_dec_value_grows(s, lo, k + 1, hi);
        assert(is_digit(s[k]));
    }
    lemma_dec_value_nonneg(s, lo, k);
}

proof fn lemma_dec_value_nonneg(s: Seq<char>, lo: int, k: int)
    requires
        forall|j: int| lo <= j < k ==> is_digit(#[trigger] s[j]),
    ensures
        0 <= dec_value(s, lo, k),
    decreases k - lo,
{
    if k > lo {
        lemma_dec_value_nonneg(s, lo, k - 1);
        assert(is_digit(s[k - 1]));
    }
}

/// Reads the major version out of an already trimmed version string.
pub fn major_version_of(trimmed: &str) -> (r: Option<u32>)
    ensures
        r == spec_major_version(trimmed@),
{
    let n = trimmed.unicode_len();
    let ghost s = trimmed@;
    let mut end: usize = 0;
    while end < n && trimmed.get_char(end) != '.'
        invariant
            n == s.len(),
            s == trimmed@,
            end <= n,
            dot_from(s, end as int) == dot_from(s, 0),
        decreases n - end,
    {
        end = end + 1;
    }
    let start: usize = if 0 < end && trimmed.get_char(0) == '+' { 1 } else { 0 };
    if start >= end {
        return None;
    }
    let mut v: u64 = 0;
    let mut k: usize = start;
    while k < end
        invariant
            n == s.len(),
            s == trimmed@,
            end == dot_from(s, 0),
            end <= n,
            start <= k <= end,
            start == (if 0 < end && s[0] == '+' { 1int } else { 0 }),
            forall|j: int| start <= j < k ==> is_digit(#[trigger] s[j]),
            v == dec_value(s, start as int, k as int),
            v <= u32::MAX,
        decreases end - k,
    {
        let c = trimmed.get_char(k);
        if !('0' <= c && c <= '9') {
            assert(!is_digit(s[k as int]));
            assert(!(forall|j: int| start <= j < end ==> is_digit(#[trigger] s[j])));
            return None;
        }
        let d = (c as u32 - '0' as u32) as u64;
        let next = v * 10 + d;
        if next > u32::MAX as u64 {
            proof {
                assert(d == s[k as int] as int - '0' as int);
                assert(dec_value(s, start as int, k + 1) == v * 10 + d);
                assert(dec_value(s, start as int, k + 1) > u32::MAX);
                if forall|j: int| start <= j < end ==> is_digit(#[trigger] s[j]) {
                    lemma_dec_value_grows(s, start as int, k + 1, end as int);
                }
            }
            return None;
        }
        v = next;
        k = k + 1;
    }
    Some(v as u32)
}

/// The macOS major version from the output of the version command.
pub fn parse_major_version(raw: &str) -> (r: Option<u32>)
    ensures
        r == spec_major_version(trim_of(raw@)),
{
    major_version_of(trim(raw))
}

} // verus!
