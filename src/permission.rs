use vstd::prelude::*;

verus! {

/// `needle` occurs in `hay` at position `i`.
pub open spec fn occurs_at(hay: Seq<char>, needle: Seq<char>, i: int) -> bool {
    0 <= i && i + needle.len() <= hay.len() && hay.subrange(i, i + needle.len()) == needle
}

pub open spec fn has_substring(hay: Seq<char>, needle: Seq<char>) -> bool {
    exists|i: int| occurs_at(hay, needle, i)
}

pub open spec fn has_prefix(s: Seq<char>, p: Seq<char>) -> bool {
    occurs_at(s, p, 0)
}

/// The lower-case form of a string, as `str::to_lowercase` computes it.
pub uninterp spec fn lower_of(s: Seq<char>) -> Seq<char>;

/// Relies on `str::to_lowercase`: the result depends on the characters alone.
#[verifier::external_body]
fn lowercase(s: &str) -> (r: String)
    ensures
        r@ == lower_of(s@),
{
    s.to_lowercase()
}

/// `needle` occurs in `hay`.
pub fn contains_str(hay: &str, needle: &str) -> (r: bool)
    ensures
        r == has_substring(hay@, needle@),
{
    let n = hay.unicode_len();
    let m = needle.unicode_len();
    if m > n {
        assert forall|i: int| !occurs_at(hay@, needle@, i) by {}
        return false;
    }
    if m == 0 {
        assert(hay@.subrange(0, 0) =~= needle@);
        assert(occurs_at(hay@, needle@, 0));
        return true;
    }
    let mut i: usize = 0;
    while i <= n - m
        invariant
            1 <= m <= n,
            n == hay@.len(),
            m == needle@.len(),
            forall|j: int| 0 <= j < i ==> !occurs_at(hay@, needle@, j),
        decreases n - m + 1 - i,
    {
        if matches_at(hay, needle, i) {
            return true;
        }
        i = i + 1;
    }
    assert forall|j: int| !occurs_at(hay@, needle@, j) by {
        if 0 <= j < i {
        }
    }
    false
}

/// `p` is a prefix of `s`.
pub fn starts_with_str(s: &str, p: &str) -> (r: bool)
    ensures
        r == has_prefix(s@, p@),
{
    let n = s.unicode_len();
    let m = p.unicode_len();
    if m > n {
        return false;
    }
    matches_at(s, p, 0)
}

fn matches_at(hay: &str, needle: &str, i: usize) -> (r: bool)
    requires
        i + needle@.len() <= hay@.len(),
    ensures
        r == occurs_at(hay@, needle@, i as int),
{
    let m = needle.unicode_len();
    let hl = hay.unicode_len();
    let mut k: usize = 0;
    while k < m
        invariant
            m == needle@.len(),
            hl == hay@.len(),
            i + m <= hay@.len(),
            k <= m,
            forall|t: int| 0 <= t < k ==> hay@[i + t] == needle@[t],
        decreases m - k,
    {
        if hay.get_char(i + k) != needle.get_char(k) {
            assert(hay@.subrange(i as int, i + m)[k as int] != needle@[k as int]);
            return false;
        }
        k = k + 1;
    }
    assert(hay@.subrange(i as int, i + m) =~= needle@);
    true
}

pub const PERMISSION_REQUIRED: &'static str = "permission:Screen Recording permission required. Please grant permission in System Settings > Privacy & Security > Screen Recording.";

/// A lower-cased message speaks of a missing permission.
pub open spec fn speaks_of_permission(lower: Seq<char>) -> bool {
    has_substring(lower, "permission"@) || has_substring(lower, "denied"@) || has_substring(
        lower,
        "not authorized"@,
    ) || has_substring(lower, "could not create image from display"@)
}

/// Whether an already lower-cased message speaks of a missing permission.
pub fn mentions_permission_problem(lower: &str) -> (r: bool)
    ensures
        r == speaks_of_permission(lower@),
{
    contains_str(lower, "permission") || contains_str(lower, "denied") || contains_str(lower, "not authorized")
        || contains_str(lower, "could not create image from display")
}

/// Whether an error message, in any case, speaks of a missing permission.
pub fn is_permission_error(message: &str) -> (r: bool)
    ensures
        r == speaks_of_permission(lower_of(message@)),
{
    let lower = lowercase(message);
    mentions_permission_problem(lower.as_str())
}

/// The message shown when screen recording is not permitted.
pub fn permission_required_error() -> (r: String)
    ensures
        r@ == PERMISSION_REQUIRED@,
{
    String::from_str(PERMISSION_REQUIRED)
}

/// What `map_permission_check_error` returns for `error`.
pub open spec fn spec_map_permission_check_error(error: Seq<char>) -> Seq<char> {
    if has_prefix(error, "permission:"@) {
        PERMISSION_REQUIRED@
    } else if has_prefix(error, "command_failed:"@) || has_prefix(error, "cancelled:"@) {
        error
    } else if speaks_of_permission(lower_of(error)) {
        PERMISSION_REQUIRED@
    } else {
        "command_failed:"@ + error
    }
}

/// Normalises the error of a permission check: permission problems become
/// the standard message, errors that already carry a kind prefix are kept,
/// and anything else is marked as a failed command.
pub fn map_permission_check_error(error: String) -> (r: String)
    ensures
        r@ == spec_map_permission_check_error(error@),
{
    if starts_with_str(error.as_str(), "permission:") {
        return permission_required_error();
    }
    if starts_with_str(error.as_str(), "command_failed:") || starts_with_str(error.as_str(), "cancelled:") {
        return error;
    }
    if is_permission_error(error.as_str()) {
        return permission_required_error();
    }
    String::from_str("command_failed:").concat(error.as_str())
}

} // verus!
