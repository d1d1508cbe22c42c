//! Recognizing image and video files by the extension of their path.

use vstd::prelude::*;

use crate::text::str_eq;

verus! {

/// Length of `p[..n]` once trailing slashes and trailing `.` components are dropped,
/// as path components are read: `a/b.png/./` ends with the component `b.png`.
pub open spec fn trimmed_len(p: Seq<char>, n: nat) -> nat
    decreases n,
{
    if n > 0 && p[n - 1] == '/' {
        trimmed_len(p, (n - 1) as nat)
    } else if n >= 2 && p[n - 1] == '.' && p[n - 2] == '/' {
        trimmed_len(p, (n - 1) as nat)
    } else {
        n
    }
}

/// Start of the last component of `p[..n]`: just after its last slash, or 0.
pub open spec fn name_start(p: Seq<char>, n: nat) -> nat
    decreases n,
{
    if n == 0 {
        0
    } else if p[n - 1] == '/' {
        n
    } else {
        name_start(p, (n - 1) as nat)
    }
}

/// Position of the last dot in `p[lo..n]`, or -1.
pub open spec fn last_dot(p: Seq<char>, lo: nat, n: nat) -> int
    decreases n,
{
    if n <= lo {
        -1
    } else if p[n - 1] == '.' {
        n - 1
    } else {
        last_dot(p, lo, (n - 1) as nat)
    }
}

/// The extension of a path: what follows the last dot of its last component, where
/// that dot is not the component's first character; none for `..`.
pub open spec fn extension_of(p: Seq<char>) -> Option<Seq<char>> {
    let e = trimmed_len(p, p.len());
    let s = name_start(p, e);
    let d = last_dot(p, s, e);
    if p.subrange(s as int, e as int) == ".."@ || d <= s {
        None
    } else {
        Some(p.subrange(d + 1, e as int))
    }
}

/// Lower-case form of a string.
pub uninterp spec fn lower_of(s: Seq<char>) -> Seq<char>;

/// Relies on `str::to_lowercase`: the result depends on the characters alone.
#[verifier::external_body]
fn lowercase(s: &str) -> (r: String)
    ensures
        r@ == lower_of(s@),
{
    s.to_lowercase()
}

pub open spec fn is_image_extension(e: Seq<char>) -> bool {
    e == "jpg"@ || e == "jpeg"@ || e == "png"@ || e == "webp"@
}

pub open spec fn is_video_extension(e: Seq<char>) -> bool {
    e == "mp4"@ || e == "mkv"@ || e == "webm"@ || e == "avi"@
}

/// The extension of `path`, as positions `[from, to)` in its characters.
fn extension_range(path: &str) -> (r: Option<(usize, usize)>)
    ensures
        r is None <==> extension_of(path@) is None,
        r matches Some((from, to)) ==> from <= to <= path@.len() && extension_of(path@) == Some(
            path@.subrange(from as int, to as int),
        ),
{
    let p = path;
    let len = p.unicode_len();
    let mut e: usize = len;
    while e > 0 && (p.get_char(e - 1) == '/' || (e >= 2 && p.get_char(e - 1) == '.' && p.get_char(
        e - 2,
    ) == '/'))
        invariant
            e <= len == p@.len(),
            trimmed_len(p@, len as nat) == trimmed_len(p@, e as nat),
        decreases e,
    {
        e = e - 1;
    }
    let mut s: usize = e;
    while s > 0 && p.get_char(s - 1) != '/'
        invariant
            s <= e <= len == p@.len(),
            trimmed_len(p@, len as nat) == e,
            name_start(p@, e as nat) == name_start(p@, s as nat),
        decreases s,
    {
        s = s - 1;
    }
    assert(name_start(p@, s as nat) == s);
    let mut d: usize = e;
    while d > s && p.get_char(d - 1) != '.'
        invariant
            s <= d <= e <= len == p@.len(),
            trimmed_len(p@, len as nat) == e,
            name_start(p@, e as nat) == s,
            last_dot(p@, s as nat, e as nat) == last_dot(p@, s as nat, d as nat),
        decreases d,
    {
        d = d - 1;
    }
    assert(last_dot(p@, s as nat, e as nat) == if d > s {
        d - 1
    } else {
        -1
    });
    let is_dotdot = e - s == 2 && p.get_char(s) == '.' && p.get_char(s + 1) == '.';
    proof {
        reveal_strlit("..");
        if is_dotdot {
            assert(p@.subrange(s as int, e as int) =~= ".."@);
        } else if e - s == 2 {
            assert(p@.subrange(s as int, e as int)[0] == p@[s as int]);
            assert(p@.subrange(s as int, e as int)[1] == p@[s + 1]);
        }
        assert(".."@.len() == 2);
        assert(is_dotdot == (p@.subrange(s as int, e as int) == ".."@));
        assert(trimmed_len(p@, p@.len()) == e);
    }
    if is_dotdot || d <= s + 1 {
        None
    } else {
        Some((d, e))
    }
}

/// Whether the path names an image: its extension, in lower case, is jpg, jpeg, png
/// or webp.
pub fn is_image(path: &str) -> (r: bool)
    ensures
        r == (match extension_of(path@) {
            Some(e) => is_image_extension(lower_of(e)),
            None => false,
        }),
{
    match extension_range(path) {
        None => false,
        Some((from, to)) => {
            let ext = lowercase(path.substring_char(from, to));
            let e = ext.as_str();
            str_eq(e, "jpg") || str_eq(e, "jpeg") || str_eq(e, "png") || str_eq(e, "webp")
        },
    }
}

/// Whether the path names a video: its extension, in lower case, is mp4, mkv, webm
/// or avi.
pub fn is_video(path: &str) -> (r: bool)
    ensures
        r == (match extension_of(path@) {
            Some(e) => is_video_extension(lower_of(e)),
            None => false,
        }),
{
    match extension_range(path) {
        None => false,
        Some((from, to)) => {
            let ext = lowercase(path.substring_char(from, to));
            let e = ext.as_str();
            str_eq(e, "mp4") || str_eq(e, "mkv") || str_eq(e, "webm") || str_eq(e, "avi")
        },
    }
}

} // verus!
