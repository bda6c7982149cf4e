//! The filter on file extensions.
//!
//! A path passes where it ends in one of the allowed extensions, letters
//! of either case. The filter looks at the name alone, never at the content.

use vstd::prelude::*;
use crate::text::chars_of;

verus! {

/// The lower-case form of an ASCII capital letter; any other character itself.
pub open spec fn ascii_lower(c: char) -> char {
    if 'A' <= c && c <= 'Z' {
        ((c as int) + 32) as char
    } else {
        c
    }
}

/// The allowed extensions, each with its dot, in lower case.
pub open spec fn allowed_extensions() -> Seq<Seq<char>> {
    seq![
        seq!['.', 'j', 'p', 'g'],
        seq!['.', 'j', 'p', 'e', 'g'],
        seq!['.', 'p', 'n', 'g'],
        seq!['.', 'g', 'i', 'f'],
        seq!['.', 'b', 'm', 'p'],
    ]
}

/// `path` ends in `ext`, where `ext` is in lower case and the case of the
/// letters of `path` does not count.
pub open spec fn ends_with_ignoring_case(path: Seq<char>, ext: Seq<char>) -> bool {
    &&& ext.len() <= path.len()
    &&& forall|i: int|
        0 <= i < ext.len() ==> ascii_lower(#[trigger] path[path.len() - ext.len() + i]) == ext[i]
}

/// `path` ends in one of the allowed extensions.
pub open spec fn has_allowed_extension(path: Seq<char>) -> bool {
    exists|k: int|
        0 <= k < allowed_extensions().len() && ends_with_ignoring_case(
            path,
            #[trigger] allowed_extensions()[k],
        )
}

/// Whether `c` is `lower` but for the case of an ASCII letter.
fn same_ignoring_case(c: char, lower: char) -> (r: bool)
    ensures
        r == (ascii_lower(c) == lower),
{
    if 'A' <= c && c <= 'Z' {
        c as u32 + 32 == lower as u32
    } else {
        c == lower
    }
}

/// Whether `path` ends in `ext`.
fn ends_with(path: &Vec<char>, ext: &Vec<char>) -> (r: bool)
    ensures
        r == ends_with_ignoring_case(path@, ext@),
{
    let n: usize = path.len();
    let m: usize = ext.len();
    if m > n {
        return false;
    }
    let mut i: usize = 0;
    while i < m
        invariant
            i <= m,
            m == ext.len(),
            m <= n,
            n == path.len(),
            forall|j: int|
                0 <= j < i ==> ascii_lower(#[trigger] path@[n - m + j]) == ext@[j],
        decreases m - i,
    {
        if !same_ignoring_case(path[n - m + i], ext[i]) {
            return false;
        }
        i = i + 1;
    }
    true
}

/// Whether a path names a file of a supported image format, by its
/// extension alone: `.jpg`, `.jpeg`, `.png`, `.gif` or `.bmp`, in letters
/// of either case.
pub fn is_valid_image_file(path: &str) -> (r: bool)
    ensures
        r == has_allowed_extension(path@),
{
    let p: Vec<char> = chars_of(path);
    let jpg: Vec<char> = vec!['.', 'j', 'p', 'g'];
    let jpeg: Vec<char> = vec!['.', 'j', 'p', 'e', 'g'];
    let png: Vec<char> = vec!['.', 'p', 'n', 'g'];
    let gif: Vec<char> = vec!['.', 'g', 'i', 'f'];
    let bmp: Vec<char> = vec!['.', 'b', 'm', 'p'];
    proof {
        assert(jpg@ =~= allowed_extensions()[0]);
        assert(jpeg@ =~= allowed_extensions()[1]);
        assert(png@ =~= allowed_extensions()[2]);
        assert(gif@ =~= allowed_extensions()[3]);
        assert(bmp@ =~= allowed_extensions()[4]);
    }
    ends_with(&p, &jpg) || ends_with(&p, &jpeg) || ends_with(&p, &png) || ends_with(&p, &gif)
        || ends_with(&p, &bmp)
}

} // verus!
