//! The name of the stripped copy of an image.
//!
//! The copy is named after the file name of the source: its stem, the
//! suffix `_no_exif`, a dot, and its extension, or `jpg` where it has none.
//! The directories of the source path are left out.

use vstd::prelude::*;
use crate::text::chars_of;

verus! {

/// The index of the last `c` in `s`, or -1 where `s` holds none.
pub open spec fn last_index_of(s: Seq<char>, c: char) -> int
    decreases s.len(),
{
    if s.len() == 0 {
        -1
    } else if s.last() == c {
        s.len() - 1
    } else {
        last_index_of(s.drop_last(), c)
    }
}

/// Whether `path` ends in a separator or in a component that is a single dot.
pub open spec fn ends_in_empty_component(path: Seq<char>) -> bool {
    let n = path.len() as int;
    n > 0 && (path[n - 1] == '/' || (path[n - 1] == '.' && (n == 1 || path[n - 2] == '/')))
}

/// `path` without the separators and single-dot components at its end.
pub open spec fn trimmed_path(path: Seq<char>) -> Seq<char>
    decreases path.len(),
{
    if ends_in_empty_component(path) {
        trimmed_path(path.drop_last())
    } else {
        path
    }
}

/// The two dots that name the parent directory.
pub open spec fn parent_name() -> Seq<char> {
    seq!['.', '.']
}

/// The file name of a path: its last component, unless the path has none
/// or ends in the parent directory.
pub open spec fn file_name(path: Seq<char>) -> Option<Seq<char>> {
    let trimmed = trimmed_path(path);
    let name = trimmed.subrange(last_index_of(trimmed, '/') + 1, trimmed.len() as int);
    if name.len() == 0 || name == parent_name() {
        None
    } else {
        Some(name)
    }
}

/// The stem of a file name: the part before its last dot, or all of it
/// where it has no dot but at its start.
pub open spec fn stem_of(name: Seq<char>) -> Seq<char> {
    let dot = last_index_of(name, '.');
    if dot <= 0 {
        name
    } else {
        name.subrange(0, dot)
    }
}

/// The extension of a file name: the part behind its last dot, if it has
/// a dot that is not at its start.
pub open spec fn extension_of(name: Seq<char>) -> Option<Seq<char>> {
    let dot = last_index_of(name, '.');
    if dot <= 0 {
        None
    } else {
        Some(name.subrange(dot + 1, name.len() as int))
    }
}

/// The extension of the copy where the source has none.
pub open spec fn default_extension() -> Seq<char> {
    seq!['j', 'p', 'g']
}

/// What is put behind the stem of the source.
pub open spec fn name_suffix() -> Seq<char> {
    seq!['_', 'n', 'o', '_', 'e', 'x', 'i', 'f']
}

/// The extension of the copy of a file with the given name.
pub open spec fn output_extension(name: Seq<char>) -> Seq<char> {
    match extension_of(name) {
        Some(ext) => ext,
        None => default_extension(),
    }
}

/// The name of the stripped copy of the file at `path`, or `None` where
/// the path has no file name.
pub open spec fn output_name(path: Seq<char>) -> Option<Seq<char>> {
    match file_name(path) {
        Some(name) => Some(stem_of(name) + name_suffix() + seq!['.'] + output_extension(name)),
        None => None,
    }
}

/// The index, counted from `start`, of the last `c` in `s[start..end]`.
fn find_last(s: &Vec<char>, start: usize, end: usize, c: char) -> (r: Option<usize>)
    requires
        start <= end <= s.len(),
    ensures
        match r {
            Some(i) => i < end - start && i as int == last_index_of(
                s@.subrange(start as int, end as int),
                c,
            ),
            None => last_index_of(s@.subrange(start as int, end as int), c) == -1,
        },
{
    let mut k: usize = end;
    while k > start
        invariant
            start <= k <= end <= s.len(),
            last_index_of(s@.subrange(start as int, end as int), c) == last_index_of(
                s@.subrange(start as int, k as int),
                c,
            ),
        decreases k,
    {
        if s[k - 1] == c {
            return Some(k - 1 - start);
        }
        assert(s@.subrange(start as int, k as int).drop_last() =~= s@.subrange(
            start as int,
            k - 1,
        ));
        k = k - 1;
    }
    None
}

/// Whether the first `end` characters end in an empty component.
fn ends_empty(s: &Vec<char>, end: usize) -> (r: bool)
    requires
        end <= s.len(),
    ensures
        r == ends_in_empty_component(s@.subrange(0, end as int)),
{
    if end == 0 {
        false
    } else if s[end - 1] == '/' {
        true
    } else {
        s[end - 1] == '.' && (end == 1 || s[end - 2] == '/')
    }
}

/// The length of the path without the empty components at its end.
fn trimmed_len(s: &Vec<char>) -> (end: usize)
    ensures
        end <= s.len(),
        s@.subrange(0, end as int) == trimmed_path(s@),
{
    let mut end: usize = s.len();
    assert(s@.subrange(0, end as int) =~= s@);
    while ends_empty(s, end)
        invariant
            end <= s.len(),
            trimmed_path(s@) == trimmed_path(s@.subrange(0, end as int)),
        decreases end,
    {
        assert(s@.subrange(0, end as int).drop_last() =~= s@.subrange(0, end - 1));
        end = end - 1;
    }
    end
}

/// Appends the characters `s[from..to]`.
fn push_chars(out: &mut String, s: &Vec<char>, from: usize, to: usize)
    requires
        from <= to <= s.len(),
    ensures
        final(out)@ == old(out)@ + s@.subrange(from as int, to as int),
{
    let mut i: usize = from;
    while i < to
        invariant
            from <= i <= to <= s.len(),
            out@ == old(out)@ + s@.subrange(from as int, i as int),
        decreases to - i,
    {
        out.push(s[i]);
        i = i + 1;
    }
}

/// Where the file name stands in a path: `s[start..end]`.
fn name_bounds(s: &Vec<char>) -> (r: Option<(usize, usize)>)
    ensures
        match r {
            Some((start, end)) => start < end <= s.len() && file_name(s@) == Some(
                s@.subrange(start as int, end as int),
            ),
            None => file_name(s@).is_none(),
        },
{
    let end: usize = trimmed_len(s);
    let ghost trimmed = s@.subrange(0, end as int);
    let start: usize = match find_last(s, 0, end, '/') {
        Some(i) => i + 1,
        None => 0,
    };
    let ghost name = s@.subrange(start as int, end as int);
    assert(name =~= trimmed.subrange(last_index_of(trimmed, '/') + 1, trimmed.len() as int));
    if start == end {
        return None;
    }
    if end - start == 2 && s[start] == '.' && s[start + 1] == '.' {
        assert(name =~= parent_name());
        return None;
    }
    Some((start, end))
}

/// Where the stem of the file name `s[start..end]` ends. The extension,
/// if there is one, starts one character further on.
fn stem_end(s: &Vec<char>, start: usize, end: usize) -> (r: usize)
    requires
        start <= end <= s.len(),
    ensures
        start <= r <= end,
        s@.subrange(start as int, r as int) == stem_of(s@.subrange(start as int, end as int)),
        r == end ==> extension_of(s@.subrange(start as int, end as int)).is_none(),
        r < end ==> extension_of(s@.subrange(start as int, end as int)) == Some(
            s@.subrange(r + 1, end as int),
        ),
{
    let ghost name = s@.subrange(start as int, end as int);
    let r: usize = match find_last(s, start, end, '.') {
        Some(d) => if d == 0 {
            end
        } else {
            start + d
        },
        None => end,
    };
    if r < end {
        assert(s@.subrange(r + 1, end as int) =~= name.subrange(
            r - start + 1,
            name.len() as int,
        ));
    }
    r
}

/// Appends the suffix of the copy's stem and the dot before its extension.
fn push_suffix(out: &mut String)
    ensures
        final(out)@ == old(out)@ + name_suffix() + seq!['.'],
{
    out.push('_');
    out.push('n');
    out.push('o');
    out.push('_');
    out.push('e');
    out.push('x');
    out.push('i');
    out.push('f');
    out.push('.');
}

/// The extension of the copy of the file named `s[start..end]`, whose
/// stem ends at `dot`.
fn extension_text(s: &Vec<char>, dot: usize, end: usize) -> (ext: Vec<char>)
    requires
        dot <= end <= s.len(),
    ensures
        ext@ == if dot < end {
            s@.subrange(dot + 1, end as int)
        } else {
            default_extension()
        },
{
    if dot < end {
        let mut ext: Vec<char> = Vec::new();
        let mut i: usize = dot + 1;
        while i < end
            invariant
                dot < i <= end <= s.len(),
                ext@ == s@.subrange(dot + 1, i as int),
            decreases end - i,
        {
            ext.push(s[i]);
            i = i + 1;
        }
        ext
    } else {
        let ext: Vec<char> = vec!['j', 'p', 'g'];
        ext
    }
}

/// The name and the extension of the stripped copy of the file at `path`.
pub(crate) fn plan_output(path: &str) -> (r: Option<(String, String)>)
    ensures
        match r {
            Some(plan) => file_name(path@).is_some() && output_name(path@) == Some(plan.0@)
                && plan.1@ == output_extension(file_name(path@).unwrap()),
            None => output_name(path@).is_none(),
        },
{
    let s: Vec<char> = chars_of(path);
    match name_bounds(&s) {
        None => None,
        Some((start, end)) => {
            let dot: usize = stem_end(&s, start, end);
            let e: Vec<char> = extension_text(&s, dot, end);
            let mut out = String::new();
            push_chars(&mut out, &s, start, dot);
            push_suffix(&mut out);
            push_chars(&mut out, &e, 0, e.len());
            let mut ext = String::new();
            push_chars(&mut ext, &e, 0, e.len());
            Some((out, ext))
        },
    }
}

/// The name of the stripped copy of the file at `path`: the stem of its
/// file name, `_no_exif`, a dot, and its extension, or `jpg` where it has
/// none. The result is `None` exactly when the path has no file name.
pub fn output_path(path: &str) -> (r: Option<String>)
    ensures
        match r {
            Some(name) => output_name(path@) == Some(name@),
            None => output_name(path@).is_none(),
        },
{
    match plan_output(path) {
        Some(plan) => Some(plan.0),
        None => None,
    }
}

} // verus!
