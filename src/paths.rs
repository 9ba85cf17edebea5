//! The stem and the extension of a file name, split at its last dot as std's
//! `Path::file_stem` and `Path::extension` split it.

use crate::outside::{file_name, name_of, string_of};
use crate::text::chars_of;
use vstd::prelude::*;

verus! {

/// The position of the last dot among the first `i` characters of `n`.
pub open spec fn last_dot_before(n: Seq<char>, i: int) -> Option<int>
    decreases i,
{
    if i <= 0 || i > n.len() {
        None
    } else if n[i - 1] == '.' {
        Some(i - 1)
    } else {
        last_dot_before(n, i - 1)
    }
}

/// Where a file name splits into stem and extension: at its last dot, unless that
/// dot begins the name or the name is `..`.
pub open spec fn split_dot(n: Seq<char>) -> Option<int> {
    if n == ".."@ {
        None
    } else {
        match last_dot_before(n, n.len() as int) {
            Some(i) => if i > 0 {
                Some(i)
            } else {
                None
            },
            None => None,
        }
    }
}

/// The stem of a path: its file name up to the split dot, or the whole name.
pub open spec fn stem_of(path: Seq<char>) -> Option<Seq<char>> {
    match name_of(path) {
        Some(n) => match split_dot(n) {
            Some(i) => Some(n.subrange(0, i)),
            None => Some(n),
        },
        None => None,
    }
}

/// The extension of a path: its file name after the split dot, if it splits.
pub open spec fn extension_of(path: Seq<char>) -> Option<Seq<char>> {
    match name_of(path) {
        Some(n) => match split_dot(n) {
            Some(i) => Some(n.subrange(i + 1, n.len() as int)),
            None => None,
        },
        None => None,
    }
}

/// Where a file name splits into stem and extension.
fn split_point(n: &Vec<char>) -> (r: Option<usize>)
    ensures
        match r {
            Some(i) => split_dot(n@) == Some(i as int) && i < n@.len(),
            None => split_dot(n@) is None,
        },
{
    proof {
        reveal_strlit("..");
    }
    if n.len() == 2 && n[0] == '.' && n[1] == '.' {
        assert(n@ =~= ".."@);
        return None;
    }
    assert(n@ != ".."@) by {
        if n@ == ".."@ {
            assert(n@.len() == 2 && n@[0] == '.' && n@[1] == '.');
        }
    }
    let mut i: usize = n.len();
    while i > 0
        invariant
            i <= n@.len(),
            n@ != ".."@,
            last_dot_before(n@, n@.len() as int) == last_dot_before(n@, i as int),
        decreases i,
    {
        if n[i - 1] == '.' {
            if i - 1 > 0 {
                return Some(i - 1);
            } else {
                return None;
            }
        }
        i = i - 1;
    }
    None
}

fn slice_chars(n: &Vec<char>, from: usize, to: usize) -> (r: Vec<char>)
    requires
        from <= to <= n@.len(),
    ensures
        r@ == n@.subrange(from as int, to as int),
{
    let mut r: Vec<char> = Vec::new();
    let mut k: usize = from;
    while k < to
        invariant
            from <= k <= to <= n@.len(),
            r@ == n@.subrange(from as int, k as int),
        decreases to - k,
    {
        r.push(n[k]);
        k = k + 1;
        proof {
            assert(r@ =~= n@.subrange(from as int, k as int));
        }
    }
    r
}

/// The file name of a path without its extension.
pub fn file_stem(path: &str) -> (r: Option<String>)
    ensures
        opt_view_chars(r) == stem_of(path@),
{
    let name = file_name(path)?;
    let n = chars_of(name.as_str());
    match split_point(&n) {
        Some(i) => Some(string_of(&slice_chars(&n, 0, i))),
        None => Some(name),
    }
}

/// The extension of a path's file name, if it has one.
pub fn file_extension(path: &str) -> (r: Option<String>)
    ensures
        opt_view_chars(r) == extension_of(path@),
{
    let name = file_name(path)?;
    let n = chars_of(name.as_str());
    match split_point(&n) {
        Some(i) => Some(string_of(&slice_chars(&n, i + 1, n.len()))),
        None => None,
    }
}

pub open spec fn opt_view_chars(o: Option<String>) -> Option<Seq<char>> {
    crate::outside::opt_view(o)
}

} // verus!
