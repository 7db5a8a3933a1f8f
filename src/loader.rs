use vstd::prelude::*;

use crate::lexer::chars_of;

verus! {

/// Whether `needle` occurs in `hay` at position `i`.
pub open spec fn occurs_at(hay: Seq<char>, needle: Seq<char>, i: int) -> bool {
    0 <= i && i + needle.len() <= hay.len() && hay.subrange(i, i + needle.len()) == needle
}

/// Whether `needle` occurs anywhere in `hay`.
pub open spec fn contains_seq(hay: Seq<char>, needle: Seq<char>) -> bool {
    exists|i: int| occurs_at(hay, needle, i)
}

/// Whether `hay` ends with `suffix`.
pub open spec fn ends_with_seq(hay: Seq<char>, suffix: Seq<char>) -> bool {
    occurs_at(hay, suffix, hay.len() - suffix.len())
}

fn matches_at(hay: &Vec<char>, needle: &Vec<char>, i: usize) -> (r: bool)
    requires
        i + needle@.len() <= hay@.len(),
    ensures
        r == occurs_at(hay@, needle@, i as int),
{
    let hay_len = hay.len();
    let mut k: usize = 0;
    while k < needle.len()
        invariant
            i + needle@.len() <= hay@.len(),
            hay_len == hay@.len(),
            k <= needle@.len(),
            forall|j: int| 0 <= j < k ==> hay@[i + j] == needle@[j],
        decreases needle@.len() - k,
    {
        if hay[i + k] != needle[k] {
            assert(hay@.subrange(i as int, i + needle@.len())[k as int] != needle@[k as int]);
            return false;
        }
        k = k + 1;
    }
    assert(hay@.subrange(i as int, i + needle@.len()) =~= needle@);
    true
}

/// Whether `needle` occurs in `hay`.
pub fn contains_text(hay: &str, needle: &str) -> (r: bool)
    ensures
        r == contains_seq(hay@, needle@),
{
    let h = chars_of(hay);
    let n = chars_of(needle);
    if n.len() > h.len() {
        return false;
    }
    let last = h.len() - n.len();
    let mut i: usize = 0;
    while i <= last
        invariant
            h@ == hay@,
            n@ == needle@,
            last == h@.len() - n@.len(),
            forall|j: int| 0 <= j < i ==> !occurs_at(h@, n@, j),
        ensures
            forall|j: int| 0 <= j <= last ==> !occurs_at(h@, n@, j),
        decreases last + 1 - i,
    {
        if matches_at(&h, &n, i) {
            return true;
        }
        if i == last {
            break;
        }
        i = i + 1;
    }
    proof {
        if contains_seq(hay@, needle@) {
            let j = choose|j: int| occurs_at(hay@, needle@, j);
            assert(j <= last);
        }
    }
    false
}

/// Whether `hay` ends with `suffix`.
pub fn ends_with_text(hay: &str, suffix: &str) -> (r: bool)
    ensures
        r == ends_with_seq(hay@, suffix@),
{
    let h = chars_of(hay);
    let n = chars_of(suffix);
    if n.len() > h.len() {
        return false;
    }
    matches_at(&h, &n, h.len() - n.len())
}

/// Whether the file name has the extension `file_type`.
pub fn matches_file_type(file_name: &str, file_type: &str) -> (r: bool)
    ensures
        r == ends_with_seq(file_name@, "."@ + file_type@),
{
    let suffix = String::from_str(".").concat(file_type);
    ends_with_text(file_name, suffix.as_str())
}

/// Whether the path lies under a `node_modules` directory.
pub fn is_node_modules(path: &str) -> (r: bool)
    ensures
        r == contains_seq(path@, "node_modules"@),
{
    contains_text(path, "node_modules")
}

/// Whether the path lies under a `.yalc` directory.
pub fn is_yalc(path: &str) -> (r: bool)
    ensures
        r == contains_seq(path@, ".yalc"@),
{
    contains_text(path, ".yalc")
}

/// Whether the path is hidden: it starts with a dot.
pub fn is_hidden(path: &str) -> (r: bool)
    ensures
        r == occurs_at(path@, "."@, 0),
{
    let h = chars_of(path);
    let n = chars_of(".");
    if n.len() > h.len() {
        return false;
    }
    matches_at(&h, &n, 0)
}

/// Whether the path names build output.
pub fn is_dist(path: &str) -> (r: bool)
    ensures
        r == contains_seq(path@, "dist"@),
{
    contains_text(path, "dist")
}

/// Whether a file found while walking a directory is a stylesheet to
/// process: an `.scss` file outside dependencies, hidden paths and build
/// output. A path or name that is not valid text counts as no match.
pub fn is_stylesheet(path: Option<&str>, file_name: Option<&str>) -> (r: bool)
    ensures
        r == (match (path, file_name) {
            (_, None) => false,
            (None, Some(f)) => ends_with_seq(f@, ".scss"@),
            (Some(p), Some(f)) => ends_with_seq(f@, ".scss"@) && !contains_seq(p@, "node_modules"@)
                && !occurs_at(p@, "."@, 0) && !contains_seq(p@, ".yalc"@) && !contains_seq(
                p@,
                "dist"@,
            ),
        }),
{
    let wanted_type = match file_name {
        Some(f) => matches_file_type(f, "scss"),
        None => false,
    };
    proof {
        reveal_strlit(".");
        reveal_strlit("scss");
        reveal_strlit(".scss");
        assert("."@ + "scss"@ =~= ".scss"@);
    }
    match path {
        None => wanted_type,
        Some(p) => wanted_type && !is_node_modules(p) && !is_hidden(p) && !is_yalc(p) && !is_dist(
            p,
        ),
    }
}

} // verus!
