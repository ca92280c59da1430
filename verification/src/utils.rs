//! Slug derivation and filename classification: how a content file's path
//! becomes the URL slug of its page, and how the directory walk recognizes
//! the files of a given extension.

use crate::text::{chars_of, lower_of, lowercase, string_from_chars};
use vstd::prelude::*;

verus! {

/// Index of the last occurrence of `c` in `s`, or `-1` if there is none.
pub open spec fn find_last(s: Seq<char>, c: char) -> int
    decreases s.len(),
{
    if s.len() == 0 {
        -1
    } else if s.last() == c {
        s.len() - 1
    } else {
        find_last(s.drop_last(), c)
    }
}

/// Strip `prefix` off the front of `path` if it matches at a component
/// boundary (the prefix is the whole path, or a `/` follows it); otherwise
/// the path is kept as it is.
pub open spec fn spec_strip_prefix(path: Seq<char>, prefix: Seq<char>) -> Seq<char> {
    if prefix.len() == 0 {
        path
    } else if path.len() >= prefix.len() && path.subrange(0, prefix.len() as int) == prefix {
        if path.len() == prefix.len() {
            Seq::empty()
        } else if path[prefix.len() as int] == '/' {
            path.skip(prefix.len() as int + 1)
        } else {
            path
        }
    } else {
        path
    }
}

/// Remove the extension: everything from the last `.` of the final path
/// component, unless that component starts with the `.`.
pub open spec fn spec_strip_extension(s: Seq<char>) -> Seq<char> {
    let dot = find_last(s, '.');
    if dot > find_last(s, '/') + 1 {
        s.take(dot)
    } else {
        s
    }
}

/// URL-friendly replacement of a single character.
pub open spec fn slug_char(c: char) -> char {
    if c == '\\' {
        '/'
    } else if c == ' ' {
        '-'
    } else {
        c
    }
}

/// URL-friendly replacement across a string.
pub open spec fn spec_slug_map(s: Seq<char>) -> Seq<char> {
    s.map_values(|c: char| slug_char(c))
}

/// Remove leading `/` characters.
pub open spec fn trim_leading_slashes(s: Seq<char>) -> Seq<char>
    decreases s.len(),
{
    if s.len() > 0 && s[0] == '/' {
        trim_leading_slashes(s.drop_first())
    } else {
        s
    }
}

/// Remove trailing `/` characters.
pub open spec fn trim_trailing_slashes(s: Seq<char>) -> Seq<char>
    decreases s.len(),
{
    if s.len() > 0 && s.last() == '/' {
        trim_trailing_slashes(s.drop_last())
    } else {
        s
    }
}

/// Remove `/` characters from both ends.
pub open spec fn spec_trim_slashes(s: Seq<char>) -> Seq<char> {
    trim_trailing_slashes(trim_leading_slashes(s))
}

/// The slug of a content file: its path with the content root stripped, the
/// extension removed, lowercased, `\` turned into `/` and spaces into `-`,
/// and surrounding `/` trimmed.
pub open spec fn spec_slug(path: Seq<char>, prefix: Seq<char>) -> Seq<char> {
    spec_trim_slashes(
        spec_slug_map(lower_of(spec_strip_extension(spec_strip_prefix(path, prefix)))),
    )
}

/// Copy of `v[from..to]`.
fn sub_chars(v: &Vec<char>, from: usize, to: usize) -> (r: Vec<char>)
    requires
        from <= to <= v@.len(),
    ensures
        r@ == v@.subrange(from as int, to as int),
{
    let mut r: Vec<char> = Vec::new();
    let mut i: usize = from;
    while i < to
        invariant
            from <= i <= to <= v@.len(),
            r@ =~= v@.subrange(from as int, i as int),
        decreases to - i,
    {
        r.push(v[i]);
        i = i + 1;
        proof {
            assert(r@ =~= v@.subrange(from as int, i as int));
        }
    }
    r
}

/// Index of the last occurrence of `c`, if any.
fn find_last_char(v: &Vec<char>, c: char) -> (r: Option<usize>)
    ensures
        r is None ==> find_last(v@, c) == -1,
        r matches Some(p) ==> p as int == find_last(v@, c) && p < v@.len(),
{
    let mut i: usize = v.len();
    proof {
        assert(v@.take(v@.len() as int) =~= v@);
    }
    while i > 0
        invariant
            i <= v@.len(),
            find_last(v@, c) == find_last(v@.take(i as int), c),
        decreases i,
    {
        let prev = i - 1;
        proof {
            assert(v@.take(i as int).last() == v@[prev as int]);
            assert(v@.take(i as int).drop_last() =~= v@.take(prev as int));
        }
        if v[prev] == c {
            return Some(prev);
        }
        i = prev;
    }
    proof {
        assert(v@.take(0) =~= Seq::<char>::empty());
    }
    None
}

/// The `Slugify` rule set.
pub struct Slugify;

impl Slugify {
    /// Derive the slug of `path` below `prefix`.
    pub fn from_path(path: &str, prefix: &str) -> (r: String)
        ensures
            r@ == spec_slug(path@, prefix@),
    {
        let pv = chars_of(path);
        let pf = chars_of(prefix);
        let stripped = strip_prefix_chars(&pv, &pf);
        let no_ext = strip_extension_chars(&stripped);
        let pre_fold = string_from_chars(&no_ext);
        let folded = lowercase(pre_fold.as_str());
        let fv = chars_of(folded.as_str());
        let mapped = slug_map_chars(&fv);
        let trimmed = trim_slashes_chars(&mapped);
        string_from_chars(&trimmed)
    }
}

/// Executable form of `spec_strip_prefix`.
pub fn strip_prefix_chars(path: &Vec<char>, prefix: &Vec<char>) -> (r: Vec<char>)
    ensures
        r@ == spec_strip_prefix(path@, prefix@),
{
    if prefix.len() == 0 {
        return sub_chars(path, 0, path.len());
    }
    if path.len() < prefix.len() {
        proof {
            assert(path@.subrange(0, path@.len() as int) =~= path@);
        }
        return sub_chars(path, 0, path.len());
    }
    let mut i: usize = 0;
    while i < prefix.len()
        invariant
            i <= prefix@.len() <= path@.len(),
            forall|k: int| 0 <= k < i ==> path@[k] == prefix@[k],
        decreases prefix@.len() - i,
    {
        if path[i] != prefix[i] {
            proof {
                assert(path@.subrange(0, prefix@.len() as int)[i as int] == path@[i as int]);
                assert(path@.subrange(0, prefix@.len() as int) != prefix@);
            }
            return sub_chars(path, 0, path.len());
        }
        i = i + 1;
    }
    proof {
        assert(path@.subrange(0, prefix@.len() as int) =~= prefix@);
    }
    if path.len() == prefix.len() {
        proof {
            assert(spec_strip_prefix(path@, prefix@) =~= Seq::<char>::empty());
        }
        return Vec::new();
    }
    if path[prefix.len()] == '/' {
        proof {
            assert(path@.subrange(prefix@.len() as int + 1, path@.len() as int) =~= path@.skip(
                prefix@.len() as int + 1,
            ));
        }
        sub_chars(path, prefix.len() + 1, path.len())
    } else {
        sub_chars(path, 0, path.len())
    }
}

/// Executable form of `spec_strip_extension`.
fn strip_extension_chars(v: &Vec<char>) -> (r: Vec<char>)
    ensures
        r@ == spec_strip_extension(v@),
{
    let n = v.len();
    let dot = find_last_char(v, '.');
    let slash = find_last_char(v, '/');
    let name_start: usize = match slash {
        Option::Some(s) => s + 1,
        Option::None => 0,
    };
    match dot {
        Option::Some(d) => {
            if d > name_start {
                proof {
                    assert(v@.subrange(0, d as int) =~= v@.take(d as int));
                }
                sub_chars(v, 0, d)
            } else {
                sub_chars(v, 0, v.len())
            }
        },
        Option::None => sub_chars(v, 0, v.len()),
    }
}

/// Executable form of `spec_slug_map`.
fn slug_map_chars(v: &Vec<char>) -> (r: Vec<char>)
    ensures
        r@ == spec_slug_map(v@),
{
    let mut r: Vec<char> = Vec::new();
    let mut i: usize = 0;
    while i < v.len()
        invariant
            i <= v@.len(),
            r@ =~= v@.take(i as int).map_values(|c: char| slug_char(c)),
        decreases v@.len() - i,
    {
        let c = v[i];
        if c == '\\' {
            r.push('/');
        } else if c == ' ' {
            r.push('-');
        } else {
            r.push(c);
        }
        i = i + 1;
        proof {
            assert(r@ =~= v@.take(i as int).map_values(|ch: char| slug_char(ch)));
        }
    }
    proof {
        assert(v@.take(v@.len() as int) =~= v@);
    }
    r
}

/// Executable form of `spec_trim_slashes`.
pub fn trim_slashes_chars(v: &Vec<char>) -> (r: Vec<char>)
    ensures
        r@ == spec_trim_slashes(v@),
{
    let mut start: usize = 0;
    proof {
        assert(v@.skip(0) =~= v@);
    }
    while start < v.len() && v[start] == '/'
        invariant
            start <= v@.len(),
            trim_leading_slashes(v@) == trim_leading_slashes(v@.skip(start as int)),
        decreases v@.len() - start,
    {
        proof {
            assert(v@.skip(start as int)[0] == v@[start as int]);
            assert(v@.skip(start as int).drop_first() =~= v@.skip(start as int + 1));
        }
        start = start + 1;
    }
    let ghost lead = v@.skip(start as int);
    proof {
        if start < v@.len() {
            assert(lead[0] == v@[start as int]);
        }
        assert(trim_leading_slashes(v@) == lead);
    }
    let mut end: usize = v.len();
    while end > start && v[end - 1] == '/'
        invariant
            start <= end <= v@.len(),
            trim_leading_slashes(v@) == lead,
            lead == v@.skip(start as int),
            trim_trailing_slashes(lead) == trim_trailing_slashes(
                v@.subrange(start as int, end as int),
            ),
        decreases end,
    {
        proof {
            let cur = v@.subrange(start as int, end as int);
            assert(cur.last() == v@[end - 1]);
            assert(cur.drop_last() =~= v@.subrange(start as int, end as int - 1));
        }
        end = end - 1;
    }
    proof {
        assert(lead =~= v@.subrange(start as int, v@.len() as int));
        let cur = v@.subrange(start as int, end as int);
        if end > start {
            assert(cur.last() == v@[end - 1]);
        }
        assert(trim_trailing_slashes(cur) == cur);
    }
    sub_chars(v, start, end)
}

/// Whether `path` has exactly the extension `ext` (the part after the last
/// `.` of its final component).
pub open spec fn spec_has_extension(path: Seq<char>, ext: Seq<char>) -> bool {
    let dot = find_last(path, '.');
    dot > find_last(path, '/') + 1 && path.skip(dot + 1) == ext
}

/// Decide whether a walked file matches the wanted extension.
pub fn matches_extension(path: &str, ext: &str) -> (r: bool)
    ensures
        r == spec_has_extension(path@, ext@),
{
    let pv = chars_of(path);
    let ev = chars_of(ext);
    let n = pv.len();
    let dot = find_last_char(&pv, '.');
    let slash = find_last_char(&pv, '/');
    let name_start: usize = match slash {
        Option::Some(s) => s + 1,
        Option::None => 0,
    };
    match dot {
        Option::Some(d) => {
            if d > name_start {
                let tail = sub_chars(&pv, d + 1, pv.len());
                proof {
                    assert(pv@.subrange(d + 1, pv@.len() as int) =~= pv@.skip(d + 1));
                }
                chars_eq(&tail, &ev)
            } else {
                false
            }
        },
        Option::None => false,
    }
}

/// Whether two character vectors hold the same characters.
fn chars_eq(a: &Vec<char>, b: &Vec<char>) -> (r: bool)
    ensures
        r == (a@ == b@),
{
    if a.len() != b.len() {
        return false;
    }
    let mut i: usize = 0;
    while i < a.len()
        invariant
            i <= a@.len(),
            a@.len() == b@.len(),
            forall|k: int| 0 <= k < i ==> a@[k] == b@[k],
        decreases a@.len() - i,
    {
        if a[i] != b[i] {
            return false;
        }
        i = i + 1;
    }
    proof {
        assert(a@ =~= b@);
    }
    true
}

} // verus!
