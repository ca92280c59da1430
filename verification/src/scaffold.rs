//! The scaffold a fresh site starts from: which files initialization
//! manages, when it must refuse to touch an existing directory, what a
//! bounded clean removes, and how the ignore file is brought up to date.

use crate::paths::ProjectPaths;
use crate::text::{chars_of, spec_join, string_from_chars};
use vstd::prelude::*;

verus! {

use vstd::string::StringExecFns;

/// The files initialization writes and therefore owns. Nothing outside
/// this list is ever overwritten or removed.
pub open spec fn spec_managed_scaffold_files(p: ProjectPaths) -> Seq<Seq<char>> {
    seq![
        p.config@,
        spec_join(spec_join(p.templates@, "layouts"@), "base.html"@),
        spec_join(spec_join(p.templates@, "pages"@), "index.html"@),
        spec_join(spec_join(p.templates@, "pages"@), "404.html"@),
        spec_join(p.templates@, "post.html"@),
        spec_join(spec_join(p.static_files@, "css"@), "input.css"@),
        spec_join(spec_join(p.static_files@, "js"@), "htmx.min.js"@),
        spec_join(spec_join(p.content@, "posts"@), "hello.md"@),
        spec_join(spec_join(spec_join(p.content@, "posts"@), "2025"@), "hello.md"@),
    ]
}

/// List the files initialization manages, in a fixed order.
pub fn managed_scaffold_files(paths: &ProjectPaths) -> (r: Vec<String>)
    ensures
        r@.map_values(|s: String| s@) == spec_managed_scaffold_files(*paths),
{
    let mut r: Vec<String> = Vec::new();
    r.push(paths.config.clone());
    let layouts = crate::text::join(paths.templates.as_str(), "layouts");
    r.push(crate::text::join(layouts.as_str(), "base.html"));
    let pages = crate::text::join(paths.templates.as_str(), "pages");
    r.push(crate::text::join(pages.as_str(), "index.html"));
    r.push(crate::text::join(pages.as_str(), "404.html"));
    r.push(crate::text::join(paths.templates.as_str(), "post.html"));
    let css = crate::text::join(paths.static_files.as_str(), "css");
    r.push(crate::text::join(css.as_str(), "input.css"));
    let js = crate::text::join(paths.static_files.as_str(), "js");
    r.push(crate::text::join(js.as_str(), "htmx.min.js"));
    let posts = crate::text::join(paths.content.as_str(), "posts");
    r.push(crate::text::join(posts.as_str(), "hello.md"));
    let posts_2025 = crate::text::join(posts.as_str(), "2025");
    r.push(crate::text::join(posts_2025.as_str(), "hello.md"));
    proof {
        assert(r@.map_values(|s: String| s@) =~= spec_managed_scaffold_files(*paths));
    }
    r
}

/// The managed files that already exist, in list order.
pub open spec fn spec_conflicts(files: Seq<Seq<char>>, exists: Seq<bool>) -> Seq<Seq<char>>
    decreases files.len(),
{
    if files.len() == 0 {
        Seq::empty()
    } else if exists[0] {
        seq![files[0]] + spec_conflicts(files.drop_first(), exists.drop_first())
    } else {
        spec_conflicts(files.drop_first(), exists.drop_first())
    }
}

/// Refuse to initialize over an existing scaffold: given, for each managed
/// file, whether it already exists on disk, succeed exactly when none does,
/// and report the conflicting paths otherwise.
pub fn ensure_no_scaffold_conflicts(paths: &ProjectPaths, exists: &Vec<bool>) -> (r: Result<
    (),
    Vec<String>,
>)
    requires
        exists@.len() == spec_managed_scaffold_files(*paths).len(),
    ensures
        (r is Ok) == (forall|k: int| 0 <= k < exists@.len() ==> !exists@[k]),
        r matches Err(c) ==> c@.map_values(|s: String| s@) == spec_conflicts(
            spec_managed_scaffold_files(*paths),
            exists@,
        ) && c@.len() >= 1,
{
    let managed = managed_scaffold_files(paths);
    let mut conflicts: Vec<String> = Vec::new();
    let mut i: usize = 0;
    let ghost files = spec_managed_scaffold_files(*paths);
    proof {
        assert(files.skip(0) =~= files);
        assert(exists@.skip(0) =~= exists@);
        assert(conflicts@.map_values(|s: String| s@) =~= Seq::<Seq<char>>::empty());
    }
    while i < managed.len()
        invariant
            i <= managed@.len(),
            managed@.len() == exists@.len(),
            managed@.map_values(|s: String| s@) == files,
            files.len() == exists@.len(),
            conflicts@.map_values(|s: String| s@) + spec_conflicts(
                files.skip(i as int),
                exists@.skip(i as int),
            ) =~= spec_conflicts(files, exists@),
            (conflicts@.len() == 0) == (forall|k: int| 0 <= k < i ==> !exists@[k]),
        decreases managed@.len() - i,
    {
        proof {
            assert(files.skip(i as int)[0] == files[i as int]);
            assert(files[i as int] == managed@.map_values(|s: String| s@)[i as int]);
            assert(exists@.skip(i as int)[0] == exists@[i as int]);
            assert(files.skip(i as int).drop_first() =~= files.skip(i as int + 1));
            assert(exists@.skip(i as int).drop_first() =~= exists@.skip(i as int + 1));
        }
        if exists[i] {
            conflicts.push(managed[i].clone());
            proof {
                assert(managed@[i as int]@ == files[i as int]) by {
                    assert(managed@.map_values(|s: String| s@)[i as int] == managed@[i as int]@);
                }
                assert(conflicts@.map_values(|s: String| s@) =~= conflicts@.drop_last().map_values(
                    |s: String| s@,
                ).push(conflicts@.last()@));
            }
        }
        i = i + 1;
    }
    proof {
        assert(files.skip(files.len() as int) =~= Seq::<Seq<char>>::empty());
        assert(exists@.skip(exists@.len() as int) =~= Seq::<bool>::empty());
        assert(conflicts@.map_values(|s: String| s@) =~= spec_conflicts(files, exists@));
    }
    if conflicts.len() == 0 {
        Ok(())
    } else {
        Err(conflicts)
    }
}

/// The single managed file a bounded clean removes.
pub fn scaffold_clean_files(paths: &ProjectPaths) -> (r: Vec<String>)
    ensures
        r@.map_values(|s: String| s@) == seq![paths.config@],
{
    let mut r: Vec<String> = Vec::new();
    r.push(paths.config.clone());
    proof {
        assert(r@.map_values(|s: String| s@) =~= seq![paths.config@]);
    }
    r
}

/// The managed directories a bounded clean removes — never the whole root.
pub fn scaffold_clean_dirs(paths: &ProjectPaths) -> (r: Vec<String>)
    ensures
        r@.map_values(|s: String| s@) == seq![paths.content@, paths.templates@, paths.static_files@],
{
    let mut r: Vec<String> = Vec::new();
    r.push(paths.content.clone());
    r.push(paths.templates.clone());
    r.push(paths.static_files.clone());
    proof {
        assert(r@.map_values(|s: String| s@) =~= seq![
            paths.content@,
            paths.templates@,
            paths.static_files@,
        ]);
    }
    r
}

/// Whether `p` occurs as a contiguous run inside `s`.
pub open spec fn spec_contains_sub(s: Seq<char>, p: Seq<char>) -> bool {
    exists|i: int| 0 <= i <= s.len() - p.len() && #[trigger] s.subrange(i, i + p.len()) == p
}

/// Decide whether `p` occurs inside `s`.
pub fn contains_sub(s: &Vec<char>, p: &Vec<char>) -> (r: bool)
    ensures
        r == spec_contains_sub(s@, p@),
{
    let n = s.len();
    let m = p.len();
    if m > n {
        return false;
    }
    if m == 0 {
        proof {
            assert(s@.subrange(0, 0 + p@.len() as int) =~= p@);
        }
        return true;
    }
    let bound = n - m;
    let mut i: usize = 0;
    while i <= bound
        invariant
            n == s@.len(),
            m == p@.len(),
            1 <= m <= n,
            bound == n - m,
            i <= bound + 1,
            forall|k: int| 0 <= k < i ==> #[trigger] s@.subrange(k, k + p@.len()) != p@,
        decreases bound + 1 - i,
    {
        let mut j: usize = 0;
        let mut matched = true;
        while j < m
            invariant
                n == s@.len(),
                m == p@.len(),
                i + m <= n,
                j <= m,
                matched ==> forall|k: int| 0 <= k < j ==> s@[i + k] == p@[k],
                !matched ==> s@.subrange(i as int, i + p@.len()) != p@,
            decreases m - j,
        {
            if s[i + j] != p[j] {
                proof {
                    assert(s@.subrange(i as int, i + p@.len())[j as int] == s@[i + j]);
                }
                matched = false;
                j = m;
            } else {
                j = j + 1;
            }
        }
        if matched {
            proof {
                assert(s@.subrange(i as int, i + p@.len()) =~= p@);
            }
            return true;
        }
        i = i + 1;
    }
    false
}

/// What the ignore file must hold after initialization: the managed block;
/// if the file does not mention the output directory yet, the block is
/// appended (after a closing newline where one is missing), otherwise the
/// file is reset to the block alone.
pub open spec fn spec_gitignore_updated(existing: Seq<char>) -> Seq<char> {
    let block = "/dist\n/target\n.DS_Store\n"@;
    if spec_contains_sub(existing, "/dist"@) {
        block
    } else if existing.len() == 0 || existing.last() != '\n' {
        existing + "\n"@ + block
    } else {
        existing + block
    }
}

/// Compute the new contents of an existing ignore file.
pub fn gitignore_updated(existing: &str) -> (r: String)
    ensures
        r@ == spec_gitignore_updated(existing@),
{
    let ev = chars_of(existing);
    let pat = chars_of("/dist");
    if contains_sub(&ev, &pat) {
        "/dist\n/target\n.DS_Store\n".to_owned()
    } else {
        let mut out = string_from_chars(&ev);
        let n = ev.len();
        if n == 0 || ev[n - 1] != '\n' {
            out.append("\n");
        }
        out.append("/dist\n/target\n.DS_Store\n");
        out
    }
}

} // verus!
