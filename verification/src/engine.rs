//! The rebuild pipeline's rules: how a slug becomes an output path, which
//! static entries are copied, the CSS compiler's invocation, and the full
//! compile-and-render pass over pre-read inputs.

use crate::models::{BuildError, OutputFile, RenderedPage, SiteConfig};
use crate::parser::{
    lemma_map_values_preserves_multiset, parse_all_posts, slugs_of_inputs, slugs_of_posts,
    spec_post_parses,
};
use crate::render::{templates_view, tera_templates_ok, Renderer};
use crate::text::{chars_of, str_eq, string_from_chars};
use crate::utils::{spec_slug, spec_trim_slashes};
use vstd::prelude::*;

verus! {

/// Where a page with the given slug is written, relative to the output
/// root: `index` and `404` map to top-level files (so the not-found
/// fallback works), every other slug gets a pretty URL directory.
pub open spec fn spec_output_rel_path(slug: Seq<char>) -> Seq<char> {
    let t = spec_trim_slashes(slug);
    if t == "index"@ {
        "index.html"@
    } else if t == "404"@ {
        "404.html"@
    } else {
        t + "/index.html"@
    }
}

/// Compute the output path of a slug.
pub fn output_rel_path(slug: &str) -> (r: String)
    ensures
        r@ == spec_output_rel_path(slug@),
{
    let sv = chars_of(slug);
    let trimmed = crate::utils::trim_slashes_chars(&sv);
    let t = string_from_chars(&trimmed);
    if str_eq(t.as_str(), "index") {
        "index.html".to_owned()
    } else if str_eq(t.as_str(), "404") {
        "404.html".to_owned()
    } else {
        let mut s = t;
        s.append("/index.html");
        proof {
            reveal_strlit("/index.html");
        }
        s
    }
}

/// Turn rendered pages into output files, one each, in order.
pub fn pages_to_files(pages: &Vec<RenderedPage>) -> (r: Vec<OutputFile>)
    ensures
        r@.len() == pages@.len(),
        forall|i: int|
            0 <= i < pages@.len() ==> (#[trigger] r@[i]).rel_path@ == spec_output_rel_path(
                pages@[i].slug@,
            ) && r@[i].contents@ == pages@[i].html@,
{
    let mut r: Vec<OutputFile> = Vec::new();
    let mut i: usize = 0;
    while i < pages.len()
        invariant
            i <= pages@.len(),
            r@.len() == i,
            forall|k: int|
                0 <= k < i ==> (#[trigger] r@[k]).rel_path@ == spec_output_rel_path(
                    pages@[k].slug@,
                ) && r@[k].contents@ == pages@[k].html@,
        decreases pages@.len() - i,
    {
        let page = &pages[i];
        let rel = output_rel_path(page.slug.as_str());
        r.push(OutputFile { rel_path: rel, contents: page.html.clone() });
        i = i + 1;
    }
    r
}

/// Static-asset copy skips exactly one entry: the `css` directory, whose
/// contents the CSS compiler produces itself.
pub fn should_copy_entry(name: &str, is_dir: bool) -> (r: bool)
    ensures
        r == !(is_dir && name@ == "css"@),
{
    !(is_dir && str_eq(name, "css"))
}

/// The CSS compiler's argument list: `-i <input> -o <output>` with optional
/// `--watch` and `--minify`.
pub open spec fn spec_css_args(input: Seq<char>, output: Seq<char>, watch: bool, minify: bool) -> Seq<
    Seq<char>,
> {
    let base = seq!["-i"@, input, "-o"@, output];
    let with_watch = if watch {
        base.push("--watch"@)
    } else {
        base
    };
    if minify {
        with_watch.push("--minify"@)
    } else {
        with_watch
    }
}

/// Build the CSS compiler's argument list.
pub fn css_compiler_args(input: &str, output: &str, watch: bool, minify: bool) -> (r: Vec<String>)
    ensures
        r@.map_values(|s: String| s@) == spec_css_args(input@, output@, watch, minify),
{
    let mut r: Vec<String> = Vec::new();
    r.push("-i".to_owned());
    r.push(input.to_owned());
    r.push("-o".to_owned());
    r.push(output.to_owned());
    if watch {
        r.push("--watch".to_owned());
    }
    if minify {
        r.push("--minify".to_owned());
    }
    proof {
        assert(r@.map_values(|s: String| s@) =~= spec_css_args(input@, output@, watch, minify));
    }
    r
}

/// The output paths of a run of files, in order.
pub open spec fn rel_paths_of_files(fs: Seq<OutputFile>) -> Seq<Seq<char>> {
    fs.map_values(|f: OutputFile| f.rel_path@)
}

/// The output paths that the input files' paths determine, in input order.
pub open spec fn rel_paths_of_inputs(raw: Seq<(String, String)>, prefix: Seq<char>) -> Seq<
    Seq<char>,
> {
    raw.map_values(|rp: (String, String)| spec_output_rel_path(spec_slug(rp.0@, prefix)))
}

/// Whether every post input parses.
pub open spec fn spec_all_posts_parse(raw: Seq<(String, String)>) -> bool {
    forall|k: int| 0 <= k < raw.len() ==> spec_post_parses(#[trigger] raw[k].1@)
}

/// One full compile-and-render pass over inputs already read from disk:
/// initialize the template set, parse and order the posts, render each post
/// and each page template, and lay the results out under their output
/// paths. Posts come first in the result (one per input, under exactly the
/// output paths the input paths determine, reordered newest-first), then
/// pages, in order, each under the path its template's location determines.
/// The first failing stage decides the error: a rejected template set is a
/// template error, a rejected input is a parse error, and only then can a
/// render fail; with an accepted template set and nothing to render, the
/// pass succeeds. `year` is what the templates see as the current year,
/// read from the clock once per build by the caller.
pub fn render_site(
    raw_posts: &Vec<(String, String)>,
    templates: &Vec<(String, String)>,
    page_paths: &Vec<String>,
    content_dir: &str,
    pages_dir: &str,
    templates_dir: &str,
    config: &SiteConfig,
    year: i64,
) -> (r: Result<Vec<OutputFile>, BuildError>)
    ensures
        r matches Ok(files) ==> files@.len() == raw_posts@.len() + page_paths@.len(),
        r matches Ok(files) ==> rel_paths_of_files(
            files@.subrange(0, raw_posts@.len() as int),
        ).to_multiset() == rel_paths_of_inputs(raw_posts@, content_dir@).to_multiset(),
        r matches Ok(files) ==> forall|i: int|
            raw_posts@.len() <= i < files@.len() ==> (#[trigger] files@[i]).rel_path@
                == spec_output_rel_path(
                spec_slug(page_paths@[i - raw_posts@.len()]@, pages_dir@),
            ),
        tera_templates_ok(templates_view(templates@)) && spec_all_posts_parse(raw_posts@)
            && raw_posts@.len() == 0 && page_paths@.len() == 0 ==> r is Ok,
        r matches Err(e) ==> ((e is TemplateInit) == !tera_templates_ok(
            templates_view(templates@),
        )),
        r matches Err(e) ==> ((e is ParseContent) == (tera_templates_ok(
            templates_view(templates@),
        ) && !spec_all_posts_parse(raw_posts@))),
        r matches Err(e) ==> (e is RenderPage ==> tera_templates_ok(templates_view(templates@))
            && spec_all_posts_parse(raw_posts@)),
{
    let renderer = match Renderer::new(templates) {
        Ok(rd) => rd,
        Err(e) => {
            return Err(e);
        },
    };
    let posts = match parse_all_posts(raw_posts, content_dir) {
        Ok(p) => p,
        Err(e) => {
            return Err(e);
        },
    };
    let rendered_posts = match renderer.render_all_posts(&posts, config, year) {
        Ok(p) => p,
        Err(e) => {
            return Err(e);
        },
    };
    let rendered_pages = match renderer.render_all_pages(
        &posts,
        config,
        year,
        page_paths,
        pages_dir,
        templates_dir,
    ) {
        Ok(p) => p,
        Err(e) => {
            return Err(e);
        },
    };
    let mut files = pages_to_files(&rendered_posts);
    let ghost post_part = files@;
    let mut page_files = pages_to_files(&rendered_pages);
    files.append(&mut page_files);
    proof {
        let n = raw_posts@.len() as int;
        assert(files@.subrange(0, n) =~= post_part);
        let orel = |s: Seq<char>| spec_output_rel_path(s);
        lemma_map_values_preserves_multiset(
            slugs_of_posts(posts@),
            slugs_of_inputs(raw_posts@, content_dir@),
            orel,
        );
        assert(rel_paths_of_files(post_part) =~= slugs_of_posts(posts@).map_values(orel)) by {
            assert forall|i: int| 0 <= i < post_part.len() implies rel_paths_of_files(post_part)[i]
                == slugs_of_posts(posts@).map_values(orel)[i] by {
                assert(post_part[i].rel_path@ == spec_output_rel_path(rendered_posts@[i].slug@));
                assert(rendered_posts@[i].slug@ == posts@[i].slug@);
            }
        }
        assert(rel_paths_of_inputs(raw_posts@, content_dir@) =~= slugs_of_inputs(
            raw_posts@,
            content_dir@,
        ).map_values(orel)) by {
            assert forall|i: int|
                0 <= i < raw_posts@.len() implies rel_paths_of_inputs(raw_posts@, content_dir@)[i]
                == slugs_of_inputs(raw_posts@, content_dir@).map_values(orel)[i] by {}
        }
    }
    Ok(files)
}

} // verus!
