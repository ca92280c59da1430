//! Template rendering. The template engine and the markdown converter are
//! external collaborators: they are reached through trusted wrappers, and
//! what is verified here is the orchestration around them — one rendered
//! page per post, slugs preserved, page templates resolved by path.

use crate::models::{BuildError, Post, RenderedPage, SiteConfig};
use crate::text::{has_prefix, string_from_chars};
use crate::utils::{spec_slug, Slugify};
use vstd::prelude::*;

verus! {

use vstd::string::StringExecFns;

#[verifier::external_type_specification]
#[verifier::external_body]
pub struct ExTera(tera::Tera);

#[verifier::external_type_specification]
#[verifier::external_body]
pub struct ExContext(tera::Context);

#[verifier::external_type_specification]
#[verifier::external_body]
pub struct ExValue(tera::Value);

/// The character-level view of a template list.
pub open spec fn templates_view(ts: Seq<(String, String)>) -> Seq<(Seq<char>, Seq<char>)> {
    ts.map_values(|t: (String, String)| (t.0@, t.1@))
}

/// Whether the template engine accepts the whole (name, source) list:
/// compiling templates is a function of the list alone.
pub uninterp spec fn tera_templates_ok(ts: Seq<(Seq<char>, Seq<char>)>) -> bool;

/// Relies on `tera::Tera::new` and `tera::Tera::add_raw_templates`: builds
/// a template set from in-memory (name, source) pairs; an invalid template
/// is reported as an error, and an empty list is accepted (its source
/// finalizes an empty set without error).
#[verifier::external_body]
fn tera_with_templates(templates: &Vec<(String, String)>) -> (r: Result<tera::Tera, String>)
    ensures
        (r is Ok) == tera_templates_ok(templates_view(templates@)),
        templates@.len() == 0 ==> r is Ok,
{
    let mut t = tera::Tera::new();
    match t.add_raw_templates(templates.clone()) {
        Ok(()) => Ok(t),
        Err(e) => Err(format!("{}", e)),
    }
}

/// Relies on `tera::Tera::render`: renders one template of the set against
/// a context.
#[verifier::external_body]
fn tera_render(t: &tera::Tera, name: &str, ctx: &tera::Context) -> (r: Result<String, String>) {
    match t.render(name, ctx) {
        Ok(s) => Ok(s),
        Err(e) => Err(format!("{}", e)),
    }
}

/// Relies on `tera::Context::new`.
#[verifier::external_body]
fn context_new() -> (r: tera::Context) {
    tera::Context::new()
}

/// Relies on `tera::Context::insert_value`.
#[verifier::external_body]
fn context_insert_value(ctx: &mut tera::Context, key: &str, val: tera::Value) {
    ctx.insert_value(key.to_owned(), val);
}

/// Relies on `tera::Value::from` for strings.
#[verifier::external_body]
fn value_str(s: &str) -> (r: tera::Value) {
    tera::Value::from(s)
}

/// Relies on `tera::Value::from` for integers.
#[verifier::external_body]
fn value_int(i: i64) -> (r: tera::Value) {
    tera::Value::from(i)
}

/// Relies on `tera::Value::none`.
#[verifier::external_body]
fn value_null() -> (r: tera::Value) {
    tera::Value::none()
}

/// Relies on `tera::Value::from` for arrays.
#[verifier::external_body]
fn value_array(items: Vec<tera::Value>) -> (r: tera::Value) {
    tera::Value::from(items)
}

/// Relies on `tera::Value::from` for maps, keyed by strings.
#[verifier::external_body]
fn value_object(entries: Vec<(String, tera::Value)>) -> (r: tera::Value) {
    let map: std::collections::BTreeMap<String, tera::Value> = entries.into_iter().collect();
    tera::Value::from(map)
}

/// The template value of one navbar link: `{label, url}`.
fn navbar_link_value(label: &str, url: &str) -> (r: tera::Value) {
    let mut entries: Vec<(String, tera::Value)> = Vec::new();
    entries.push(("label".to_owned(), value_str(label)));
    entries.push(("url".to_owned(), value_str(url)));
    value_object(entries)
}

/// The template value of the whole site configuration.
fn site_value(config: &SiteConfig) -> (r: tera::Value) {
    let mut links: Vec<tera::Value> = Vec::new();
    let mut i: usize = 0;
    while i < config.navbar_links.len()
        decreases config.navbar_links@.len() - i,
    {
        let link = &config.navbar_links[i];
        links.push(navbar_link_value(link.label.as_str(), link.url.as_str()));
        i = i + 1;
    }
    let mut entries: Vec<(String, tera::Value)> = Vec::new();
    entries.push(("title".to_owned(), value_str(config.title.as_str())));
    entries.push(("author".to_owned(), value_str(config.author.as_str())));
    entries.push(("footer_text".to_owned(), value_str(config.footer_text.as_str())));
    entries.push(("navbar_links".to_owned(), value_array(links)));
    value_object(entries)
}

impl SiteConfig {
    /// The base template context every page starts from: the site
    /// configuration under `site`, and `year` under `current_year`. The
    /// year is an input: the caller reads the clock once per build, so the
    /// context is a function of the arguments alone.
    pub fn base_context(&self, year: i64) -> (r: tera::Context) {
        let mut ctx = context_new();
        context_insert_value(&mut ctx, "site", site_value(self));
        context_insert_value(&mut ctx, "current_year", value_int(year));
        ctx
    }
}

/// What the markdown converter returns for a document: a function of the
/// markdown text alone.
pub uninterp spec fn markdown_html_of(s: Seq<char>) -> Seq<char>;

/// Relies on `pulldown_cmark::Parser::new_ext` and
/// `pulldown_cmark::html::push_html`, with tables, strikethrough, task
/// lists and footnotes enabled: the result depends on the input alone.
#[verifier::external_body]
fn markdown_to_html(markdown: &str) -> (r: String)
    ensures
        r@ == markdown_html_of(markdown@),
{
    let mut options = pulldown_cmark::Options::empty();
    options.insert(pulldown_cmark::Options::ENABLE_TABLES);
    options.insert(pulldown_cmark::Options::ENABLE_STRIKETHROUGH);
    options.insert(pulldown_cmark::Options::ENABLE_TASKLISTS);
    options.insert(pulldown_cmark::Options::ENABLE_FOOTNOTES);
    let parser = pulldown_cmark::Parser::new_ext(markdown, options);
    let mut html_output = String::new();
    pulldown_cmark::html::push_html(&mut html_output, parser);
    html_output
}

/// The template value of one post's metadata.
fn metadata_value(post: &Post) -> (r: tera::Value) {
    let mut entries: Vec<(String, tera::Value)> = Vec::new();
    entries.push(("title".to_owned(), value_str(post.metadata.title.as_str())));
    entries.push(("date".to_owned(), value_str(post.metadata.date.as_str())));
    match &post.metadata.description {
        Option::Some(d) => {
            entries.push(("description".to_owned(), value_str(d.as_str())));
        },
        Option::None => {
            entries.push(("description".to_owned(), value_null()));
        },
    }
    let mut tags: Vec<tera::Value> = Vec::new();
    let mut i: usize = 0;
    while i < post.metadata.tags.len()
        decreases post.metadata.tags@.len() - i,
    {
        tags.push(value_str(post.metadata.tags[i].as_str()));
        i = i + 1;
    }
    entries.push(("tags".to_owned(), value_array(tags)));
    value_object(entries)
}

/// The template value of one whole post.
fn post_value(post: &Post) -> (r: tera::Value) {
    let mut entries: Vec<(String, tera::Value)> = Vec::new();
    entries.push(("metadata".to_owned(), metadata_value(post)));
    entries.push(("content".to_owned(), value_str(post.content.as_str())));
    entries.push(("slug".to_owned(), value_str(post.slug.as_str())));
    value_object(entries)
}

/// The set of templates a run renders with.
pub struct Renderer {
    pub tera: tera::Tera,
}

impl Renderer {
    /// Initialize the template set from (name, source) pairs: succeeds
    /// exactly when the engine accepts the whole list (an empty list always
    /// is accepted).
    pub fn new(templates: &Vec<(String, String)>) -> (r: Result<Renderer, BuildError>)
        ensures
            (r is Ok) == tera_templates_ok(templates_view(templates@)),
            r matches Err(e) ==> e is TemplateInit,
    {
        match tera_with_templates(templates) {
            Ok(t) => Ok(Renderer { tera: t }),
            Err(e) => Err(BuildError::TemplateInit(e)),
        }
    }

    /// Render every post against the `post.html` template: one page per
    /// post, in order, each keeping its post's slug and carrying the
    /// engine's render of that template, unmodified. With no posts there is
    /// nothing to render and the call succeeds; a failing render yields a
    /// render error whose message names the failing post's slug.
    pub fn render_all_posts(&self, posts: &Vec<Post>, config: &SiteConfig, year: i64) -> (r:
        Result<Vec<RenderedPage>, BuildError>)
        ensures
            posts@.len() == 0 ==> r is Ok,
            r matches Ok(pages) ==> pages@.len() == posts@.len(),
            r matches Ok(pages) ==> forall|i: int|
                0 <= i < posts@.len() ==> (#[trigger] pages@[i]).slug@ == posts@[i].slug@,
            r matches Err(e) ==> e matches BuildError::RenderPage(m) && (exists|k: int|
                0 <= k < posts@.len() && has_prefix(m@, #[trigger] posts@[k].slug@)),
    {
        let mut rendered: Vec<RenderedPage> = Vec::new();
        let mut i: usize = 0;
        while i < posts.len()
            invariant
                i <= posts@.len(),
                rendered@.len() == i,
                forall|k: int|
                    0 <= k < i ==> (#[trigger] rendered@[k]).slug@ == posts@[k].slug@,
            decreases posts@.len() - i,
        {
            let post = &posts[i];
            let mut ctx = config.base_context(year);
            context_insert_value(&mut ctx, "post", metadata_value(post));
            let html_content = markdown_to_html(post.content.as_str());
            context_insert_value(&mut ctx, "content", value_str(html_content.as_str()));
            match tera_render(&self.tera, "post.html", &ctx) {
                Ok(html) => {
                    rendered.push(RenderedPage { slug: post.slug.clone(), html });
                },
                Err(detail) => {
                    proof {
                        assert(posts@[i as int].slug@ == posts@[i as int].slug@);
                    }
                    return Err(render_err(post.slug.as_str(), detail.as_str()));
                },
            }
            i = i + 1;
        }
        Ok(rendered)
    }

    /// Render every page template below the pages directory: one page per
    /// template file, in order, each under the slug its path determines and
    /// rendered from the template keyed by the entry's path relative to the
    /// templates root (an entry outside that root keeps its full path as
    /// the key, which no template matches, so the render fails). With no
    /// entries the call succeeds; a failing render yields a render error
    /// whose message names the failing entry's path.
    pub fn render_all_pages(
        &self,
        posts: &Vec<Post>,
        config: &SiteConfig,
        year: i64,
        page_paths: &Vec<String>,
        pages_dir: &str,
        templates_dir: &str,
    ) -> (r: Result<Vec<RenderedPage>, BuildError>)
        ensures
            page_paths@.len() == 0 ==> r is Ok,
            r matches Ok(pages) ==> pages@.len() == page_paths@.len(),
            r matches Ok(pages) ==> forall|i: int|
                0 <= i < page_paths@.len() ==> (#[trigger] pages@[i]).slug@ == spec_slug(
                    page_paths@[i]@,
                    pages_dir@,
                ),
            r matches Err(e) ==> e matches BuildError::RenderPage(m) && (exists|k: int|
                0 <= k < page_paths@.len() && has_prefix(m@, #[trigger] page_paths@[k]@)),
    {
        let mut posts_value: Vec<tera::Value> = Vec::new();
        let mut j: usize = 0;
        while j < posts.len()
            decreases posts@.len() - j,
        {
            posts_value.push(post_value(&posts[j]));
            j = j + 1;
        }
        let all_posts = value_array(posts_value);
        let mut rendered: Vec<RenderedPage> = Vec::new();
        let mut i: usize = 0;
        while i < page_paths.len()
            invariant
                i <= page_paths@.len(),
                rendered@.len() == i,
                forall|k: int|
                    0 <= k < i ==> (#[trigger] rendered@[k]).slug@ == spec_slug(
                        page_paths@[k]@,
                        pages_dir@,
                    ),
            decreases page_paths@.len() - i,
        {
            let entry = &page_paths[i];
            let slug = Slugify::from_path(entry.as_str(), pages_dir);
            let mut ctx = config.base_context(year);
            context_insert_value(&mut ctx, "posts", clone_value(&all_posts));
            let pv = crate::text::chars_of(entry.as_str());
            let tv = crate::text::chars_of(templates_dir);
            let name_chars = crate::utils::strip_prefix_chars(&pv, &tv);
            let template_name = string_from_chars(&name_chars);
            match tera_render(&self.tera, template_name.as_str(), &ctx) {
                Ok(html) => {
                    rendered.push(RenderedPage { slug, html });
                },
                Err(detail) => {
                    return Err(render_err(entry.as_str(), detail.as_str()));
                },
            }
            i = i + 1;
        }
        Ok(rendered)
    }
}

/// Relies on `tera::Value::clone`.
#[verifier::external_body]
fn clone_value(v: &tera::Value) -> (r: tera::Value) {
    v.clone()
}

/// A render-stage error whose message names the failing page.
fn render_err(subject: &str, detail: &str) -> (e: BuildError)
    ensures
        e matches BuildError::RenderPage(m) && has_prefix(m@, subject@),
{
    let mut m = subject.to_owned();
    m.append(": ");
    m.append(detail);
    proof {
        assert(m@.subrange(0, subject@.len() as int) =~= subject@);
    }
    BuildError::RenderPage(m)
}

} // verus!
