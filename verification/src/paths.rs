//! The project's directory layout: the roots that are watched, the output
//! root, and the derived locations inside it. Immutable for the lifetime of
//! one run.

use crate::text::{join, spec_join};
use vstd::prelude::*;

verus! {

/// The roots of one project, as `/`-separated paths.
#[derive(Clone, Debug)]
pub struct ProjectPaths {
    /// Content root (watched recursively).
    pub content: String,
    /// Template root (watched recursively).
    pub templates: String,
    /// Output root; written only by rebuilds.
    pub dist: String,
    /// Static-asset root (watched recursively).
    pub static_files: String,
    /// The single configuration file (watched non-recursively).
    pub config: String,
}

impl Default for ProjectPaths {
    /// The layout of a project rooted in the current directory.
    fn default() -> (d: Self)
        ensures
            d.content@ == "content"@,
            d.templates@ == "templates"@,
            d.dist@ == "dist"@,
            d.static_files@ == "static"@,
            d.config@ == "site.toml"@,
    {
        ProjectPaths {
            content: "content".to_owned(),
            templates: "templates".to_owned(),
            dist: "dist".to_owned(),
            static_files: "static".to_owned(),
            config: "site.toml".to_owned(),
        }
    }
}

impl ProjectPaths {
    /// The layout of a project rooted at `root`.
    pub fn from_root(root: &str) -> (p: ProjectPaths)
        ensures
            p.content@ == spec_join(root@, "content"@),
            p.templates@ == spec_join(root@, "templates"@),
            p.dist@ == spec_join(root@, "dist"@),
            p.static_files@ == spec_join(root@, "static"@),
            p.config@ == spec_join(root@, "site.toml"@),
    {
        ProjectPaths {
            content: join(root, "content"),
            templates: join(root, "templates"),
            dist: join(root, "dist"),
            static_files: join(root, "static"),
            config: join(root, "site.toml"),
        }
    }

    /// The layout of a project rooted in the current directory.
    pub fn current() -> (p: ProjectPaths)
        ensures
            p.content@ == spec_join("."@, "content"@),
            p.templates@ == spec_join("."@, "templates"@),
            p.dist@ == spec_join("."@, "dist"@),
            p.static_files@ == spec_join("."@, "static"@),
            p.config@ == spec_join("."@, "site.toml"@),
    {
        Self::from_root(".")
    }

    /// Where rendered posts are placed.
    pub fn dist_posts(&self) -> (r: String)
        ensures
            r@ == spec_join(self.dist@, "posts"@),
    {
        join(self.dist.as_str(), "posts")
    }

    /// Where copied static assets are placed.
    pub fn dist_static(&self) -> (r: String)
        ensures
            r@ == spec_join(self.dist@, "static"@),
    {
        join(self.dist.as_str(), "static")
    }

    /// Where the compiled stylesheet's directory lives in the output tree.
    pub fn dist_css(&self) -> (r: String)
        ensures
            r@ == spec_join(spec_join(self.dist@, "static"@), "css"@),
    {
        let s = self.dist_static();
        join(s.as_str(), "css")
    }

    /// Where scripts live in the output tree.
    pub fn dist_js(&self) -> (r: String)
        ensures
            r@ == spec_join(spec_join(self.dist@, "static"@), "js"@),
    {
        let s = self.dist_static();
        join(s.as_str(), "js")
    }

    /// The stylesheet source handed to the CSS compiler.
    pub fn input_css_file(&self) -> (r: String)
        ensures
            r@ == spec_join(spec_join(self.static_files@, "css"@), "input.css"@),
    {
        let s = join(self.static_files.as_str(), "css");
        join(s.as_str(), "input.css")
    }

    /// The compiled stylesheet the CSS compiler writes.
    pub fn output_css_file(&self) -> (r: String)
        ensures
            r@ == spec_join(spec_join(spec_join(self.dist@, "static"@), "css"@), "style.css"@),
    {
        let s = self.dist_css();
        join(s.as_str(), "style.css")
    }
}

} // verus!
