//! Shared data model: site configuration, parsed content, rendered pages,
//! the serve mode, and build outcomes.

use vstd::prelude::*;

verus! {

use vstd::string::StringExecFns;

/// How the orchestrator runs: `Dev` enables the watcher, the sidecar in
/// watch mode and reload injection; `Prod` performs one CSS build and one
/// render, then serves a static snapshot with no background units.
#[derive(Clone, Copy, PartialEq, Eq, Structural, Debug)]
pub enum ServeMode {
    Dev,
    Prod,
}

/// One navigation link of the site's chrome.
#[derive(Clone, Debug)]
pub struct NavbarLink {
    pub label: String,
    pub url: String,
}

/// The site's configuration, read fresh from the configuration file on
/// every rebuild trigger.
#[derive(Clone, Debug)]
pub struct SiteConfig {
    pub title: String,
    pub author: String,
    pub footer_text: String,
    pub navbar_links: Vec<NavbarLink>,
}

impl Default for SiteConfig {
    /// The configuration a freshly scaffolded site starts with.
    fn default() -> (d: Self)
        ensures
            d.title@ == "My New Forge"@,
            d.author@ == "Ironmaster"@,
            d.footer_text@ == "Forged with FerroPress"@,
            d.navbar_links@.len() == 2,
            d.navbar_links@[0].label@ == "Home"@,
            d.navbar_links@[0].url@ == "/"@,
            d.navbar_links@[1].label@ == "Posts"@,
            d.navbar_links@[1].url@ == "/posts"@,
    {
        let mut links: Vec<NavbarLink> = Vec::new();
        links.push(NavbarLink { label: "Home".to_owned(), url: "/".to_owned() });
        links.push(NavbarLink { label: "Posts".to_owned(), url: "/posts".to_owned() });
        SiteConfig {
            title: "My New Forge".to_owned(),
            author: "Ironmaster".to_owned(),
            footer_text: "Forged with FerroPress".to_owned(),
            navbar_links: links,
        }
    }
}

/// Front matter of one post.
#[derive(Clone, Debug)]
pub struct PostMetadata {
    pub title: String,
    /// Publication date as `YYYY-MM-DD`; lexicographic order on this form is
    /// chronological order.
    pub date: String,
    pub description: Option<String>,
    pub tags: Vec<String>,
}

/// One parsed content file: front matter, body, and the slug derived from
/// its path.
#[derive(Clone, Debug)]
pub struct Post {
    pub metadata: PostMetadata,
    pub content: String,
    pub slug: String,
}

/// One rendered HTML page, ready to be placed under the output root.
#[derive(Clone, Debug)]
pub struct RenderedPage {
    pub slug: String,
    pub html: String,
}

/// One file of the rendered output tree: its path relative to the output
/// root, and its contents.
#[derive(Clone, Debug)]
pub struct OutputFile {
    pub rel_path: String,
    pub contents: String,
}

/// The rendered output tree a rebuild produces, and the server serves.
#[derive(Clone, Debug)]
pub struct OutputSet {
    pub files: Vec<OutputFile>,
}

/// Why a rebuild failed.
#[derive(Clone, Debug)]
pub enum BuildError {
    /// The configuration file could not be read or parsed.
    ConfigLoad(String),
    /// The template set could not be initialized.
    TemplateInit(String),
    /// A content file's front matter or body was rejected.
    ParseContent(String),
    /// A template failed to render.
    RenderPage(String),
    /// Static assets could not be copied.
    CopyAssets(String),
    /// The one-shot CSS compile failed.
    CssBuild(String),
}

impl BuildError {
    /// A short operator-facing description of the failure class.
    pub fn kind_name(&self) -> (r: &'static str)
        ensures
            self is ConfigLoad ==> r@ == "failed to load site configuration"@,
            self is TemplateInit ==> r@ == "failed to initialize templates"@,
            self is ParseContent ==> r@ == "failed to parse content"@,
            self is RenderPage ==> r@ == "failed to render page"@,
            self is CopyAssets ==> r@ == "failed to copy static assets"@,
            self is CssBuild ==> r@ == "stylesheet build failed"@,
    {
        match self {
            BuildError::ConfigLoad(_) => "failed to load site configuration",
            BuildError::TemplateInit(_) => "failed to initialize templates",
            BuildError::ParseContent(_) => "failed to parse content",
            BuildError::RenderPage(_) => "failed to render page",
            BuildError::CopyAssets(_) => "failed to copy static assets",
            BuildError::CssBuild(_) => "stylesheet build failed",
        }
    }

    /// The full operator-facing report: the failure class, then the detail
    /// carried by the error — which names the failing input, so the
    /// operator can locate it.
    pub fn message(&self) -> (r: String)
        ensures
            self matches BuildError::ConfigLoad(m) ==> r@ == "failed to load site configuration"@
                + ": "@ + m@,
            self matches BuildError::TemplateInit(m) ==> r@ == "failed to initialize templates"@
                + ": "@ + m@,
            self matches BuildError::ParseContent(m) ==> r@ == "failed to parse content"@ + ": "@
                + m@,
            self matches BuildError::RenderPage(m) ==> r@ == "failed to render page"@ + ": "@ + m@,
            self matches BuildError::CopyAssets(m) ==> r@ == "failed to copy static assets"@
                + ": "@ + m@,
            self matches BuildError::CssBuild(m) ==> r@ == "stylesheet build failed"@ + ": "@ + m@,
    {
        let mut r = self.kind_name().to_owned();
        r.append(": ");
        match self {
            BuildError::ConfigLoad(m) => r.append(m.as_str()),
            BuildError::TemplateInit(m) => r.append(m.as_str()),
            BuildError::ParseContent(m) => r.append(m.as_str()),
            BuildError::RenderPage(m) => r.append(m.as_str()),
            BuildError::CopyAssets(m) => r.append(m.as_str()),
            BuildError::CssBuild(m) => r.append(m.as_str()),
        }
        r
    }
}

/// The result of one rebuild: a new output tree, or a failure that must
/// leave the previously rendered tree untouched.
#[derive(Clone, Debug)]
pub enum BuildOutcome {
    Success(OutputSet),
    Failure(BuildError),
}

} // verus!
