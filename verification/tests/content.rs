use ferropress::engine::render_site;
use ferropress::models::{BuildError, SiteConfig};
use ferropress::parser::{parse_all_posts, parse_post, str_lex_le};
use ferropress::render::Renderer;

const POST: &str = "---\ntitle: Hello World\ndate: 2026-01-01\ntags: [rust, forge]\n---\nThis is the body.\n";

#[test]
fn test_parse_valid_post() {
    let post = parse_post(POST, "proj/posts/hello-world.md", "proj").unwrap();
    assert_eq!(post.metadata.title, "Hello World");
    assert_eq!(post.metadata.date, "2026-01-01");
    assert_eq!(post.metadata.tags, vec!["rust", "forge"]);
    assert_eq!(post.slug, "posts/hello-world");
    assert_eq!(post.content.trim(), "This is the body.");
}

#[test]
fn post_without_front_matter_is_rejected() {
    let err = parse_post("Just a body.\nNo front matter here at all, nothing.", "p/a.md", "p")
        .unwrap_err();
    assert!(matches!(err, BuildError::ParseContent(_)));
}

#[test]
fn post_without_title_is_rejected() {
    let err = parse_post("---\ndate: 2026-01-01\n---\nbody", "p/a.md", "p").unwrap_err();
    assert!(matches!(err, BuildError::ParseContent(_)));
}

#[test]
fn post_without_tags_gets_none() {
    let post = parse_post("---\ntitle: T\ndate: 2026-01-01\n---\nbody", "p/a.md", "p").unwrap();
    assert!(post.metadata.tags.is_empty());
    assert!(post.metadata.description.is_none());
}

#[test]
fn lexicographic_order_on_dates() {
    assert!(str_lex_le("2025-01-31", "2025-02-01"));
    assert!(!str_lex_le("2026-01-01", "2025-12-31"));
    assert!(str_lex_le("2025-06-15", "2025-06-15"));
}

#[test]
fn posts_are_ordered_newest_first() {
    let raw = vec![
        (
            "c/posts/old.md".to_owned(),
            "---\ntitle: Old\ndate: 2024-05-01\n---\nold".to_owned(),
        ),
        (
            "c/posts/new.md".to_owned(),
            "---\ntitle: New\ndate: 2026-01-01\n---\nnew".to_owned(),
        ),
        (
            "c/posts/mid.md".to_owned(),
            "---\ntitle: Mid\ndate: 2025-07-04\n---\nmid".to_owned(),
        ),
    ];
    let posts = parse_all_posts(&raw, "c").unwrap();
    let dates: Vec<&str> = posts.iter().map(|p| p.metadata.date.as_str()).collect();
    assert_eq!(dates, vec!["2026-01-01", "2025-07-04", "2024-05-01"]);
}

#[test]
fn config_parses_required_fields_and_links() {
    let text = "title = \"My Site\"\nauthor = \"Me\"\nfooter_text = \"f\"\n\n[[navbar_links]]\nlabel = \"Home\"\nurl = \"/\"\n";
    let c = SiteConfig::parse(text).unwrap();
    assert_eq!(c.title, "My Site");
    assert_eq!(c.author, "Me");
    assert_eq!(c.footer_text, "f");
    assert_eq!(c.navbar_links.len(), 1);
    assert_eq!(c.navbar_links[0].label, "Home");
    assert_eq!(c.navbar_links[0].url, "/");
}

#[test]
fn config_links_default_to_empty() {
    let c = SiteConfig::parse("title = \"t\"\nauthor = \"a\"\nfooter_text = \"f\"\n").unwrap();
    assert!(c.navbar_links.is_empty());
}

#[test]
fn config_missing_title_is_an_error() {
    let err = SiteConfig::parse("author = \"a\"\nfooter_text = \"f\"\n").unwrap_err();
    assert!(err.contains("title"));
}

#[test]
fn config_invalid_toml_is_an_error() {
    assert!(SiteConfig::parse("title = ").is_err());
}

#[test]
fn deleted_config_surfaces_as_load_failure() {
    let r = SiteConfig::load(Err("no such file".to_owned()));
    assert!(matches!(r, Err(BuildError::ConfigLoad(_))));
}

#[test]
fn config_read_then_parsed() {
    let text = "title = \"t\"\nauthor = \"a\"\nfooter_text = \"f\"\n".to_owned();
    let c = SiteConfig::load(Ok(text)).unwrap();
    assert_eq!(c.title, "t");
}

fn base_templates() -> Vec<(String, String)> {
    vec![
        (
            "post.html".to_owned(),
            "<h1>{{ post.title }}</h1><div>{{ content | safe }}</div>".to_owned(),
        ),
        (
            "pages/index.html".to_owned(),
            "<title>{{ site.title }}</title><ul>{% for p in posts %}<li>{{ p.slug }}</li>{% endfor %}</ul>".to_owned(),
        ),
    ]
}

fn sample_config() -> SiteConfig {
    SiteConfig::parse("title = \"Forge\"\nauthor = \"Smith\"\nfooter_text = \"f\"\n").unwrap()
}

#[test]
fn renderer_renders_posts_with_markdown_converted() {
    let renderer = Renderer::new(&base_templates()).unwrap();
    let raw = vec![(
        "content/posts/hi.md".to_owned(),
        "---\ntitle: Hi\ndate: 2026-01-01\n---\n# Heading\n".to_owned(),
    )];
    let posts = parse_all_posts(&raw, "content").unwrap();
    let pages = renderer.render_all_posts(&posts, &sample_config(), 2026).unwrap();
    assert_eq!(pages.len(), 1);
    assert_eq!(pages[0].slug, "posts/hi");
    assert!(pages[0].html.contains("<h1>Hi</h1>"));
    // The markdown body was converted, not echoed.
    assert!(pages[0].html.contains("<h1>Heading</h1>"));
}

#[test]
fn renderer_rejects_a_broken_template() {
    let broken = vec![("post.html".to_owned(), "{% endif %}".to_owned())];
    assert!(matches!(
        Renderer::new(&broken),
        Err(BuildError::TemplateInit(_))
    ));
}

#[test]
fn render_site_lays_out_posts_and_pages() {
    let raw_posts = vec![(
        "content/posts/hello.md".to_owned(),
        "---\ntitle: Hello\ndate: 2026-01-01\n---\nBody.\n".to_owned(),
    )];
    let page_paths = vec!["templates/pages/index.html".to_owned()];
    let files = render_site(
        &raw_posts,
        &base_templates(),
        &page_paths,
        "content",
        "templates/pages",
        "templates",
        &sample_config(),
        2026,
    )
    .unwrap();
    assert_eq!(files.len(), 2);
    assert_eq!(files[0].rel_path, "posts/hello/index.html");
    assert!(files[0].contents.contains("<h1>Hello</h1>"));
    assert_eq!(files[1].rel_path, "index.html");
    assert!(files[1].contents.contains("<title>Forge</title>"));
    assert!(files[1].contents.contains("<li>posts/hello</li>"));
}

#[test]
fn render_site_reorders_posts_but_keeps_their_paths() {
    let raw_posts = vec![
        (
            "content/posts/older.md".to_owned(),
            "---\ntitle: Older\ndate: 2024-01-01\n---\nold".to_owned(),
        ),
        (
            "content/posts/newer.md".to_owned(),
            "---\ntitle: Newer\ndate: 2026-01-01\n---\nnew".to_owned(),
        ),
    ];
    let files = render_site(
        &raw_posts,
        &base_templates(),
        &Vec::new(),
        "content",
        "templates/pages",
        "templates",
        &sample_config(),
        2026,
    )
    .unwrap();
    assert_eq!(files.len(), 2);
    // Newest post is rendered first, but each keeps the path its own
    // source file determines.
    assert_eq!(files[0].rel_path, "posts/newer/index.html");
    assert!(files[0].contents.contains("<h1>Newer</h1>"));
    assert_eq!(files[1].rel_path, "posts/older/index.html");
}

#[test]
fn render_site_reports_missing_post_template() {
    let raw_posts = vec![(
        "content/posts/hello.md".to_owned(),
        "---\ntitle: Hello\ndate: 2026-01-01\n---\nBody.\n".to_owned(),
    )];
    let templates: Vec<(String, String)> = vec![("pages/index.html".to_owned(), "x".to_owned())];
    let r = render_site(
        &raw_posts,
        &templates,
        &Vec::new(),
        "content",
        "templates/pages",
        "templates",
        &sample_config(),
        2026,
    );
    assert!(matches!(r, Err(BuildError::RenderPage(_))));
}

#[test]
fn parse_errors_name_the_failing_file() {
    let err = parse_post("no front matter here", "proj/posts/broken.md", "proj").unwrap_err();
    match err {
        BuildError::ParseContent(m) => assert!(m.starts_with("proj/posts/broken.md")),
        other => panic!("unexpected error kind: {}", other.kind_name()),
    }
}

#[test]
fn render_errors_name_the_failing_page() {
    // The set compiles but holds no `post.html`, so the render itself fails.
    let templates = vec![("other.html".to_owned(), "x".to_owned())];
    let renderer = Renderer::new(&templates).unwrap();
    let raw = vec![(
        "content/posts/hi.md".to_owned(),
        "---\ntitle: Hi\ndate: 2026-01-01\n---\nbody".to_owned(),
    )];
    let posts = parse_all_posts(&raw, "content").unwrap();
    let err = renderer.render_all_posts(&posts, &sample_config(), 2026).unwrap_err();
    match err {
        BuildError::RenderPage(m) => assert!(m.starts_with("posts/hi")),
        other => panic!("unexpected error kind: {}", other.kind_name()),
    }
}

#[test]
fn tags_that_are_not_a_string_list_are_rejected() {
    let err = parse_post(
        "---\ntitle: T\ndate: 2026-01-01\ntags: nope\n---\nbody",
        "p/a.md",
        "p",
    )
    .unwrap_err();
    assert!(matches!(err, BuildError::ParseContent(_)));
}

#[test]
fn render_site_with_nothing_to_do_succeeds() {
    let files = render_site(
        &Vec::new(),
        &Vec::new(),
        &Vec::new(),
        "content",
        "templates/pages",
        "templates",
        &sample_config(),
        2026,
    )
    .unwrap();
    assert!(files.is_empty());
}

#[test]
fn error_messages_carry_their_detail() {
    let e = BuildError::ConfigLoad("site.toml is gone".to_owned());
    assert_eq!(
        e.message(),
        "failed to load site configuration: site.toml is gone"
    );
}
