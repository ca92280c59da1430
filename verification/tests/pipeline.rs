use ferropress::engine::{css_compiler_args, output_rel_path, pages_to_files, should_copy_entry};
use ferropress::models::RenderedPage;
use ferropress::paths::ProjectPaths;
use ferropress::scaffold::{
    ensure_no_scaffold_conflicts, gitignore_updated, managed_scaffold_files, scaffold_clean_dirs,
    scaffold_clean_files,
};
use ferropress::text::join;
use ferropress::utils::{matches_extension, Slugify};

#[test]
fn join_inserts_single_separator() {
    assert_eq!(join("a", "b"), "a/b");
    assert_eq!(join("a/", "b"), "a/b");
    assert_eq!(join("", "b"), "b");
}

#[test]
fn default_paths_are_the_conventional_layout() {
    let p = ProjectPaths::default();
    assert_eq!(p.content, "content");
    assert_eq!(p.templates, "templates");
    assert_eq!(p.dist, "dist");
    assert_eq!(p.static_files, "static");
    assert_eq!(p.config, "site.toml");
}

#[test]
fn paths_from_root_prefix_every_location() {
    let p = ProjectPaths::from_root("myblog");
    assert_eq!(p.content, "myblog/content");
    assert_eq!(p.templates, "myblog/templates");
    assert_eq!(p.dist, "myblog/dist");
    assert_eq!(p.static_files, "myblog/static");
    assert_eq!(p.config, "myblog/site.toml");
}

#[test]
fn current_uses_the_working_directory() {
    let p = ProjectPaths::current();
    assert_eq!(p.config, "./site.toml");
}

#[test]
fn derived_output_locations() {
    let p = ProjectPaths::from_root("r");
    assert_eq!(p.dist_posts(), "r/dist/posts");
    assert_eq!(p.dist_static(), "r/dist/static");
    assert_eq!(p.dist_css(), "r/dist/static/css");
    assert_eq!(p.dist_js(), "r/dist/static/js");
    assert_eq!(p.input_css_file(), "r/static/css/input.css");
    assert_eq!(p.output_css_file(), "r/dist/static/css/style.css");
}

#[test]
fn slug_strips_prefix_extension_and_case() {
    assert_eq!(Slugify::from_path("content/posts/Hello World.md", "content"), "posts/hello-world");
}

#[test]
fn slug_normalizes_backslashes_and_spaces() {
    assert_eq!(Slugify::from_path("pages\\About Me.html", ""), "pages/about-me");
}

#[test]
fn slug_keeps_unrelated_prefix() {
    assert_eq!(Slugify::from_path("other/a.md", "content"), "other/a");
}

#[test]
fn slug_of_nested_post() {
    assert_eq!(
        Slugify::from_path("content/posts/2025/hello.md", "content"),
        "posts/2025/hello"
    );
}

#[test]
fn extension_matching() {
    assert!(matches_extension("posts/a.md", "md"));
    assert!(!matches_extension("posts/a.md", "html"));
    assert!(!matches_extension("posts/nodot", "md"));
    assert!(!matches_extension("posts/.gitignore", "gitignore"));
}

#[test]
fn output_path_rules() {
    assert_eq!(output_rel_path("index"), "index.html");
    assert_eq!(output_rel_path("404"), "404.html");
    assert_eq!(output_rel_path("about"), "about/index.html");
    assert_eq!(output_rel_path("/posts/hello/"), "posts/hello/index.html");
}

#[test]
fn pages_become_output_files() {
    let pages = vec![
        RenderedPage { slug: "index".to_owned(), html: "<p>i</p>".to_owned() },
        RenderedPage { slug: "posts/a".to_owned(), html: "<p>a</p>".to_owned() },
    ];
    let files = pages_to_files(&pages);
    assert_eq!(files.len(), 2);
    assert_eq!(files[0].rel_path, "index.html");
    assert_eq!(files[0].contents, "<p>i</p>");
    assert_eq!(files[1].rel_path, "posts/a/index.html");
}

#[test]
fn static_copy_skips_only_the_css_directory() {
    assert!(!should_copy_entry("css", true));
    assert!(should_copy_entry("css", false));
    assert!(should_copy_entry("js", true));
    assert!(should_copy_entry("images", true));
}

#[test]
fn css_compiler_arguments() {
    assert_eq!(
        css_compiler_args("static/css/input.css", "dist/static/css/style.css", false, true),
        vec!["-i", "static/css/input.css", "-o", "dist/static/css/style.css", "--minify"]
    );
    assert_eq!(
        css_compiler_args("in.css", "out.css", true, false),
        vec!["-i", "in.css", "-o", "out.css", "--watch"]
    );
}

#[test]
fn managed_scaffold_list() {
    let p = ProjectPaths::from_root("site");
    let files = managed_scaffold_files(&p);
    assert_eq!(
        files,
        vec![
            "site/site.toml",
            "site/templates/layouts/base.html",
            "site/templates/pages/index.html",
            "site/templates/pages/404.html",
            "site/templates/post.html",
            "site/static/css/input.css",
            "site/static/js/htmx.min.js",
            "site/content/posts/hello.md",
            "site/content/posts/2025/hello.md",
        ]
    );
}

#[test]
fn conflict_check_passes_on_a_clean_root() {
    let p = ProjectPaths::from_root("site");
    let exists = vec![false; 9];
    assert!(ensure_no_scaffold_conflicts(&p, &exists).is_ok());
}

#[test]
fn conflict_check_reports_existing_files() {
    let p = ProjectPaths::from_root("site");
    let mut exists = vec![false; 9];
    exists[0] = true;
    exists[4] = true;
    let conflicts = ensure_no_scaffold_conflicts(&p, &exists).unwrap_err();
    assert_eq!(conflicts, vec!["site/site.toml", "site/templates/post.html"]);
}

#[test]
fn bounded_clean_targets() {
    let p = ProjectPaths::from_root("site");
    assert_eq!(scaffold_clean_files(&p), vec!["site/site.toml"]);
    assert_eq!(
        scaffold_clean_dirs(&p),
        vec!["site/content", "site/templates", "site/static"]
    );
}

#[test]
fn gitignore_appended_when_output_dir_not_mentioned() {
    assert_eq!(
        gitignore_updated("node_modules\n"),
        "node_modules\n/dist\n/target\n.DS_Store\n"
    );
    assert_eq!(
        gitignore_updated("no-newline"),
        "no-newline\n/dist\n/target\n.DS_Store\n"
    );
}

#[test]
fn gitignore_reset_when_output_dir_already_mentioned() {
    assert_eq!(
        gitignore_updated("/dist\nextra\n"),
        "/dist\n/target\n.DS_Store\n"
    );
}
