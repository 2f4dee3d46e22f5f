use eldroid_ssg::analyzer::Analyzer;
use eldroid_ssg::config::{BuildConfig, CliArgs};
use eldroid_ssg::html::inject_body_script;
use eldroid_ssg::seo_html::inject_meta_tags;
use eldroid_ssg::markdown::{BlogFrontMatter, BlogPost, BlogProcessor};
use eldroid_ssg::troubleshooting::Troubleshooter;

fn args(release: bool) -> CliArgs {
    CliArgs {
        input_dir: "content".to_string(),
        output_dir: "output".to_string(),
        components_dir: "components".to_string(),
        variables_config: "variables.toml".to_string(),
        release,
        analyze_performance: false,
        enable_seo: true,
        seo_config: "seo_config.toml".to_string(),
        minify: false,
        security_checks: false,
        watch: false,
        port: Some(8080),
        ws_port: None,
        clear_cache: false,
        check_watchers: false,
        check_image_processor: false,
        verify_assets: false,
        analyze_bundles: false,
        lint: true,
        memory_profile: false,
        command: None,
    }
}

#[test]
fn release_builds_minify_and_check_security() {
    let c = BuildConfig::from(&args(true));
    assert!(c.minify && c.security_checks && c.release && c.enable_seo && c.lint);
    assert_eq!(c.port, Some(8080));
    let d = BuildConfig::from(&args(false));
    assert!(!d.minify && !d.security_checks);
    assert_eq!(BuildConfig::default().variables_config, "variables.toml");
    assert!(!BuildConfig::default().watch);
}

#[test]
fn meta_tags_go_before_the_head_end() {
    assert_eq!(
        inject_meta_tags("<html><head></head><body></body></html>", "<meta a>"),
        "<html><head>\n<meta a>\n</head><body></body></html>"
    );
    assert_eq!(inject_meta_tags("<p>x</p>", "<meta a>"), "<html><head><meta a></head><p>x</p></html>");
}

#[test]
fn reload_script_goes_before_the_last_body_end() {
    assert_eq!(inject_body_script("<body>a</body>b</body>", "<s>"), "<body>a</body>b<s></body>");
    assert_eq!(inject_body_script("<p>x</p>", "<s>"), "<p>x</p><s>");
}

fn post(url: &str, title: &str) -> BlogPost {
    BlogPost {
        front_matter: BlogFrontMatter {
            title: title.to_string(),
            author: None,
            date: "2024-01-01T00:00:00Z".to_string(),
            tags: vec![],
            description: None,
            keywords: None,
            canonical_url: None,
            structured_data: None,
            image: None,
        },
        content: String::new(),
        html_content: String::new(),
        url: url.to_string(),
        file_path: String::new(),
    }
}

#[test]
fn navigation_lists_every_post() {
    let mut b = BlogProcessor::new("content".to_string());
    assert_eq!(b.generate_navigation_tree(), "<ul class=\"nav-tree\"></ul>");
    b.add_post(post("/blog/b", "B"));
    b.add_post(post("/blog/a", "A"));
    assert_eq!(
        b.generate_navigation_tree(),
        "<ul class=\"nav-tree\"><li><a href=\"/blog/b\">B</a></li><li><a href=\"/blog/a\">A</a></li></ul>"
    );
    assert_eq!(b.neighbours("/blog/b"), (Some(1), None));
    assert_eq!(b.neighbours("/blog/a"), (None, Some(0)));
    assert_eq!(b.neighbours("/blog/z"), (None, None));
    let empty = BlogProcessor::with_option_components("content".to_string(), None);
    assert_eq!(empty.post_count(), 0);
}

#[test]
fn performance_score_penalties() {
    let a = Analyzer::new(None);
    assert_eq!(a.calculate_performance_score(0, 0, 0), 100);
    assert_eq!(a.calculate_performance_score(12, 4, 5), 100 - 4 - 5 - 6);
    assert_eq!(a.calculate_performance_score(1000, 1000, 1000), 35);
}

#[test]
fn memory_profile_reports_the_change() {
    let t = Troubleshooter::new("output/cache".to_string(), "output".to_string());
    let p = t.memory_profile(1000, Ok(()), 400).unwrap();
    assert_eq!(p.delta_bytes, -600);
    assert_eq!(t.memory_profile(1, Err("failed".to_string()), 2).unwrap_err(), "failed");
    assert_eq!(t.cache_dir(), "output/cache");
}

#[test]
fn robots_file_points_at_the_sitemap() {
    assert_eq!(
        eldroid_ssg::seo_gen::robots_txt(Some("https://example.com")),
        "User-agent: *\nAllow: /\n\n# Sitemaps\nSitemap: https://example.com/sitemap.xml"
    );
    assert_eq!(
        eldroid_ssg::seo_gen::robots_txt(None),
        "User-agent: *\nAllow: /\n\n# Sitemaps\nSitemap: /sitemap.xml"
    );
}

#[test]
fn sitemap_lists_pages_below_the_output_directory() {
    let pages = vec![
        eldroid_ssg::seo_gen::SitemapPage { file: "output/index.html".to_string(), lastmod: None },
        eldroid_ssg::seo_gen::SitemapPage { file: "elsewhere/x.html".to_string(), lastmod: None },
        eldroid_ssg::seo_gen::SitemapPage {
            file: "output/blog/a.html".to_string(),
            lastmod: Some("2024-05-01".to_string()),
        },
    ];
    let xml = eldroid_ssg::seo_gen::sitemap_xml(Some("https://example.com//"), "output", &pages);
    assert_eq!(
        xml,
        "<?xml version=\"1.0\" encoding=\"UTF-8\"?>\n<urlset xmlns=\"http://www.sitemaps.org/schemas/sitemap/0.9\">\
\n  <url>\n    <loc>https://example.com/index.html</loc>\n  </url>\
\n  <url>\n    <loc>https://example.com/blog/a.html</loc>\n    <lastmod>2024-05-01</lastmod>\n  </url>\
\n</urlset>"
    );
}

fn dated(url: &str, date: &str) -> BlogPost {
    let mut p = post(url, url);
    p.front_matter.date = date.to_string();
    p
}

#[test]
fn posts_are_ordered_newest_first_and_stably() {
    let mut b = BlogProcessor::new("content".to_string());
    b.set_posts(vec![
        dated("/a", "2023-01-01"),
        dated("/b", "2024-06-01"),
        dated("/c", "2023-01-01"),
        dated("/d", "2024-01-15"),
    ]);
    assert_eq!(
        b.generate_navigation_tree(),
        "<ul class=\"nav-tree\"><li><a href=\"/b\">/b</a></li><li><a href=\"/d\">/d</a></li>\
<li><a href=\"/a\">/a</a></li><li><a href=\"/c\">/c</a></li></ul>"
    );
    assert_eq!(b.post_count(), 4);
}

#[test]
fn post_urls_drop_the_extension() {
    assert_eq!(eldroid_ssg::markdown::post_url("content/blog/first.md", "content"), Some("/blog/first".to_string()));
    assert_eq!(eldroid_ssg::markdown::post_url("content/notes", "content"), Some("/notes".to_string()));
    assert_eq!(eldroid_ssg::markdown::post_url("other/x.md", "content"), None);
    assert!(eldroid_ssg::markdown::text_le("2023", "2024"));
    assert!(!eldroid_ssg::markdown::text_le("2024-02", "2024-01"));
    assert!(eldroid_ssg::markdown::text_le("abc", "abc"));
}

#[test]
fn lint_findings_by_file_kind() {
    assert_eq!(
        eldroid_ssg::troubleshooting::lint_file("a.html", "html", "<a href=\"javascript:x\">http://y</a>"),
        vec![
            "a.html: Unsafe javascript: protocol usage".to_string(),
            "a.html: Mixed content (http:// links)".to_string()
        ]
    );
    assert_eq!(
        eldroid_ssg::troubleshooting::lint_file("s.css", "css", "a{color:red!important}"),
        vec!["s.css: Use of !important".to_string()]
    );
    assert_eq!(
        eldroid_ssg::troubleshooting::lint_file("p.md", "md", "Intro\n# Title"),
        vec!["p.md: Missing top-level heading".to_string()]
    );
    assert!(eldroid_ssg::troubleshooting::lint_file("p.md", "md", "# Title").is_empty());
    assert!(eldroid_ssg::troubleshooting::lint_file("x.txt", "txt", "http://").is_empty());
}
