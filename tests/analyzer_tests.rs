use eldroid_ssg::analyzer::Analyzer;

const PAGE: &str = "<html><head><script src=\"http://e.com/a.js\"></script><link rel=\"stylesheet\" href=\"s.css\"></head>\
<body><img src=\"http://e.com/i.png\"><img src=\"https://e.com/j.png\" width=\"1\" height=\"2\"><script>  </script></body></html>";

#[test]
fn security_findings_of_a_page() {
    let a = Analyzer::new(Some("https://example.com".to_string()));
    let r = a.analyze_security(PAGE, "content/index.html");
    assert_eq!(r.mixed_content, vec!["http://e.com/i.png".to_string(), "http://e.com/a.js".to_string()]);
    assert_eq!(
        r.external_resources,
        vec!["http://e.com/a.js".to_string(), "http://e.com/i.png".to_string(), "https://e.com/j.png".to_string()]
    );
    assert_eq!(r.insecure_links, vec!["http://e.com/a.js".to_string(), "http://e.com/i.png".to_string()]);
    assert!(r.inline_scripts.is_empty());
}

#[test]
fn inline_scripts_and_plain_sites() {
    let a = Analyzer::new(Some("http://example.com".to_string()));
    let page = "<html><body><img src=\"http://x.com/a.png\"><img src=\"http://x.com/a.png\"><script>run()</script></body></html>";
    let r = a.analyze_security(page, "p.html");
    assert!(r.mixed_content.is_empty());
    assert_eq!(r.inline_scripts, vec!["p.html".to_string()]);
    assert_eq!(r.external_resources, vec!["http://x.com/a.png".to_string()]);
    assert_eq!(r.insecure_links, vec!["http://x.com/a.png".to_string()]);
}

#[test]
fn performance_report_of_a_page() {
    let a = Analyzer::new(None);
    let r = a.analyze_performance(PAGE, "content/index.html");
    let expected = format!(
        "Page size: {:.2} KB\nImages: 2 (50% optimized)\nBlocking scripts: 2\nCSS files: 1\nPerformance score: 100/100\n",
        PAGE.len() as f64 / 1024.0
    );
    assert_eq!(r.details, expected);
    assert_eq!(
        r.recommendations,
        vec![
            "Add width and height attributes to 1 images to prevent layout shifts.".to_string(),
            "Add async or defer to non-critical scripts.".to_string()
        ]
    );
}

#[test]
fn page_size_is_shown_as_float_formatting_would() {
    let a = Analyzer::new(None);
    for n in [0usize, 1, 5, 128, 384, 512, 1000, 1023, 1536, 100_000, 600_000] {
        let page = "x".repeat(n);
        let r = a.analyze_performance(&page, "x.html");
        let expected = format!("Page size: {:.2} KB\n", n as f64 / 1024.0);
        assert!(r.details.starts_with(&expected), "{} gave {}", n, r.details);
    }
    let big = a.analyze_performance(&"x".repeat(600_000), "x.html");
    assert_eq!(big.recommendations[0], "Page size exceeds 500KB. Consider optimizing images and removing unused resources.");
}

#[test]
fn scripts_and_stylesheets_lower_the_score() {
    let a = Analyzer::new(None);
    let mut page = String::from("<html><head>");
    for _ in 0..12 {
        page.push_str("<script async src=\"a.js\"></script>");
    }
    for _ in 0..5 {
        page.push_str("<link rel='stylesheet' href='s.css'>");
    }
    page.push_str("</head><body></body></html>");
    let r = a.analyze_performance(&page, "x.html");
    assert!(r.details.contains("CSS files: 5\n"));
    assert!(r.details.contains("Performance score: 86/100\n"));
    assert!(!r.details.contains("Blocking"));
    assert_eq!(r.recommendations, vec!["Consider combining CSS files to reduce HTTP requests.".to_string()]);
}
