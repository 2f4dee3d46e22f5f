use eldroid_ssg::html::HtmlGenerator;
use eldroid_ssg::markdown::markdown_to_html;
use eldroid_ssg::minify::Minifier;
use eldroid_ssg::variables::{MacroProcessor, Variables};

fn layer(entries: &[(&str, &str)]) -> Vec<(String, String)> {
    entries.iter().map(|(k, v)| (k.to_string(), v.to_string())).collect()
}

#[test]
fn test_html_generation() {
    let generator = HtmlGenerator::new();
    let input = "<html><body>Test</body></html>";
    let output = generator.generate(input);
    assert_eq!(output, input);
}

#[test]
fn test_html_minification() {
    let minifier = Minifier::default();

    let input = r#"
        <html>
            <head>
                <title>Test</title>
            </head>
            <body>
                <div class="test">
                    Hello World
                </div>
            </body>
        </html>
    "#;

    let output = minifier.minify_html(input);
    assert!(!output.contains("\n"));
    assert!(!output.contains("    "));
    assert!(output.contains("<html><head><title>Test</title></head>"));
}

#[test]
fn variables_are_looked_up_page_first() {
    let mut v = Variables::from_layers(
        layer(&[("site", "S"), ("name", "site-name")]),
        Some(layer(&[("name", "env-name"), ("mode", "dev")])),
    );
    assert_eq!(v.get("name"), Some("env-name".to_string()));
    v.set_page_vars(layer(&[("name", "page-name")]));
    assert_eq!(v.get("name"), Some("page-name".to_string()));
    assert_eq!(v.get("site"), Some("S".to_string()));
    assert_eq!(v.get("mode"), Some("dev".to_string()));
    assert_eq!(v.get("none"), None);
}

#[test]
fn variable_references_are_substituted() {
    let v = Variables::from_layers(layer(&[("title", "Home")]), None);
    assert_eq!(v.substitute("<h1>@{var(\"title\")}</h1>"), "<h1>Home</h1>");
    assert_eq!(v.substitute("@{var('title')}/@{var('missing')}"), "Home/@{var(\"missing\")}");
    assert_eq!(v.substitute("@{var(title)} @{var(\"\")}"), "@{var(title)} @{var(\"\")}");
}

#[test]
fn macros_expand_only_with_variables() {
    let m = MacroProcessor::new();
    assert_eq!(m.process("@{var(\"a\")}"), "@{var(\"a\")}");
    let m = MacroProcessor::new().with_variables(Variables::from_layers(layer(&[("a", "1")]), None));
    assert_eq!(m.process("x@{var(\"a\")}y"), "x1y");
}

#[test]
fn development_pages_get_the_reload_client() {
    let g = HtmlGenerator::new().with_dev_mode(true, Some(35729));
    let out = g.generate("<html><body>x</body></html>");
    assert!(out.starts_with("<html><body>x<script>"));
    assert!(out.ends_with("</script></body></html>"));
    assert!(out.contains("ws://localhost:35729/ws"));
    let no_port = HtmlGenerator::new().with_dev_mode(true, None);
    assert_eq!(no_port.generate("<body></body>"), "<body></body>");
    let zero = HtmlGenerator::new().with_dev_mode(true, Some(0)).generate("");
    assert!(zero.contains("ws://localhost:0/ws"));
}

#[test]
fn generator_substitutes_then_expands_macros() {
    let vars = Variables::from_layers(layer(&[("t", "T")]), None);
    let g = HtmlGenerator::new().with_variables(vars).with_macros(MacroProcessor::new());
    assert_eq!(g.generate("<p>@{var(\"t\")}</p>"), "<p>T</p>");
    assert!(g.get_variables().is_some());
    assert!(g.get_macro_processor().is_some());
}

#[test]
fn markdown_becomes_html() {
    assert_eq!(markdown_to_html("# Hi"), "<h1>Hi</h1>\n");
    assert_eq!(markdown_to_html("~~x~~"), "<p><del>x</del></p>\n");
}

#[test]
fn minified_pages_lose_layout_whitespace() {
    let m = Minifier::new();
    let input = "<p>  Hello,   world!  </p>\n\n";
    let out = m.minify_html(input);
    assert_ne!(out, input);
    assert!(out.contains("Hello, world!"));
    assert_eq!(m.minify_js("let a = 1;\n"), "let a = 1;\n");
}
