use eldroid_ssg::render::Renderer;
use eldroid_ssg::resolver::ComponentResolver;

fn chars(s: &str) -> Vec<char> {
    s.chars().collect()
}

fn renderer(files: &[(&str, Option<&str>)]) -> Renderer {
    let mut r = ComponentResolver::new();
    for (path, content) in files {
        r.add_file(path, *content);
    }
    Renderer::new(r)
}

#[test]
fn header_component_expands_without_diagnostics() {
    let mut r = renderer(&[("header.html", Some("<h1>Hi</h1>"))]);
    let out = r.render("<body><component name=\"header\" /></body>");
    assert_eq!(out, "<body><h1>Hi</h1></body>");
    assert!(out.contains("<h1>Hi</h1>"));
    assert!(!out.contains("<!--"));
}

#[test]
fn mutual_inclusion_leaves_one_cycle_comment() {
    let mut r = renderer(&[
        ("a.html", Some("A[<component name='b'/>]")),
        ("b.html", Some("B[<component name=\"a\" />]")),
    ]);
    let out = r.render("<component name=\"a\"/>");
    assert_eq!(out, "A[B[<!-- circular dependency: a -->]]");
    assert_eq!(out.matches("circular dependency").count(), 1);
}

#[test]
fn self_inclusion_terminates() {
    let mut r = renderer(&[("x.html", Some("X<component name=\"x\" />Y"))]);
    let out = r.render("<p><component name=\"x\" /></p>");
    assert_eq!(out, "<p>X<!-- circular dependency: x -->Y</p>");
}

#[test]
fn acyclic_chain_has_no_placeholders() {
    let mut r = renderer(&[
        ("a.html", Some("a(<component name=\"b\" />)")),
        ("b.html", Some("b(<component name=\"c\" />)")),
        ("c.html", Some("c")),
    ]);
    let out = r.render("<component name=\"a\" /> and <component name=\"c\" />");
    assert_eq!(out, "a(b(c)) and c");
    assert!(!out.contains("<!--"));
}

#[test]
fn missing_component_is_reported_inline() {
    let mut r = renderer(&[]);
    let out = r.render("x<component name=\"nope\" />y");
    assert_eq!(out, "x<!-- component not found: nope -->y");
}

#[test]
fn unreadable_component_is_reported_inline() {
    let mut r = renderer(&[("bad.html", None)]);
    let out = r.render("<component name=\"bad\" />");
    assert_eq!(out, "<!-- component unreadable: bad -->");
}

#[test]
fn lookup_ignores_case_of_file_name() {
    let mut r = renderer(&[("parts/Header.html", Some("<h1>Hi</h1>"))]);
    let out = r.render("<component name=\"header\" />");
    assert_eq!(out, "<h1>Hi</h1>");
}

#[test]
fn exact_path_wins_over_stem_match() {
    let mut r = renderer(&[
        ("other/nav.html", Some("other")),
        ("nav.html", Some("root")),
    ]);
    assert_eq!(r.render("<component name=\"nav\" />"), "root");
}

#[test]
fn relative_names_resolve_from_the_including_component() {
    let mut r = renderer(&[
        ("blog/card.html", Some("[<component name=\"meta\" />|<component name=\"/meta\" />]")),
        ("blog/meta.html", Some("blog-meta")),
        ("meta.html", Some("root-meta")),
    ]);
    let out = r.render("<component name=\"blog/card\" />");
    assert_eq!(out, "[blog-meta|root-meta]");
}

#[test]
fn backslashes_in_names_are_separators() {
    let mut r = renderer(&[("blog/card.html", Some("card"))]);
    assert_eq!(r.render("<component name=\"blog\\card\" />"), "card");
}

#[test]
fn same_component_twice_on_a_page() {
    let mut r = renderer(&[("hr.html", Some("<hr>"))]);
    let out = r.render("<component name=\"hr\" /><p></p><component name=\"hr\" />");
    assert_eq!(out, "<hr><p></p><hr>");
}

#[test]
fn rendering_tagless_output_again_changes_nothing() {
    let mut r = renderer(&[("header.html", Some("<h1>Hi</h1>"))]);
    let once = r.render("<body><component name=\"header\" /></body>");
    let twice = r.render(&once);
    assert_eq!(once, twice);
    assert_eq!(r.render("plain <b>text</b>"), "plain <b>text</b>");
}

#[test]
fn malformed_tags_are_left_alone() {
    let mut r = renderer(&[("a.html", Some("A"))]);
    let page = "<componentname=\"a\" /><component name=\"\" /><component name=\"a\" >";
    assert_eq!(r.render(page), page);
}

#[test]
fn tag_spacing_and_quotes_are_tolerated() {
    let mut r = renderer(&[("a.html", Some("A"))]);
    let out = r.render("<component\n  name='a'/>|<component name=\"a\"\t/>|<component name=\"a'/>");
    assert_eq!(out, "A|A|A");
}

#[test]
fn second_resolution_is_served_from_the_path_cache() {
    let mut r = ComponentResolver::new();
    r.add_file("header.html", Some("<h1>Hi</h1>"));
    let name = chars("header");
    let first = r.resolve(None, &name);
    assert_eq!(r.probes(), 1);
    let second = r.resolve(None, &name);
    assert_eq!(r.probes(), 1);
    assert_eq!(first, Some(0));
    assert_eq!(first, second);
    let missing = chars("absent");
    assert_eq!(r.resolve(None, &missing), None);
    assert_eq!(r.resolve(None, &missing), None);
    assert_eq!(r.probes(), 2);
}

#[test]
fn resolution_is_keyed_by_directory() {
    let mut r = ComponentResolver::new();
    r.add_file("a/x.html", Some("ax"));
    r.add_file("b/x.html", Some("bx"));
    let name = chars("x");
    let a = chars("a");
    let b = chars("b");
    assert_eq!(r.resolve(Some(&a), &name), Some(0));
    assert_eq!(r.resolve(Some(&b), &name), Some(1));
    assert_eq!(r.probes(), 2);
}

#[test]
fn clearing_caches_picks_up_nothing_stale() {
    let mut r = renderer(&[("h.html", Some("old"))]);
    assert_eq!(r.render("<component name=\"h\" />"), "old");
    r.clear_caches();
    assert_eq!(r.resolver().probes(), 1);
    assert_eq!(r.render("<component name=\"h\" />"), "old");
    assert_eq!(r.resolver().probes(), 2);
}
