use eldroid_ssg::batch::{build_page, finish_page, plan_job, is_content_file, output_path, summarize, BuildError, JobOutcome};
use eldroid_ssg::html::HtmlGenerator;
use eldroid_ssg::render::Renderer;
use eldroid_ssg::resolver::ComponentResolver;

#[test]
fn output_paths_mirror_the_input_tree() {
    assert_eq!(output_path("content", "output", "content/index.html"), Some("output/index.html".to_string()));
    assert_eq!(output_path("content/", "out/", "content/blog/post.md"), Some("out/blog/post.html".to_string()));
    assert_eq!(output_path("content", "output", "elsewhere/index.html"), None);
    assert_eq!(output_path("content", "output", "content2/index.html"), None);
    assert_eq!(output_path("", "output", "a.html"), Some("output/a.html".to_string()));
}

#[test]
fn content_files_are_pages_and_posts() {
    assert!(is_content_file("content/index.html"));
    assert!(is_content_file("content/blog/post.md"));
    assert!(!is_content_file("content/style.css"));
    assert!(!is_content_file("content/.html"));
    assert!(!is_content_file("content/html"));
}

#[test]
fn one_unreadable_file_fails_the_batch() {
    let mut r = Renderer::new(ComponentResolver::new());
    let files = ["content/a.html", "content/b.html", "content/c.html"];
    let mut outcomes = Vec::new();
    for f in files.iter() {
        let content = if *f == "content/b.html" { None } else { Some("<p>page</p>") };
        outcomes.push(match build_page(&mut r, &HtmlGenerator::new(), "content", "output", f, content, false) {
            Ok(p) => JobOutcome::Written(p.path),
            Err(e) => JobOutcome::Failed(e),
        });
    }
    let report = summarize(&outcomes);
    assert_eq!(report.written, vec!["output/a.html".to_string(), "output/c.html".to_string()]);
    assert_eq!(report.errors.len(), 1);
    assert_eq!(report.errors[0].file, "content/b.html");
    assert!(!report.succeeded());
}

#[test]
fn a_clean_batch_succeeds() {
    let outcomes = vec![JobOutcome::Written("o/a.html".to_string())];
    let report = summarize(&outcomes);
    assert!(report.succeeded());
    let failed = vec![JobOutcome::Failed(BuildError { file: "x".to_string(), message: "m".to_string() })];
    assert!(!summarize(&failed).succeeded());
}

#[test]
fn page_job_expands_components() {
    let mut res = ComponentResolver::new();
    res.add_file("header.html", Some("<h1>Hi</h1>"));
    let mut r = Renderer::new(res);
    let page = build_page(&mut r, &HtmlGenerator::new(), "content", "output", "content/index.html", Some("<component name=\"header\" />"), false)
        .ok()
        .unwrap();
    assert_eq!(page.path, "output/index.html");
    assert_eq!(page.html, "<h1>Hi</h1>");
    assert!(build_page(&mut r, &HtmlGenerator::new(), "content", "output", "other/index.html", Some("x"), false).is_err());
}

#[test]
fn markdown_posts_are_written_as_pages() {
    let mut res = ComponentResolver::new();
    res.add_file("sig.html", Some("<i>me</i>"));
    let mut r = Renderer::new(res);
    let page = build_page(
        &mut r,
        &HtmlGenerator::new(),
        "content",
        "output",
        "content/blog/post.md",
        Some("# Post\n\n<component name=\"sig\" />\n"),
        false,
    )
    .ok()
    .unwrap();
    assert_eq!(page.path, "output/blog/post.html");
    assert!(page.html.starts_with("<h1>Post</h1>"));
    assert!(page.html.contains("<i>me</i>"));
}

#[test]
fn jobs_split_into_plan_render_finish() {
    let job = plan_job("content", "output", "content/p.md", Some("# T")).ok().unwrap();
    assert_eq!(job.path, "output/p.html");
    assert_eq!(job.markup, "<h1>T</h1>\n");
    assert_eq!(plan_job("content", "output", "content/p.md", None).err().unwrap().file, "content/p.md");
    assert_eq!(finish_page(&HtmlGenerator::new(), "<p>x</p>", false), "<p>x</p>");
}
