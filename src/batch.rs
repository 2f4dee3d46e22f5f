//! Planning and accounting of a batch build. Each content file is one job:
//! its text is expanded and written to the mirrored path under the output
//! directory. A failed job is recorded and the others go on; the batch fails
//! when any job did. Reading, writing and the worker pool are the caller's.
use vstd::prelude::*;
use crate::render::{grows, rendering, settled, Renderer};
use crate::resolver::{normalize, normalize_exec, slice_of};
use crate::tag::tags;
use crate::text::{chars_of, push_all, push_range, same_text, string_of};
use crate::html::HtmlGenerator;
use crate::markdown::{markdown_html_of, markdown_to_html};
use crate::minify::Minifier;
use crate::watch::extension;

verus! {

/// A page or a markdown post.
pub open spec fn is_content(p: Seq<char>) -> bool {
    extension(p) == Some("html"@) || extension(p) == Some("md"@)
}

/// Whether a file is one the build takes.
pub fn is_content_file(path: &str) -> (r: bool)
    ensures
        r == is_content(path@),
{
    let e = extension_exec(path);
    match e {
        Some(x) => {
            let html = chars_of("html");
            let md = chars_of("md");
            same_text(&x, &html) || same_text(&x, &md)
        },
        None => false,
    }
}

/// The extension of a path, if it has one.
pub fn extension_exec(path: &str) -> (r: Option<Vec<char>>)
    ensures
        match r {
            Some(x) => extension(path@) == Some(x@),
            None => extension(path@).is_none(),
        },
{
    let n = normalize_exec(&chars_of(path));
    let start: usize = match crate::resolver::last_index_pub(&n, '/', n.len()) {
        Some(k) => k + 1,
        None => 0,
    };
    let f = slice_of(&n, start, n.len());
    match crate::resolver::last_index_pub(&f, '.', f.len()) {
        Some(d) => {
            if d > 0 {
                Some(slice_of(&f, d + 1, f.len()))
            } else {
                None
            }
        },
        None => None,
    }
}

/// A directory path without one trailing separator.
pub open spec fn trim_sep(d: Seq<char>) -> Seq<char> {
    if d.len() > 0 && d.last() == '/' {
        d.drop_last()
    } else {
        d
    }
}

/// The path of `p` below directory `dir`, if `p` lies below it.
pub open spec fn relative_to(dir: Seq<char>, p: Seq<char>) -> Option<Seq<char>> {
    let d = trim_sep(normalize(dir));
    let q = normalize(p);
    if d.len() == 0 {
        Some(q)
    } else if q.len() > d.len() + 1 && q.subrange(0, d.len() as int) == d && q[d.len() as int] == '/' {
        Some(q.subrange(d.len() as int + 1, q.len() as int))
    } else {
        None
    }
}

/// A markdown post is written as a page.
pub open spec fn output_name(r: Seq<char>) -> Seq<char> {
    if extension(r) == Some("md"@) {
        r.subrange(0, r.len() - 2) + "html"@
    } else {
        r
    }
}

/// `r` below directory `d`.
pub open spec fn join(d: Seq<char>, r: Seq<char>) -> Seq<char> {
    let t = trim_sep(normalize(d));
    if t.len() == 0 {
        r
    } else {
        t + "/"@ + r
    }
}

/// Where the output of `file` goes: its path below the input directory,
/// mirrored below the output directory, a markdown post becoming a page.
pub open spec fn output_for(input_dir: Seq<char>, output_dir: Seq<char>, file: Seq<char>) -> Option<Seq<char>> {
    match relative_to(input_dir, file) {
        Some(r) => Some(join(output_dir, output_name(r))),
        None => None,
    }
}

fn trim_sep_exec(d: &Vec<char>) -> (r: Vec<char>)
    ensures
        r@ == trim_sep(d@),
{
    if d.len() > 0 && d[d.len() - 1] == '/' {
        let r = slice_of(d, 0, d.len() - 1);
        assert(r@ =~= d@.drop_last());
        r
    } else {
        slice_of(d, 0, d.len())
    }
}

fn relative_to_exec(dir: &str, p: &str) -> (r: Option<Vec<char>>)
    ensures
        match r {
            Some(x) => relative_to(dir@, p@) == Some(x@),
            None => relative_to(dir@, p@).is_none(),
        },
{
    let d = trim_sep_exec(&normalize_exec(&chars_of(dir)));
    let q = normalize_exec(&chars_of(p));
    if d.len() == 0 {
        assert(q@.subrange(0, q@.len() as int) =~= q@);
        return Some(slice_of(&q, 0, q.len()));
    }
    if q.len() > d.len() && q.len() - d.len() > 1 && q[d.len()] == '/' {
        let head = slice_of(&q, 0, d.len());
        if same_text(&head, &d) {
            return Some(slice_of(&q, d.len() + 1, q.len()));
        }
    }
    None
}

/// The path of `p` below directory `dir`, if it lies below it.
pub fn relative_to_pub(dir: &str, p: &str) -> (r: Option<Vec<char>>)
    ensures
        match r {
            Some(x) => relative_to(dir@, p@) == Some(x@),
            None => relative_to(dir@, p@).is_none(),
        },
{
    relative_to_exec(dir, p)
}

/// Where the output of `file` goes, or `None` when it is not below the
/// input directory.
pub fn output_path(input_dir: &str, output_dir: &str, file: &str) -> (r: Option<String>)
    ensures
        match r {
            Some(x) => output_for(input_dir@, output_dir@, file@) == Some(x@),
            None => output_for(input_dir@, output_dir@, file@).is_none(),
        },
{
    match relative_to_exec(input_dir, file) {
        None => None,
        Some(rel) => {
            let rs = string_of(&rel);
            let e = extension_exec(rs.as_str());
            let name: Vec<char> = match e {
                Some(x) => {
                    let md = chars_of("md");
                    if same_text(&x, &md) {
                        proof {
                            lemma_md_suffix(rel@);
                        }
                        let mut v = slice_of(&rel, 0, rel.len() - 2);
                        let html = chars_of("html");
                        push_all(&mut v, &html);
                        v
                    } else {
                        rel
                    }
                },
                None => rel,
            };
            assert(name@ == output_name(rel@));
            let t = trim_sep_exec(&normalize_exec(&chars_of(output_dir)));
            if t.len() == 0 {
                Some(string_of(&name))
            } else {
                let mut out = t;
                out.push('/');
                push_all(&mut out, &name);
                assert(out@ =~= trim_sep(normalize(output_dir@)) + "/"@ + name@) by {
                    reveal_strlit("/");
                }
                Some(string_of(&out))
            }
        },
    }
}

/// The page name a source file is written under.
pub fn output_name_pub(rel: &Vec<char>) -> (r: Vec<char>)
    ensures
        r@ == output_name(rel@),
{
    let rs = string_of(rel);
    let e = extension_exec(rs.as_str());
    match e {
        Some(x) => {
            let md = chars_of("md");
            if same_text(&x, &md) {
                proof {
                    lemma_md_suffix(rel@);
                }
                let mut v = slice_of(rel, 0, rel.len() - 2);
                let html = chars_of("html");
                push_all(&mut v, &html);
                v
            } else {
                crate::text::copy_text(rel)
            }
        },
        None => crate::text::copy_text(rel),
    }
}

/// A path whose extension is `md` ends in `md`.
proof fn lemma_md_suffix(r: Seq<char>)
    requires
        extension(r) == Some("md"@),
    ensures
        r.len() >= 2,
{
    reveal_strlit("md");
    let f = crate::resolver::file_name(normalize(r));
    let d = crate::resolver::last_index(f, '.', f.len() as int);
    assert(f.subrange(d + 1, f.len() as int).len() == 2);
    let k = crate::resolver::last_index(normalize(r), '/', normalize(r).len() as int);
    crate::resolver::lemma_last_index_pub(normalize(r), '/', normalize(r).len() as int);
    crate::resolver::lemma_last_index_pub(f, '.', f.len() as int);
}

/// A build failure of one file.
#[derive(Clone, Debug)]
pub struct BuildError {
    pub file: String,
    pub message: String,
}

/// The outcome of one job: the output path written, or the failure.
#[derive(Clone, Debug)]
pub enum JobOutcome {
    Written(String),
    Failed(BuildError),
}

/// The outcome of a batch: every output written and every failure, each in
/// job order.
pub struct BuildReport {
    pub written: Vec<String>,
    pub errors: Vec<BuildError>,
}

impl BuildReport {
    /// The batch succeeded when no job failed.
    pub fn succeeded(&self) -> (r: bool)
        ensures
            r == (self.errors.len() == 0),
    {
        self.errors.len() == 0
    }
}

/// The outputs among job outcomes, in order.
pub open spec fn written_of(o: Seq<JobOutcome>) -> Seq<Seq<char>>
    decreases o.len(),
{
    if o.len() == 0 {
        Seq::empty()
    } else {
        written_of(o.drop_last()) + match o.last() {
            JobOutcome::Written(p) => seq![p@],
            JobOutcome::Failed(_) => Seq::empty(),
        }
    }
}

/// The failed files among job outcomes, in order.
pub open spec fn failed_of(o: Seq<JobOutcome>) -> Seq<Seq<char>>
    decreases o.len(),
{
    if o.len() == 0 {
        Seq::empty()
    } else {
        failed_of(o.drop_last()) + match o.last() {
            JobOutcome::Written(_) => Seq::empty(),
            JobOutcome::Failed(e) => seq![e.file@],
        }
    }
}

/// Every job is either written or failed: outputs and failures together
/// number the jobs.
pub proof fn lemma_batch_accounts_every_job(o: Seq<JobOutcome>)
    ensures
        written_of(o).len() + failed_of(o).len() == o.len(),
    decreases o.len(),
{
    if o.len() > 0 {
        lemma_batch_accounts_every_job(o.drop_last());
    }
}

/// A batch in which exactly one job failed writes every other page and
/// records that one failure.
pub proof fn lemma_one_failed_job(o: Seq<JobOutcome>, k: int)
    requires
        0 <= k < o.len(),
        o[k] is Failed,
        forall|j: int| 0 <= j < o.len() && j != k ==> #[trigger] o[j] is Written,
    ensures
        written_of(o).len() == o.len() - 1,
        failed_of(o) == seq![o[k]->Failed_0.file@],
    decreases o.len(),
{
    let init = o.drop_last();
    if k == o.len() - 1 {
        lemma_all_written(init);
        assert(failed_of(init) =~= Seq::<Seq<char>>::empty());
        assert(failed_of(o) =~= seq![o[k]->Failed_0.file@]);
    } else {
        assert forall|j: int| 0 <= j < init.len() && j != k implies #[trigger] init[j] is Written by {
            assert(init[j] == o[j]);
        }
        assert(init[k] == o[k]);
        lemma_one_failed_job(init, k);
        assert(o.last() == o[o.len() - 1]);
        assert(failed_of(o) =~= failed_of(init));
    }
}

proof fn lemma_all_written(o: Seq<JobOutcome>)
    requires
        forall|j: int| 0 <= j < o.len() ==> #[trigger] o[j] is Written,
    ensures
        written_of(o).len() == o.len(),
        failed_of(o).len() == 0,
    decreases o.len(),
{
    if o.len() > 0 {
        let init = o.drop_last();
        assert forall|j: int| 0 <= j < init.len() implies #[trigger] init[j] is Written by {
            assert(init[j] == o[j]);
        }
        lemma_all_written(init);
        assert(o.last() == o[o.len() - 1]);
    }
}

/// Gathers the outcomes of a batch.
pub fn summarize(outcomes: &Vec<JobOutcome>) -> (r: BuildReport)
    ensures
        r.written@.map_values(|p: String| p@) == written_of(outcomes@),
        r.errors@.map_values(|e: BuildError| e.file@) == failed_of(outcomes@),
{
    let mut written: Vec<String> = Vec::new();
    let mut errors: Vec<BuildError> = Vec::new();
    let mut i: usize = 0;
    while i < outcomes.len()
        invariant
            i <= outcomes.len(),
            written@.map_values(|p: String| p@) == written_of(outcomes@.subrange(0, i as int)),
            errors@.map_values(|e: BuildError| e.file@) == failed_of(outcomes@.subrange(0, i as int)),
        decreases outcomes.len() - i,
    {
        let ghost pre = outcomes@.subrange(0, i as int);
        assert(outcomes@.subrange(0, i + 1).drop_last() =~= pre);
        match &outcomes[i] {
            JobOutcome::Written(p) => {
                written.push(p.clone());
                assert(errors@.map_values(|e: BuildError| e.file@) =~= failed_of(pre) + Seq::empty());
            },
            JobOutcome::Failed(e) => {
                errors.push(BuildError { file: e.file.clone(), message: e.message.clone() });
                assert(written@.map_values(|p: String| p@) =~= written_of(pre) + Seq::empty());
            },
        }
        i = i + 1;
        assert(written@.map_values(|p: String| p@) =~= written_of(outcomes@.subrange(0, i as int)));
        assert(errors@.map_values(|e: BuildError| e.file@) =~= failed_of(outcomes@.subrange(0, i as int)));
    }
    assert(outcomes@.subrange(0, outcomes.len() as int) =~= outcomes@);
    BuildReport { written, errors }
}

/// A page built by one job: where it goes and its expanded text.
pub struct PageOutput {
    pub path: String,
    pub html: String,
}

/// A markdown post.
pub open spec fn is_markdown(p: Seq<char>) -> bool {
    extension(p) == Some("md"@)
}

/// The markup a file's text stands for: a post's is its HTML.
pub open spec fn markup_of(file: Seq<char>, content: Seq<char>) -> Seq<char> {
    if is_markdown(file) {
        markdown_html_of(content)
    } else {
        content
    }
}

/// One job, from the file's text to its output: `None` as text means the
/// file could not be read. A post is first turned into HTML; the page's
/// components are expanded with the renderer's caches, the generator
/// substitutes variables and macros (and adds the live-reload client in
/// development), and the page is minified if asked.
pub fn build_page(
    renderer: &mut Renderer,
    generator: &HtmlGenerator,
    input_dir: &str,
    output_dir: &str,
    file: &str,
    content: Option<&str>,
    minify: bool,
) -> (r: Result<PageOutput, BuildError>)
    requires
        old(renderer).wf(),
    ensures
        final(renderer).wf(),
        final(renderer).files() == old(renderer).files(),
        grows(old(renderer).contents(), final(renderer).contents()),
        content.is_none() ==> r.is_err() && final(renderer).contents() == old(renderer).contents(),
        output_for(input_dir@, output_dir@, file@).is_none() ==> r.is_err(),
        r matches Err(e) ==> e.file@ == file@,
        content.is_some() && output_for(input_dir@, output_dir@, file@).is_some() ==> r.is_ok(),
        r matches Ok(p) ==> content.is_some() && Some(p.path@) == output_for(input_dir@, output_dir@, file@),
        r matches Ok(p) ==> !minify ==> p.html@ == generator.generated(
            rendering(
                final(renderer).files(),
                final(renderer).contents(),
                Seq::empty(),
                Seq::empty(),
                None,
                markup_of(file@, content.unwrap()@),
            ),
        ),
        r.is_ok() ==> settled(
            final(renderer).files(),
            final(renderer).contents(),
            Seq::empty(),
            Seq::empty(),
            None,
            markup_of(file@, content.unwrap()@),
        ),
{
    let job = plan_job(input_dir, output_dir, file, content);
    match job {
        Err(e) => Err(e),
        Ok(j) => {
            let expanded = renderer.render(j.markup.as_str());
            let html = finish_page(generator, expanded.as_str(), minify);
            Ok(PageOutput { path: j.path, html })
        },
    }
}

/// A job ready to be expanded: where its page goes, and its markup.
pub struct PlannedJob {
    pub path: String,
    pub markup: String,
}

/// The part of a job before expansion: `None` as text means the file could
/// not be read; a file outside the input directory has no output; a post
/// is turned into HTML.
pub fn plan_job(input_dir: &str, output_dir: &str, file: &str, content: Option<&str>) -> (r: Result<
    PlannedJob,
    BuildError,
>)
    ensures
        content.is_none() ==> r.is_err(),
        output_for(input_dir@, output_dir@, file@).is_none() ==> r.is_err(),
        r matches Err(e) ==> e.file@ == file@,
        content.is_some() && output_for(input_dir@, output_dir@, file@).is_some() ==> r.is_ok(),
        r matches Ok(j) ==> content.is_some() && Some(j.path@) == output_for(input_dir@, output_dir@, file@)
            && j.markup@ == markup_of(file@, content.unwrap()@),
{
    let text = match content {
        None => {
            return Err(
                BuildError {
                    file: string_of(&chars_of(file)),
                    message: string_of(&chars_of("the file could not be read")),
                },
            );
        },
        Some(t) => t,
    };
    let path = match output_path(input_dir, output_dir, file) {
        None => {
            return Err(
                BuildError {
                    file: string_of(&chars_of(file)),
                    message: string_of(&chars_of("the file is not below the input directory")),
                },
            );
        },
        Some(p) => p,
    };
    let e = extension_exec(file);
    let is_md = match e {
        Some(x) => {
            let md = chars_of("md");
            same_text(&x, &md)
        },
        None => false,
    };
    let markup = if is_md {
        markdown_to_html(text)
    } else {
        crate::text::to_string(text)
    };
    Ok(PlannedJob { path, markup })
}

/// The part of a job after expansion: the generator's substitutions, then
/// minification if asked, of which nothing is stated.
pub fn finish_page(generator: &HtmlGenerator, expanded: &str, minify: bool) -> (r: String)
    ensures
        !minify ==> r@ == generator.generated(expanded@),
{
    let page = generator.generate(expanded);
    if minify {
        Minifier::new().minify_html(page.as_str())
    } else {
        page
    }
}

} // verus!
