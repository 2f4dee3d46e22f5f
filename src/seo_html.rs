//! Search-engine tags of a page, and their placement in its head.
use vstd::prelude::*;
use crate::seo::SEOConfig;
use crate::seo_types::{join, joined, opt_string, strings, PageSEO};
use crate::seo_gen::{trim_start, trim_start_pub};
use crate::text::{chars_of, find_first, first_occ, push_all, push_range, string_of};

verus! {

/// `html` with `meta` placed on its own line before the first `</head>`; a
/// page with no head is wrapped in one.
pub open spec fn with_meta_tags(html: Seq<char>, meta: Seq<char>) -> Seq<char> {
    match first_occ(html, "</head>"@, 0) {
        Some(p) => html.subrange(0, p) + "\n"@ + meta + "\n"@ + html.subrange(p, html.len() as int),
        None => "<html><head>"@ + meta + "</head>"@ + html + "</html>"@,
    }
}

/// `pre`, the value and `post`, where there is a value.
pub open spec fn when(o: Option<Seq<char>>, pre: Seq<char>, post: Seq<char>) -> Seq<char> {
    match o {
        Some(v) => pre + v + post,
        None => Seq::empty(),
    }
}

/// The canonical URL of a page.
pub open spec fn canonical(page: PageSEO, config: SEOConfig) -> Seq<char> {
    let base = match config.base_url {
        Some(b) => b@,
        None => Seq::<char>::empty(),
    };
    base + "/"@ + trim_start(page.path@, '/')
}

pub open spec fn image_part(page: PageSEO) -> Seq<char> {
    match page.image {
        Some(i) => "<meta property=\"og:image\" content=\""@ + i@ + "\" />\n<meta property=\"og:image:alt\" content=\""@
            + page.title@ + "\" />\n"@,
        None => Seq::empty(),
    }
}

pub open spec fn social_part(config: SEOConfig) -> Seq<char> {
    match config.social_media {
        Some(s) => when(opt_string(s.twitter_site), "\n<meta name=\"twitter:site\" content=\""@, "\" />"@) + when(
            opt_string(s.twitter_creator),
            "\n<meta name=\"twitter:creator\" content=\""@,
            "\" />"@,
        ),
        None => Seq::empty(),
    }
}

/// One tag line per article tag.
pub open spec fn tag_lines(tags: Seq<Seq<char>>) -> Seq<char>
    decreases tags.len(),
{
    if tags.len() == 0 {
        Seq::empty()
    } else {
        tag_lines(tags.drop_last()) + "\n<meta property=\"article:tag\" content=\""@ + tags.last() + "\" />"@
    }
}

pub open spec fn tags_part(page: PageSEO) -> Seq<char> {
    match page.tags {
        Some(t) => tag_lines(strings(t@)),
        None => Seq::empty(),
    }
}

pub open spec fn is_blog_posting(page: PageSEO) -> bool {
    opt_string(page.schema_type) == Some("BlogPosting"@)
}

/// The article tags, for a blog post only.
pub open spec fn article_part(page: PageSEO) -> Seq<char> {
    if is_blog_posting(page) {
        when(opt_string(page.author), "\n<meta property=\"article:author\" content=\""@, "\" />"@) + when(
            opt_string(page.published_date),
            "\n<meta property=\"article:published_time\" content=\""@,
            "\" />"@,
        ) + when(opt_string(page.last_modified), "\n<meta property=\"article:modified_time\" content=\""@, "\" />"@)
            + when(opt_string(page.category), "\n<meta property=\"article:section\" content=\""@, "\" />"@)
            + tags_part(page)
    } else {
        Seq::empty()
    }
}

pub open spec fn keywords_of(page: PageSEO) -> Option<Seq<char>> {
    match page.keywords {
        Some(k) => Some(joined(strings(k@), ", "@)),
        None => None,
    }
}

pub open spec fn description_or_default(page: PageSEO, config: SEOConfig) -> Seq<char> {
    match page.description {
        Some(d) => d@,
        None => config.default_description@,
    }
}

/// The head tags of a page: title, description, keywords, canonical link,
/// Open Graph and Twitter tags, article tags for a blog post, and the
/// structured data `json_ld`.
pub open spec fn meta_tags(page: PageSEO, config: SEOConfig, json_ld: Seq<char>) -> Seq<char> {
    "<title>"@ + page.title@ + "</title>\n<meta name=\"description\" content=\""@ + description_or_default(page, config)
        + "\" />\n"@ + when(keywords_of(page), "<meta name=\"keywords\" content=\""@, "\" />\n"@)
        + "<link rel=\"canonical\" href=\""@ + canonical(page, config) + "\" />\n"@
        + "<meta property=\"og:title\" content=\""@ + page.title@
        + "\" />\n<meta property=\"og:type\" content=\"article\" />\n<meta property=\"og:url\" content=\""@
        + canonical(page, config) + "\" />\n"@ + when(
        opt_string(page.description),
        "<meta property=\"og:description\" content=\""@,
        "\" />\n"@,
    ) + image_part(page) + "<meta name=\"twitter:card\" content=\"summary_large_image\" />"@ + social_part(config)
        + "\n<meta name=\"twitter:title\" content=\""@ + page.title@ + "\" />"@ + when(
        opt_string(page.description),
        "\n<meta name=\"twitter:description\" content=\""@,
        "\" />"@,
    ) + article_part(page) + "\n<script type=\"application/ld+json\">\n"@ + json_ld + "\n</script>"@
}

fn push_str(out: &mut Vec<char>, s: &str)
    ensures
        final(out)@ == old(out)@ + s@,
{
    let v = chars_of(s);
    push_all(out, &v);
}

fn push_when(out: &mut Vec<char>, o: &Option<String>, pre: &str, post: &str)
    ensures
        final(out)@ == old(out)@ + when(opt_string(*o), pre@, post@),
{
    match o {
        Some(v) => {
            let ghost start = out@;
            push_str(out, pre);
            push_str(out, v.as_str());
            push_str(out, post);
            assert(out@ =~= start + (pre@ + v@ + post@));
        },
        None => {
            assert(out@ =~= old(out)@ + Seq::<char>::empty());
        },
    }
}

fn push_tag_lines(out: &mut Vec<char>, tags: &Vec<String>)
    ensures
        final(out)@ == old(out)@ + tag_lines(strings(tags@)),
{
    let ghost start = out@;
    let mut k: usize = 0;
    assert(strings(tags@).subrange(0, 0) =~= Seq::<Seq<char>>::empty());
    assert(out@ =~= start + tag_lines(Seq::<Seq<char>>::empty()));
    while k < tags.len()
        invariant
            k <= tags.len(),
            out@ == start + tag_lines(strings(tags@).subrange(0, k as int)),
        decreases tags.len() - k,
    {
        let ghost sub = strings(tags@).subrange(0, k + 1);
        assert(sub.drop_last() =~= strings(tags@).subrange(0, k as int));
        let ghost before = out@;
        push_str(out, "\n<meta property=\"article:tag\" content=\"");
        push_str(out, tags[k].as_str());
        push_str(out, "\" />");
        assert(out@ =~= start + tag_lines(sub));
        k = k + 1;
    }
    assert(strings(tags@).subrange(0, tags.len() as int) =~= strings(tags@));
}

/// The head tags of a page, with its structured data already serialized.
pub fn generate_meta_tags(page: &PageSEO, config: &SEOConfig, json_ld: &str) -> (r: String)
    ensures
        r@ == meta_tags(*page, *config, json_ld@),
{
    let mut out: Vec<char> = Vec::new();
    push_str(&mut out, "<title>");
    push_str(&mut out, page.title.as_str());
    push_str(&mut out, "</title>\n<meta name=\"description\" content=\"");
    match &page.description {
        Some(d) => push_str(&mut out, d.as_str()),
        None => push_str(&mut out, config.default_description.as_str()),
    }
    push_str(&mut out, "\" />\n");
    let keywords: Option<String> = match &page.keywords {
        Some(k) => Some(join(k, ", ")),
        None => None,
    };
    assert(opt_string(keywords) == keywords_of(*page));
    push_when(&mut out, &keywords, "<meta name=\"keywords\" content=\"", "\" />\n");
    push_str(&mut out, "<link rel=\"canonical\" href=\"");
    let mut canon: Vec<char> = match &config.base_url {
        Some(b) => chars_of(b.as_str()),
        None => Vec::new(),
    };
    canon.push('/');
    let rest = trim_start_pub(&chars_of(page.path.as_str()), '/');
    push_all(&mut canon, &rest);
    assert(canon@ =~= canonical(*page, *config)) by {
        reveal_strlit("/");
    }
    push_all(&mut out, &canon);
    push_str(&mut out, "\" />\n");
    push_str(&mut out, "<meta property=\"og:title\" content=\"");
    push_str(&mut out, page.title.as_str());
    push_str(&mut out, "\" />\n<meta property=\"og:type\" content=\"article\" />\n<meta property=\"og:url\" content=\"");
    push_all(&mut out, &canon);
    push_str(&mut out, "\" />\n");
    push_when(&mut out, &page.description, "<meta property=\"og:description\" content=\"", "\" />\n");
    match &page.image {
        Some(i) => {
            let ghost start = out@;
            push_str(&mut out, "<meta property=\"og:image\" content=\"");
            push_str(&mut out, i.as_str());
            push_str(&mut out, "\" />\n<meta property=\"og:image:alt\" content=\"");
            push_str(&mut out, page.title.as_str());
            push_str(&mut out, "\" />\n");
            assert(out@ =~= start + image_part(*page));
        },
        None => {
            assert(out@ =~= out@ + image_part(*page));
        },
    }
    push_str(&mut out, "<meta name=\"twitter:card\" content=\"summary_large_image\" />");
    match &config.social_media {
        Some(s) => {
            let ghost start = out@;
            push_when(&mut out, &s.twitter_site, "\n<meta name=\"twitter:site\" content=\"", "\" />");
            push_when(&mut out, &s.twitter_creator, "\n<meta name=\"twitter:creator\" content=\"", "\" />");
            assert(out@ =~= start + social_part(*config));
        },
        None => {
            assert(out@ =~= out@ + social_part(*config));
        },
    }
    push_str(&mut out, "\n<meta name=\"twitter:title\" content=\"");
    push_str(&mut out, page.title.as_str());
    push_str(&mut out, "\" />");
    push_when(&mut out, &page.description, "\n<meta name=\"twitter:description\" content=\"", "\" />");
    let blog = match &page.schema_type {
        Some(t) => {
            let tv = chars_of(t.as_str());
            let bp = chars_of("BlogPosting");
            crate::text::same_text(&tv, &bp)
        },
        None => false,
    };
    assert(blog == is_blog_posting(*page));
    let ghost before_article = out@;
    if blog {
        push_when(&mut out, &page.author, "\n<meta property=\"article:author\" content=\"", "\" />");
        push_when(&mut out, &page.published_date, "\n<meta property=\"article:published_time\" content=\"", "\" />");
        push_when(&mut out, &page.last_modified, "\n<meta property=\"article:modified_time\" content=\"", "\" />");
        push_when(&mut out, &page.category, "\n<meta property=\"article:section\" content=\"", "\" />");
        match &page.tags {
            Some(t) => push_tag_lines(&mut out, t),
            None => {},
        }
    }
    assert(out@ =~= before_article + article_part(*page));
    push_str(&mut out, "\n<script type=\"application/ld+json\">\n");
    push_str(&mut out, json_ld);
    push_str(&mut out, "\n</script>");
    string_of(&out)
}

/// Places head tags into a page.
pub fn inject_meta_tags(html: &str, meta_tags: &str) -> (r: String)
    ensures
        r@ == with_meta_tags(html@, meta_tags@),
{
    let h = chars_of(html);
    let m = chars_of(meta_tags);
    let close = chars_of("</head>");
    match find_first(&h, &close) {
        Some(p) => {
            let mut out: Vec<char> = Vec::new();
            push_range(&mut out, &h, 0, p);
            let nl = chars_of("\n");
            push_all(&mut out, &nl);
            push_all(&mut out, &m);
            push_all(&mut out, &nl);
            push_range(&mut out, &h, p, h.len());
            assert(out@ =~= with_meta_tags(html@, meta_tags@));
            string_of(&out)
        },
        None => {
            let mut out = chars_of("<html><head>");
            push_all(&mut out, &m);
            let a = chars_of("</head>");
            push_all(&mut out, &a);
            push_all(&mut out, &h);
            let b = chars_of("</html>");
            push_all(&mut out, &b);
            string_of(&out)
        },
    }
}

} // verus!
