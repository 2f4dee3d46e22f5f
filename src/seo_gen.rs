//! Site-wide files written after a successful build: the robots file and
//! the sitemap of the pages produced.
use vstd::prelude::*;
use crate::batch::{relative_to, relative_to_pub};
use crate::text::{chars_of, push_all, string_of};
use crate::batch::output_name;
use crate::markdown::{markdown_html_of, markdown_to_html};
use crate::seo::SEOConfig;

verus! {

/// `s` without any trailing `c`.
pub open spec fn trim_end(s: Seq<char>, c: char) -> Seq<char>
    decreases s.len(),
{
    if s.len() > 0 && s.last() == c {
        trim_end(s.drop_last(), c)
    } else {
        s
    }
}

/// `s` without any leading `c`.
pub open spec fn trim_start(s: Seq<char>, c: char) -> Seq<char>
    decreases s.len(),
{
    if s.len() > 0 && s[0] == c {
        trim_start(s.drop_first(), c)
    } else {
        s
    }
}

pub open spec fn base_of(base_url: Option<Seq<char>>) -> Seq<char> {
    match base_url {
        Some(b) => b,
        None => Seq::empty(),
    }
}

/// The robots file: everything allowed, and where the sitemap is.
pub open spec fn robots_spec(base_url: Option<Seq<char>>) -> Seq<char> {
    "User-agent: *\nAllow: /\n\n# Sitemaps\nSitemap: "@ + base_of(base_url) + "/sitemap.xml"@
}

/// The public URL of a page written at `file` below `output_dir`.
pub open spec fn page_url(base_url: Option<Seq<char>>, rel: Seq<char>) -> Seq<char> {
    trim_end(base_of(base_url), '/') + "/"@ + trim_start(rel, '/')
}

/// One sitemap entry per page below the output directory, in order; pages
/// elsewhere are left out.
pub open spec fn sitemap_items(
    base_url: Option<Seq<char>>,
    output_dir: Seq<char>,
    pages: Seq<(Seq<char>, Option<Seq<char>>)>,
) -> Seq<char>
    decreases pages.len(),
{
    if pages.len() == 0 {
        Seq::empty()
    } else {
        let p = pages.last();
        sitemap_items(base_url, output_dir, pages.drop_last()) + match relative_to(output_dir, p.0) {
            None => Seq::empty(),
            Some(rel) => "\n  <url>\n    <loc>"@ + page_url(base_url, rel) + "</loc>"@ + match p.1 {
                Some(d) => "\n    <lastmod>"@ + d + "</lastmod>"@,
                None => Seq::empty(),
            } + "\n  </url>"@,
        }
    }
}

pub open spec fn sitemap_head() -> Seq<char> {
    "<?xml version=\"1.0\" encoding=\"UTF-8\"?>\n<urlset xmlns=\"http://www.sitemaps.org/schemas/sitemap/0.9\">"@
}

pub open spec fn sitemap_spec(
    base_url: Option<Seq<char>>,
    output_dir: Seq<char>,
    pages: Seq<(Seq<char>, Option<Seq<char>>)>,
) -> Seq<char> {
    sitemap_head() + sitemap_items(base_url, output_dir, pages) + "\n</urlset>"@
}

pub open spec fn opt_str(o: Option<&str>) -> Option<Seq<char>> {
    match o {
        Some(s) => Some(s@),
        None => None,
    }
}

/// A page of the sitemap: where it was written, and when it last changed.
pub struct SitemapPage {
    pub file: String,
    pub lastmod: Option<String>,
}

pub open spec fn pages_view(v: Seq<SitemapPage>) -> Seq<(Seq<char>, Option<Seq<char>>)> {
    v.map_values(
        |p: SitemapPage|
            (
                p.file@,
                match p.lastmod {
                    Some(d) => Some(d@),
                    None => None,
                },
            ),
    )
}

fn trim_end_exec(s: &Vec<char>, c: char) -> (r: Vec<char>)
    ensures
        r@ == trim_end(s@, c),
{
    let mut n: usize = s.len();
    assert(s@.subrange(0, n as int) =~= s@);
    while n > 0 && s[n - 1] == c
        invariant
            n <= s.len(),
            trim_end(s@, c) == trim_end(s@.subrange(0, n as int), c),
        decreases n,
    {
        assert(s@.subrange(0, n as int).drop_last() =~= s@.subrange(0, n - 1));
        n = n - 1;
    }
    let r = crate::resolver::slice_of(s, 0, n);
    r
}

fn trim_start_exec(s: &Vec<char>, c: char) -> (r: Vec<char>)
    ensures
        r@ == trim_start(s@, c),
{
    let mut i: usize = 0;
    assert(s@.subrange(0, s.len() as int) =~= s@);
    while i < s.len() && s[i] == c
        invariant
            i <= s.len(),
            trim_start(s@, c) == trim_start(s@.subrange(i as int, s.len() as int), c),
        decreases s.len() - i,
    {
        assert(s@.subrange(i as int, s.len() as int).drop_first() =~= s@.subrange(i + 1, s.len() as int));
        i = i + 1;
    }
    crate::resolver::slice_of(s, i, s.len())
}

/// `s` without any trailing `c`.
pub fn trim_end_pub(s: &Vec<char>, c: char) -> (r: Vec<char>)
    ensures
        r@ == trim_end(s@, c),
{
    trim_end_exec(s, c)
}

/// `s` without any leading `c`.
pub fn trim_start_pub(s: &Vec<char>, c: char) -> (r: Vec<char>)
    ensures
        r@ == trim_start(s@, c),
{
    trim_start_exec(s, c)
}

/// The robots file of a site.
pub fn robots_txt(base_url: Option<&str>) -> (r: String)
    ensures
        r@ == robots_spec(opt_str(base_url)),
{
    let mut out = chars_of("User-agent: *\nAllow: /\n\n# Sitemaps\nSitemap: ");
    match base_url {
        Some(b) => {
            let v = chars_of(b);
            push_all(&mut out, &v);
        },
        None => {
            assert(out@ =~= out@ + Seq::<char>::empty());
        },
    }
    let tail = chars_of("/sitemap.xml");
    push_all(&mut out, &tail);
    string_of(&out)
}

/// The sitemap of the pages written below `output_dir`.
pub fn sitemap_xml(base_url: Option<&str>, output_dir: &str, pages: &Vec<SitemapPage>) -> (r: String)
    ensures
        r@ == sitemap_spec(opt_str(base_url), output_dir@, pages_view(pages@)),
{
    let ghost b = opt_str(base_url);
    let ghost pv = pages_view(pages@);
    let base = match base_url {
        Some(s) => chars_of(s),
        None => Vec::new(),
    };
    let trimmed = trim_end_exec(&base, '/');
    let mut out = chars_of(
        "<?xml version=\"1.0\" encoding=\"UTF-8\"?>\n<urlset xmlns=\"http://www.sitemaps.org/schemas/sitemap/0.9\">",
    );
    let ghost head = out@;
    let mut k: usize = 0;
    while k < pages.len()
        invariant
            k <= pages.len(),
            pv == pages_view(pages@),
            head == sitemap_head(),
            trimmed@ == trim_end(base_of(b), '/'),
            b == opt_str(base_url),
            out@ == head + sitemap_items(b, output_dir@, pv.subrange(0, k as int)),
        decreases pages.len() - k,
    {
        let ghost before = out@;
        let ghost sub = pv.subrange(0, k + 1);
        assert(sub.drop_last() =~= pv.subrange(0, k as int));
        assert(sub.last() == pv[k as int]);
        match relative_to_pub(output_dir, pages[k].file.as_str()) {
            None => {
                assert(out@ =~= head + sitemap_items(b, output_dir@, sub));
            },
            Some(rel) => {
                let a = chars_of("\n  <url>\n    <loc>");
                push_all(&mut out, &a);
                push_all(&mut out, &trimmed);
                let slash = chars_of("/");
                push_all(&mut out, &slash);
                let r = trim_start_exec(&rel, '/');
                push_all(&mut out, &r);
                let c = chars_of("</loc>");
                push_all(&mut out, &c);
                let ghost mid = out@;
                match &pages[k].lastmod {
                    Some(d) => {
                        let e = chars_of("\n    <lastmod>");
                        push_all(&mut out, &e);
                        let dv = chars_of(d.as_str());
                        push_all(&mut out, &dv);
                        let f = chars_of("</lastmod>");
                        push_all(&mut out, &f);
                    },
                    None => {},
                }
                let g = chars_of("\n  </url>");
                push_all(&mut out, &g);
                assert(out@ =~= head + sitemap_items(b, output_dir@, sub));
            },
        }
        k = k + 1;
    }
    let tail = chars_of("\n</urlset>");
    push_all(&mut out, &tail);
    assert(pv.subrange(0, pages.len() as int) =~= pv);
    string_of(&out)
}

/// A post of the feed: its source file, front matter fields, the
/// publication date as feed text, and its markdown body.
pub struct RssItem {
    pub source: String,
    pub title: String,
    pub description: Option<String>,
    pub pub_date: String,
    pub author: Option<String>,
    pub body: String,
}

pub open spec fn opt_view(o: Option<String>) -> Option<Seq<char>> {
    match o {
        Some(s) => Some(s@),
        None => None,
    }
}

/// The feed entry of a post published at `rel` (its page path below the
/// site root).
pub open spec fn rss_entry(base: Seq<char>, rel: Seq<char>, it: RssItem) -> Seq<char> {
    let link = trim_end(base, '/') + "/"@ + rel;
    "\n        <item>\n            <title>"@ + it.title@ + "</title>\n            <link>"@ + link
        + "</link>\n            <description><![CDATA["@ + match opt_view(it.description) {
        Some(d) => d,
        None => "No description available"@,
    } + "]]></description>\n            <pubDate>"@ + it.pub_date@ + "</pubDate>\n            <guid isPermaLink=\"true\">"@
        + link + "</guid>"@ + match opt_view(it.author) {
        Some(a) => "\n            <dc:creator>"@ + a + "</dc:creator>"@,
        None => Seq::empty(),
    } + "\n            <content:encoded><![CDATA["@ + markdown_html_of(it.body@) + "]]></content:encoded>\n        </item>"@
}

/// The entries of the posts below `input_dir`, in order; others are left out.
pub open spec fn rss_entries(base: Seq<char>, input_dir: Seq<char>, items: Seq<RssItem>) -> Seq<char>
    decreases items.len(),
{
    if items.len() == 0 {
        Seq::empty()
    } else {
        rss_entries(base, input_dir, items.drop_last()) + match relative_to(input_dir, items.last().source@) {
            Some(r) => rss_entry(base, trim_start(output_name(r), '/'), items.last()),
            None => Seq::empty(),
        }
    }
}

pub open spec fn rss_head(config: SEOConfig, build_date: Seq<char>) -> Seq<char> {
    let base = base_of(opt_view(config.base_url));
    "<?xml version=\"1.0\" encoding=\"UTF-8\"?>\n<rss version=\"2.0\" xmlns:content=\"http://purl.org/rss/1.0/modules/content/\"\n                     xmlns:dc=\"http://purl.org/dc/elements/1.1/\"\n                     xmlns:atom=\"http://www.w3.org/2005/Atom\">\n    <channel>\n        <title>"@
        + config.site_name@ + "</title>\n        <link>"@ + base + "</link>\n        <description>"@
        + config.default_description@ + "</description>\n        <language>en-us</language>\n        <lastBuildDate>"@
        + build_date + "</lastBuildDate>\n        <atom:link href=\""@ + base
        + "/rss.xml\" rel=\"self\" type=\"application/rss+xml\"/>"@
}

/// The feed of a site: the channel, built at `build_date`, with one entry
/// per post.
pub open spec fn rss_spec(config: SEOConfig, input_dir: Seq<char>, build_date: Seq<char>, items: Seq<RssItem>) -> Seq<char> {
    rss_head(config, build_date) + rss_entries(base_of(opt_view(config.base_url)), input_dir, items)
        + "\n    </channel>\n</rss>"@
}

fn push_str(out: &mut Vec<char>, s: &str)
    ensures
        final(out)@ == old(out)@ + s@,
{
    let v = chars_of(s);
    push_all(out, &v);
}

fn rss_entry_exec(base: &Vec<char>, rel: &Vec<char>, it: &RssItem) -> (r: Vec<char>)
    ensures
        r@ == rss_entry(base@, rel@, *it),
{
    let mut link = trim_end_exec(base, '/');
    link.push('/');
    push_all(&mut link, rel);
    assert(link@ =~= trim_end(base@, '/') + "/"@ + rel@) by {
        reveal_strlit("/");
    }
    let mut out = chars_of("\n        <item>\n            <title>");
    push_str(&mut out, it.title.as_str());
    push_str(&mut out, "</title>\n            <link>");
    push_all(&mut out, &link);
    push_str(&mut out, "</link>\n            <description><![CDATA[");
    match &it.description {
        Some(d) => push_str(&mut out, d.as_str()),
        None => push_str(&mut out, "No description available"),
    }
    push_str(&mut out, "]]></description>\n            <pubDate>");
    push_str(&mut out, it.pub_date.as_str());
    push_str(&mut out, "</pubDate>\n            <guid isPermaLink=\"true\">");
    push_all(&mut out, &link);
    push_str(&mut out, "</guid>");
    let ghost before = out@;
    match &it.author {
        Some(a) => {
            push_str(&mut out, "\n            <dc:creator>");
            push_str(&mut out, a.as_str());
            push_str(&mut out, "</dc:creator>");
        },
        None => {},
    }
    assert(out@ =~= before + match opt_view(it.author) {
        Some(a) => "\n            <dc:creator>"@ + a + "</dc:creator>"@,
        None => Seq::<char>::empty(),
    });
    push_str(&mut out, "\n            <content:encoded><![CDATA[");
    let html = markdown_to_html(it.body.as_str());
    push_str(&mut out, html.as_str());
    push_str(&mut out, "]]></content:encoded>\n        </item>");
    out
}

/// The feed of a site, with one entry per post below `input_dir`.
pub fn rss_xml(config: &SEOConfig, input_dir: &str, build_date: &str, items: &Vec<RssItem>) -> (r: String)
    ensures
        r@ == rss_spec(*config, input_dir@, build_date@, items@),
{
    let base: Vec<char> = match &config.base_url {
        Some(b) => chars_of(b.as_str()),
        None => Vec::new(),
    };
    let ghost bv = base_of(opt_view(config.base_url));
    assert(base@ == bv);
    let mut out = chars_of(
        "<?xml version=\"1.0\" encoding=\"UTF-8\"?>\n<rss version=\"2.0\" xmlns:content=\"http://purl.org/rss/1.0/modules/content/\"\n                     xmlns:dc=\"http://purl.org/dc/elements/1.1/\"\n                     xmlns:atom=\"http://www.w3.org/2005/Atom\">\n    <channel>\n        <title>",
    );
    push_str(&mut out, config.site_name.as_str());
    push_str(&mut out, "</title>\n        <link>");
    push_all(&mut out, &base);
    push_str(&mut out, "</link>\n        <description>");
    push_str(&mut out, config.default_description.as_str());
    push_str(&mut out, "</description>\n        <language>en-us</language>\n        <lastBuildDate>");
    push_str(&mut out, build_date);
    push_str(&mut out, "</lastBuildDate>\n        <atom:link href=\"");
    push_all(&mut out, &base);
    push_str(&mut out, "/rss.xml\" rel=\"self\" type=\"application/rss+xml\"/>");
    let ghost head = out@;
    assert(head =~= rss_head(*config, build_date@));
    let mut k: usize = 0;
    assert(items@.subrange(0, 0) =~= Seq::<RssItem>::empty());
    assert(out@ =~= head + rss_entries(bv, input_dir@, items@.subrange(0, 0)));
    while k < items.len()
        invariant
            k <= items.len(),
            base@ == bv,
            out@ == head + rss_entries(bv, input_dir@, items@.subrange(0, k as int)),
        decreases items.len() - k,
    {
        let ghost sub = items@.subrange(0, k + 1);
        assert(sub.drop_last() =~= items@.subrange(0, k as int));
        assert(sub.last() == items@[k as int]);
        let ghost before = out@;
        match relative_to_pub(input_dir, items[k].source.as_str()) {
            Some(rel) => {
                let name = crate::batch::output_name_pub(&rel);
                let r = trim_start_exec(&name, '/');
                let entry = rss_entry_exec(&base, &r, &items[k]);
                push_all(&mut out, &entry);
            },
            None => {},
        }
        assert(out@ =~= head + rss_entries(bv, input_dir@, sub));
        k = k + 1;
    }
    push_str(&mut out, "\n    </channel>\n</rss>");
    assert(items@.subrange(0, items.len() as int) =~= items@);
    string_of(&out)
}

} // verus!
