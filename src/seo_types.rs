//! A page's search-engine metadata, and the structured-data (JSON-LD)
//! record describing it as an article.
use vstd::prelude::*;
use crate::seo::SEOConfig;
use crate::seo_gen::{trim_end, trim_end_pub};
use crate::text::{chars_of, push_all, string_of};

verus! {

/// The metadata of one page. Dates are RFC 3339 texts.
#[derive(Clone, Debug)]
pub struct PageSEO {
    pub title: String,
    pub description: Option<String>,
    pub keywords: Option<Vec<String>>,
    pub url: Option<String>,
    pub canonical_url: Option<String>,
    pub path: String,
    pub image: Option<String>,
    pub author: Option<String>,
    pub published_date: Option<String>,
    pub last_modified: Option<String>,
    pub category: Option<String>,
    pub tags: Option<Vec<String>>,
    pub schema_type: Option<String>,
    pub structured_data: Option<String>,
    pub change_frequency: Option<String>,
}

/// Texts joined with a separator between each two.
pub open spec fn joined(v: Seq<Seq<char>>, sep: Seq<char>) -> Seq<char>
    decreases v.len(),
{
    if v.len() == 0 {
        Seq::empty()
    } else if v.len() == 1 {
        v[0]
    } else {
        joined(v.drop_last(), sep) + sep + v.last()
    }
}

pub open spec fn strings(v: Seq<String>) -> Seq<Seq<char>> {
    v.map_values(|s: String| s@)
}

/// Joins texts with a separator.
pub fn join(v: &Vec<String>, sep: &str) -> (r: String)
    ensures
        r@ == joined(strings(v@), sep@),
{
    let mut out: Vec<char> = Vec::new();
    let sp = chars_of(sep);
    let mut k: usize = 0;
    while k < v.len()
        invariant
            k <= v.len(),
            sp@ == sep@,
            out@ == joined(strings(v@).subrange(0, k as int), sep@),
        decreases v.len() - k,
    {
        let ghost sub = strings(v@).subrange(0, k + 1);
        assert(sub.drop_last() =~= strings(v@).subrange(0, k as int));
        if k > 0 {
            push_all(&mut out, &sp);
        }
        let x = chars_of(v[k].as_str());
        push_all(&mut out, &x);
        proof {
            if k == 0 {
                assert(out@ =~= sub[0]);
            }
        }
        k = k + 1;
    }
    assert(strings(v@).subrange(0, v.len() as int) =~= strings(v@));
    string_of(&out)
}

pub open spec fn opt_string(o: Option<String>) -> Option<Seq<char>> {
    match o {
        Some(s) => Some(s@),
        None => None,
    }
}

fn copy_opt(o: &Option<String>) -> (r: Option<String>)
    ensures
        opt_string(r) == opt_string(*o),
{
    match o {
        Some(s) => Some(s.clone()),
        None => None,
    }
}

#[derive(Clone, Debug)]
pub struct JsonLd {
    pub context: String,
    pub type_: String,
    pub headline: String,
    pub description: Option<String>,
    pub url: String,
    pub image: Option<Vec<String>>,
    pub author: Option<Author>,
    pub publisher: Option<Organization>,
    pub date_published: Option<String>,
    pub date_modified: Option<String>,
    pub is_accessible_for_free: bool,
    pub keywords: Option<String>,
    pub article_section: Option<String>,
}

#[derive(Clone, Debug)]
pub struct Author {
    pub type_: String,
    pub name: String,
}

#[derive(Clone, Debug)]
pub struct Organization {
    pub type_: String,
    pub name: String,
    pub logo: Option<ImageObject>,
}

#[derive(Clone, Debug)]
pub struct ImageObject {
    pub type_: String,
    pub url: String,
}

/// The site's base URL without trailing separators.
pub open spec fn site_base(config: SEOConfig) -> Seq<char> {
    match config.base_url {
        Some(b) => trim_end(b@, '/'),
        None => Seq::empty(),
    }
}

impl JsonLd {
    /// The article record of a page: its URL is the page's path below the
    /// site's base URL, its keywords the page's tags.
    pub fn new_article(page: &PageSEO, config: &SEOConfig) -> (r: Self)
        ensures
            r.context@ == "https://schema.org"@,
            r.type_@ == "Article"@,
            r.headline@ == page.title@,
            opt_string(r.description) == opt_string(page.description),
            r.url@ == site_base(*config) + "/"@ + page.path@,
            match page.image {
                Some(img) => r.image matches Some(v) && v@.len() == 1 && v@[0]@ == img@,
                None => r.image.is_none(),
            },
            match page.author {
                Some(a) => r.author matches Some(x) && x.type_@ == "Person"@ && x.name@ == a@,
                None => r.author.is_none(),
            },
            match config.organization {
                Some(o) => r.publisher matches Some(p) && p.type_@ == "Organization"@ && p.name@ == o.name@
                    && match o.logo {
                    Some(l) => p.logo matches Some(i) && i.type_@ == "ImageObject"@ && i.url@ == l@,
                    None => p.logo.is_none(),
                },
                None => r.publisher.is_none(),
            },
            opt_string(r.date_published) == opt_string(page.published_date),
            opt_string(r.date_modified) == opt_string(page.last_modified),
            r.is_accessible_for_free,
            match page.tags {
                Some(t) => r.keywords matches Some(k) && k@ == joined(strings(t@), ", "@),
                None => r.keywords.is_none(),
            },
            opt_string(r.article_section) == opt_string(page.category),
    {
        let base = match &config.base_url {
            Some(b) => trim_end_pub(&chars_of(b.as_str()), '/'),
            None => Vec::new(),
        };
        let mut url = base;
        url.push('/');
        let p = chars_of(page.path.as_str());
        push_all(&mut url, &p);
        assert(url@ =~= site_base(*config) + "/"@ + page.path@) by {
            reveal_strlit("/");
        }
        let image = match &page.image {
            Some(img) => {
                let mut v: Vec<String> = Vec::new();
                v.push(img.clone());
                Some(v)
            },
            None => None,
        };
        let author = match &page.author {
            Some(a) => Some(Author { type_: crate::text::to_string("Person"), name: a.clone() }),
            None => None,
        };
        let publisher = match &config.organization {
            Some(o) => Some(
                Organization {
                    type_: crate::text::to_string("Organization"),
                    name: o.name.clone(),
                    logo: match &o.logo {
                        Some(l) => Some(ImageObject { type_: crate::text::to_string("ImageObject"), url: l.clone() }),
                        None => None,
                    },
                },
            ),
            None => None,
        };
        let keywords = match &page.tags {
            Some(t) => Some(join(t, ", ")),
            None => None,
        };
        JsonLd {
            context: crate::text::to_string("https://schema.org"),
            type_: crate::text::to_string("Article"),
            headline: page.title.clone(),
            description: copy_opt(&page.description),
            url: string_of(&url),
            image,
            author,
            publisher,
            date_published: copy_opt(&page.published_date),
            date_modified: copy_opt(&page.last_modified),
            is_accessible_for_free: true,
            keywords,
            article_section: copy_opt(&page.category),
        }
    }
}

} // verus!
